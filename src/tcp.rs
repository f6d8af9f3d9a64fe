//! The options of TCP sockets: a dual-stack listener and an outbound
//! connection, each optionally restricted to one network interface.

use vstd::prelude::*;

verus! {

/// Listen backlog where the caller gives none.
pub const DEFAULT_BACKLOG: i32 = 1024;

/// What becomes of a request to restrict a socket to a named interface.
#[derive(Debug, Clone, Copy, PartialEq, Eq, Structural)]
pub enum DeviceBinding {
    /// No interface was named.
    Unbound,
    /// The socket is bound to the named interface.
    Bind,
    /// An interface was named, but the platform cannot bind to one: the
    /// request is logged and ignored.
    Ignored,
}

pub open spec fn binding_of(named: bool, supported: bool) -> DeviceBinding {
    if !named {
        DeviceBinding::Unbound
    } else if supported {
        DeviceBinding::Bind
    } else {
        DeviceBinding::Ignored
    }
}

/// Decides the interface binding of a socket, given whether the platform
/// can bind a socket to an interface.
pub fn device_binding(device: Option<&[u8]>, supported: bool) -> (r: DeviceBinding)
    ensures
        r == binding_of(device is Some, supported),
{
    match device {
        None => DeviceBinding::Unbound,
        Some(_) => if supported { DeviceBinding::Bind } else { DeviceBinding::Ignored },
    }
}

/// How a listening socket is set up before it is handed to the runtime.
#[derive(Debug, Clone, Copy, PartialEq, Eq, Structural)]
pub struct ListenOptions {
    /// Port on the IPv6 wildcard address.
    pub port: u16,
    pub backlog: i32,
    /// False: IPv4 peers are accepted too, as mapped addresses.
    pub only_v6: bool,
    pub reuse_address: bool,
    pub nonblocking: bool,
    pub device: DeviceBinding,
}

/// The options of a dual-stack listener on `port`; port 0 asks the system
/// for a free port.
pub fn listen_options(port: u16, backlog: Option<i32>, device: Option<&[u8]>, supported: bool) -> (r:
    ListenOptions)
    ensures
        r == (ListenOptions {
            port,
            backlog: match backlog {
                Some(b) => b,
                None => DEFAULT_BACKLOG,
            },
            only_v6: false,
            reuse_address: true,
            nonblocking: true,
            device: binding_of(device is Some, supported),
        }),
{
    let backlog: i32 = match backlog {
        Some(b) => b,
        None => DEFAULT_BACKLOG,
    };
    ListenOptions {
        port,
        backlog,
        only_v6: false,
        reuse_address: true,
        nonblocking: true,
        device: device_binding(device, supported),
    }
}

/// The address family of a socket.
#[derive(Debug, Clone, Copy, PartialEq, Eq, Structural)]
pub enum Family {
    V4,
    V6,
}

/// How an outbound socket is set up before it connects.
#[derive(Debug, Clone, Copy, PartialEq, Eq, Structural)]
pub struct ConnectOptions {
    /// The family of the target address: no dual-stack socket is used
    /// for outbound connections.
    pub family: Family,
    pub device: DeviceBinding,
}

/// The options of a socket that connects to an address of the given
/// family.
pub fn connect_options(target_is_v6: bool, device: Option<&[u8]>, supported: bool) -> (r:
    ConnectOptions)
    ensures
        r == (ConnectOptions {
            family: if target_is_v6 { Family::V6 } else { Family::V4 },
            device: binding_of(device is Some, supported),
        }),
{
    let family = if target_is_v6 { Family::V6 } else { Family::V4 };
    ConnectOptions { family, device: device_binding(device, supported) }
}

} // verus!
