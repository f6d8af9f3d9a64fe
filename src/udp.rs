//! The options of a dual-stack UDP socket.

use vstd::prelude::*;
use crate::tcp::{binding_of, device_binding, DeviceBinding};

verus! {

/// How a UDP socket is set up before it is handed to the runtime.
#[derive(Debug, Clone, Copy, PartialEq, Eq, Structural)]
pub struct UdpOptions {
    /// Port on the IPv6 wildcard address.
    pub port: u16,
    /// False: IPv4 peers are reached too, as mapped addresses.
    pub only_v6: bool,
    pub nonblocking: bool,
    pub device: DeviceBinding,
}

/// The options of a dual-stack UDP socket on `port`; port 0 asks the
/// system for a free port, as clients do.
pub fn bind_options(port: u16, device: Option<&[u8]>, supported: bool) -> (r: UdpOptions)
    ensures
        r == (UdpOptions {
            port,
            only_v6: false,
            nonblocking: true,
            device: binding_of(device is Some, supported),
        }),
{
    UdpOptions { port, only_v6: false, nonblocking: true, device: device_binding(device, supported) }
}

} // verus!
