use quic_speed::tcp::{
    connect_options, device_binding, listen_options, DeviceBinding, Family, DEFAULT_BACKLOG,
};
use quic_speed::udp::bind_options;

#[test]
fn listen_defaults() {
    let o = listen_options(80, None, None, true);
    assert_eq!(o.port, 80);
    assert_eq!(o.backlog, DEFAULT_BACKLOG);
    assert_eq!(o.backlog, 1024);
    assert!(!o.only_v6);
    assert!(o.reuse_address);
    assert!(o.nonblocking);
    assert_eq!(o.device, DeviceBinding::Unbound);
    assert_eq!(listen_options(0, Some(16), None, true).backlog, 16);
}

#[test]
fn device_binding_fallback() {
    assert_eq!(device_binding(Some(b"eth0"), true), DeviceBinding::Bind);
    assert_eq!(device_binding(Some(b"eth0"), false), DeviceBinding::Ignored);
    assert_eq!(device_binding(None, false), DeviceBinding::Unbound);
    assert_eq!(listen_options(80, None, Some(b"eth0"), false).device, DeviceBinding::Ignored);
}

#[test]
fn connect_family_follows_target() {
    assert_eq!(connect_options(true, None, true).family, Family::V6);
    let o = connect_options(false, Some(b"eth0"), true);
    assert_eq!(o.family, Family::V4);
    assert_eq!(o.device, DeviceBinding::Bind);
}

#[test]
fn udp_dual_stack() {
    let o = bind_options(0, Some(b"wlan0"), true);
    assert_eq!(o.port, 0);
    assert!(!o.only_v6);
    assert!(o.nonblocking);
    assert_eq!(o.device, DeviceBinding::Bind);
}
