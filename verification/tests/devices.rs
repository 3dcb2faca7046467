//! Devices in memory, and decisions about devices.
use bifrost::addr::{IpNet, RouteEntry};
use bifrost::net::linux::{
    check_route, check_tap_name, if_name, is_flushed, is_missing, missing_text, TAP_MTU,
};
use bifrost::net::mock::{MockBridge, MockError, MockPlatform, MockTap};
use bifrost::net::null::NullPlatform;
use bifrost::staging::staging_path;

#[test]
fn mock_tap_read_write_cycle() {
    let mut tap = MockTap::new("tap-test");
    tap.write(&vec![1, 2, 3, 4]).unwrap();
    assert_eq!(tap.pop_written(), Some(vec![1, 2, 3, 4]));
    assert_eq!(tap.pop_written(), None);

    tap.inject_frame(vec![9, 8, 7]);
    assert_eq!(tap.read(16), Some(vec![9, 8, 7]));
}

#[test]
fn mock_tap_set_ip_and_routes_persist() {
    let mut tap = MockTap::new("tap-test");
    let net = IpNet::parse("10.0.0.5/24").unwrap();
    tap.set_ip(Some(net));
    let routes = vec![RouteEntry::parse("192.168.1.0/24", "10.0.0.1").unwrap()];
    tap.apply_routes(&routes);

    let snap = tap.snapshot();
    assert_eq!(snap.ip, Some(net));
    assert_eq!(snap.routes, routes);
    assert!(!snap.destroyed);
}

#[test]
fn mock_tap_destroy_blocks_further_writes() {
    let mut tap = MockTap::new("tap-test");
    tap.destroy();
    let err = tap.write(&vec![0; 4]).unwrap_err();
    assert_eq!(err, MockError::BrokenPipe);
    assert!(tap.snapshot().destroyed);
}

#[test]
fn mock_bridge_add_remove_idempotent() {
    let mut br = MockBridge::new("br0");
    br.add_tap("tap1");
    br.add_tap("tap1");
    br.add_tap("tap2");
    assert_eq!(br.snapshot().ports, vec!["tap1", "tap2"]);

    br.remove_tap("tap1");
    br.remove_tap("tap1");
    assert_eq!(br.snapshot().ports, vec!["tap2"]);

    br.destroy();
    assert!(br.snapshot().destroyed);
}

#[test]
fn mock_platform_creates_and_remembers() {
    let mut p = MockPlatform::new();
    assert_eq!(p.taps_count(), 0);
    assert!(p.last_tap().is_none());
    assert!(p.last_bridge().is_none());
    let _ = p.create_tap("tap-a", None);
    let _ = p.create_tap("tap-b", IpNet::parse("10.0.0.5/24"));
    assert_eq!(p.taps_count(), 2);
    assert_eq!(p.last_tap().unwrap().name(), "tap-b");
    assert_eq!(p.last_tap().unwrap().snapshot().ip, IpNet::parse("10.0.0.5/24"));

    let _ = p.create_bridge("br0");
    assert_eq!(p.last_bridge().unwrap().name(), "br0");
}

#[test]
fn mock_tap_read_waits_for_inject() {
    let mut tap = MockTap::new("tap-test");
    assert_eq!(tap.read(16), None, "read should not return until a frame is injected");
}

#[test]
fn mock_tap_reads_in_order_and_cuts_to_the_buffer() {
    let mut tap = MockTap::new("tap-test");
    tap.inject_frame(vec![1, 2, 3]);
    tap.inject_frame(vec![4]);
    assert_eq!(tap.read(2), Some(vec![1, 2]));
    assert_eq!(tap.read(2), Some(vec![4]));
    assert_eq!(tap.read(2), None);
}

#[test]
fn null_platform_has_bridges_and_no_taps() {
    let p = NullPlatform;
    assert_eq!(p.create_tap().unwrap_err(), "no TAP backend compiled in for this platform");
    let b = p.create_bridge("br0");
    assert_eq!(b.name(), "br0");
    assert_eq!(b.add_tap().unwrap_err(), "no bridge backend compiled in for this platform");
}

#[test]
fn tap_names_have_at_most_fifteen_bytes() {
    assert!(check_tap_name("tap0123456789ab", 15).is_ok());
    assert_eq!(
        check_tap_name("tap0123456789abc", 16).unwrap_err(),
        "tap name too long: \"tap0123456789abc\" (max 15 bytes)"
    );
    let n = if_name(&b"tap0".to_vec());
    assert_eq!(n.len(), 16);
    assert_eq!(&n[..6], b"tap0\0\0");
    assert_eq!(TAP_MTU, 1400);
}

#[test]
fn kernel_routes_survive_a_flush() {
    assert!(is_flushed(&vec![3, 7], false, 7));
    assert!(!is_flushed(&vec![3, 7], true, 7));
    assert!(!is_flushed(&vec![3], false, 7));
    assert!(!is_flushed(&vec![], false, 7));
}

#[test]
fn routes_need_one_family() {
    assert!(check_route(&RouteEntry::parse("192.168.1.0/24", "10.0.0.1").unwrap()).is_ok());
    assert!(check_route(&RouteEntry::parse("fd00::/64", "fd01::1").unwrap()).is_ok());
    assert_eq!(
        check_route(&RouteEntry::parse("192.168.1.0/24", "fd01::1").unwrap()).unwrap_err(),
        "route family mismatch: dst=192.168.1.0/24 via=fd01::1"
    );
}

#[test]
fn missing_devices_are_told_apart() {
    assert!(is_missing(Some(-19)));
    assert!(!is_missing(Some(-1)));
    assert!(!is_missing(None));
    assert_eq!(missing_text("tap0"), "link \"tap0\" not found");
}

#[test]
fn files_are_staged_beside_their_place() {
    assert_eq!(staging_path("/etc/bifrost/server.toml"), "/etc/bifrost/server.toml.tmp");
}
