//! Identities, addresses, and the routes that are derived from members.
use bifrost::addr::{IpAddr, IpNet, ParseError, RouteEntry};
use bifrost::config::{default_bridge_name_for, ApprovedClient, NetRecord, ServerConfig};
use bifrost::frame;
use bifrost::hub::conns::{strip_tap_prefix, tap_name_from_uuid};
use bifrost::ids::{ConnId, IdAllocator, SessionId};
use bifrost::routes::{derive_routes_for_network, filter_for_peer, parse_routes, same_routes};
use bifrost::uuids::Uuid;

fn fresh() -> Uuid {
    Uuid(uuid::Uuid::new_v4().as_u128())
}

fn member(net: Uuid, tap_ip: &str, lan: &[&str]) -> ApprovedClient {
    ApprovedClient {
        client_uuid: fresh(),
        net_uuid: net,
        tap_ip: tap_ip.to_string(),
        display_name: String::new(),
        lan_subnets: lan.iter().map(|s| s.to_string()).collect(),
        admitted: true,
    }
}

fn cfg_with(clients: Vec<ApprovedClient>) -> ServerConfig {
    ServerConfig { approved_clients: clients, ..ServerConfig::default() }
}

fn route(dst: &str, via: &str) -> frame::RouteEntry {
    frame::RouteEntry { dst: dst.to_string(), via: via.to_string() }
}

// ── Identities ───────────────────────────────────────────────────────────

#[test]
fn drawn_identities_are_marked_and_differ() {
    let a = Uuid::fresh();
    let b = Uuid::fresh();
    assert_ne!(a, b);
    let text: Vec<char> = a.to_text().chars().collect();
    assert_eq!(text[14], '4');
    assert!(['8', '9', 'a', 'b'].contains(&text[19]));
}

#[test]
fn allocator_is_monotonic() {
    let mut a = IdAllocator::starting_at(1);
    assert_eq!(a.next_session(), SessionId(1));
    assert_eq!(a.next_conn(), ConnId(2));
    assert_eq!(a.next_session(), SessionId(3));
}

#[test]
fn display_is_human_readable() {
    assert_eq!(SessionId(7).to_text(), "sid#7");
    assert_eq!(ConnId(7).to_text(), "conn#7");
}

#[test]
fn uuid_texts_are_read_back() {
    let u = Uuid(0x6f2d_07c3_0000_4000_8000_0123_4567_89ab);
    assert_eq!(u.to_text(), "6f2d07c3-0000-4000-8000-0123456789ab");
    assert_eq!(u.short(), "6f2d07c3");
    assert_eq!(Uuid::parse(&u.to_text()), Ok(u));
    assert!(Uuid::parse("6f2d07c3000040008000012345").is_err());
    assert!(Uuid::parse("6F2D07C3000040008000 0123456789AB").is_err());
    assert_eq!(Uuid::parse("6F2D07C30000400080000123456789AB"), Ok(u));
    assert_eq!(Uuid::nil().to_text(), "00000000-0000-0000-0000-000000000000");
}

#[test]
fn device_names_come_from_the_first_digits() {
    let u = Uuid(0xe251_a7ee_0000_4000_8000_0123_4567_89ab);
    assert_eq!(tap_name_from_uuid(u), "tape251a7ee");
    assert_eq!(strip_tap_prefix("tape251a7ee"), "e251a7ee");
    assert_eq!(strip_tap_prefix("eth0"), "eth0");
    assert_eq!(default_bridge_name_for(u), "bf-e251a7ee");
    let n = NetRecord::new("lab", u);
    assert_eq!(n.bridge_name, "bf-e251a7ee");
    assert_eq!(n.bridge_ip, "");
}

// ── Addresses ────────────────────────────────────────────────────────────

#[test]
fn route_entry_parses_valid_inputs() {
    let r = RouteEntry::parse("192.168.10.0/24", "10.0.0.1").unwrap();
    assert_eq!(r.dst.to_text(), "192.168.10.0/24");
    assert_eq!(r.via.to_text(), "10.0.0.1");
}

#[test]
fn route_entry_rejects_bad_input() {
    assert!(matches!(RouteEntry::parse("not a cidr", "10.0.0.1"), Err(ParseError::BadCidr(_))));
    assert!(matches!(
        RouteEntry::parse("10.0.0.0/24", "999.999.999.999"),
        Err(ParseError::BadIp(_))
    ));
}

#[test]
fn parse_errors_have_messages() {
    assert_eq!(
        RouteEntry::parse("x", "10.0.0.1").unwrap_err().to_text(),
        "invalid CIDR: x"
    );
    assert_eq!(
        RouteEntry::parse("10.0.0.0/24", "y").unwrap_err().to_text(),
        "invalid IP address: y"
    );
}

#[test]
fn networks_are_read_with_their_family() {
    let n = IpNet::parse("10.1.2.3/16").unwrap();
    assert_eq!(n, IpNet { addr: IpAddr::V4(0x0a01_0203), prefix: 16 });
    let m = IpNet::parse("fd00::1/64").unwrap();
    assert_eq!(m.prefix, 64);
    assert_eq!(m.to_text(), "fd00::1/64");
    assert_eq!(IpNet::parse("10.1.2.3/33"), None);
    assert_eq!(IpNet::parse("10.1.2.3"), None);
    assert_eq!(IpAddr::parse("10.1.2.3"), Some(IpAddr::V4(0x0a01_0203)));
    assert_eq!(IpAddr::parse("::1"), Some(IpAddr::V6(1)));
    assert_eq!(IpAddr::parse("10.1.2"), None);
}

#[test]
fn networks_cover_their_hosts() {
    let n = IpNet::parse("10.1.2.3/16").unwrap();
    assert!(n.contains(IpAddr::parse("10.1.255.255").unwrap()));
    assert!(!n.contains(IpAddr::parse("10.2.0.0").unwrap()));
    assert!(!n.contains(IpAddr::parse("::1").unwrap()));
    let all = IpNet::parse("0.0.0.0/0").unwrap();
    assert!(all.contains(IpAddr::parse("255.255.255.255").unwrap()));
    let one = IpNet::parse("10.0.0.1/32").unwrap();
    assert!(one.contains(IpAddr::parse("10.0.0.1").unwrap()));
    assert!(!one.contains(IpAddr::parse("10.0.0.2").unwrap()));
}

// ── Routes ───────────────────────────────────────────────────────────────

#[test]
fn derives_one_route_per_subnet() {
    let net = fresh();
    let cfg = cfg_with(vec![member(net, "10.0.0.2/24", &["192.168.10.0/24", "192.168.20.0/24"])]);
    let routes = derive_routes_for_network(&cfg, net);
    assert_eq!(routes.len(), 2);
    assert!(routes.iter().all(|r| r.via == "10.0.0.2"));
}

#[test]
fn skips_clients_without_ip() {
    let net = fresh();
    let cfg = cfg_with(vec![member(net, "", &["192.168.10.0/24"])]);
    assert!(derive_routes_for_network(&cfg, net).is_empty());
}

#[test]
fn skips_other_networks() {
    let net_a = fresh();
    let net_b = fresh();
    let cfg = cfg_with(vec![member(net_b, "10.0.0.2/24", &["192.168.10.0/24"])]);
    assert!(derive_routes_for_network(&cfg, net_a).is_empty());
}

#[test]
fn dedupes_dst_first_wins() {
    let net = fresh();
    let cfg = cfg_with(vec![
        member(net, "10.0.0.2/24", &["192.168.10.0/24"]),
        member(net, "10.0.0.3/24", &["192.168.10.0/24"]),
    ]);
    let routes = derive_routes_for_network(&cfg, net);
    assert_eq!(routes.len(), 1);
    assert_eq!(routes[0].via, "10.0.0.2");
}

#[test]
fn drops_self_loop() {
    let net = fresh();
    let cfg = cfg_with(vec![member(net, "10.0.0.2/24", &["10.0.0.0/24"])]);
    assert!(derive_routes_for_network(&cfg, net).is_empty());
}

#[test]
fn warn_on_invalid_subnet_but_continue() {
    let net = fresh();
    let cfg = cfg_with(vec![member(net, "10.0.0.2/24", &["not-a-cidr", "192.168.10.0/24"])]);
    let routes = derive_routes_for_network(&cfg, net);
    assert_eq!(routes.len(), 1);
    assert_eq!(routes[0].dst, "192.168.10.0/24");
}

#[test]
fn filter_drops_routes_via_self() {
    let routes = vec![
        route("192.168.10.0/24", "10.0.0.2"),
        route("192.168.20.0/24", "10.0.0.3"),
    ];
    let filtered = filter_for_peer(&routes, Some("10.0.0.2/24"));
    assert_eq!(filtered.len(), 1);
    assert_eq!(filtered[0].via, "10.0.0.3");
}

#[test]
fn filter_without_address_keeps_everything() {
    let routes = vec![route("192.168.10.0/24", "10.0.0.2")];
    assert_eq!(filter_for_peer(&routes, None), routes);
    assert_eq!(filter_for_peer(&routes, Some("")), routes);
    assert_eq!(filter_for_peer(&routes, Some("/24")), routes);
    assert!(filter_for_peer(&routes, Some("10.0.0.2")).is_empty());
}

#[test]
fn members_that_are_not_admitted_give_no_routes() {
    let net = fresh();
    let mut m = member(net, "10.0.0.2/24", &["192.168.10.0/24"]);
    m.admitted = false;
    assert!(derive_routes_for_network(&cfg_with(vec![m]), net).is_empty());
}

#[test]
fn malformed_routes_are_dropped() {
    let wire = vec![
        route("192.168.1.0/24", "10.0.0.1"),
        route("garbage-route", "10.0.0.2"),
        route("192.168.2.0/24", "nowhere"),
    ];
    let parsed = parse_routes(&wire);
    assert_eq!(parsed.len(), 1);
    assert_eq!(parsed[0].dst.to_text(), "192.168.1.0/24");
}

#[test]
fn derived_routes_can_all_be_installed() {
    let net = fresh();
    let cfg = cfg_with(vec![
        member(net, "10.0.0.2/24", &["192.168.10.0/24", "garbage", "fd00::/8"]),
        member(net, "10.0.0.3/24", &["192.168.20.0/24"]),
    ]);
    let table = derive_routes_for_network(&cfg, net);
    let parsed = parse_routes(&table);
    assert_eq!(table.len(), 3);
    assert_eq!(parsed.len(), 3);
    assert_eq!(parsed[0].via, IpAddr::V4(0x0a00_0002));
    assert_eq!(parsed[2].via, IpAddr::V4(0x0a00_0003));
}

#[test]
fn tables_are_compared_whatever_the_order() {
    let a = vec![route("a", "1"), route("b", "2"), route("a", "1")];
    let b = vec![route("a", "1"), route("a", "1"), route("b", "2")];
    let c = vec![route("a", "1"), route("b", "2"), route("b", "2")];
    assert!(same_routes(&a, &b));
    assert!(!same_routes(&a, &c));
    assert!(!same_routes(&a, &vec![route("a", "1")]));
}

// ── Configuration ────────────────────────────────────────────────────────

#[test]
fn defaults_are_as_documented() {
    let c = ServerConfig::default();
    assert_eq!(c.bridge.disconnect_timeout, 60);
    assert!(c.networks.is_empty());
    assert!(c.approved_clients.is_empty());
    assert!(c.pending_clients.is_empty());
}

#[test]
fn bridges_are_named_once() {
    let mut cfg = ServerConfig::default();
    cfg.bridge.name = "br-old".to_string();
    cfg.bridge.ip = "10.0.0.1/24".to_string();
    for _ in 0..2 {
        let mut n = NetRecord::new("n", fresh());
        n.bridge_name = String::new();
        cfg.networks.push(n);
    }
    cfg.networks.insert(0, NetRecord::new("named", fresh()));
    let named = cfg.networks[0].clone();
    cfg.migrate();
    assert_eq!(cfg.networks[0], named);
    assert_eq!(cfg.networks[1].bridge_name, "br-old");
    assert_eq!(cfg.networks[1].bridge_ip, "10.0.0.1/24");
    assert_eq!(cfg.networks[2].bridge_name, default_bridge_name_for(cfg.networks[2].uuid));
    let once = cfg.clone();
    cfg.migrate_phase2_bridges();
    assert_eq!(cfg, once);
    cfg.bridge.name = "br-new".to_string();
    cfg.migrate();
    assert_eq!(cfg.networks, once.networks);
}

#[test]
fn unreadable_networks_are_named_in_the_words_of_the_reader() {
    let e = "10.0.0.1".parse::<ipnet::IpNet>().unwrap_err().to_string();
    assert_eq!(IpNet::read("10.0.0.1"), Err(e.clone()));
    assert_eq!(e, "invalid IP address syntax");
    assert_eq!(IpNet::read("10.0.0.1/24").unwrap().to_text(), "10.0.0.1/24");
}

#[test]
fn migration_leaves_one_row_for_each_client() {
    let a = NetRecord::new("a", fresh());
    let b = NetRecord::new("b", fresh());
    let client = fresh();
    let mut first = member(a.uuid, "10.0.0.2/24", &[]);
    first.client_uuid = client;
    first.admitted = false;
    let mut second = member(b.uuid, "10.0.1.2/24", &[]);
    second.client_uuid = client;
    let mut cfg = cfg_with(vec![first, second]);
    cfg.networks.push(a.clone());
    cfg.networks.push(b.clone());
    cfg.migrate();
    assert_eq!(cfg.approved_clients.len(), 1);
    assert!(cfg.approved_clients[0].admitted);
    assert_eq!(cfg.approved_clients[0].net_uuid, b.uuid);
    let once = cfg.clone();
    cfg.migrate();
    assert_eq!(cfg, once);
}
