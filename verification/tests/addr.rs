use ping_tokio::addr::{looked_up, IpAddr, Ipv4Addr, Ipv6Addr, SocketAddr, SocketAddrV4, SocketAddrV6};
use ping_tokio::error::{Error, ErrorKind};
use ping_tokio::{HostAddr, ToHostAddr};

fn link_local() -> Ipv6Addr {
    Ipv6Addr::new(0xfe80, 0, 0, 0, 0, 0, 0, 1)
}

fn loopback_v6() -> Ipv6Addr {
    Ipv6Addr::new(0, 0, 0, 0, 0, 0, 0, 1)
}

#[test]
fn host_addr_returns_same_value() {
    let addr = HostAddr::V6 { ip: link_local(), scope_id: 7 };
    let result = addr.to_host_addr().ready().unwrap();
    assert_eq!(result, addr);
    assert_eq!(result.scope_id(), 7);
}

#[test]
fn tuple_preserves_scope_id() {
    let ip = link_local();
    let result = (ip, 7u32).to_host_addr().ready().unwrap();
    assert_eq!(result, HostAddr::V6 { ip, scope_id: 7 });
}

#[test]
fn ip_addr_to_host_addr_returns_same_ip() {
    let ip: IpAddr = IpAddr::V4(Ipv4Addr::new(1, 2, 3, 4));
    let result = ip.to_host_addr().ready().unwrap();
    assert_eq!(result.ip(), ip);
}

#[test]
fn ip_addr_v6_to_host_addr_has_zero_scope() {
    let ip: IpAddr = IpAddr::V6(loopback_v6());
    let result = ip.to_host_addr().ready().unwrap();
    assert_eq!(result.ip(), ip);
    assert_eq!(result.scope_id(), 0);
}

#[test]
fn ipv4_addr_wraps_without_scope() {
    let ip = Ipv4Addr::new(10, 0, 0, 1);
    let result = ip.to_host_addr().ready().unwrap();
    assert_eq!(result, HostAddr::V4(ip));
}

#[test]
fn ipv6_addr_wraps_with_zero_scope() {
    let ip = Ipv6Addr::new(0x2001, 0xdb8, 0, 0, 0, 0, 0, 1);
    let result = ip.to_host_addr().ready().unwrap();
    assert_eq!(result.ip(), IpAddr::V6(ip));
    assert_eq!(result.scope_id(), 0);
}

// Whoever resolves a text reads IP addresses in it, so the tests on texts hand in
// what is read.

#[test]
fn str_with_ipv4_address_parses_directly() {
    let start = "192.168.1.1".to_host_addr();
    let query = start.query().unwrap();
    assert_eq!(query.text, "192.168.1.1");
    let plain = Some(IpAddr::V4(Ipv4Addr::new(192, 168, 1, 1)));
    let result = query.literal(plain, None).unwrap();
    assert_eq!(result, HostAddr::V4(Ipv4Addr::new(192, 168, 1, 1)));
}

#[test]
fn str_with_ipv6_address_parses_directly() {
    let start = "::1".to_host_addr();
    let result = start.query().unwrap().literal(Some(IpAddr::V6(loopback_v6())), None).unwrap();
    assert_eq!(result.ip(), IpAddr::V6(loopback_v6()));
}

#[test]
fn str_with_scoped_ipv6_literal_preserves_scope_id() {
    let start = "fe80::1%1".to_host_addr();
    let query = start.query().unwrap();
    assert_eq!(query.zoned, Some(("fe80::1".to_string(), 1)));
    match query.literal(None, Some(link_local())).unwrap() {
        HostAddr::V6 { ip, scope_id } => {
            assert_eq!(ip, Ipv6Addr::new(0xfe80, 0, 0, 0, 0, 0, 0, 1));
            assert_eq!(scope_id, 1);
        }
        HostAddr::V4(v4) => panic!("expected IPv6, got {v4:?}"),
    }
}

#[test]
fn str_with_named_zone_resolves_scope_id() {
    // A named zone is no literal, so it takes a lookup, whose scope is kept.
    let start = "fe80::1%lo".to_host_addr();
    let query = start.query().unwrap();
    assert_eq!(query.zoned, None);
    assert_eq!(query.literal(None, None), None);
    let found = SocketAddr::V6(SocketAddrV6 { ip: link_local(), port: 0, flowinfo: 0, scope_id: 1 });
    match looked_up(Some(found)).unwrap() {
        HostAddr::V6 { ip, scope_id } => {
            assert_eq!(ip, Ipv6Addr::new(0xfe80, 0, 0, 0, 0, 0, 0, 1));
            assert_ne!(scope_id, 0);
        }
        HostAddr::V4(v4) => panic!("expected IPv6, got {v4:?}"),
    }
}

#[test]
fn scoped_display_round_trips() {
    let addr = HostAddr::V6 { ip: Ipv6Addr::new(0xfe80, 0, 0, 0, 0, 0, 0, 1), scope_id: 3 };
    let text = addr.display("fe80::1");
    assert_eq!(text, "fe80::1%3");
    let start = text.to_host_addr();
    let query = start.query().unwrap();
    assert_eq!(query.zoned, Some(("fe80::1".to_string(), 3)));
    let reparsed = query.literal(None, Some(link_local())).unwrap();
    assert_eq!(reparsed, addr);
}

#[test]
fn str_with_unresolvable_host_returns_error() {
    let start = "nonexistent.invalid".to_host_addr();
    assert_eq!(start.ready(), None);
    assert_eq!(start.query().unwrap().literal(None, None), None);
    let error = looked_up(None).unwrap_err();
    assert_eq!(error, Error::Unresolved);
    assert_eq!(error.kind(), ErrorKind::NotFound);
    assert_eq!(error.message(), "could not resolve to any address");
}

#[test]
fn str_with_hostname_resolves_via_dns() {
    let start = String::from("localhost").to_host_addr();
    assert_eq!(start.query().unwrap().literal(None, None), None);
    let found = SocketAddr::V4(SocketAddrV4 { ip: Ipv4Addr::new(127, 0, 0, 1), port: 0 });
    let result = looked_up(Some(found)).unwrap();
    assert_eq!(result, HostAddr::V4(Ipv4Addr::new(127, 0, 0, 1)));
}

#[test]
fn ready_inputs_have_nothing_to_look_up() {
    assert!(Ipv4Addr::new(1, 1, 1, 1).to_host_addr().query().is_none());
    assert!("1.1.1.1".to_host_addr().ready().is_none());
}

#[test]
fn numeric_zones_are_those_that_parse_as_u32() {
    for (text, zoned) in [
        ("fe80::1%4294967295", Some(("fe80::1", 4_294_967_295))),
        ("fe80::1%+7", Some(("fe80::1", 7))),
        ("fe80::1%007", Some(("fe80::1", 7))),
        ("a%b%9", Some(("a%b", 9))),
        ("%0", Some(("", 0))),
        ("fe80::1%4294967296", None),
        ("fe80::1%", None),
        ("fe80::1%-1", None),
        ("fe80::1%+", None),
        ("fe80::1", None),
        ("", None),
    ] {
        let start = text.to_host_addr();
        let query = start.query().unwrap();
        assert_eq!(query.text, text);
        assert_eq!(query.zoned.as_ref().map(|(a, z)| (a.as_str(), *z)), zoned, "{text}");
    }
}

#[test]
fn zone_of_a_text_that_is_no_ipv6_address_is_no_literal() {
    let start = "example%5".to_host_addr();
    assert_eq!(start.query().unwrap().literal(None, None), None);
}

#[test]
fn display_leaves_out_a_zero_scope() {
    assert_eq!(HostAddr::V4(Ipv4Addr::new(127, 0, 0, 1)).display("127.0.0.1"), "127.0.0.1");
    assert_eq!(HostAddr::from(loopback_v6()).display("::1"), "::1");
    let most = HostAddr::V6 { ip: loopback_v6(), scope_id: u32::MAX };
    assert_eq!(most.display("::1"), "::1%4294967295");
}

#[test]
fn host_addresses_convert_from_addresses() {
    let v4 = Ipv4Addr::new(192, 0, 2, 1);
    assert_eq!(v4.bits, 0xc000_0201);
    assert_eq!(HostAddr::from(v4), HostAddr::V4(v4));
    let v6 = Ipv6Addr::new(0x2001, 0xdb8, 1, 2, 3, 4, 5, 6);
    assert_eq!(v6.bits, 0x2001_0db8_0001_0002_0003_0004_0005_0006);
    assert_eq!(HostAddr::from(v6), HostAddr::V6 { ip: v6, scope_id: 0 });
    assert_eq!(HostAddr::from(IpAddr::V6(v6)), HostAddr::V6 { ip: v6, scope_id: 0 });
    let socket = SocketAddr::V6(SocketAddrV6 { ip: v6, port: 80, flowinfo: 9, scope_id: 4 });
    assert_eq!(HostAddr::from(socket), HostAddr::V6 { ip: v6, scope_id: 4 });
    assert!(HostAddr::from(v4).is_ipv4() && !HostAddr::from(v4).is_ipv6());
    assert!(HostAddr::from(v6).is_ipv6() && !HostAddr::from(v6).is_ipv4());
}

#[test]
fn host_addresses_written_as_text_are_read_back_without_a_lookup() {
    for (host, ip_text) in [
        (HostAddr::V4(Ipv4Addr::new(192, 168, 1, 1)), "192.168.1.1"),
        (HostAddr::V6 { ip: loopback_v6(), scope_id: 0 }, "::1"),
        (HostAddr::V6 { ip: link_local(), scope_id: 1 }, "fe80::1"),
        (HostAddr::V6 { ip: link_local(), scope_id: u32::MAX }, "fe80::1"),
    ] {
        let text = host.display(ip_text);
        assert_eq!(text.contains('%'), host.scope_id() != 0);
        let start = text.to_host_addr();
        let query = start.query().unwrap();
        // The whole text is an IP address only without a zone.
        let plain = if query.text == ip_text { Some(host.ip()) } else { None };
        let address = match (&query.zoned, host) {
            (Some((address, _)), HostAddr::V6 { ip, .. }) if address == ip_text => Some(ip),
            _ => None,
        };
        assert_eq!(query.literal(plain, address), Some(host));
    }
}
