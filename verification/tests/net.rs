use ping_tokio::addr::{Ipv4Addr, Ipv6Addr, SocketAddr, SocketAddrV4, SocketAddrV6};
use ping_tokio::net::{
    connect_addr, fallback_socket_type, first_socket_type, plan_bind, set_dont_fragment,
    socket_domain, Domain, FragmentOption, OsConstants, Platform, RequestIds, SocketType,
};
use ping_tokio::HostAddr;

fn v4() -> HostAddr {
    HostAddr::V4(Ipv4Addr::new(127, 0, 0, 1))
}

fn v6() -> HostAddr {
    HostAddr::V6 { ip: Ipv6Addr::new(0xfe80, 0, 0, 0, 0, 0, 0, 1), scope_id: 3 }
}

#[test]
fn the_least_privileged_socket_comes_first() {
    assert_eq!(first_socket_type(Platform::Linux, false), SocketType::Dgram);
    assert_eq!(first_socket_type(Platform::Linux, true), SocketType::Dgram);
    assert_eq!(first_socket_type(Platform::Apple, false), SocketType::Dgram);
    assert_eq!(first_socket_type(Platform::Apple, true), SocketType::Raw);
    assert_eq!(first_socket_type(Platform::Other, false), SocketType::Raw);
    assert_eq!(first_socket_type(Platform::Other, true), SocketType::Raw);
}

#[test]
fn constants_are_those_of_the_host() {
    let os = OsConstants::host();
    assert_eq!(os.eacces, libc::EACCES);
    assert_eq!(os.eafnosupport, libc::EAFNOSUPPORT);
    assert_eq!(os.eprotonosupport, libc::EPROTONOSUPPORT);
    assert_eq!(os.ipproto_ip, 0);
    assert_eq!(os.ip_ttl, libc::IP_TTL);
    assert_eq!(os.ipproto_ipv6, 41);
    assert_eq!(os.ipv6_hoplimit, libc::IPV6_HOPLIMIT);
    assert_eq!(os.msg_ctrunc, libc::MSG_CTRUNC);
    assert_ne!(os.msg_ctrunc, 0);
    assert!(0 < os.ip_ttl && os.ip_ttl < os.ipv6_hoplimit);
}

#[test]
fn a_denied_ping_socket_falls_back_to_a_raw_one_on_linux() {
    let os = OsConstants::host();
    for code in [libc::EACCES, libc::EAFNOSUPPORT, libc::EPROTONOSUPPORT] {
        let next = fallback_socket_type(Platform::Linux, SocketType::Dgram, Some(code), &os);
        assert_eq!(next, Some(SocketType::Raw));
        let next = fallback_socket_type(Platform::Linux, SocketType::Raw, Some(code), &os);
        assert_eq!(next, None);
        let next = fallback_socket_type(Platform::Apple, SocketType::Dgram, Some(code), &os);
        assert_eq!(next, None);
    }
    for code in [Some(libc::EMFILE), Some(libc::EPERM), None] {
        let next = fallback_socket_type(Platform::Linux, SocketType::Dgram, code, &os);
        assert_eq!(next, None);
    }
}

#[test]
fn the_domain_is_that_of_the_address() {
    assert_eq!(socket_domain(v4()), Domain::Ipv4);
    assert_eq!(socket_domain(v6()), Domain::Ipv6);
}

#[test]
fn a_linux_ping_socket_binds_its_identifier() {
    let plan = plan_bind(v4(), SocketType::Dgram, Platform::Linux, false, Some(77));
    assert!(plan.recv_ttl);
    assert!(!plan.recv_hoplimit);
    assert_eq!(plan.fragment, Some(FragmentOption::MtuDiscover(true)));
    let ip = Ipv4Addr::new(127, 0, 0, 1);
    assert_eq!(plan.addr, SocketAddr::V4(SocketAddrV4 { ip, port: 77 }));
}

#[test]
fn a_raw_socket_binds_port_zero_and_reads_the_ip_header() {
    let plan = plan_bind(v4(), SocketType::Raw, Platform::Other, true, None);
    assert!(!plan.recv_ttl);
    assert_eq!(plan.fragment, Some(FragmentOption::DontFragment(true)));
    let ip = Ipv4Addr::new(127, 0, 0, 1);
    assert_eq!(plan.addr, SocketAddr::V4(SocketAddrV4 { ip, port: 0 }));
}

#[test]
fn an_ipv6_socket_asks_for_the_hop_limit_and_keeps_the_scope() {
    let plan = plan_bind(v6(), SocketType::Dgram, Platform::Linux, false, Some(9));
    assert!(!plan.recv_ttl);
    assert!(plan.recv_hoplimit);
    let ip = Ipv6Addr::new(0xfe80, 0, 0, 0, 0, 0, 0, 1);
    let addr = SocketAddr::V6(SocketAddrV6 { ip, port: 9, flowinfo: 0, scope_id: 3 });
    assert_eq!(plan.addr, addr);
}

#[test]
fn fragmentation_is_left_alone_for_unprivileged_ipv6_on_apple() {
    let plan = |host, is_root| plan_bind(host, SocketType::Dgram, Platform::Apple, is_root, None);
    assert_eq!(plan(v6(), false).fragment, None);
    assert_eq!(plan(v6(), true).fragment, Some(FragmentOption::DontFragment(true)));
    assert_eq!(plan(v4(), false).fragment, Some(FragmentOption::DontFragment(true)));
    assert_eq!(set_dont_fragment(Platform::Linux, false), FragmentOption::MtuDiscover(false));
    assert_eq!(set_dont_fragment(Platform::Apple, false), FragmentOption::DontFragment(false));
}

#[test]
fn connecting_uses_port_zero_and_keeps_the_scope() {
    let ip = Ipv4Addr::new(127, 0, 0, 1);
    assert_eq!(connect_addr(v4()), SocketAddr::V4(SocketAddrV4 { ip, port: 0 }));
    let ip = Ipv6Addr::new(0xfe80, 0, 0, 0, 0, 0, 0, 1);
    let addr = SocketAddr::V6(SocketAddrV6 { ip, port: 0, flowinfo: 0, scope_id: 3 });
    assert_eq!(connect_addr(v6()), addr);
}

#[test]
fn the_first_identifier_mixes_process_and_time() {
    assert_eq!(RequestIds::seeded(0x0001_1234, 0).next, 0x1234);
    // 0x1234 ^ 0x5678 ^ 0x0abc
    assert_eq!(RequestIds::seeded(0x1234, 0x0abc_5678).next, 0x4ef0);
}

#[test]
fn identifiers_start_over_and_sockets_skip_zero() {
    let mut ids = RequestIds { next: 65534 };
    assert_eq!([ids.take(), ids.take(), ids.take()], [65534, 65535, 0]);
    let mut ids = RequestIds { next: 65535 };
    assert_eq!([ids.take_nonzero(), ids.take_nonzero()], [65535, 1]);
    assert_eq!(ids.next, 2);
}

#[test]
fn successive_sockets_get_different_identifiers() {
    let mut ids = RequestIds { next: 0 };
    let mut seen = vec![false; 65536];
    for _ in 0..65535 {
        let ident = ids.dgram_ident(Platform::Linux, SocketType::Dgram).unwrap();
        assert!(!seen[ident as usize]);
        seen[ident as usize] = true;
    }
    assert!(!seen[0]);
}

#[test]
fn only_linux_ping_sockets_have_an_identifier() {
    let mut ids = RequestIds { next: 5 };
    assert_eq!(ids.dgram_ident(Platform::Linux, SocketType::Raw), None);
    assert_eq!(ids.dgram_ident(Platform::Apple, SocketType::Dgram), None);
    assert_eq!(ids.next, 5);
    assert_eq!(ids.dgram_ident(Platform::Linux, SocketType::Dgram), Some(5));
    assert_eq!(ids.next, 6);
}

#[test]
fn requests_carry_the_identifier_of_their_socket() {
    let mut ids = RequestIds { next: 5 };
    assert_eq!(ids.request_id(Some(99)), 99);
    assert_eq!(ids.next, 5);
    assert_eq!(ids.request_id(None), 5);
    assert_eq!(ids.request_id(None), 6);
}

#[test]
fn socket_addresses_keep_the_host() {
    for host in [v4(), v6()] {
        assert_eq!(HostAddr::from(connect_addr(host)), host);
        let plan = plan_bind(host, SocketType::Dgram, Platform::Linux, false, Some(4711));
        assert_eq!(HostAddr::from(plan.addr), host);
    }
}
