//! What holds of the decisions behind a socket, in terms of what goes into and comes
//! out of the functions that make them.

use crate::addr::{HostAddr, SocketAddr};
use crate::net::{
    connect_addr, fallback_socket_type, first_socket_type, plan_bind, set_dont_fragment,
    socket_domain, BindPlan, Domain, FragmentOption, OsConstants, Platform, RequestIds, SocketType,
};
use vstd::prelude::*;

verus! {

/// What holds of the constants of every system.
pub proof fn law_constants_are_told_apart(os: OsConstants)
    requires
        call_ensures(OsConstants::host, (), os),
    ensures
        os.ipproto_ip == 0,
        os.ipproto_ipv6 == 41,
        0 < os.ip_ttl < os.ipv6_hoplimit,
        os.msg_ctrunc != 0,
        os.eacces != 0 && os.eafnosupport != 0 && os.eprotonosupport != 0,
        os.eacces != os.eafnosupport && os.eacces != os.eprotonosupport && os.eafnosupport
            != os.eprotonosupport,
{
}

/// A raw socket comes first on systems other than Linux and Apple's, and for root
/// on Apple's.
pub proof fn law_raw_sockets_come_first_where_nothing_else_will_do(
    platform: Platform,
    is_root: bool,
    sock_type: SocketType,
)
    requires
        call_ensures(first_socket_type, (platform, is_root), sock_type),
    ensures
        sock_type is Raw <==> platform is Other || (platform is Apple && is_root),
{
}

/// Another socket is tried exactly on Linux, after a datagram socket was denied, and
/// that is a raw one. So there is no second fallback.
pub proof fn law_a_denied_datagram_socket_falls_back_once(
    platform: Platform,
    tried: SocketType,
    code: Option<i32>,
    os: OsConstants,
    next: Option<SocketType>,
)
    requires
        call_ensures(fallback_socket_type, (platform, tried, code, &os), next),
    ensures
        next is Some <==> platform is Linux && tried is Dgram && (code == Some(os.eacces) || code
            == Some(os.eafnosupport) || code == Some(os.eprotonosupport)),
        next matches Some(sock_type) ==> sock_type is Raw,
{
}

/// The family of a socket is that of its host.
pub proof fn law_the_domain_is_that_of_the_host(host: HostAddr, domain: Domain)
    requires
        call_ensures(socket_domain, (host,), domain),
    ensures
        domain is Ipv4 <==> host is V4,
        domain is Ipv6 <==> host is V6,
{
}

/// Linux has path MTU discovery and the others a flag, each set as asked for.
pub proof fn law_fragmentation_is_set_as_asked(
    platform: Platform,
    dont_fragment: bool,
    option: FragmentOption,
)
    requires
        call_ensures(set_dont_fragment, (platform, dont_fragment), option),
    ensures
        option matches FragmentOption::MtuDiscover(on) ==> platform is Linux && on
            == dont_fragment,
        option matches FragmentOption::DontFragment(on) ==> !(platform is Linux) && on
            == dont_fragment,
{
}

/// Whether `addr` is `host` with `port`: the same address, the same scope, and no
/// flow label.
pub open spec fn is_at(addr: SocketAddr, host: HostAddr, port: u16) -> bool {
    match (addr, host) {
        (SocketAddr::V4(v4), HostAddr::V4(ip)) => v4.ip == ip && v4.port == port,
        (SocketAddr::V6(v6), HostAddr::V6 { ip, scope_id }) => {
            &&& v6.ip == ip
            &&& v6.port == port
            &&& v6.flowinfo == 0
            &&& v6.scope_id == scope_id
        },
        _ => false,
    }
}

/// A socket is bound to its host, with its identifier for a port, if it has one.
/// What the system does not deliver anyway is asked for. Nothing is sent in
/// fragments, but where that cannot be had.
pub proof fn law_a_socket_is_bound_to_its_host(
    host: HostAddr,
    sock_type: SocketType,
    platform: Platform,
    is_root: bool,
    ident: Option<u16>,
    plan: BindPlan,
    option: FragmentOption,
)
    requires
        call_ensures(plan_bind, (host, sock_type, platform, is_root, ident), plan),
        call_ensures(set_dont_fragment, (platform, true), option),
    ensures
        ident matches Some(port) ==> is_at(plan.addr, host, port),
        ident is None ==> is_at(plan.addr, host, 0),
        plan.recv_hoplimit <==> host is V6,
        plan.recv_ttl <==> host is V4 && sock_type is Dgram,
        plan.fragment is None <==> platform is Apple && !is_root && host is V6,
        plan.fragment matches Some(planned) ==> planned == option,
{
}

/// A socket is connected to its host at port zero.
pub proof fn law_a_socket_is_connected_to_its_host(host: HostAddr, addr: SocketAddr)
    requires
        call_ensures(connect_addr, (host,), addr),
    ensures
        is_at(addr, host, 0),
{
}

/// Bit `i` of the first identifier is that of the process id, of the nanoseconds,
/// and of their upper half, added without carry.
pub proof fn law_the_first_identifier_mixes_bits(pid: u32, nanos: u32, ids: RequestIds, i: u32)
    requires
        i < 16,
        call_ensures(RequestIds::seeded, (pid, nanos), ids),
    ensures
        (ids.next as u32 >> i) & 1 == (pid >> i & 1) ^ (nanos >> i & 1) ^ (nanos >> 16 >> i & 1),
{
    let next: u16 = ids.next;
    let mixed: u64 = (pid as u64 ^ nanos as u64 ^ (nanos as u64 >> 16)) & 0xffff;
    assert(next as u64 == mixed);
    assert((next as u32 >> i) & 1 == (pid >> i & 1) ^ (nanos >> i & 1) ^ (nanos >> 16 >> i & 1))
        by (bit_vector)
        requires
            i < 16,
            next as u64 == (pid as u64 ^ nanos as u64 ^ (nanos as u64 >> 16)) & 0xffff,
    ;
}

/// Identifiers are given out one after the other, and start over.
pub proof fn law_identifiers_follow_each_other(ids: &mut RequestIds, id: u16)
    requires
        call_ensures(RequestIds::take, (ids,), id),
    ensures
        id == old(ids).next,
        (final(ids).next - id - 1) % 0x1_0000 == 0,
{
}

/// The next identifier other than zero is the next one, or the one after it where
/// that is zero.
pub proof fn law_zero_is_skipped(ids: &mut RequestIds, id: u16)
    requires
        call_ensures(RequestIds::take_nonzero, (ids,), id),
    ensures
        id != 0,
        old(ids).next != 0 ==> id == old(ids).next,
        old(ids).next == 0 ==> id == 1,
        (final(ids).next - id - 1) % 0x1_0000 == 0,
{
}

/// A Linux datagram socket gets the next identifier other than zero, and any other
/// socket none.
pub proof fn law_linux_datagram_sockets_get_an_identifier(
    ids: &mut RequestIds,
    platform: Platform,
    sock_type: SocketType,
    ident: Option<u16>,
)
    requires
        call_ensures(RequestIds::dgram_ident, (ids, platform, sock_type), ident),
    ensures
        ident is Some <==> platform is Linux && sock_type is Dgram,
        ident is None ==> *final(ids) == *old(ids),
        ident matches Some(id) ==> {
            &&& id != 0
            &&& old(ids).next != 0 ==> id == old(ids).next
            &&& old(ids).next == 0 ==> id == 1
            &&& (final(ids).next - id - 1) % 0x1_0000 == 0
        },
{
}

/// A request carries the identifier that its socket is bound to. Without one it
/// takes the next.
pub proof fn law_requests_carry_the_bound_identifier(
    ids: &mut RequestIds,
    ident: Option<u16>,
    id: u16,
)
    requires
        call_ensures(RequestIds::request_id, (ids, ident), id),
    ensures
        ident matches Some(bound) ==> id == bound && *final(ids) == *old(ids),
        ident is None ==> id == old(ids).next && (final(ids).next - id - 1) % 0x1_0000 == 0,
{
}

/// Of 65535 identifiers that are drawn in a row for sockets, no two are the same.
/// Draw `k` starts where the one before it ended, and gives `drawn[k]`.
pub proof fn law_drawn_identifiers_differ(
    draws: Seq<&mut RequestIds>,
    drawn: Seq<u16>,
    i: int,
    j: int,
)
    requires
        draws.len() == drawn.len(),
        forall|k: int|
            0 <= k < draws.len() ==> #[trigger] call_ensures(
                RequestIds::take_nonzero,
                (draws[k],),
                drawn[k],
            ),
        forall|k: int|
            #![trigger draws[k]]
            0 < k < draws.len() ==> *draws[k] == *final(draws[k - 1]),
        0 <= i < j < draws.len(),
        j < i + 65535,
    ensures
        drawn[i] != drawn[j],
{
    lemma_drawn(draws, drawn, i);
    lemma_drawn(draws, drawn, j);
}

proof fn lemma_drawn(draws: Seq<&mut RequestIds>, drawn: Seq<u16>, k: int)
    requires
        draws.len() == drawn.len(),
        forall|k: int|
            0 <= k < draws.len() ==> #[trigger] call_ensures(
                RequestIds::take_nonzero,
                (draws[k],),
                drawn[k],
            ),
        forall|k: int|
            #![trigger draws[k]]
            0 < k < draws.len() ==> *draws[k] == *final(draws[k - 1]),
        0 <= k < draws.len(),
    ensures
        drawn[k] == (drawn[0] - 1 + k) % 65535 + 1,
        drawn[k] != 0,
    decreases k,
{
    assert(call_ensures(RequestIds::take_nonzero, (draws[k],), drawn[k]));
    law_zero_is_skipped(draws[k], drawn[k]);
    if k > 0 {
        let before = k - 1;
        lemma_drawn(draws, drawn, before);
        assert(call_ensures(RequestIds::take_nonzero, (draws[before],), drawn[before]));
        law_zero_is_skipped(draws[before], drawn[before]);
        assert(*draws[k] == *final(draws[before]));
    }
}

} // verus!
