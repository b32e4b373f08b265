//! What holds of host addresses and of their resolution, in terms of what goes into
//! and comes out of the functions.

use crate::addr::{
    looked_up, text_resolution, HostAddr, HostQuery, IpAddr, Ipv4Addr, Ipv6Addr, MaybeReady,
    SocketAddr, ToHostAddr,
};
use crate::error::Error;
use crate::text::{decimal_text, last_position, lemma_last_position, unsigned_value};
use crate::text_laws::{is_decimal, law_decimal_text_is_decimal};
use vstd::prelude::*;
use vstd::string::*;

verus! {

/// An IPv4 address writes its four octets, most significant first.
pub proof fn law_v4_address_writes_its_octets(a: u8, b: u8, c: u8, d: u8, ip: Ipv4Addr)
    requires
        call_ensures(Ipv4Addr::new, (a, b, c, d), ip),
    ensures
        ip.bits == a * 0x100_0000 + b * 0x1_0000 + c * 0x100 + d,
{
}

/// An IPv6 address writes its eight segments, most significant first.
pub proof fn law_v6_address_writes_its_segments(
    a: u16,
    b: u16,
    c: u16,
    d: u16,
    e: u16,
    f: u16,
    g: u16,
    h: u16,
    ip: Ipv6Addr,
)
    requires
        call_ensures(Ipv6Addr::new, (a, b, c, d, e, f, g, h), ip),
    ensures
        ip.bits == a * 0x1_0000_0000_0000_0000_0000_0000_0000int + b
            * 0x1_0000_0000_0000_0000_0000_0000int + c * 0x1_0000_0000_0000_0000_0000int + d
            * 0x1_0000_0000_0000_0000int + e * 0x1_0000_0000_0000int + f * 0x1_0000_0000int + g
            * 0x1_0000int + h,
{
}

/// A host address is made of its address and its scope, which is zero for IPv4.
pub proof fn law_a_host_is_its_address_and_scope(
    host: HostAddr,
    ip: IpAddr,
    scope_id: u32,
    is_ipv4: bool,
    is_ipv6: bool,
)
    requires
        call_ensures(HostAddr::ip, (&host,), ip),
        call_ensures(HostAddr::scope_id, (&host,), scope_id),
        call_ensures(HostAddr::is_ipv4, (&host,), is_ipv4),
        call_ensures(HostAddr::is_ipv6, (&host,), is_ipv6),
    ensures
        is_ipv4 != is_ipv6,
        is_ipv4 ==> scope_id == 0 && (ip matches IpAddr::V4(v4) && host == HostAddr::V4(v4)),
        is_ipv6 ==> (ip matches IpAddr::V6(v6) && is_v6(host, v6, scope_id)),
{
}

/// A host address that comes from another address keeps it. Only a socket address
/// has a scope to keep.
pub proof fn law_conversions_keep_the_address(
    v4: Ipv4Addr,
    of_v4: HostAddr,
    v6: Ipv6Addr,
    of_v6: HostAddr,
    ip: IpAddr,
    of_ip: HostAddr,
    addr: SocketAddr,
    of_addr: HostAddr,
)
    requires
        call_ensures(<HostAddr as From<Ipv4Addr>>::from, (v4,), of_v4),
        call_ensures(<HostAddr as From<Ipv6Addr>>::from, (v6,), of_v6),
        call_ensures(<HostAddr as From<IpAddr>>::from, (ip,), of_ip),
        call_ensures(<HostAddr as From<SocketAddr>>::from, (addr,), of_addr),
    ensures
        of_v4 == HostAddr::V4(v4),
        is_v6(of_v6, v6, 0),
        is_plain(ip, of_ip),
        match addr {
            SocketAddr::V4(v4) => of_addr == HostAddr::V4(v4.ip),
            SocketAddr::V6(v6) => is_v6(of_addr, v6.ip, v6.scope_id),
        },
{
}

/// Whether `host` is the IPv6 address `ip` with the scope `scope_id`.
pub open spec fn is_v6(host: HostAddr, ip: Ipv6Addr, scope_id: u32) -> bool {
    host == HostAddr::V6 { ip, scope_id }
}

/// Whether `host` is `ip` without a scope.
pub open spec fn is_plain(ip: IpAddr, host: HostAddr) -> bool {
    match ip {
        IpAddr::V4(v4) => host == HostAddr::V4(v4),
        IpAddr::V6(v6) => host == HostAddr::V6 { ip: v6, scope_id: 0 },
    }
}

/// The text of a host address is that of its IP address, and where there is a scope,
/// a percent sign and the scope as a number.
pub proof fn law_the_text_of_a_host_ends_in_its_scope(host: HostAddr, ip_text: &str, text: String)
    requires
        call_ensures(HostAddr::display, (&host, ip_text), text),
    ensures
        match host {
            HostAddr::V6 { scope_id, .. } if scope_id != 0 => exists|zone: Seq<char>| #[trigger]
                is_decimal(zone, scope_id as nat) && text@ == ip_text@ + seq!['%'] + zone,
            _ => text@ == ip_text@,
        },
{
    law_decimal_text_is_decimal(host.scope() as nat);
}

/// Whether `query` is `text` taken apart: it keeps the text, and where there are
/// digits that fit 32 bits behind the last percent sign, it has what stands before
/// that sign and the number behind it.
pub open spec fn takes_apart(query: HostQuery, text: Seq<char>) -> bool {
    &&& query.text@ == text
    &&& !text.contains('%') ==> query.zoned is None
    &&& forall|address: Seq<char>, zone: Seq<char>|
        text == #[trigger] (address + seq!['%'] + zone) && !zone.contains('%') ==> match (
            unsigned_value(zone),
            query.zoned,
        ) {
            (Some(value), Some((part, scope_id))) => value == scope_id && part@ == address,
            (Some(value), None) => value > 0xffff_ffff,
            (None, zoned) => zoned is None,
        }
}

proof fn lemma_takes_apart(query: HostQuery, text: Seq<char>)
    requires
        query@ == text_resolution(text),
    ensures
        takes_apart(query, text),
{
    lemma_last_position(text, '%');
    if !text.contains('%') {
        if let Some(k) = last_position(text, '%') {
            assert(text[k] == '%');
        }
    }
    assert forall|address: Seq<char>, zone: Seq<char>|
        text == #[trigger] (address + seq!['%'] + zone) && !zone.contains('%') implies match (
        unsigned_value(zone),
        query.zoned,
    ) {
        (Some(value), Some((part, scope_id))) => value == scope_id && part@ == address,
        (Some(value), None) => value > 0xffff_ffff,
        (None, zoned) => zoned is None,
    } by {
        let k: int = address.len() as int;
        assert(text[k] == '%');
        assert forall|i: int| k < i < text.len() implies text[i] != '%' by {
            assert(text[i] == zone[i - k - 1]);
        }
        assert(last_position(text, '%') == Some(k));
        assert(text.take(k) =~= address);
        assert(text.skip(k + 1) =~= zone);
    }
}

/// A text is kept and taken apart at its last percent sign.
pub proof fn law_a_text_is_taken_apart(text: &str, query: HostQuery)
    requires
        call_ensures(HostQuery::new, (text,), query),
    ensures
        takes_apart(query, text@),
{
    lemma_takes_apart(query, text@);
}

/// The start of a resolution is either done or a text to look at, not both.
pub proof fn law_a_start_is_done_or_a_text(
    start: MaybeReady,
    host: Option<HostAddr>,
    query: Option<&HostQuery>,
)
    requires
        call_ensures(MaybeReady::ready, (&start,), host),
        call_ensures(MaybeReady::query, (&start,), query),
    ensures
        host is Some <==> query is None,
{
}

/// Addresses are resolved at once, to themselves.
pub proof fn law_addresses_resolve_to_themselves(
    host: HostAddr,
    ip: IpAddr,
    v4: Ipv4Addr,
    v6: Ipv6Addr,
    scope_id: u32,
    starts: (MaybeReady, MaybeReady, MaybeReady, MaybeReady, MaybeReady),
    hosts: (Option<HostAddr>, Option<HostAddr>, Option<HostAddr>, Option<HostAddr>, Option<HostAddr>),
)
    requires
        call_ensures(<HostAddr as ToHostAddr>::to_host_addr, (&host,), starts.0),
        call_ensures(<IpAddr as ToHostAddr>::to_host_addr, (&ip,), starts.1),
        call_ensures(<Ipv4Addr as ToHostAddr>::to_host_addr, (&v4,), starts.2),
        call_ensures(<Ipv6Addr as ToHostAddr>::to_host_addr, (&v6,), starts.3),
        call_ensures(<(Ipv6Addr, u32) as ToHostAddr>::to_host_addr, (&(v6, scope_id),), starts.4),
        call_ensures(MaybeReady::ready, (&starts.0,), hosts.0),
        call_ensures(MaybeReady::ready, (&starts.1,), hosts.1),
        call_ensures(MaybeReady::ready, (&starts.2,), hosts.2),
        call_ensures(MaybeReady::ready, (&starts.3,), hosts.3),
        call_ensures(MaybeReady::ready, (&starts.4,), hosts.4),
    ensures
        hosts.0 == Some(host),
        hosts.1 is Some && is_plain(ip, hosts.1->0),
        hosts.2 == Some(HostAddr::V4(v4)),
        hosts.3 is Some && is_v6(hosts.3->0, v6, 0),
        hosts.4 is Some && is_v6(hosts.4->0, v6, scope_id),
{
}

/// Texts of every kind start with a look at the text.
pub proof fn law_texts_start_with_a_look_at_them(
    text: &str,
    string: String,
    starts: (MaybeReady, MaybeReady, MaybeReady),
    queries: (Option<&HostQuery>, Option<&HostQuery>, Option<&HostQuery>),
)
    requires
        call_ensures(<str as ToHostAddr>::to_host_addr, (text,), starts.0),
        call_ensures(<&str as ToHostAddr>::to_host_addr, (&text,), starts.1),
        call_ensures(<String as ToHostAddr>::to_host_addr, (&string,), starts.2),
        call_ensures(MaybeReady::query, (&starts.0,), queries.0),
        call_ensures(MaybeReady::query, (&starts.1,), queries.1),
        call_ensures(MaybeReady::query, (&starts.2,), queries.2),
    ensures
        queries.0 matches Some(query) && takes_apart(*query, text@),
        queries.1 matches Some(query) && takes_apart(*query, text@),
        queries.2 matches Some(query) && takes_apart(*query, string@),
{
    lemma_takes_apart(*queries.0->0, text@);
    lemma_takes_apart(*queries.1->0, text@);
    lemma_takes_apart(*queries.2->0, string@);
}

/// A text that is an IP address is that address, without a scope. One that is an
/// IPv6 address and a numeric zone is that address with that scope. No other is a
/// host address.
pub proof fn law_a_literal_is_an_address_or_one_with_a_zone(
    query: HostQuery,
    plain: Option<IpAddr>,
    address: Option<Ipv6Addr>,
    host: Option<HostAddr>,
)
    requires
        call_ensures(HostQuery::literal, (&query, plain, address), host),
    ensures
        plain matches Some(ip) ==> host is Some && is_plain(ip, host->0),
        plain is None ==> match (query.zoned, address) {
            (Some((_, scope_id)), Some(ip)) => host is Some && is_v6(host->0, ip, scope_id),
            _ => host is None,
        },
{
}

/// A lookup gives the first address found, with its scope, and an error where there
/// is none.
pub proof fn law_a_lookup_gives_the_first_address(
    first: Option<SocketAddr>,
    host: Result<HostAddr, Error>,
)
    requires
        call_ensures(looked_up, (first,), host),
    ensures
        first is None <==> host == Err::<HostAddr, Error>(Error::Unresolved),
        first matches Some(SocketAddr::V4(v4)) ==> host == Ok::<HostAddr, Error>(
            HostAddr::V4(v4.ip),
        ),
        first matches Some(SocketAddr::V6(v6)) ==> host is Ok && is_v6(
            host->Ok_0,
            v6.ip,
            v6.scope_id,
        ),
{
}

/// A host address that is written as text, and that text resolved, is the same host
/// address, without a lookup, where IP addresses are read back as they were written
/// and none is read of a text with a percent sign.
///
/// `plain` is what the whole text is read as, and `address` what the part before
/// its zone is read as.
pub proof fn law_a_written_host_resolves_to_itself(
    host: HostAddr,
    ip_text: &str,
    text: String,
    start: MaybeReady,
    query: Option<&HostQuery>,
    plain: Option<IpAddr>,
    address: Option<Ipv6Addr>,
    resolved: Option<HostAddr>,
)
    requires
        call_ensures(HostAddr::display, (&host, ip_text), text),
        call_ensures(<String as ToHostAddr>::to_host_addr, (&text,), start),
        call_ensures(MaybeReady::query, (&start,), query),
        text@ == ip_text@ ==> plain == Some(
            match host {
                HostAddr::V4(v4) => IpAddr::V4(v4),
                HostAddr::V6 { ip, .. } => IpAddr::V6(ip),
            },
        ),
        text@.contains('%') ==> plain is None,
        query matches Some(HostQuery { zoned: Some((part, _)), .. }) ==> (part@ == ip_text@ ==> (
        host matches HostAddr::V6 { ip, .. } ==> address == Some(ip))),
        query is Some ==> call_ensures(HostQuery::literal, (query->0, plain, address), resolved),
    ensures
        query is Some,
        resolved == Some(host),
{
    let q: HostQuery = *query->0;
    lemma_takes_apart(q, text@);
    law_the_text_of_a_host_ends_in_its_scope(host, ip_text, text);
    law_a_literal_is_an_address_or_one_with_a_zone(q, plain, address, resolved);
    if let HostAddr::V6 { scope_id, .. } = host {
        if scope_id != 0 {
            let zone = decimal_text(scope_id as nat);
            law_decimal_text_is_decimal(scope_id as nat);
            assert(text@ == ip_text@ + seq!['%'] + zone);
            assert(text@[ip_text@.len() as int] == '%');
        }
    }
}

} // verus!
