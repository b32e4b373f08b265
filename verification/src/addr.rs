//! Conversion from various inputs (IP addresses, hostnames) into [`HostAddr`],
//! preserving IPv6 scope (zone) identifiers.

use crate::error::Error;
use crate::private::Sealed;
use crate::text::{
    decimal, decimal_text, joined, last_position, law_decimal_round_trips, lemma_last_position,
    parse_u32, rsplit_once, split_at_last, unsigned_value_up_to,
};
use vstd::prelude::*;
use vstd::std_specs::convert::FromSpecImpl;
use vstd::string::*;

verus! {

/// An IPv4 address, held as the number that its four octets write, most
/// significant first.
#[derive(Clone, Copy, Debug, PartialEq, Eq, Hash, Structural)]
pub struct Ipv4Addr {
    /// The address as a number.
    pub bits: u32,
}

/// An IPv6 address, held as the number that its eight segments write, most
/// significant first.
#[derive(Clone, Copy, Debug, PartialEq, Eq, Hash, Structural)]
pub struct Ipv6Addr {
    /// The address as a number.
    pub bits: u128,
}

/// An IP address, either IPv4 or IPv6.
#[derive(Clone, Copy, Debug, PartialEq, Eq, Hash, Structural)]
pub enum IpAddr {
    /// An IPv4 address.
    V4(Ipv4Addr),
    /// An IPv6 address.
    V6(Ipv6Addr),
}

/// An IPv4 address and a port.
#[derive(Clone, Copy, Debug, PartialEq, Eq, Hash, Structural)]
pub struct SocketAddrV4 {
    /// The IPv4 address.
    pub ip: Ipv4Addr,
    /// The port.
    pub port: u16,
}

/// An IPv6 address and a port, with a flow label and a scope (zone) id.
#[derive(Clone, Copy, Debug, PartialEq, Eq, Hash, Structural)]
pub struct SocketAddrV6 {
    /// The IPv6 address.
    pub ip: Ipv6Addr,
    /// The port.
    pub port: u16,
    /// The flow label.
    pub flowinfo: u32,
    /// The scope (zone) id.
    pub scope_id: u32,
}

/// An IP address and a port, either IPv4 or IPv6.
#[derive(Clone, Copy, Debug, PartialEq, Eq, Hash, Structural)]
pub enum SocketAddr {
    /// An IPv4 socket address.
    V4(SocketAddrV4),
    /// An IPv6 socket address.
    V6(SocketAddrV6),
}

impl Ipv4Addr {
    /// The address with the octets `a`, `b`, `c` and `d`.
    pub fn new(a: u8, b: u8, c: u8, d: u8) -> (ip: Ipv4Addr)
        ensures
            ip.bits == ((a * 256 + b) * 256 + c) * 256 + d,
    {
        Ipv4Addr { bits: ((a as u32 * 256 + b as u32) * 256 + c as u32) * 256 + d as u32 }
    }
}

/// The number that four segments write, most significant first.
pub open spec fn segments_value(a: u16, b: u16, c: u16, d: u16) -> int {
    ((a * 0x1_0000 + b) * 0x1_0000 + c) * 0x1_0000 + d
}

fn half(a: u16, b: u16, c: u16, d: u16) -> (r: u64)
    ensures
        r == segments_value(a, b, c, d),
{
    ((a as u64 * 0x1_0000 + b as u64) * 0x1_0000 + c as u64) * 0x1_0000 + d as u64
}

impl Ipv6Addr {
    /// The address with the segments `a` to `h`.
    pub fn new(a: u16, b: u16, c: u16, d: u16, e: u16, f: u16, g: u16, h: u16) -> (ip: Ipv6Addr)
        ensures
            ip.bits == segments_value(a, b, c, d) * 0x1_0000_0000_0000_0000 + segments_value(
                e,
                f,
                g,
                h,
            ),
    {
        Ipv6Addr {
            bits: half(a, b, c, d) as u128 * 0x1_0000_0000_0000_0000 + half(e, f, g, h) as u128,
        }
    }
}

/// An IP address with an optional IPv6 scope (zone) identifier, and no port.
///
/// IPv4 holds just an address; IPv6 holds an address plus a `scope_id`
/// (`0` means "no scope"). ICMP has no ports, so a [`SocketAddr`] converts to
/// this by leaving its port out.
#[derive(Clone, Copy, Debug, PartialEq, Eq, Hash, Structural)]
pub enum HostAddr {
    /// IPv4 host address.
    V4(Ipv4Addr),
    /// IPv6 host address with a scope (zone) id; `0` means "no scope".
    V6 {
        /// The IPv6 address.
        ip: Ipv6Addr,
        /// The scope (zone) id identifying the interface for link-local
        /// addresses. `0` means "no scope".
        scope_id: u32,
    },
}

impl HostAddr {
    /// The IP address without scope information.
    pub open spec fn address(self) -> IpAddr {
        match self {
            HostAddr::V4(ip) => IpAddr::V4(ip),
            HostAddr::V6 { ip, .. } => IpAddr::V6(ip),
        }
    }

    /// The IPv6 scope (zone) id; `0` for IPv4.
    pub open spec fn scope(self) -> u32 {
        match self {
            HostAddr::V4(_) => 0,
            HostAddr::V6 { scope_id, .. } => scope_id,
        }
    }

    /// The address as text, where `ip_text` is the text of its IP address.
    pub open spec fn text(self, ip_text: Seq<char>) -> Seq<char> {
        if self.scope() == 0 {
            ip_text
        } else {
            ip_text + seq!['%'] + decimal_text(self.scope() as nat)
        }
    }

    /// The IP address without scope information.
    pub fn ip(&self) -> (ip: IpAddr)
        ensures
            ip == self.address(),
    {
        match *self {
            HostAddr::V4(ip) => IpAddr::V4(ip),
            HostAddr::V6 { ip, .. } => IpAddr::V6(ip),
        }
    }

    /// The IPv6 scope (zone) id.
    pub fn scope_id(&self) -> (scope_id: u32)
        ensures
            scope_id == self.scope(),
    {
        match *self {
            HostAddr::V4(_) => 0,
            HostAddr::V6 { scope_id, .. } => scope_id,
        }
    }

    /// Returns `true` if this is an IPv4 address.
    pub fn is_ipv4(&self) -> (r: bool)
        ensures
            r == (self is V4),
    {
        matches!(self, HostAddr::V4(_))
    }

    /// Returns `true` if this is an IPv6 address.
    pub fn is_ipv6(&self) -> (r: bool)
        ensures
            r == (self is V6),
    {
        matches!(self, HostAddr::V6 { .. })
    }

    /// The address as text: `ip_text`, the text of its IP address, and a scope
    /// other than `0` behind a percent sign.
    pub fn display(&self, ip_text: &str) -> (text: String)
        ensures
            text@ == self.text(ip_text@),
    {
        let scope_id: u32 = self.scope_id();
        if scope_id == 0 {
            ip_text.to_owned()
        } else {
            proof {
                reveal_strlit("%");
                assert("%"@ =~= seq!['%']);
            }
            joined(joined(ip_text, "%").as_str(), decimal(scope_id as u64).as_str())
        }
    }
}

impl From<Ipv4Addr> for HostAddr {
    fn from(ip: Ipv4Addr) -> (host: HostAddr) {
        HostAddr::V4(ip)
    }
}

impl FromSpecImpl<Ipv4Addr> for HostAddr {
    open spec fn obeys_from_spec() -> bool {
        true
    }

    open spec fn from_spec(ip: Ipv4Addr) -> HostAddr {
        HostAddr::V4(ip)
    }
}

impl From<Ipv6Addr> for HostAddr {
    fn from(ip: Ipv6Addr) -> (host: HostAddr) {
        HostAddr::V6 { ip, scope_id: 0 }
    }
}

impl FromSpecImpl<Ipv6Addr> for HostAddr {
    open spec fn obeys_from_spec() -> bool {
        true
    }

    open spec fn from_spec(ip: Ipv6Addr) -> HostAddr {
        HostAddr::V6 { ip, scope_id: 0 }
    }
}

/// The host address of an IP address, which carries no scope.
pub open spec fn host_of_ip(ip: IpAddr) -> HostAddr {
    match ip {
        IpAddr::V4(ip) => HostAddr::V4(ip),
        IpAddr::V6(ip) => HostAddr::V6 { ip, scope_id: 0 },
    }
}

impl From<IpAddr> for HostAddr {
    fn from(ip: IpAddr) -> (host: HostAddr) {
        match ip {
            IpAddr::V4(ip) => HostAddr::V4(ip),
            IpAddr::V6(ip) => HostAddr::V6 { ip, scope_id: 0 },
        }
    }
}

impl FromSpecImpl<IpAddr> for HostAddr {
    open spec fn obeys_from_spec() -> bool {
        true
    }

    open spec fn from_spec(ip: IpAddr) -> HostAddr {
        host_of_ip(ip)
    }
}

/// The host address of a socket address.
pub open spec fn host_of_socket_addr(addr: SocketAddr) -> HostAddr {
    match addr {
        SocketAddr::V4(v4) => HostAddr::V4(v4.ip),
        SocketAddr::V6(v6) => HostAddr::V6 { ip: v6.ip, scope_id: v6.scope_id },
    }
}

impl From<SocketAddr> for HostAddr {
    fn from(addr: SocketAddr) -> (host: HostAddr) {
        match addr {
            SocketAddr::V4(v4) => HostAddr::V4(v4.ip),
            SocketAddr::V6(v6) => HostAddr::V6 { ip: v6.ip, scope_id: v6.scope_id },
        }
    }
}

impl FromSpecImpl<SocketAddr> for HostAddr {
    open spec fn obeys_from_spec() -> bool {
        true
    }

    open spec fn from_spec(addr: SocketAddr) -> HostAddr {
        host_of_socket_addr(addr)
    }
}

/// What it takes to resolve an input to a host address.
pub enum Resolution {
    /// Nothing: the input is a host address.
    Ready(HostAddr),
    /// A look at `text`; `zoned` is what to read it as if it writes an address
    /// with a numeric zone.
    Lookup {
        text: Seq<char>,
        zoned: Option<(Seq<char>, u32)>,
    },
}

/// The address part and the scope id of `text`, where it ends in a numeric zone
/// behind its last percent sign.
pub open spec fn zoned_parts(text: Seq<char>) -> Option<(Seq<char>, u32)> {
    match split_at_last(text, '%') {
        Some((address, zone)) => match unsigned_value_up_to(zone, u32::MAX as nat) {
            Some(scope_id) => Some((address, scope_id as u32)),
            None => None,
        },
        None => None,
    }
}

/// What it takes to resolve `text`.
pub open spec fn text_resolution(text: Seq<char>) -> Resolution {
    Resolution::Lookup { text, zoned: zoned_parts(text) }
}

/// A text that may write an address or name a host.
pub struct HostQuery {
    /// The text.
    pub text: String,
    /// Its address part and scope id, where it ends in a numeric zone.
    pub zoned: Option<(String, u32)>,
}

impl View for HostQuery {
    type V = Resolution;

    open spec fn view(&self) -> Resolution {
        Resolution::Lookup {
            text: self.text@,
            zoned: match self.zoned {
                Some((address, scope_id)) => Some((address@, scope_id)),
                None => None,
            },
        }
    }
}

impl HostQuery {
    /// Take `text` apart.
    pub fn new(text: &str) -> (query: HostQuery)
        ensures
            query@ == text_resolution(text@),
    {
        let zoned: Option<(String, u32)> = match rsplit_once(text, '%') {
            Some((address, zone)) => match parse_u32(zone) {
                Ok(scope_id) => Some((address.to_owned(), scope_id)),
                Err(_) => None,
            },
            None => None,
        };
        HostQuery { text: text.to_owned(), zoned }
    }

    /// The host address that a text with the numeric zone `zoned` writes, if it
    /// writes one: `plain` is the whole text as an IP address, and `address` the
    /// part before the zone as an IPv6 address.
    pub open spec fn literal_of(
        zoned: Option<(Seq<char>, u32)>,
        plain: Option<IpAddr>,
        address: Option<Ipv6Addr>,
    ) -> Option<HostAddr> {
        match (plain, zoned, address) {
            (Some(ip), _, _) => Some(host_of_ip(ip)),
            (None, Some((_, scope_id)), Some(ip)) => Some(HostAddr::V6 { ip, scope_id }),
            _ => None,
        }
    }

    /// The host address that the text writes, if it writes one.
    ///
    /// `plain` is the whole text as an IP address, and `address` the address
    /// part of [`HostQuery::zoned`] as an IPv6 address, each where it is one. A
    /// text for which there is none has to be looked up by name.
    pub fn literal(&self, plain: Option<IpAddr>, address: Option<Ipv6Addr>) -> (host: Option<
        HostAddr,
    >)
        ensures
            host == HostQuery::literal_of(self@->zoned, plain, address),
    {
        if let Some(ip) = plain {
            return Some(HostAddr::from(ip));
        }
        match (&self.zoned, address) {
            (Some((_, scope_id)), Some(ip)) => Some(HostAddr::V6 { ip, scope_id: *scope_id }),
            _ => None,
        }
    }
}

/// The host address that a lookup by name gives, from the first address found.
pub fn looked_up(first: Option<SocketAddr>) -> (host: Result<HostAddr, Error>)
    ensures
        host == match first {
            Some(addr) => Ok(host_of_socket_addr(addr)),
            None => Err(Error::Unresolved),
        },
{
    match first {
        Some(addr) => Ok(HostAddr::from(addr)),
        None => Err(Error::Unresolved),
    }
}

/// The start of a resolution: done, or a text to look at.
pub struct MaybeReady(State);

enum State {
    Ready(HostAddr),
    Lookup(HostQuery),
}

impl View for MaybeReady {
    type V = Resolution;

    closed spec fn view(&self) -> Resolution {
        match self.0 {
            State::Ready(host) => Resolution::Ready(host),
            State::Lookup(query) => query@,
        }
    }
}

impl MaybeReady {
    /// The host address, where nothing has to be looked at.
    pub fn ready(&self) -> (host: Option<HostAddr>)
        ensures
            host == match self@ {
                Resolution::Ready(host) => Some(host),
                Resolution::Lookup { .. } => None,
            },
    {
        match &self.0 {
            State::Ready(host) => Some(*host),
            State::Lookup(_) => None,
        }
    }

    /// The text to look at, where there is one.
    pub fn query(&self) -> (query: Option<&HostQuery>)
        ensures
            query is Some == self@ is Lookup,
            query matches Some(query) ==> query@ == self@,
    {
        match &self.0 {
            State::Ready(_) => None,
            State::Lookup(query) => Some(query),
        }
    }
}

/// Conversion to a [`HostAddr`], possibly via a DNS lookup.
///
/// This trait is sealed and cannot be implemented outside of this crate. It is
/// implemented for [`HostAddr`], [`IpAddr`], [`Ipv4Addr`], [`Ipv6Addr`],
/// `(Ipv6Addr, u32)`, `&str`, `str`, and `String`.
///
/// The resolved [`HostAddr`] preserves the IPv6 scope (zone) identifier.
/// [`IpAddr`] and [`Ipv6Addr`] cannot represent a scope id; use a `&str`
/// (`"fe80::1%eth0"`) or an `(Ipv6Addr, u32)` tuple for link-local
/// addresses.
pub trait ToHostAddr: Sealed {
    /// What it takes to resolve `self`.
    spec fn resolution(&self) -> Resolution;

    /// Begin resolving `self` to a [`HostAddr`].
    fn to_host_addr(&self) -> (r: MaybeReady)
        ensures
            r@ == self.resolution(),
    ;
}

impl ToHostAddr for HostAddr {
    open spec fn resolution(&self) -> Resolution {
        Resolution::Ready(*self)
    }

    fn to_host_addr(&self) -> (r: MaybeReady) {
        MaybeReady(State::Ready(*self))
    }
}

impl ToHostAddr for IpAddr {
    open spec fn resolution(&self) -> Resolution {
        Resolution::Ready(host_of_ip(*self))
    }

    fn to_host_addr(&self) -> (r: MaybeReady) {
        MaybeReady(State::Ready(HostAddr::from(*self)))
    }
}

impl ToHostAddr for Ipv4Addr {
    open spec fn resolution(&self) -> Resolution {
        Resolution::Ready(HostAddr::V4(*self))
    }

    fn to_host_addr(&self) -> (r: MaybeReady) {
        MaybeReady(State::Ready(HostAddr::V4(*self)))
    }
}

impl ToHostAddr for Ipv6Addr {
    open spec fn resolution(&self) -> Resolution {
        Resolution::Ready(HostAddr::V6 { ip: *self, scope_id: 0 })
    }

    fn to_host_addr(&self) -> (r: MaybeReady) {
        MaybeReady(State::Ready(HostAddr::V6 { ip: *self, scope_id: 0 }))
    }
}

impl ToHostAddr for (Ipv6Addr, u32) {
    open spec fn resolution(&self) -> Resolution {
        Resolution::Ready(HostAddr::V6 { ip: self.0, scope_id: self.1 })
    }

    fn to_host_addr(&self) -> (r: MaybeReady) {
        MaybeReady(State::Ready(HostAddr::V6 { ip: self.0, scope_id: self.1 }))
    }
}

impl ToHostAddr for str {
    open spec fn resolution(&self) -> Resolution {
        text_resolution(self@)
    }

    fn to_host_addr(&self) -> (r: MaybeReady) {
        MaybeReady(State::Lookup(HostQuery::new(self)))
    }
}

impl ToHostAddr for &str {
    open spec fn resolution(&self) -> Resolution {
        text_resolution(self@)
    }

    fn to_host_addr(&self) -> (r: MaybeReady) {
        (**self).to_host_addr()
    }
}

impl ToHostAddr for String {
    open spec fn resolution(&self) -> Resolution {
        text_resolution(self@)
    }

    fn to_host_addr(&self) -> (r: MaybeReady) {
        self.as_str().to_host_addr()
    }
}

/// The host address that `text` writes, if it writes one, where `read_ip` and
/// `read_v6` are how a text is read as an IP address and as an IPv6 address.
pub open spec fn text_literal(
    text: Seq<char>,
    read_ip: spec_fn(Seq<char>) -> Option<IpAddr>,
    read_v6: spec_fn(Seq<char>) -> Option<Ipv6Addr>,
) -> Option<HostAddr> {
    HostQuery::literal_of(
        zoned_parts(text),
        read_ip(text),
        match zoned_parts(text) {
            Some((address, _)) => read_v6(address),
            None => None,
        },
    )
}

/// A host address written as text is read back as itself, without a lookup, and
/// the text holds a percent sign exactly where there is a scope.
///
/// This is for every way to read and write IP addresses that reads back the text
/// of its address, and takes no text with a percent sign for an IP address.
pub proof fn law_display_round_trips(
    host: HostAddr,
    ip_text: Seq<char>,
    read_ip: spec_fn(Seq<char>) -> Option<IpAddr>,
    read_v6: spec_fn(Seq<char>) -> Option<Ipv6Addr>,
)
    requires
        read_ip(ip_text) == Some(host.address()),
        host matches HostAddr::V6 { ip, .. } ==> read_v6(ip_text) == Some(ip),
        forall|text: Seq<char>| text.contains('%') ==> #[trigger] read_ip(text) is None,
    ensures
        text_literal(host.text(ip_text), read_ip, read_v6) == Some(host),
        host.text(ip_text).contains('%') <==> host.scope() != 0,
{
    let text = host.text(ip_text);
    if host.scope() != 0 {
        let zone = decimal_text(host.scope() as nat);
        law_decimal_round_trips(host.scope() as nat);
        lemma_last_position(text, '%');
        let k: int = ip_text.len() as int;
        assert(text[k] == '%');
        assert forall|i: int| k < i < text.len() implies text[i] != '%' by {
            assert(text[i] == zone[i - k - 1]);
        }
        assert(last_position(text, '%') == Some(k));
        assert(text.take(k) =~= ip_text);
        assert(text.skip(k + 1) =~= zone);
        assert(text.contains('%'));
    }
}

/// The host address of an IP address has that address and no scope, and that of
/// a socket address keeps the scope.
pub proof fn law_host_addr_keeps_address_and_scope(ip: IpAddr, v6: SocketAddrV6)
    ensures
        host_of_ip(ip).address() == ip,
        host_of_ip(ip).scope() == 0,
        host_of_socket_addr(SocketAddr::V6(v6)).address() == IpAddr::V6(v6.ip),
        host_of_socket_addr(SocketAddr::V6(v6)).scope() == v6.scope_id,
{
}

} // verus!
