//! The decisions behind an ICMP socket: which kind to open, how to set it up,
//! and which identifiers its requests carry.

use crate::addr::{host_of_socket_addr, HostAddr, SocketAddr, SocketAddrV4, SocketAddrV6};
use vstd::prelude::*;

verus! {

/// Whether the ICMP socket was created via `SOCK_DGRAM` or `SOCK_RAW`.
///
/// This determines how received data is interpreted:
/// - `Raw`: The kernel delivers the full IP packet; an IP header precedes the
///   ICMP message. TTL is read from the IP header directly.
/// - `Dgram`: The kernel strips the IP header; the ICMP message starts at
///   byte 0. TTL must be retrieved via `IP_RECVTTL` / `IP_TTL` control
///   messages.
#[derive(Clone, Copy, Debug, PartialEq, Eq, Structural)]
pub enum SocketType {
    /// `SOCK_RAW`.
    Raw,
    /// `SOCK_DGRAM`.
    Dgram,
}

/// The families of operating systems between which ICMP sockets differ.
#[derive(Clone, Copy, Debug, PartialEq, Eq, Structural)]
pub enum Platform {
    /// Linux and Android.
    Linux,
    /// macOS and its relatives.
    Apple,
    /// The other BSDs and Unix systems.
    Other,
}

/// The address family of a socket.
#[derive(Clone, Copy, Debug, PartialEq, Eq, Structural)]
pub enum Domain {
    /// IPv4, with ICMPv4 as its protocol.
    Ipv4,
    /// IPv6, with ICMPv6 as its protocol.
    Ipv6,
}

/// The numbers by which the operating system names errors, levels, options and
/// flags.
#[derive(Clone, Copy, Debug, PartialEq, Eq, Structural)]
pub struct OsConstants {
    /// `EACCES`: permission denied.
    pub eacces: i32,
    /// `EAFNOSUPPORT`: address family not supported.
    pub eafnosupport: i32,
    /// `EPROTONOSUPPORT`: protocol not supported.
    pub eprotonosupport: i32,
    /// `IPPROTO_IP`: the level of IPv4 options and control messages.
    pub ipproto_ip: i32,
    /// `IP_TTL`: a time to live.
    pub ip_ttl: i32,
    /// `IPPROTO_IPV6`: the level of IPv6 options and control messages.
    pub ipproto_ipv6: i32,
    /// `IPV6_HOPLIMIT`: a hop limit.
    pub ipv6_hoplimit: i32,
    /// `MSG_CTRUNC`: the flag of truncated control data.
    pub msg_ctrunc: i32,
}

impl OsConstants {
    /// What holds of the constants on every Unix system: the two levels are the
    /// protocol numbers 0 and 41, the three errors are errors and differ, the time
    /// to live has a smaller number than the hop limit, both above 0, and the flag
    /// is not empty.
    pub open spec fn are_sound(self) -> bool {
        &&& self.ipproto_ip == 0
        &&& self.ipproto_ipv6 == 41
        &&& self.eacces != 0
        &&& self.eafnosupport != 0
        &&& self.eprotonosupport != 0
        &&& self.eacces != self.eafnosupport
        &&& self.eacces != self.eprotonosupport
        &&& self.eafnosupport != self.eprotonosupport
        &&& 0 < self.ip_ttl < self.ipv6_hoplimit
        &&& self.msg_ctrunc != 0
    }
}

/// The constants of the `libc` crate for the system that the code is built for.
///
/// Apart from the two levels their values differ between systems, so of those
/// only what [`OsConstants::are_sound`] says is claimed, which holds on every
/// system for which the crate has all of them.
#[verifier::external_body]
fn libc_constants() -> (os: OsConstants)
    ensures
        os.are_sound(),
{
    OsConstants {
        eacces: libc::EACCES,
        eafnosupport: libc::EAFNOSUPPORT,
        eprotonosupport: libc::EPROTONOSUPPORT,
        ipproto_ip: libc::IPPROTO_IP,
        ip_ttl: libc::IP_TTL,
        ipproto_ipv6: libc::IPPROTO_IPV6,
        ipv6_hoplimit: libc::IPV6_HOPLIMIT,
        msg_ctrunc: libc::MSG_CTRUNC,
    }
}

impl OsConstants {
    /// The constants of the system that the code is built for.
    pub fn host() -> (os: OsConstants)
        ensures
            os.are_sound(),
    {
        libc_constants()
    }
}

/// The kind of ICMP socket to try first.
///
/// On Linux this is `SOCK_DGRAM`. On Apple platforms it is `SOCK_DGRAM` when not
/// running as root and `SOCK_RAW` when running as root. On all other platforms
/// it is `SOCK_RAW`.
pub fn first_socket_type(platform: Platform, is_root: bool) -> (sock_type: SocketType)
    ensures
        sock_type == match platform {
            Platform::Linux => SocketType::Dgram,
            Platform::Apple => if is_root {
                SocketType::Raw
            } else {
                SocketType::Dgram
            },
            Platform::Other => SocketType::Raw,
        },
{
    match platform {
        Platform::Linux => SocketType::Dgram,
        Platform::Apple => if is_root {
            SocketType::Raw
        } else {
            SocketType::Dgram
        },
        Platform::Other => SocketType::Raw,
    }
}

/// Whether `code` says that an unprivileged ICMP socket is denied or unknown.
pub open spec fn denies_ping_socket(code: Option<i32>, os: OsConstants) -> bool {
    match code {
        Some(code) => code == os.eacces || code == os.eafnosupport || code == os.eprotonosupport,
        None => false,
    }
}

/// The kind of ICMP socket to try after one of kind `tried` could not be opened
/// for the system error `code`, or `None` where that error stands.
///
/// On Linux, `SOCK_DGRAM` falls back to `SOCK_RAW` on `EACCES`, `EAFNOSUPPORT`,
/// or `EPROTONOSUPPORT`.
pub fn fallback_socket_type(
    platform: Platform,
    tried: SocketType,
    code: Option<i32>,
    os: &OsConstants,
) -> (next: Option<SocketType>)
    ensures
        next == if platform == Platform::Linux && tried == SocketType::Dgram && denies_ping_socket(
            code,
            *os,
        ) {
            Some(SocketType::Raw)
        } else {
            None
        },
{
    if platform == Platform::Linux && tried == SocketType::Dgram {
        if let Some(code) = code {
            if code == os.eacces || code == os.eafnosupport || code == os.eprotonosupport {
                return Some(SocketType::Raw);
            }
        }
    }
    None
}

/// The address family of a host address.
pub open spec fn domain_of(host: HostAddr) -> Domain {
    match host {
        HostAddr::V4(_) => Domain::Ipv4,
        HostAddr::V6 { .. } => Domain::Ipv6,
    }
}

/// The address family of a socket for `host`.
pub fn socket_domain(host: HostAddr) -> (domain: Domain)
    ensures
        domain == domain_of(host),
{
    match host {
        HostAddr::V4(_) => Domain::Ipv4,
        HostAddr::V6 { .. } => Domain::Ipv6,
    }
}

/// The socket option that governs fragmentation, and what to set it to.
#[derive(Clone, Copy, Debug, PartialEq, Eq, Structural)]
pub enum FragmentOption {
    /// Path MTU discovery (`IP_MTU_DISCOVER` / `IPV6_MTU_DISCOVER`): always
    /// (`PMTUDISC_DO`) where the flag is set, else never (`PMTUDISC_DONT`).
    MtuDiscover(bool),
    /// The don't-fragment flag (`IP_DONTFRAG` / `IPV6_DONTFRAG`).
    DontFragment(bool),
}

/// The option that has packets sent unfragmented, or not.
pub fn set_dont_fragment(platform: Platform, dont_fragment: bool) -> (option: FragmentOption)
    ensures
        option == if platform == Platform::Linux {
            FragmentOption::MtuDiscover(dont_fragment)
        } else {
            FragmentOption::DontFragment(dont_fragment)
        },
{
    match platform {
        Platform::Linux => FragmentOption::MtuDiscover(dont_fragment),
        _ => FragmentOption::DontFragment(dont_fragment),
    }
}

/// The socket address of `host` with `port`. The IPv6 scope id is preserved.
pub open spec fn socket_addr_of(host: HostAddr, port: u16) -> SocketAddr {
    match host {
        HostAddr::V4(ip) => SocketAddr::V4(SocketAddrV4 { ip, port }),
        HostAddr::V6 { ip, scope_id } => SocketAddr::V6(
            SocketAddrV6 { ip, port, flowinfo: 0, scope_id },
        ),
    }
}

fn socket_addr(host: HostAddr, port: u16) -> (addr: SocketAddr)
    ensures
        addr == socket_addr_of(host, port),
{
    match host {
        HostAddr::V4(ip) => SocketAddr::V4(SocketAddrV4 { ip, port }),
        HostAddr::V6 { ip, scope_id } => SocketAddr::V6(
            SocketAddrV6 { ip, port, flowinfo: 0, scope_id },
        ),
    }
}

/// How to set up and bind an ICMP socket.
#[derive(Clone, Copy, Debug, PartialEq, Eq, Structural)]
pub struct BindPlan {
    /// Ask for the time to live of received packets (`IP_RECVTTL`).
    pub recv_ttl: bool,
    /// Ask for the hop limit of received packets (`IPV6_RECVHOPLIMIT`).
    pub recv_hoplimit: bool,
    /// The fragmentation option to set, if any.
    pub fragment: Option<FragmentOption>,
    /// The address to bind to.
    pub addr: SocketAddr,
}

/// How to set up a socket of kind `sock_type` and bind it to `host`.
///
/// `ident` is the identifier of a Linux `SOCK_DGRAM` socket, which is its port;
/// other sockets bind port 0. Fragmentation is left alone for IPv6 on Apple
/// platforms when not running as root.
pub fn plan_bind(
    host: HostAddr,
    sock_type: SocketType,
    platform: Platform,
    is_root: bool,
    ident: Option<u16>,
) -> (plan: BindPlan)
    ensures
        plan.recv_ttl == (sock_type == SocketType::Dgram && host is V4),
        plan.recv_hoplimit == host is V6,
        plan.fragment == if platform == Platform::Apple && host is V6 && !is_root {
            None
        } else if platform == Platform::Linux {
            Some(FragmentOption::MtuDiscover(true))
        } else {
            Some(FragmentOption::DontFragment(true))
        },
        plan.addr == socket_addr_of(
            host,
            match ident {
                Some(port) => port,
                None => 0,
            },
        ),
{
    let v6: bool = host.is_ipv6();
    let skip_dontfrag: bool = platform == Platform::Apple && v6 && !is_root;
    let port: u16 = match ident {
        Some(port) => port,
        None => 0,
    };
    BindPlan {
        recv_ttl: sock_type == SocketType::Dgram && !v6,
        recv_hoplimit: v6,
        fragment: if skip_dontfrag {
            None
        } else {
            Some(set_dont_fragment(platform, true))
        },
        addr: socket_addr(host, port),
    }
}

/// The socket address to connect to for `host`.
///
/// The IPv6 scope (zone) id is preserved. The connect port is always `0`.
pub fn connect_addr(host: HostAddr) -> (addr: SocketAddr)
    ensures
        addr == socket_addr_of(host, 0),
{
    socket_addr(host, 0)
}

/// A counter that gives out request identifiers.
#[derive(Clone, Copy, Debug, PartialEq, Eq, Structural)]
pub struct RequestIds {
    /// The identifier to give out next.
    pub next: u16,
}

/// The identifier after `id`; they start over after 65535.
pub open spec fn id_after(id: u16) -> u16 {
    if id == u16::MAX {
        0
    } else {
        (id + 1) as u16
    }
}

impl RequestIds {
    /// A counter that starts at the process id `pid` mixed with `nanos`, the
    /// nanoseconds of the current second, which spreads starting points around
    /// the 16-bit space.
    pub fn seeded(pid: u32, nanos: u32) -> (ids: RequestIds)
        ensures
            ids.next == (pid as u64 ^ nanos as u64 ^ (nanos as u64 >> 16)) & 0xffff,
    {
        let pid: u64 = pid as u64;
        let nanos: u64 = nanos as u64;
        let mixed: u64 = (pid ^ nanos ^ (nanos >> 16)) & 0xffff;
        assert(mixed <= 0xffff) by (bit_vector)
            requires
                mixed == (pid ^ nanos ^ (nanos >> 16)) & 0xffff,
        ;
        RequestIds { next: mixed as u16 }
    }

    /// Give out the next identifier.
    pub fn take(&mut self) -> (id: u16)
        ensures
            id == old(self).next,
            final(self).next == id_after(id),
    {
        let id: u16 = self.next;
        self.next = if id == u16::MAX {
            0
        } else {
            id + 1
        };
        id
    }

    /// Give out the next identifier other than `0`.
    pub fn take_nonzero(&mut self) -> (id: u16)
        ensures
            id == ident_from(old(self).next),
            final(self).next == id_after(id),
    {
        let candidate: u16 = self.take();
        if candidate != 0 {
            candidate
        } else {
            self.take()
        }
    }

    /// The identifier to bind a socket of kind `sock_type` with: one other than
    /// `0` for Linux `SOCK_DGRAM` sockets, none for others.
    pub fn dgram_ident(&mut self, platform: Platform, sock_type: SocketType) -> (ident: Option<u16>)
        ensures
            if platform == Platform::Linux && sock_type == SocketType::Dgram {
                ident == Some(ident_from(old(self).next)) && final(self).next == id_after(ident->0)
            } else {
                ident is None && final(self).next == old(self).next
            },
    {
        if platform == Platform::Linux && sock_type == SocketType::Dgram {
            Some(self.take_nonzero())
        } else {
            None
        }
    }

    /// The identifier of a request on a socket that was bound with `ident`: that
    /// one where there is one, since the kernel sends it anyway, else the next.
    pub fn request_id(&mut self, ident: Option<u16>) -> (id: u16)
        ensures
            match ident {
                Some(bound) => id == bound && final(self).next == old(self).next,
                None => id == old(self).next && final(self).next == id_after(id),
            },
    {
        match ident {
            Some(id) => id,
            None => self.take(),
        }
    }
}

/// The identifier that a counter at `next` gives to a Linux `SOCK_DGRAM` socket.
pub open spec fn ident_from(next: u16) -> u16 {
    if next == 0 {
        1
    } else {
        next
    }
}

/// The identifier that the socket number `k` gets of a counter at `next`,
/// counting from zero, where only such sockets draw from it.
pub open spec fn nth_ident(next: u16, k: nat) -> u16
    decreases k,
{
    if k == 0 {
        ident_from(next)
    } else {
        nth_ident(id_after(ident_from(next)), (k - 1) as nat)
    }
}

/// Binding and connecting keep the host: its address and its scope are those of
/// the socket address, whatever the port.
pub proof fn law_socket_addr_keeps_host(host: HostAddr, port: u16)
    ensures
        host_of_socket_addr(socket_addr_of(host, port)) == host,
{
}

/// No 65535 successive sockets share an identifier, and none gets `0`.
pub proof fn law_idents_are_unique(next: u16, i: nat, j: nat)
    requires
        i < j < i + 65535,
    ensures
        nth_ident(next, i) != nth_ident(next, j),
        nth_ident(next, i) != 0,
{
    lemma_nth_ident(next, i);
    lemma_nth_ident(next, j);
}

proof fn lemma_nth_ident(next: u16, k: nat)
    ensures
        nth_ident(next, k) == (ident_from(next) - 1 + k) % 65535 + 1,
    decreases k,
{
    if k > 0 {
        lemma_nth_ident(id_after(ident_from(next)), (k - 1) as nat);
    }
}

} // verus!
