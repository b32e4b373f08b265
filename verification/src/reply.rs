//! Telling the reply to a request from everything else that a socket receives.

use crate::addr::{Ipv4Addr, Ipv6Addr};
use crate::error::Error;
use crate::net::{OsConstants, Platform, SocketType};
use crate::packet::{
    be16, payload_bytes, read_be16, sealed, unsealed_request, ICMP6_ECHO_REPLY,
    ICMP6_ECHO_REQUEST, ICMP_ECHO_REPLY, ICMP_ECHO_REQUEST, ICMP_HEADER_SIZE, IP_HEADER_SIZE,
    TIMESTAMP_SIZE,
};
use crate::time::{be32, duration_nanos, elapsed_nanos, Timestamp};
use std::time::Duration;
use vstd::prelude::*;

verus! {

/// The byte order of a machine.
#[derive(Clone, Copy, Debug, PartialEq, Eq, Structural)]
pub enum ByteOrder {
    /// Least significant byte first.
    Little,
    /// Most significant byte first.
    Big,
}

/// A control message that came with a datagram.
pub struct ControlMessage {
    /// The protocol that the message belongs to (`cmsg_level`).
    pub level: i32,
    /// The kind of message within that protocol (`cmsg_type`).
    pub kind: i32,
    /// What stands behind the header of the message (`CMSG_DATA`).
    pub data: Vec<u8>,
}

/// A datagram and what the system says of it.
pub struct Datagram<A> {
    /// The bytes of the datagram.
    pub data: Vec<u8>,
    /// The flags of the received message (`msg_flags`).
    pub flags: i32,
    /// The address of the sender, if there is one of the right family.
    pub source: Option<A>,
    /// The control messages, in order.
    pub control: Vec<ControlMessage>,
}

/// The number that the first four bytes of `data` write in `order`, without sign.
pub open spec fn leading_word(data: Seq<u8>, order: ByteOrder) -> int {
    match order {
        ByteOrder::Little => ((data[3] * 256 + data[2]) * 256 + data[1]) * 256 + data[0],
        ByteOrder::Big => ((data[0] * 256 + data[1]) * 256 + data[2]) * 256 + data[3],
    }
}

/// The signed 32-bit integer that the first four bytes of `data` write in
/// `order`.
pub open spec fn leading_int(data: Seq<u8>, order: ByteOrder) -> int {
    let word = leading_word(data, order);
    if word < 0x8000_0000 {
        word
    } else {
        word - 0x1_0000_0000
    }
}

/// Whether `message` is of that level and kind, and long enough for an integer.
pub open spec fn carries_int(message: ControlMessage, level: i32, kind: i32) -> bool {
    message.level == level && message.kind == kind && message.data@.len() >= 4
}

/// The octet in the first of `messages` that carries an integer of that level
/// and kind. `None` where there is no such message or its integer is no octet.
pub open spec fn first_octet(
    messages: Seq<ControlMessage>,
    level: i32,
    kind: i32,
    order: ByteOrder,
) -> Option<u8>
    decreases messages.len(),
{
    if messages.len() == 0 {
        None
    } else if carries_int(messages[0], level, kind) {
        let value = leading_int(messages[0].data@, order);
        if 0 <= value <= 255 {
            Some(value as u8)
        } else {
            None
        }
    } else {
        first_octet(messages.skip(1), level, kind, order)
    }
}

/// The number that the first four bytes of `data` write in `order`, without sign.
fn read_word(data: &Vec<u8>, order: ByteOrder) -> (r: u32)
    requires
        data@.len() >= 4,
    ensures
        r == leading_word(data@, order),
{
    let b0: u32 = data[0] as u32;
    let b1: u32 = data[1] as u32;
    let b2: u32 = data[2] as u32;
    let b3: u32 = data[3] as u32;
    match order {
        ByteOrder::Little => ((b3 * 256 + b2) * 256 + b1) * 256 + b0,
        ByteOrder::Big => ((b0 * 256 + b1) * 256 + b2) * 256 + b3,
    }
}

fn decode_octet(
    messages: &[ControlMessage],
    level: i32,
    kind: i32,
    order: ByteOrder,
) -> (octet: Option<u8>)
    ensures
        octet == first_octet(messages@, level, kind, order),
{
    let mut i: usize = 0;
    assert(messages@.skip(0) =~= messages@);
    while i < messages.len()
        invariant
            i <= messages@.len(),
            first_octet(messages@.skip(i as int), level, kind, order) == first_octet(
                messages@,
                level,
                kind,
                order,
            ),
        decreases messages@.len() - i,
    {
        let message: &ControlMessage = &messages[i];
        assert(messages@.skip(i as int).skip(1) =~= messages@.skip(i + 1));
        if message.level == level && message.kind == kind && message.data.len() >= 4 {
            let word: u32 = read_word(&message.data, order);
            if word <= 255 {
                return Some(word as u8);
            }
            return None;
        }
        i = i + 1;
    }
    None
}

/// Extract the `IP_TTL` ancillary value from the control messages of a datagram.
///
/// Returns `None` when no matching message is present or the value does not fit
/// in a `u8`.
pub fn decode_ip_ttl(messages: &[ControlMessage], os: &OsConstants, order: ByteOrder) -> (ttl: Option<
    u8,
>)
    ensures
        ttl == first_octet(messages@, os.ipproto_ip, os.ip_ttl, order),
{
    decode_octet(messages, os.ipproto_ip, os.ip_ttl, order)
}

/// Extract the `IPV6_HOPLIMIT` ancillary value from the control messages of a
/// datagram.
///
/// Returns `None` when no matching message is present or the value does not fit
/// in a `u8`.
pub fn decode_hlim(messages: &[ControlMessage], os: &OsConstants, order: ByteOrder) -> (hlim: Option<
    u8,
>)
    ensures
        hlim == first_octet(messages@, os.ipproto_ipv6, os.ipv6_hoplimit, order),
{
    decode_octet(messages, os.ipproto_ipv6, os.ipv6_hoplimit, order)
}

/// The result of a successful ICMPv4 echo (ping) exchange.
#[derive(Clone, Copy, Debug)]
pub struct IcmpEchoReply {
    /// Source IPv4 address of the host that sent the echo reply.
    pub src_addr: Ipv4Addr,
    /// Total byte length of the received ICMP message (header + payload).
    pub len: usize,
    /// Sequence number echoed back by the remote host.
    pub seq: u16,
    /// Time-to-live value from the IP header of the reply.
    pub ttl: u8,
    /// Round-trip time measured from request transmission to reply receipt.
    pub rtt: Duration,
}

/// The result of a successful ICMPv6 echo (ping) exchange.
#[derive(Clone, Copy, Debug)]
pub struct IcmpV6EchoReply {
    /// Source IPv6 address of the host that sent the echo reply.
    pub src_addr: Ipv6Addr,
    /// Total byte length of the received ICMPv6 message (header + payload).
    pub len: usize,
    /// Sequence number echoed back by the remote host.
    pub seq: u16,
    /// Hop limit (analogous to TTL) from the received IPv6 packet.
    pub hlim: u8,
    /// Round-trip time measured from request transmission to reply receipt.
    pub rtt: Duration,
}

/// Whether a socket delivers ICMPv4 messages without the IP header before them.
///
/// On Linux, `SOCK_DGRAM` sockets strip the IP header and deliver the TTL in a
/// control message. On other platforms the full IP header is present, including
/// on Apple `SOCK_DGRAM` sockets.
pub fn strips_ip_header(platform: Platform, sock_type: SocketType) -> (r: bool)
    ensures
        r == (platform == Platform::Linux && sock_type == SocketType::Dgram),
{
    sock_type == SocketType::Dgram && platform == Platform::Linux
}

/// The length of the reply to a request with `payload_len` bytes of payload, with
/// the IP header before it unless that is `stripped`.
pub open spec fn reply_room(payload_len: nat, stripped: bool) -> nat {
    if stripped {
        ICMP_HEADER_SIZE as nat + TIMESTAMP_SIZE as nat + payload_len
    } else {
        IP_HEADER_SIZE as nat + ICMP_HEADER_SIZE as nat + TIMESTAMP_SIZE as nat + payload_len
    }
}

/// The size of a buffer for the reply to a request with `payload_len` bytes of
/// payload, with room for an IP header unless it is `stripped`.
pub fn reply_capacity(payload_len: usize, stripped: bool) -> (size: usize)
    requires
        reply_room(payload_len as nat, stripped) <= usize::MAX,
    ensures
        size == reply_room(payload_len as nat, stripped),
{
    let message: usize = ICMP_HEADER_SIZE + TIMESTAMP_SIZE + payload_len;
    if stripped {
        message
    } else {
        IP_HEADER_SIZE + message
    }
}

/// A request that was sent and waits for its reply.
#[derive(Clone, Copy, Debug, PartialEq, Eq, Structural)]
pub struct EchoProbe {
    /// The identifier of the request.
    pub id: u16,
    /// The sequence number of the request.
    pub seq: u16,
    /// The send time that the request carries.
    pub sent: Timestamp,
}

impl EchoProbe {
    /// Whether `message` is the reply to the request: a message of type
    /// `reply_type` that echoes its identifier, sequence number and send time.
    pub open spec fn answered_by(self, reply_type: u8, message: Seq<u8>) -> bool {
        &&& message.len() >= ICMP_HEADER_SIZE + TIMESTAMP_SIZE
        &&& message[0] == reply_type
        &&& be16(message[4], message[5]) == self.id
        &&& be16(message[6], message[7]) == self.seq
        &&& message.subrange(8, 16) == self.sent.bytes()
    }

    /// Whether `packet` is an IPv4 header and then the reply to the request.
    pub open spec fn answered_by_packet(self, packet: Seq<u8>) -> bool {
        &&& packet.len() >= IP_HEADER_SIZE
        &&& self.answered_by(ICMP_ECHO_REPLY, packet.skip(IP_HEADER_SIZE as int))
    }

    /// Whether the message that starts at byte `start` of `buf` is the reply.
    fn is_answered(&self, reply_type: u8, buf: &[u8], start: usize) -> (r: bool)
        requires
            start <= 20,
        ensures
            r == (buf@.len() >= start && self.answered_by(reply_type, buf@.skip(start as int))),
    {
        if buf.len() < start + ICMP_HEADER_SIZE + TIMESTAMP_SIZE {
            return false;
        }
        let ghost message = buf@.skip(start as int);
        if buf[start] != reply_type {
            return false;
        }
        if read_be16(buf[start + 4], buf[start + 5]) != self.id {
            return false;
        }
        if read_be16(buf[start + 6], buf[start + 7]) != self.seq {
            return false;
        }
        let sent: [u8; 8] = self.sent.as_bytes();
        let mut i: usize = 0;
        while i < 8
            invariant
                i <= 8,
                start <= 20,
                buf@.len() >= start + 16,
                message == buf@.skip(start as int),
                sent@ == self.sent.bytes(),
                forall|k: int| 0 <= k < i ==> message[8 + k] == #[trigger] sent@[k],
            decreases 8 - i,
        {
            if buf[start + 8 + i] != sent[i] {
                assert(message.subrange(8, 16)[i as int] != sent@[i as int]);
                return false;
            }
            i = i + 1;
        }
        assert(message.subrange(8, 16) =~= self.sent.bytes());
        true
    }

    /// The round-trip time of the reply in `buf`, received at `now`, from the
    /// timestamp that starts at byte `start`.
    fn round_trip(&self, buf: &[u8], start: usize, now: Timestamp) -> (rtt: Duration)
        requires
            start + 8 <= buf@.len(),
            buf@.subrange(start as int, start + 8) == self.sent.bytes(),
        ensures
            duration_nanos(rtt) == elapsed_nanos(now, self.sent),
    {
        let stamp: [u8; 8] = [
            buf[start],
            buf[start + 1],
            buf[start + 2],
            buf[start + 3],
            buf[start + 4],
            buf[start + 5],
            buf[start + 6],
            buf[start + 7],
        ];
        proof {
            assert(stamp@ =~= buf@.subrange(start as int, start + 8));
            crate::time::law_timestamp_round_trips(self.sent);
        }
        now - Timestamp::from(stamp)
    }
}

/// The source address in the IPv4 header that opens `packet`.
pub open spec fn packet_source(packet: Seq<u8>) -> Ipv4Addr {
    Ipv4Addr { bits: be32(packet[12], packet[13], packet[14], packet[15]) }
}

/// What becomes of a received datagram.
pub enum Disposition {
    /// It is something else, so the wait goes on.
    Ignore,
    /// The wait ends in this error.
    Fail(Error),
    /// It is the reply.
    Accept,
}

/// Whether `flags` says that control data was cut off.
pub open spec fn control_truncated(flags: i32, os: OsConstants) -> bool {
    flags & os.msg_ctrunc != 0
}

impl EchoProbe {
    /// What becomes of a datagram without an IP header, on a socket for ICMPv4.
    pub open spec fn dgram_disposition(
        self,
        datagram: Datagram<Ipv4Addr>,
        os: OsConstants,
    ) -> Disposition {
        if control_truncated(datagram.flags, os) {
            Disposition::Fail(Error::ControlTruncated)
        } else if !self.answered_by(ICMP_ECHO_REPLY, datagram.data@) {
            Disposition::Ignore
        } else if datagram.source is None {
            Disposition::Fail(Error::NoSourceAddress)
        } else {
            Disposition::Accept
        }
    }

    /// What becomes of a datagram on a socket for ICMPv6.
    pub open spec fn v6_disposition(
        self,
        datagram: Datagram<Ipv6Addr>,
        os: OsConstants,
        order: ByteOrder,
    ) -> Disposition {
        if control_truncated(datagram.flags, os) {
            Disposition::Fail(Error::ControlTruncated)
        } else if !self.answered_by(ICMP6_ECHO_REPLY, datagram.data@) {
            Disposition::Ignore
        } else if datagram.source is None {
            Disposition::Fail(Error::NoSourceAddress)
        } else if first_octet(datagram.control@, os.ipproto_ipv6, os.ipv6_hoplimit, order) is None {
            Disposition::Fail(Error::MissingHopLimit)
        } else {
            Disposition::Accept
        }
    }

    /// The reply in an IPv4 packet that was received at `now`, or `None` where
    /// the packet is something else. The packet starts with its IP header.
    pub fn receive_v4_raw(&self, packet: &[u8], now: Timestamp) -> (reply: Option<IcmpEchoReply>)
        ensures
            reply is Some == self.answered_by_packet(packet@),
            reply matches Some(r) ==> {
                &&& r.src_addr == packet_source(packet@)
                &&& r.len == packet@.len() - IP_HEADER_SIZE
                &&& r.seq == self.seq
                &&& r.ttl == packet@[8]
                &&& duration_nanos(r.rtt) == elapsed_nanos(now, self.sent)
            },
    {
        if !self.is_answered(ICMP_ECHO_REPLY, packet, IP_HEADER_SIZE) {
            return None;
        }
        assert(packet@.skip(20).subrange(8, 16) =~= packet@.subrange(28, 36));
        Some(
            IcmpEchoReply {
                src_addr: Ipv4Addr::new(packet[12], packet[13], packet[14], packet[15]),
                len: packet.len() - IP_HEADER_SIZE,
                seq: self.seq,
                ttl: packet[8],
                rtt: self.round_trip(packet, IP_HEADER_SIZE + ICMP_HEADER_SIZE, now),
            },
        )
    }

    /// The reply in a datagram without an IP header that was received at `now`
    /// on a socket for ICMPv4, or `None` where the datagram is something else.
    ///
    /// Without an `IP_TTL` control message, the TTL falls back to 0 instead of
    /// dropping the reply.
    pub fn receive_v4_dgram(
        &self,
        datagram: &Datagram<Ipv4Addr>,
        os: &OsConstants,
        order: ByteOrder,
        now: Timestamp,
    ) -> (reply: Result<Option<IcmpEchoReply>, Error>)
        ensures
            match self.dgram_disposition(*datagram, *os) {
                Disposition::Ignore => reply == Ok::<Option<IcmpEchoReply>, Error>(None),
                Disposition::Fail(error) => reply == Err::<Option<IcmpEchoReply>, Error>(error),
                Disposition::Accept => {
                    &&& reply matches Ok(Some(r))
                    &&& Some(r.src_addr) == datagram.source
                    &&& r.len == datagram.data@.len()
                    &&& r.seq == self.seq
                    &&& r.ttl == match first_octet(
                        datagram.control@,
                        os.ipproto_ip,
                        os.ip_ttl,
                        order,
                    ) {
                        Some(ttl) => ttl,
                        None => 0,
                    }
                    &&& duration_nanos(r.rtt) == elapsed_nanos(now, self.sent)
                },
            },
    {
        if datagram.flags & os.msg_ctrunc != 0 {
            return Err(Error::ControlTruncated);
        }
        assert(datagram.data@.skip(0) =~= datagram.data@);
        if !self.is_answered(ICMP_ECHO_REPLY, &datagram.data, 0) {
            return Ok(None);
        }
        let src_addr: Ipv4Addr = match datagram.source {
            Some(ip) => ip,
            None => {
                return Err(Error::NoSourceAddress);
            },
        };
        let ttl: u8 = match decode_ip_ttl(&datagram.control, os, order) {
            Some(ttl) => ttl,
            None => 0,
        };
        Ok(
            Some(
                IcmpEchoReply {
                    src_addr,
                    len: datagram.data.len(),
                    seq: self.seq,
                    ttl,
                    rtt: self.round_trip(&datagram.data, ICMP_HEADER_SIZE, now),
                },
            ),
        )
    }

    /// The reply in a datagram that was received at `now` on a socket for
    /// ICMPv6, or `None` where the datagram is something else.
    ///
    /// On truncated ancillary data this is an error rather than a possibly wrong
    /// hop limit.
    pub fn receive_v6(
        &self,
        datagram: &Datagram<Ipv6Addr>,
        os: &OsConstants,
        order: ByteOrder,
        now: Timestamp,
    ) -> (reply: Result<Option<IcmpV6EchoReply>, Error>)
        ensures
            match self.v6_disposition(*datagram, *os, order) {
                Disposition::Ignore => reply == Ok::<Option<IcmpV6EchoReply>, Error>(None),
                Disposition::Fail(error) => reply == Err::<Option<IcmpV6EchoReply>, Error>(error),
                Disposition::Accept => {
                    &&& reply matches Ok(Some(r))
                    &&& Some(r.src_addr) == datagram.source
                    &&& r.len == datagram.data@.len()
                    &&& r.seq == self.seq
                    &&& Some(r.hlim) == first_octet(
                        datagram.control@,
                        os.ipproto_ipv6,
                        os.ipv6_hoplimit,
                        order,
                    )
                    &&& duration_nanos(r.rtt) == elapsed_nanos(now, self.sent)
                },
            },
    {
        if datagram.flags & os.msg_ctrunc != 0 {
            return Err(Error::ControlTruncated);
        }
        assert(datagram.data@.skip(0) =~= datagram.data@);
        if !self.is_answered(ICMP6_ECHO_REPLY, &datagram.data, 0) {
            return Ok(None);
        }
        let src_addr: Ipv6Addr = match datagram.source {
            Some(ip) => ip,
            None => {
                return Err(Error::NoSourceAddress);
            },
        };
        let hlim: u8 = match decode_hlim(&datagram.control, os, order) {
            Some(hlim) => hlim,
            None => {
                return Err(Error::MissingHopLimit);
            },
        };
        Ok(
            Some(
                IcmpV6EchoReply {
                    src_addr,
                    len: datagram.data.len(),
                    seq: self.seq,
                    hlim,
                    rtt: self.round_trip(&datagram.data, ICMP_HEADER_SIZE, now),
                },
            ),
        )
    }
}

/// Whether `reply` is what a host sends back for `request`: a message of type
/// `reply_type` with everything behind the checksum as it was.
pub open spec fn is_echo_of(reply: Seq<u8>, request: Seq<u8>, reply_type: u8) -> bool {
    &&& reply.len() == request.len()
    &&& reply.len() > 0
    &&& reply[0] == reply_type
    &&& forall|i: int| 4 <= i < reply.len() ==> #[trigger] reply[i] == request[i]
}

/// The echo of a request answers it, whatever the checksum field of the request
/// held, and is as long as the request.
pub proof fn law_echo_answers_request(
    probe: EchoProbe,
    request_type: u8,
    reply_type: u8,
    payload: Seq<u8>,
    reply: Seq<u8>,
)
    requires
        ({
            let request = unsealed_request(request_type, probe.id, probe.seq, probe.sent, payload);
            is_echo_of(reply, request, reply_type) || is_echo_of(
                reply,
                sealed(request),
                reply_type,
            )
        }),
    ensures
        probe.answered_by(reply_type, reply),
        reply.len() == ICMP_HEADER_SIZE + TIMESTAMP_SIZE + payload.len(),
{
    let request = unsealed_request(request_type, probe.id, probe.seq, probe.sent, payload);
    assert(forall|i: int| 4 <= i < request.len() ==> sealed(request)[i] == request[i]);
    assert forall|i: int| 4 <= i < 16 implies #[trigger] reply[i] == request[i] by {}
    assert(reply.subrange(8, 16) =~= probe.sent.bytes());
}

/// Behind any IP header, the echo of an ICMPv4 request answers it, and the two
/// fill the room that is made for them.
pub proof fn law_echo_packet_answers_request(
    probe: EchoProbe,
    payload: Seq<u8>,
    header: Seq<u8>,
    reply: Seq<u8>,
)
    requires
        header.len() == IP_HEADER_SIZE,
        is_echo_of(
            reply,
            sealed(
                unsealed_request(ICMP_ECHO_REQUEST, probe.id, probe.seq, probe.sent, payload),
            ),
            ICMP_ECHO_REPLY,
        ),
    ensures
        probe.answered_by_packet(header + reply),
        (header + reply).len() == reply_room(payload.len(), false),
        reply.len() == reply_room(payload.len(), true),
{
    law_echo_answers_request(probe, ICMP_ECHO_REQUEST, ICMP_ECHO_REPLY, payload, reply);
    assert((header + reply).skip(IP_HEADER_SIZE as int) =~= reply);
}

/// The reply to a probe of `size` bytes, which count the timestamp, is as long as
/// the ICMP header and `size`.
pub proof fn law_reply_length_is_header_and_size(
    probe: EchoProbe,
    request_type: u8,
    reply_type: u8,
    size: u16,
    reply: Seq<u8>,
)
    requires
        size > TIMESTAMP_SIZE,
        ({
            let payload = payload_bytes((size - TIMESTAMP_SIZE) as nat);
            let request = unsealed_request(request_type, probe.id, probe.seq, probe.sent, payload);
            is_echo_of(reply, request, reply_type) || is_echo_of(
                reply,
                sealed(request),
                reply_type,
            )
        }),
    ensures
        reply.len() == ICMP_HEADER_SIZE + size,
{
}

/// A message answers one request only.
pub proof fn law_message_answers_one_request(
    a: EchoProbe,
    b: EchoProbe,
    reply_type: u8,
    message: Seq<u8>,
)
    requires
        a.answered_by(reply_type, message),
        b.answered_by(reply_type, message),
    ensures
        a == b,
{
    crate::time::law_timestamp_round_trips(a.sent);
    crate::time::law_timestamp_round_trips(b.sent);
}

/// A request does not answer any request, so a socket that sees its own requests
/// does not take them for replies.
pub proof fn law_request_answers_nothing(
    probe: EchoProbe,
    id: u16,
    seq: u16,
    sent: Timestamp,
    payload: Seq<u8>,
)
    ensures
        !probe.answered_by(
            ICMP_ECHO_REPLY,
            sealed(unsealed_request(ICMP_ECHO_REQUEST, id, seq, sent, payload)),
        ),
        !probe.answered_by(
            ICMP6_ECHO_REPLY,
            unsealed_request(ICMP6_ECHO_REQUEST, id, seq, sent, payload),
        ),
{
}

/// The time to live is never taken from a message that carries a hop limit, nor
/// the other way round.
pub proof fn law_ttl_and_hop_limit_are_apart(message: ControlMessage, os: OsConstants)
    requires
        os.ipproto_ip != os.ipproto_ipv6,
    ensures
        !(carries_int(message, os.ipproto_ip, os.ip_ttl) && carries_int(
            message,
            os.ipproto_ipv6,
            os.ipv6_hoplimit,
        )),
{
}

} // verus!
