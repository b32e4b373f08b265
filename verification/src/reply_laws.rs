//! What holds of the search for a reply, in terms of what goes into and comes out
//! of the functions that look at datagrams.

use crate::addr::{Ipv4Addr, Ipv6Addr};
use crate::error::Error;
use crate::net::{OsConstants, Platform, SocketType};
use crate::packet::{echo_request_v4, echo_request_v6};
use crate::packet_laws::{
    half_at, law_request_v4_is_well_formed, law_request_v6_is_well_formed,
};
use crate::reply::{
    carries_int, decode_hlim, decode_ip_ttl, first_octet, leading_int, reply_capacity,
    strips_ip_header, ByteOrder, ControlMessage, Datagram, EchoProbe, IcmpEchoReply,
    IcmpV6EchoReply,
};
use crate::time::{duration_nanos, Timestamp};
use crate::time_laws::{lemma_bytes_are_words, took, word_at};
use vstd::prelude::*;

verus! {

/// Whether `message` is at least a header and a timestamp, of type `typ`, and
/// writes the identifier, the sequence number and the send time of `probe`.
pub open spec fn echoes(probe: EchoProbe, typ: u8, message: Seq<u8>) -> bool {
    &&& message.len() >= 16
    &&& message[0] == typ
    &&& half_at(message, 4) == probe.id
    &&& half_at(message, 6) == probe.seq
    &&& word_at(message, 8) == probe.sent.sec
    &&& word_at(message, 12) == probe.sent.nsec
}

proof fn lemma_answered_by(probe: EchoProbe, typ: u8, message: Seq<u8>)
    ensures
        probe.answered_by(typ, message) == echoes(probe, typ, message),
{
    if message.len() >= 16 {
        let stamp = message.subrange(8, 16);
        lemma_bytes_are_words(stamp, probe.sent);
        assert(word_at(message, 8) == word_at(stamp, 0));
        assert(word_at(message, 12) == word_at(stamp, 4));
    }
}

/// Whether number `k` is the first of `messages` with that level and kind and with
/// room for an integer.
pub open spec fn is_first(messages: Seq<ControlMessage>, level: i32, kind: i32, k: int) -> bool {
    &&& 0 <= k < messages.len()
    &&& messages[k].level == level
    &&& messages[k].kind == kind
    &&& messages[k].data@.len() >= 4
    &&& forall|j: int|
        0 <= j < k ==> (#[trigger] messages[j]).level != level || messages[j].kind != kind
            || messages[j].data@.len() < 4
}

/// Whether `octet` is the integer that `data` opens with, where that is an octet:
/// the three bytes that weigh more are zero. Where it is none, `octet` is `None`.
pub open spec fn is_octet(data: Seq<u8>, order: ByteOrder, octet: Option<u8>) -> bool {
    let (value, rest) = match order {
        ByteOrder::Little => (data[0], data[1] == 0 && data[2] == 0 && data[3] == 0),
        ByteOrder::Big => (data[3], data[0] == 0 && data[1] == 0 && data[2] == 0),
    };
    octet == if rest {
        Some(value)
    } else {
        None
    }
}

/// Whether `octet` is what `messages` carry of that level and kind: the octet in
/// the first of them that fits, and `None` where there is none.
pub open spec fn is_carried(
    messages: Seq<ControlMessage>,
    level: i32,
    kind: i32,
    order: ByteOrder,
    octet: Option<u8>,
) -> bool {
    &&& forall|k: int| #[trigger]
        is_first(messages, level, kind, k) ==> is_octet(messages[k].data@, order, octet)
    &&& (forall|k: int| !is_first(messages, level, kind, k)) ==> octet is None
}

proof fn lemma_first_octet(
    messages: Seq<ControlMessage>,
    level: i32,
    kind: i32,
    order: ByteOrder,
)
    ensures
        is_carried(messages, level, kind, order, first_octet(messages, level, kind, order)),
    decreases messages.len(),
{
    let octet = first_octet(messages, level, kind, order);
    if messages.len() > 0 {
        if carries_int(messages[0], level, kind) {
            assert(is_first(messages, level, kind, 0));
            assert(is_octet(messages[0].data@, order, octet)) by {
                let value = leading_int(messages[0].data@, order);
            }
            assert forall|k: int| #[trigger] is_first(messages, level, kind, k) implies is_octet(
                messages[k].data@,
                order,
                octet,
            ) by {
                if k > 0 {
                    assert(messages[0].level != level || messages[0].kind != kind
                        || messages[0].data@.len() < 4);
                }
            }
        } else {
            let rest = messages.skip(1);
            lemma_first_octet(rest, level, kind, order);
            assert forall|k: int| #[trigger] is_first(messages, level, kind, k) implies is_octet(
                messages[k].data@,
                order,
                octet,
            ) by {
                assert(k > 0);
                assert forall|j: int| 0 <= j < k - 1 implies (#[trigger] rest[j]).level != level
                    || rest[j].kind != kind || rest[j].data@.len() < 4 by {
                    assert(rest[j] == messages[j + 1]);
                }
                assert(is_first(rest, level, kind, k - 1));
            }
            if forall|k: int| !is_first(messages, level, kind, k) {
                assert forall|k: int| !is_first(rest, level, kind, k) by {
                    if is_first(rest, level, kind, k) {
                        assert forall|j: int| 0 <= j < k + 1 implies (
                        #[trigger] messages[j]).level != level || messages[j].kind != kind
                            || messages[j].data@.len() < 4 by {
                            if j > 0 {
                                assert(rest[j - 1] == messages[j]);
                            }
                        }
                        assert(is_first(messages, level, kind, k + 1));
                    }
                }
            }
        }
    }
}

/// The time to live is the octet that the first fitting control message carries.
pub proof fn law_ttl_is_the_first_carried(
    messages: &[ControlMessage],
    os: OsConstants,
    order: ByteOrder,
    ttl: Option<u8>,
)
    requires
        call_ensures(decode_ip_ttl, (messages, &os, order), ttl),
    ensures
        is_carried(messages@, os.ipproto_ip, os.ip_ttl, order, ttl),
{
    lemma_first_octet(messages@, os.ipproto_ip, os.ip_ttl, order);
}

/// The hop limit is the octet that the first fitting control message carries.
pub proof fn law_hop_limit_is_the_first_carried(
    messages: &[ControlMessage],
    os: OsConstants,
    order: ByteOrder,
    hlim: Option<u8>,
)
    requires
        call_ensures(decode_hlim, (messages, &os, order), hlim),
    ensures
        is_carried(messages@, os.ipproto_ipv6, os.ipv6_hoplimit, order, hlim),
{
    lemma_first_octet(messages@, os.ipproto_ipv6, os.ipv6_hoplimit, order);
}

/// A packet is the reply exactly where an echo of the probe stands behind twenty
/// bytes of header, whatever those are. The source and the time to live are those
/// of the header, and the header does not count towards the length.
pub proof fn law_raw_packets_are_told_apart(
    probe: EchoProbe,
    packet: &[u8],
    now: Timestamp,
    reply: Option<IcmpEchoReply>,
)
    requires
        call_ensures(EchoProbe::receive_v4_raw, (&probe, packet, now), reply),
    ensures
        reply is Some <==> packet@.len() >= 36 && echoes(probe, 0, packet@.skip(20)),
        reply matches Some(r) ==> {
            &&& r.src_addr.bits == word_at(packet@, 12)
            &&& r.len + 20 == packet@.len()
            &&& r.seq == probe.seq
            &&& r.ttl == packet@[8]
            &&& took(probe.sent, now, duration_nanos(r.rtt))
        },
{
    lemma_answered_by(probe, 0, packet@.skip(20));
}

/// What becomes of a datagram on an ICMPv4 socket: cut off control data is an
/// error, anything but an echo of the probe is passed over, and an echo is the
/// reply, whoever sent it, unless it is not known who did.
pub proof fn law_v4_datagrams_are_told_apart(
    probe: EchoProbe,
    datagram: Datagram<Ipv4Addr>,
    os: OsConstants,
    order: ByteOrder,
    now: Timestamp,
    reply: Result<Option<IcmpEchoReply>, Error>,
)
    requires
        call_ensures(EchoProbe::receive_v4_dgram, (&probe, &datagram, &os, order, now), reply),
    ensures
        ({
            let whole = datagram.flags & os.msg_ctrunc == 0;
            let echo = echoes(probe, 0, datagram.data@);
            &&& reply == Err::<Option<IcmpEchoReply>, Error>(Error::ControlTruncated) <==> !whole
            &&& reply == Ok::<Option<IcmpEchoReply>, Error>(None) <==> whole && !echo
            &&& reply == Err::<Option<IcmpEchoReply>, Error>(Error::NoSourceAddress) <==> whole
                && echo && datagram.source is None
            &&& whole && echo && datagram.source is Some ==> reply matches Ok(Some(_))
        }),
        reply matches Ok(Some(r)) ==> {
            &&& datagram.source == Some(r.src_addr)
            &&& r.len == datagram.data@.len()
            &&& r.seq == probe.seq
            &&& took(probe.sent, now, duration_nanos(r.rtt))
            &&& exists|ttl: Option<u8>|
                {
                    &&& #[trigger] is_carried(
                        datagram.control@,
                        os.ipproto_ip,
                        os.ip_ttl,
                        order,
                        ttl,
                    )
                    &&& r.ttl == match ttl {
                        Some(ttl) => ttl,
                        None => 0,
                    }
                }
        },
{
    lemma_answered_by(probe, 0, datagram.data@);
    lemma_first_octet(datagram.control@, os.ipproto_ip, os.ip_ttl, order);
}

/// What becomes of a datagram on an ICMPv6 socket: as for ICMPv4, and an echo
/// without its hop limit is an error.
pub proof fn law_v6_datagrams_are_told_apart(
    probe: EchoProbe,
    datagram: Datagram<Ipv6Addr>,
    os: OsConstants,
    order: ByteOrder,
    now: Timestamp,
    reply: Result<Option<IcmpV6EchoReply>, Error>,
    hlim: Option<u8>,
)
    requires
        call_ensures(EchoProbe::receive_v6, (&probe, &datagram, &os, order, now), reply),
        is_carried(datagram.control@, os.ipproto_ipv6, os.ipv6_hoplimit, order, hlim),
    ensures
        ({
            let whole = datagram.flags & os.msg_ctrunc == 0;
            let echo = echoes(probe, 129, datagram.data@);
            &&& reply == Err::<Option<IcmpV6EchoReply>, Error>(Error::ControlTruncated) <==> !whole
            &&& reply == Ok::<Option<IcmpV6EchoReply>, Error>(None) <==> whole && !echo
            &&& reply == Err::<Option<IcmpV6EchoReply>, Error>(Error::NoSourceAddress) <==> whole
                && echo && datagram.source is None
            &&& reply == Err::<Option<IcmpV6EchoReply>, Error>(Error::MissingHopLimit) <==> whole
                && echo && datagram.source is Some && hlim is None
            &&& whole && echo && datagram.source is Some && hlim is Some ==> reply matches Ok(
                Some(_),
            )
        }),
        reply matches Ok(Some(r)) ==> {
            &&& datagram.source == Some(r.src_addr)
            &&& r.len == datagram.data@.len()
            &&& r.seq == probe.seq
            &&& hlim == Some(r.hlim)
            &&& took(probe.sent, now, duration_nanos(r.rtt))
        },
{
    lemma_answered_by(probe, 129, datagram.data@);
    lemma_first_octet(datagram.control@, os.ipproto_ipv6, os.ipv6_hoplimit, order);
    lemma_carried_is_unique(
        datagram.control@,
        os.ipproto_ipv6,
        os.ipv6_hoplimit,
        order,
        hlim,
        first_octet(datagram.control@, os.ipproto_ipv6, os.ipv6_hoplimit, order),
    );
}

/// Control messages carry one octet at most.
proof fn lemma_carried_is_unique(
    messages: Seq<ControlMessage>,
    level: i32,
    kind: i32,
    order: ByteOrder,
    a: Option<u8>,
    b: Option<u8>,
)
    requires
        is_carried(messages, level, kind, order, a),
        is_carried(messages, level, kind, order, b),
    ensures
        a == b,
{
    if exists|k: int| is_first(messages, level, kind, k) {
        let k = choose|k: int| is_first(messages, level, kind, k);
        assert(is_octet(messages[k].data@, order, a));
        assert(is_octet(messages[k].data@, order, b));
    }
}

/// Whether a host that gets `request` may send `message` back: as long, of type
/// `typ`, and with the same bytes behind the checksum.
pub open spec fn sent_back(message: Seq<u8>, request: Seq<u8>, typ: u8) -> bool {
    &&& message.len() == request.len()
    &&& message[0] == typ
    &&& forall|i: int| 4 <= i < request.len() ==> #[trigger] message[i] == request[i]
}

proof fn lemma_sent_back_echoes(
    probe: EchoProbe,
    message: Seq<u8>,
    request: Seq<u8>,
    request_type: u8,
    typ: u8,
)
    requires
        sent_back(message, request, typ),
        echoes(probe, request_type, request),
    ensures
        echoes(probe, typ, message),
{
    assert forall|i: int| 4 <= i < 16 implies #[trigger] message[i] == request[i] by {}
}

/// A request for ICMPv4 that is sent back is taken for the reply, from whatever
/// source, with its own length and sequence number.
pub proof fn law_v4_echo_is_accepted(
    probe: EchoProbe,
    payload: &[u8],
    request: Vec<u8>,
    datagram: Datagram<Ipv4Addr>,
    os: OsConstants,
    order: ByteOrder,
    now: Timestamp,
    reply: Result<Option<IcmpEchoReply>, Error>,
    ip: Ipv4Addr,
)
    requires
        call_ensures(echo_request_v4, (probe.id, probe.seq, probe.sent, payload), request),
        sent_back(datagram.data@, request@, 0),
        datagram.flags & os.msg_ctrunc == 0,
        datagram.source == Some(ip),
        call_ensures(EchoProbe::receive_v4_dgram, (&probe, &datagram, &os, order, now), reply),
    ensures
        reply matches Ok(Some(r)) && r.src_addr == ip && r.len == 16 + payload@.len() && r.seq
            == probe.seq && took(probe.sent, now, duration_nanos(r.rtt)),
{
    law_request_v4_is_well_formed(probe.id, probe.seq, probe.sent, payload, request);
    lemma_sent_back_echoes(probe, datagram.data@, request@, 8, 0);
    law_v4_datagrams_are_told_apart(probe, datagram, os, order, now, reply);
}

/// The same behind any IP header of twenty bytes.
pub proof fn law_v4_echo_is_accepted_behind_a_header(
    probe: EchoProbe,
    payload: &[u8],
    request: Vec<u8>,
    packet: &[u8],
    now: Timestamp,
    reply: Option<IcmpEchoReply>,
)
    requires
        call_ensures(echo_request_v4, (probe.id, probe.seq, probe.sent, payload), request),
        packet@.len() >= 20,
        sent_back(packet@.skip(20), request@, 0),
        call_ensures(EchoProbe::receive_v4_raw, (&probe, packet, now), reply),
    ensures
        reply matches Some(r) && r.src_addr.bits == word_at(packet@, 12) && r.len == 16
            + payload@.len() && r.seq == probe.seq && r.ttl == packet@[8] && took(
            probe.sent,
            now,
            duration_nanos(r.rtt),
        ),
{
    law_request_v4_is_well_formed(probe.id, probe.seq, probe.sent, payload, request);
    lemma_sent_back_echoes(probe, packet@.skip(20), request@, 8, 0);
    law_raw_packets_are_told_apart(probe, packet, now, reply);
}

/// A request for ICMPv6 that is sent back with a hop limit is taken for the reply,
/// from whatever source, with its own length and sequence number.
pub proof fn law_v6_echo_is_accepted(
    probe: EchoProbe,
    payload: &[u8],
    request: Vec<u8>,
    datagram: Datagram<Ipv6Addr>,
    os: OsConstants,
    order: ByteOrder,
    now: Timestamp,
    reply: Result<Option<IcmpV6EchoReply>, Error>,
    ip: Ipv6Addr,
    hlim: u8,
)
    requires
        call_ensures(echo_request_v6, (probe.id, probe.seq, probe.sent, payload), request),
        sent_back(datagram.data@, request@, 129),
        datagram.flags & os.msg_ctrunc == 0,
        datagram.source == Some(ip),
        is_carried(datagram.control@, os.ipproto_ipv6, os.ipv6_hoplimit, order, Some(hlim)),
        call_ensures(EchoProbe::receive_v6, (&probe, &datagram, &os, order, now), reply),
    ensures
        reply matches Ok(Some(r)) && r.src_addr == ip && r.len == 16 + payload@.len() && r.seq
            == probe.seq && r.hlim == hlim && took(probe.sent, now, duration_nanos(r.rtt)),
{
    law_request_v6_is_well_formed(probe.id, probe.seq, probe.sent, payload, request);
    lemma_sent_back_echoes(probe, datagram.data@, request@, 128, 129);
    law_v6_datagrams_are_told_apart(probe, datagram, os, order, now, reply, Some(hlim));
}

/// Only Linux datagram sockets strip the IP header.
pub proof fn law_linux_datagram_sockets_strip_the_header(
    platform: Platform,
    sock_type: SocketType,
    stripped: bool,
)
    requires
        call_ensures(strips_ip_header, (platform, sock_type), stripped),
    ensures
        stripped <==> platform == Platform::Linux && sock_type == SocketType::Dgram,
{
}

/// There is room for exactly the reply to the request with that payload, and for a
/// header of twenty bytes unless it is stripped.
pub proof fn law_there_is_room_for_the_reply(
    id: u16,
    seq: u16,
    sent: Timestamp,
    payload: &[u8],
    request: Vec<u8>,
    stripped: bool,
    size: usize,
)
    requires
        payload@.len() + 36 <= usize::MAX,
        call_ensures(echo_request_v4, (id, seq, sent, payload), request),
        call_ensures(reply_capacity, (payload.len(), stripped), size),
    ensures
        stripped ==> size == request@.len(),
        !stripped ==> size == 20 + request@.len(),
{
    law_request_v4_is_well_formed(id, seq, sent, payload, request);
}

} // verus!
