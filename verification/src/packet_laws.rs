//! What holds of echo requests, in terms of what goes into and comes out of the
//! functions that build them.

use crate::packet::{
    add_icmp_header, calculate_checksum, echo_request_v4, echo_request_v6, fold_carries,
    generate_payload, internet_checksum, lemma_fold_carries, sealed, unsealed_request, word_sum,
};
use crate::time::Timestamp;
use crate::time_laws::{lemma_bytes_are_words, word_at};
use vstd::prelude::*;

verus! {

/// The sum of `bytes`, where those in even places weigh 256 and those in odd places
/// weigh 1. With the first byte in place zero this is the sum of 16-bit words, and
/// a last byte without a partner is the upper half of one.
pub open spec fn weighed_sum(bytes: Seq<u8>) -> int
    decreases bytes.len(),
{
    if bytes.len() == 0 {
        0
    } else {
        weighed_sum(bytes.drop_last()) + bytes.last() * if (bytes.len() - 1) % 2 == 0 {
            256int
        } else {
            1int
        }
    }
}

/// The number that two bytes of `bytes` write from `at` on, most significant first.
pub open spec fn half_at(bytes: Seq<u8>, at: int) -> int {
    bytes[at] * 256 + bytes[at + 1]
}

proof fn lemma_weighed_sum_from_front(bytes: Seq<u8>)
    requires
        bytes.len() >= 2,
    ensures
        weighed_sum(bytes) == half_at(bytes, 0) + weighed_sum(bytes.skip(2)),
    decreases bytes.len(),
{
    reveal_with_fuel(weighed_sum, 3);
    if bytes.len() == 2 {
        assert(bytes.drop_last().drop_last() =~= Seq::empty());
        assert(bytes.skip(2) =~= Seq::empty());
    } else {
        lemma_weighed_sum_from_front(bytes.drop_last());
        assert(bytes.drop_last().skip(2) =~= bytes.skip(2).drop_last());
    }
}

pub(crate) proof fn lemma_word_sum_is_weighed_sum(bytes: Seq<u8>)
    ensures
        word_sum(bytes) == weighed_sum(bytes),
    decreases bytes.len(),
{
    reveal_with_fuel(weighed_sum, 2);
    if bytes.len() == 1 {
        assert(bytes.drop_last() =~= Seq::empty());
    } else if bytes.len() >= 2 {
        lemma_weighed_sum_from_front(bytes);
        lemma_word_sum_is_weighed_sum(bytes.skip(2));
    }
}

proof fn lemma_weighed_sum_of_zeros(bytes: Seq<u8>)
    ensures
        weighed_sum(bytes) >= 0,
        weighed_sum(bytes) == 0 <==> (forall|i: int| 0 <= i < bytes.len() ==> bytes[i] == 0),
    decreases bytes.len(),
{
    if bytes.len() > 0 {
        let rest = bytes.drop_last();
        lemma_weighed_sum_of_zeros(rest);
        assert(bytes.last() == bytes[bytes.len() - 1]);
        if weighed_sum(bytes) == 0 {
            assert forall|i: int| 0 <= i < bytes.len() implies bytes[i] == 0 by {
                if i < rest.len() {
                    assert(rest[i] == 0);
                }
            }
        }
        if forall|i: int| 0 <= i < bytes.len() ==> bytes[i] == 0 {
            assert forall|i: int| 0 <= i < rest.len() implies rest[i] == 0 by {
                assert(bytes[i] == 0);
            }
        }
    }
}

proof fn lemma_checksum_complements(bytes: Seq<u8>)
    ensures
        (internet_checksum(bytes) + weighed_sum(bytes)) % 0xffff == 0,
        internet_checksum(bytes) == 0xffff <==> weighed_sum(bytes) == 0,
{
    let sum: nat = word_sum(bytes);
    lemma_word_sum_is_weighed_sum(bytes);
    lemma_fold_carries(sum);
    let folded: int = fold_carries(sum) as int;
    let checksum: int = internet_checksum(bytes) as int;
    assert(checksum == 0xffff - folded);
    vstd::arithmetic::div_mod::lemma_add_mod_noop(checksum, sum as int, 0xffff);
    vstd::arithmetic::div_mod::lemma_add_mod_noop(checksum, folded, 0xffff);
}

/// A checksum makes the sum of all 16-bit words of the data and of itself a
/// multiple of 2^16 - 1. Of the two that do, all ones is for zeros only.
pub proof fn law_checksum_complements_the_words(data: &[u8], checksum: u16)
    requires
        data@.len() > 0,
        call_ensures(calculate_checksum, (data,), checksum),
    ensures
        (checksum + weighed_sum(data@)) % 0xffff == 0,
        checksum == 0xffff <==> (forall|i: int| 0 <= i < data@.len() ==> data@[i] == 0),
{
    lemma_checksum_complements(data@);
    lemma_weighed_sum_of_zeros(data@);
}

/// A payload is as long as asked for and counts up, modulo 256.
pub proof fn law_payload_counts_up(size: usize, payload: Vec<u8>)
    requires
        call_ensures(generate_payload, (size,), payload),
    ensures
        payload@.len() == size,
        size > 0 ==> payload@[0] == 0,
        forall|i: int|
            0 <= i < size ==> 0 <= #[trigger] payload@[i] < 256 && (i - payload@[i]) % 256 == 0,
{
}

/// Whether `header` is eight bytes: `typ`, a zero code, a zero checksum, and then
/// `id` and `seq`, most significant byte first.
pub open spec fn is_unsealed_header(header: Seq<u8>, typ: u8, id: u16, seq: u16) -> bool {
    &&& header.len() == 8
    &&& header[0] == typ
    &&& header[1] == 0
    &&& half_at(header, 2) == 0
    &&& half_at(header, 4) == id
    &&& half_at(header, 6) == seq
}

/// Adding a header leaves the `before` bytes that are there and puts the header
/// behind them.
pub proof fn law_header_is_appended(buf: &mut Vec<u8>, typ: u8, id: u16, seq: u16, before: int)
    requires
        before == old(buf)@.len(),
        call_ensures(add_icmp_header, (buf, typ, id, seq), ()),
    ensures
        final(buf)@.take(before) == old(buf)@,
        is_unsealed_header(final(buf)@.skip(before), typ, id, seq),
{
    assert(final(buf)@.take(before) =~= old(buf)@);
}

/// Whether `message` is a request of type `typ`: code zero, `id`, `seq`, the send
/// time, and then `payload`, with any checksum.
pub open spec fn is_request(
    message: Seq<u8>,
    typ: u8,
    id: u16,
    seq: u16,
    sent: Timestamp,
    payload: Seq<u8>,
) -> bool {
    &&& message.len() == 16 + payload.len()
    &&& message[0] == typ
    &&& message[1] == 0
    &&& half_at(message, 4) == id
    &&& half_at(message, 6) == seq
    &&& word_at(message, 8) == sent.sec
    &&& word_at(message, 12) == sent.nsec
    &&& forall|i: int| 0 <= i < payload.len() ==> message[16 + i] == #[trigger] payload[i]
}

proof fn lemma_unsealed_request(typ: u8, id: u16, seq: u16, sent: Timestamp, payload: Seq<u8>)
    ensures
        is_request(unsealed_request(typ, id, seq, sent, payload), typ, id, seq, sent, payload),
        half_at(unsealed_request(typ, id, seq, sent, payload), 2) == 0,
{
    let message = unsealed_request(typ, id, seq, sent, payload);
    lemma_bytes_are_words(sent.bytes(), sent);
    assert(message.subrange(8, 16) =~= sent.bytes());
    assert(word_at(message, 8) == word_at(message.subrange(8, 16), 0));
    assert(word_at(message, 12) == word_at(message.subrange(8, 16), 4));
}

/// An ICMPv4 request holds its header, send time and payload, and all its words sum
/// to a multiple of 2^16 - 1. Its checksum is not all ones, since it is not made of
/// zeros.
pub proof fn law_request_v4_is_well_formed(
    id: u16,
    seq: u16,
    sent: Timestamp,
    payload: &[u8],
    message: Vec<u8>,
)
    requires
        call_ensures(echo_request_v4, (id, seq, sent, payload), message),
    ensures
        is_request(message@, 8, id, seq, sent, payload@),
        weighed_sum(message@) % 0xffff == 0,
        half_at(message@, 2) != 0xffff,
{
    let open = unsealed_request(8, id, seq, sent, payload@);
    lemma_unsealed_request(8, id, seq, sent, payload@);
    lemma_checksum_complements(open);
    lemma_weighed_sum_of_zeros(open);
    assert(open[0] != 0);
    let checksum: u16 = internet_checksum(open);
    assert(message@ == sealed(open));
    assert(half_at(message@, 2) == checksum);
    assert(message@.skip(2).skip(2) =~= open.skip(2).skip(2));
    lemma_weighed_sum_from_front(message@);
    lemma_weighed_sum_from_front(message@.skip(2));
    lemma_weighed_sum_from_front(open);
    lemma_weighed_sum_from_front(open.skip(2));
    assert(weighed_sum(message@) == weighed_sum(open) + checksum);
}

/// An ICMPv6 request holds its header, send time and payload, and no checksum.
pub proof fn law_request_v6_is_well_formed(
    id: u16,
    seq: u16,
    sent: Timestamp,
    payload: &[u8],
    message: Vec<u8>,
)
    requires
        call_ensures(echo_request_v6, (id, seq, sent, payload), message),
    ensures
        is_request(message@, 128, id, seq, sent, payload@),
        half_at(message@, 2) == 0,
{
    lemma_unsealed_request(128, id, seq, sent, payload@);
}

} // verus!
