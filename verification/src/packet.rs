//! ICMP echo request messages.

use crate::time::Timestamp;
use vstd::prelude::*;

verus! {

/// Length of an IPv4 header without options.
pub const IP_HEADER_SIZE: usize = 20;

/// Length of an ICMP or ICMPv6 echo header.
pub const ICMP_HEADER_SIZE: usize = 8;

/// Length of the timestamp that opens the payload of a request.
pub const TIMESTAMP_SIZE: usize = 8;

/// ICMP message type of an echo request.
pub const ICMP_ECHO_REQUEST: u8 = 8;

/// ICMP message type of an echo reply.
pub const ICMP_ECHO_REPLY: u8 = 0;

/// ICMPv6 message type of an echo request.
pub const ICMP6_ECHO_REQUEST: u8 = 128;

/// ICMPv6 message type of an echo reply.
pub const ICMP6_ECHO_REPLY: u8 = 129;

/// The number that two bytes write, most significant first.
pub open spec fn be16(high: u8, low: u8) -> u16 {
    (high * 256 + low) as u16
}

/// The more significant byte of `value`.
pub open spec fn high_byte(value: u16) -> u8 {
    (value / 256) as u8
}

/// The less significant byte of `value`.
pub open spec fn low_byte(value: u16) -> u8 {
    (value % 256) as u8
}

/// The number that two bytes write, most significant first.
pub(crate) fn read_be16(high: u8, low: u8) -> (r: u16)
    ensures
        r == be16(high, low),
{
    high as u16 * 256 + low as u16
}

/// Append the two bytes of `value`, most significant first.
fn push_be16(buf: &mut Vec<u8>, value: u16)
    ensures
        final(buf)@ == old(buf)@.push(high_byte(value)).push(low_byte(value)),
{
    buf.push((value / 256) as u8);
    buf.push((value % 256) as u8);
}

/// A payload of `size` bytes: 0, 1, 2 and on, starting over after 255.
pub open spec fn payload_bytes(size: nat) -> Seq<u8> {
    Seq::new(size, |i: int| (i % 256) as u8)
}

/// Generate a ping payload
pub fn generate_payload(size: usize) -> (payload: Vec<u8>)
    ensures
        payload@ == payload_bytes(size as nat),
{
    let mut payload: Vec<u8> = Vec::with_capacity(size);
    let mut i: usize = 0;
    while i < size
        invariant
            i <= size,
            payload@ == payload_bytes(i as nat),
        decreases size - i,
    {
        payload.push((i % 256) as u8);
        i = i + 1;
        assert(payload@ =~= payload_bytes(i as nat));
    }
    payload
}

/// An echo header of type `typ` whose checksum is still zero.
pub open spec fn echo_header(typ: u8, id: u16, seq: u16) -> Seq<u8> {
    seq![typ, 0, 0, 0, high_byte(id), low_byte(id), high_byte(seq), low_byte(seq)]
}

/// Append an 8-byte ICMP/ICMPv6 echo-request header to `buf`.
///
/// The checksum field is written as `0x0000` and must be filled in by the
/// caller after the full packet is assembled.
pub fn add_icmp_header(buf: &mut Vec<u8>, typ: u8, id: u16, seq: u16)
    ensures
        final(buf)@ == old(buf)@ + echo_header(typ, id, seq),
{
    // type
    buf.push(typ);
    // code
    buf.push(0);
    // checksum
    buf.push(0);
    buf.push(0);

    // id
    push_be16(buf, id);

    // sequence
    push_be16(buf, seq);
    assert(buf@ =~= old(buf)@ + echo_header(typ, id, seq));
}

/// The sum of the 16-bit words of `data`, most significant byte first. A last
/// byte without a partner is the upper half of a word.
pub open spec fn word_sum(data: Seq<u8>) -> nat
    decreases data.len(),
{
    if data.len() == 0 {
        0
    } else if data.len() == 1 {
        (data[0] * 256) as nat
    } else {
        be16(data[0], data[1]) as nat + word_sum(data.skip(2))
    }
}

/// `sum` with its carries past 16 bits added back in until none is left.
pub open spec fn fold_carries(sum: nat) -> nat
    decreases sum,
{
    if sum < 0x1_0000 {
        sum
    } else {
        fold_carries(sum / 0x1_0000 + sum % 0x1_0000)
    }
}

/// The Internet checksum (RFC 1071) of `data`: the one's complement of the one's
/// complement sum of its words.
pub open spec fn internet_checksum(data: Seq<u8>) -> u16 {
    (0xffff - fold_carries(word_sum(data))) as u16
}

/// Folding keeps the value modulo 2^16 - 1 and only gives zero for zero.
pub(crate) proof fn lemma_fold_carries(sum: nat)
    ensures
        fold_carries(sum) < 0x1_0000,
        fold_carries(sum) % 0xffff == sum % 0xffff,
        (fold_carries(sum) == 0) == (sum == 0),
    decreases sum,
{
    if sum >= 0x1_0000 {
        let next: nat = sum / 0x1_0000 + sum % 0x1_0000;
        lemma_fold_carries(next);
        assert(sum == next + 0xffff * (sum / 0x1_0000));
        vstd::arithmetic::div_mod::lemma_mod_multiples_vanish(
            (sum / 0x1_0000) as int,
            next as int,
            0xffff,
        );
    }
}

/// Calculate Internet Checksum (RFC 1071)
pub fn calculate_checksum(data: &[u8]) -> (checksum: u16)
    requires
        data@.len() > 0,
    ensures
        checksum == internet_checksum(data@),
{
    let mut sum: u128 = 0;
    let mut i: usize = 0;
    assert(data@.skip(0) =~= data@);

    // Sum up 16-bit words
    while i < data.len() - 1
        invariant
            0 < data@.len(),
            i <= data@.len(),
            i % 2 == 0,
            sum <= 0x1_0000 * i,
            sum + word_sum(data@.skip(i as int)) == word_sum(data@),
        decreases data@.len() - i,
    {
        proof {
            assert(data@.skip(i as int).skip(2) =~= data@.skip(i + 2));
        }
        sum = sum + read_be16(data[i], data[i + 1]) as u128;
        i = i + 2;
    }

    // Add remaining byte if data length is odd
    if data.len() % 2 == 1 {
        sum = sum + data[data.len() - 1] as u128 * 256;
    }
    assert(sum == word_sum(data@));

    // Fold the sum to 16 bits
    while sum >= 0x1_0000
        invariant
            fold_carries(sum as nat) == fold_carries(word_sum(data@)),
        decreases sum,
    {
        sum = sum % 0x1_0000 + sum / 0x1_0000;
    }

    // Return one's complement
    0xffff - sum as u16
}

/// An echo request of type `typ` whose checksum is still zero: the header, the
/// send time, and `payload`.
pub open spec fn unsealed_request(
    typ: u8,
    id: u16,
    seq: u16,
    sent: Timestamp,
    payload: Seq<u8>,
) -> Seq<u8> {
    echo_header(typ, id, seq) + sent.bytes() + payload
}

/// `message` with its Internet checksum in the checksum field of its header.
pub open spec fn sealed(message: Seq<u8>) -> Seq<u8> {
    let checksum = internet_checksum(message);
    message.update(2, high_byte(checksum)).update(3, low_byte(checksum))
}

fn build_unsealed_request(typ: u8, id: u16, seq: u16, sent: Timestamp, payload: &[u8]) -> (buf: Vec<
    u8,
>)
    ensures
        buf@ == unsealed_request(typ, id, seq, sent, payload@),
{
    let mut buf: Vec<u8> = Vec::new();
    add_icmp_header(&mut buf, typ, id, seq);
    let stamp: [u8; 8] = sent.as_bytes();
    buf.extend_from_slice(&stamp);
    buf.extend_from_slice(payload);
    assert(buf@ =~= unsealed_request(typ, id, seq, sent, payload@));
    buf
}

/// The ICMPv4 echo request with identifier `id` and sequence number `seq` that
/// carries the send time `sent` and then `payload`.
pub fn echo_request_v4(id: u16, seq: u16, sent: Timestamp, payload: &[u8]) -> (message: Vec<u8>)
    ensures
        message@ == sealed(unsealed_request(ICMP_ECHO_REQUEST, id, seq, sent, payload@)),
{
    let mut buf: Vec<u8> = build_unsealed_request(ICMP_ECHO_REQUEST, id, seq, sent, payload);
    let checksum: u16 = calculate_checksum(&buf);
    buf.set(2, (checksum / 256) as u8);
    buf.set(3, (checksum % 256) as u8);
    buf
}

/// The ICMPv6 echo request with identifier `id` and sequence number `seq` that
/// carries the send time `sent` and then `payload`.
///
/// Its checksum covers the addresses of the packet, so the kernel fills it in.
pub fn echo_request_v6(id: u16, seq: u16, sent: Timestamp, payload: &[u8]) -> (message: Vec<u8>)
    ensures
        message@ == unsealed_request(ICMP6_ECHO_REQUEST, id, seq, sent, payload@),
{
    build_unsealed_request(ICMP6_ECHO_REQUEST, id, seq, sent, payload)
}

/// A sum and the complement of its folding fold to all ones.
proof fn lemma_complement_folds_to_ones(sum: nat)
    ensures
        fold_carries((sum + (0xffff - fold_carries(sum))) as nat) == 0xffff,
{
    lemma_fold_carries(sum);
    let folded: nat = fold_carries(sum);
    let complement: nat = (0xffff - folded) as nat;
    let whole: nat = sum + complement;
    lemma_fold_carries(whole);
    assert(whole % 0xffff == 0) by {
        vstd::arithmetic::div_mod::lemma_add_mod_noop(sum as int, complement as int, 0xffff);
        vstd::arithmetic::div_mod::lemma_add_mod_noop(folded as int, complement as int, 0xffff);
    }
    assert(whole != 0);
}

/// The checksum of a message that holds its own checksum is zero, which is how
/// a receiver verifies it.
pub proof fn law_sealed_message_verifies(message: Seq<u8>)
    requires
        message.len() >= 4,
        message[2] == 0,
        message[3] == 0,
    ensures
        internet_checksum(sealed(message)) == 0,
{
    let checksum: u16 = internet_checksum(message);
    let rest = message.skip(2);
    let sealed_rest = sealed(message).skip(2);
    lemma_fold_carries(word_sum(message));
    assert(rest.skip(2) =~= sealed_rest.skip(2));
    assert(word_sum(message) == be16(message[0], message[1]) as nat + word_sum(rest));
    assert(word_sum(rest) == word_sum(rest.skip(2)));
    assert(word_sum(sealed_rest) == checksum as nat + word_sum(sealed_rest.skip(2)));
    lemma_complement_folds_to_ones(word_sum(message));
}

/// Data of whole words with its checksum behind it verifies too.
pub proof fn law_appended_checksum_verifies(data: Seq<u8>)
    requires
        data.len() % 2 == 0,
    ensures
        internet_checksum(
            data.push(high_byte(internet_checksum(data))).push(low_byte(internet_checksum(data))),
        ) == 0,
{
    lemma_fold_carries(word_sum(data));
    lemma_word_sum_appended(data, internet_checksum(data));
    lemma_complement_folds_to_ones(word_sum(data));
}

proof fn lemma_word_sum_appended(data: Seq<u8>, word: u16)
    requires
        data.len() % 2 == 0,
    ensures
        word_sum(data.push(high_byte(word)).push(low_byte(word))) == word_sum(data) + word,
    decreases data.len(),
{
    let longer = data.push(high_byte(word)).push(low_byte(word));
    if data.len() == 0 {
        assert(word_sum(longer) == be16(longer[0], longer[1]) as nat + word_sum(longer.skip(2)));
    } else {
        let rest = data.skip(2);
        lemma_word_sum_appended(rest, word);
        assert(longer.skip(2) =~= rest.push(high_byte(word)).push(low_byte(word)));
    }
}

/// Every ICMPv4 echo request verifies.
pub proof fn law_request_v4_verifies(id: u16, seq: u16, sent: Timestamp, payload: Seq<u8>)
    ensures
        internet_checksum(sealed(unsealed_request(ICMP_ECHO_REQUEST, id, seq, sent, payload))) == 0,
{
    law_sealed_message_verifies(unsealed_request(ICMP_ECHO_REQUEST, id, seq, sent, payload));
}

/// An echo request is as long as its header, its timestamp and its payload.
pub proof fn law_request_length(typ: u8, id: u16, seq: u16, sent: Timestamp, payload: Seq<u8>)
    ensures
        unsealed_request(typ, id, seq, sent, payload).len() == ICMP_HEADER_SIZE + TIMESTAMP_SIZE
            + payload.len(),
        sealed(unsealed_request(typ, id, seq, sent, payload)).len() == ICMP_HEADER_SIZE
            + TIMESTAMP_SIZE + payload.len(),
{
}

} // verus!
