//! What holds of timestamps, in terms of what goes into and comes out of their
//! functions.

use crate::time::{duration_nanos, law_timestamp_bytes_round_trip, law_timestamp_round_trips, Timestamp};
use core::ops::Sub;
use std::time::Duration;
use vstd::prelude::*;

verus! {

/// The number that four bytes of `bytes` write from `at` on, most significant
/// first.
pub open spec fn word_at(bytes: Seq<u8>, at: int) -> int {
    bytes[at] * 0x100_0000 + bytes[at + 1] * 0x1_0000 + bytes[at + 2] * 0x100 + bytes[at + 3]
}

/// Whether a round trip that started at `start` and ended at `end` took `nanos`:
/// added to the start they give the end, and they are zero where the clock ran
/// backwards.
pub open spec fn took(start: Timestamp, end: Timestamp, nanos: nat) -> bool {
    let started = start.sec * 1_000_000_000 + start.nsec;
    let ended = end.sec * 1_000_000_000 + end.nsec;
    if started <= ended {
        started + nanos == ended
    } else {
        nanos == 0
    }
}

/// The difference of two times, added to the earlier one, gives the later one. It
/// is zero where the times are the wrong way round.
pub proof fn law_difference_completes_the_earlier_time(
    later: Timestamp,
    earlier: Timestamp,
    d: Duration,
)
    requires
        call_ensures(<Timestamp as Sub>::sub, (later, earlier), d),
    ensures
        took(earlier, later, duration_nanos(d)),
{
}

/// The differences along three times in order add up.
pub proof fn law_differences_add_up(
    a: Timestamp,
    b: Timestamp,
    c: Timestamp,
    first: Duration,
    second: Duration,
    whole: Duration,
)
    requires
        a.sec * 1_000_000_000 + a.nsec <= b.sec * 1_000_000_000 + b.nsec,
        b.sec * 1_000_000_000 + b.nsec <= c.sec * 1_000_000_000 + c.nsec,
        call_ensures(<Timestamp as Sub>::sub, (b, a), first),
        call_ensures(<Timestamp as Sub>::sub, (c, b), second),
        call_ensures(<Timestamp as Sub>::sub, (c, a), whole),
    ensures
        duration_nanos(first) + duration_nanos(second) == duration_nanos(whole),
{
}

/// The bytes of a timestamp write its seconds and then its nanoseconds, and there
/// are as many as it says.
pub proof fn law_bytes_write_seconds_and_nanoseconds(t: Timestamp, bytes: [u8; 8], len: usize)
    requires
        call_ensures(Timestamp::as_bytes, (t,), bytes),
        call_ensures(Timestamp::len, (), len),
    ensures
        bytes@.len() == len,
        word_at(bytes@, 0) == t.sec,
        word_at(bytes@, 4) == t.nsec,
{
    law_timestamp_round_trips(t);
    lemma_bytes_are_words(bytes@, t);
}

/// Every eight bytes are read as the numbers that they write.
pub proof fn law_bytes_are_read_as_seconds_and_nanoseconds(bytes: [u8; 8], t: Timestamp)
    requires
        call_ensures(<Timestamp as From<[u8; 8]>>::from, (bytes,), t),
    ensures
        word_at(bytes@, 0) == t.sec,
        word_at(bytes@, 4) == t.nsec,
{
}

/// What is written is read back, and what is read is written back.
pub proof fn law_writing_and_reading_undo_each_other(
    t: Timestamp,
    bytes: [u8; 8],
    back: Timestamp,
    other: [u8; 8],
    other_read: Timestamp,
    other_back: [u8; 8],
)
    requires
        call_ensures(Timestamp::as_bytes, (t,), bytes),
        call_ensures(<Timestamp as From<[u8; 8]>>::from, (bytes,), back),
        call_ensures(<Timestamp as From<[u8; 8]>>::from, (other,), other_read),
        call_ensures(Timestamp::as_bytes, (other_read,), other_back),
    ensures
        back == t,
        other_back@ == other@,
{
    law_timestamp_round_trips(t);
    law_timestamp_bytes_round_trip(other@);
}

/// A timestamp differs from the clock reading only past 32 bits.
pub proof fn law_clock_reading_is_kept_modulo_32_bits(sec: i64, nsec: i64, t: Timestamp)
    requires
        call_ensures(Timestamp::from_clock, (sec, nsec), t),
    ensures
        (t.sec - sec) % 0x1_0000_0000 == 0,
        (t.nsec - nsec) % 0x1_0000_0000 == 0,
        0 <= sec <= u32::MAX ==> t.sec == sec,
        0 <= nsec <= u32::MAX ==> t.nsec == nsec,
{
}

/// Eight bytes are those of a timestamp exactly where they write its numbers.
pub(crate) proof fn lemma_bytes_are_words(bytes: Seq<u8>, t: Timestamp)
    requires
        bytes.len() == 8,
    ensures
        bytes == t.bytes() <==> (word_at(bytes, 0) == t.sec && word_at(bytes, 4) == t.nsec),
{
    law_timestamp_round_trips(t);
    law_timestamp_bytes_round_trip(bytes);
    let read = Timestamp::of_bytes(bytes);
    assert(read.sec == word_at(bytes, 0) && read.nsec == word_at(bytes, 4));
}

} // verus!
