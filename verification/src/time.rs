//! Timestamps that travel inside echo requests, and the durations between them.

use core::ops::Sub;
use std::time::Duration;
use vstd::prelude::*;
use vstd::std_specs::convert::FromSpecImpl;
use vstd::std_specs::ops::SubSpecImpl;

verus! {

/// Nanoseconds in a second.
pub const NANOS_PER_SEC: u64 = 1_000_000_000;

/// The number of nanoseconds in `d`, as [`Duration::as_nanos`] counts them.
pub uninterp spec fn duration_nanos(d: Duration) -> nat;

/// The longest duration, in nanoseconds.
pub open spec fn max_duration_nanos() -> nat {
    (u64::MAX * NANOS_PER_SEC + 999_999_999) as nat
}

/// [`Duration::as_nanos`] counts the nanoseconds of a duration. A duration is a
/// `u64` number of whole seconds and less than a second more, which bounds the
/// count.
pub assume_specification[ Duration::as_nanos ](d: &Duration) -> (nanos: u128)
    ensures
        nanos == duration_nanos(*d),
        nanos <= max_duration_nanos(),
;

/// [`Duration::new`] gives the duration of `secs` seconds and `nanos`
/// nanoseconds. It panics where whole seconds in `nanos` carry past the largest
/// number of seconds.
pub assume_specification[ Duration::new ](secs: u64, nanos: u32) -> (d: Duration)
    requires
        secs + nanos as int / 1_000_000_000 <= u64::MAX,
    ensures
        duration_nanos(d) == secs * NANOS_PER_SEC + nanos,
;

/// [`Duration::from_nanos`] gives the duration of `nanos` nanoseconds.
pub assume_specification[ Duration::from_nanos ](nanos: u64) -> (d: Duration)
    ensures
        duration_nanos(d) == nanos,
;

/// A point in time on a monotonic clock, cut down to 32 bits of seconds.
#[derive(Clone, Copy, Debug, PartialEq, Eq, Structural)]
pub struct Timestamp {
    /// Whole seconds.
    pub sec: u32,
    /// Nanoseconds past the whole second.
    pub nsec: u32,
}

/// The number that four bytes write, most significant first.
pub open spec fn be32(b0: u8, b1: u8, b2: u8, b3: u8) -> u32 {
    (((b0 * 256 + b1) * 256 + b2) * 256 + b3) as u32
}

/// The four bytes of `value`, most significant first.
pub open spec fn be32_bytes(value: u32) -> Seq<u8> {
    seq![
        (value / 0x100_0000) as u8,
        (value / 0x1_0000 % 0x100) as u8,
        (value / 0x100 % 0x100) as u8,
        (value % 0x100) as u8,
    ]
}

impl Timestamp {
    /// Nanoseconds since the epoch of the clock.
    pub open spec fn total_nanos(self) -> nat {
        (self.sec * NANOS_PER_SEC + self.nsec) as nat
    }

    /// The eight bytes that carry the timestamp, in network byte order.
    pub open spec fn bytes(self) -> Seq<u8> {
        be32_bytes(self.sec) + be32_bytes(self.nsec)
    }

    /// The timestamp that eight bytes carry.
    pub open spec fn of_bytes(bytes: Seq<u8>) -> Timestamp {
        Timestamp {
            sec: be32(bytes[0], bytes[1], bytes[2], bytes[3]),
            nsec: be32(bytes[4], bytes[5], bytes[6], bytes[7]),
        }
    }

    /// The timestamp of a clock reading of `sec` seconds and `nsec` nanoseconds.
    /// Both are cut down to their low 32 bits.
    pub fn from_clock(sec: i64, nsec: i64) -> (t: Timestamp)
        ensures
            t.sec == sec as int % 0x1_0000_0000,
            t.nsec == nsec as int % 0x1_0000_0000,
    {
        Timestamp { sec: low_word(sec), nsec: low_word(nsec) }
    }

    /// Serialise the timestamp to an 8-byte buffer in network (big-endian) byte order.
    pub fn as_bytes(self) -> (r: [u8; 8])
        ensures
            r@ == self.bytes(),
    {
        let s: u32 = self.sec;
        let n: u32 = self.nsec;
        let r: [u8; 8] = [
            (s / 0x100_0000) as u8,
            (s / 0x1_0000 % 0x100) as u8,
            (s / 0x100 % 0x100) as u8,
            (s % 0x100) as u8,
            (n / 0x100_0000) as u8,
            (n / 0x1_0000 % 0x100) as u8,
            (n / 0x100 % 0x100) as u8,
            (n % 0x100) as u8,
        ];
        assert(r@ =~= self.bytes());
        r
    }

    /// The number of bytes that carry a timestamp.
    pub fn len() -> (n: usize)
        ensures
            n == 8,
    {
        8
    }
}

/// The low 32 bits of `value`.
fn low_word(value: i64) -> (r: u32)
    ensures
        r == value as int % 0x1_0000_0000,
{
    if value >= 0 {
        (value % 0x1_0000_0000) as u32
    } else {
        let back: i64 = -1 - value;
        (0xffff_ffff - back % 0x1_0000_0000) as u32
    }
}

impl From<[u8; 8]> for Timestamp {
    fn from(bytes: [u8; 8]) -> (t: Timestamp) {
        Timestamp {
            sec: word(bytes[0], bytes[1], bytes[2], bytes[3]),
            nsec: word(bytes[4], bytes[5], bytes[6], bytes[7]),
        }
    }
}

impl FromSpecImpl<[u8; 8]> for Timestamp {
    open spec fn obeys_from_spec() -> bool {
        true
    }

    open spec fn from_spec(bytes: [u8; 8]) -> Timestamp {
        Timestamp::of_bytes(bytes@)
    }
}

fn word(b0: u8, b1: u8, b2: u8, b3: u8) -> (r: u32)
    ensures
        r == be32(b0, b1, b2, b3),
{
    ((b0 as u32 * 256 + b1 as u32) * 256 + b2 as u32) * 256 + b3 as u32
}

/// The nanoseconds from `earlier` to `later`; zero where the clock ran backwards.
pub open spec fn elapsed_nanos(later: Timestamp, earlier: Timestamp) -> nat {
    if later.total_nanos() >= earlier.total_nanos() {
        (later.total_nanos() - earlier.total_nanos()) as nat
    } else {
        0
    }
}

impl Sub for Timestamp {
    type Output = Duration;

    fn sub(self, rhs: Timestamp) -> (d: Duration)
        ensures
            duration_nanos(d) == elapsed_nanos(self, rhs),
    {
        let self_total_nsec: u64 = self.sec as u64 * NANOS_PER_SEC + self.nsec as u64;
        let rhs_total_nsec: u64 = rhs.sec as u64 * NANOS_PER_SEC + rhs.nsec as u64;
        if self_total_nsec >= rhs_total_nsec {
            Duration::from_nanos(self_total_nsec - rhs_total_nsec)
        } else {
            Duration::from_nanos(0)
        }
    }
}

impl SubSpecImpl for Timestamp {
    open spec fn obeys_sub_spec() -> bool {
        false
    }

    open spec fn sub_req(self, rhs: Timestamp) -> bool {
        true
    }

    open spec fn sub_spec(self, rhs: Timestamp) -> Duration {
        choose|d: Duration| duration_nanos(d) == elapsed_nanos(self, rhs)
    }
}

/// A timestamp survives the trip through its bytes.
pub proof fn law_timestamp_round_trips(t: Timestamp)
    ensures
        t.bytes().len() == 8,
        Timestamp::of_bytes(t.bytes()) == t,
{
    lemma_be32_round_trips(t.sec);
    lemma_be32_round_trips(t.nsec);
}

/// Every eight bytes are the bytes of the timestamp that they carry.
pub proof fn law_timestamp_bytes_round_trip(bytes: Seq<u8>)
    requires
        bytes.len() == 8,
    ensures
        Timestamp::of_bytes(bytes).bytes() == bytes,
{
    lemma_be32_bytes_round_trip(bytes[0], bytes[1], bytes[2], bytes[3]);
    lemma_be32_bytes_round_trip(bytes[4], bytes[5], bytes[6], bytes[7]);
    assert(Timestamp::of_bytes(bytes).bytes() =~= bytes);
}

proof fn lemma_be32_round_trips(value: u32)
    ensures
        be32(
            be32_bytes(value)[0],
            be32_bytes(value)[1],
            be32_bytes(value)[2],
            be32_bytes(value)[3],
        ) == value,
{
}

proof fn lemma_be32_bytes_round_trip(b0: u8, b1: u8, b2: u8, b3: u8)
    ensures
        be32_bytes(be32(b0, b1, b2, b3)) == seq![b0, b1, b2, b3],
{
    let value: u32 = be32(b0, b1, b2, b3);
    assert(value == b0 * 0x100_0000 + b1 * 0x1_0000 + b2 * 0x100 + b3);
    assert(value / 0x100_0000 == b0);
    assert(value / 0x1_0000 == b0 * 0x100 + b1);
    assert(value / 0x100 == b0 * 0x1_0000 + b1 * 0x100 + b2);
    assert(be32_bytes(value) =~= seq![b0, b1, b2, b3]);
}

} // verus!
