//! What holds of the lines that the `ping` program prints, in terms of what goes
//! into and comes out of the functions that write them.

use crate::report::{
    counts_line, header_line, reply_line, round_trip_line, timeout_line, title_line,
};
use crate::text::decimal_text;
use crate::text_laws::{is_decimal, law_decimal_text_is_decimal};
use vstd::prelude::*;
use vstd::string::*;

verus! {

/// The first line names the destination, its address, and the size as a number.
pub proof fn law_header_line_tells_destination_and_size(
    dest: &str,
    ip: &str,
    size: u16,
    line: String,
)
    requires
        call_ensures(header_line, (dest, ip, size), line),
    ensures
        exists|number: Seq<char>| #[trigger]
            is_decimal(number, size as nat) && line@ == "PING "@ + dest@ + " ("@ + ip@ + "): "@
                + number + " data bytes"@,
{
    law_decimal_text_is_decimal(size as nat);
}

/// The line for a reply tells its length, source, sequence number, time to live and
/// round-trip time, in that order.
pub proof fn law_reply_line_tells_the_reply(
    len: usize,
    src: &str,
    seq: u16,
    ttl: u8,
    millis: &str,
    line: String,
)
    requires
        call_ensures(reply_line, (len, src, seq, ttl, millis), line),
    ensures
        exists|a: Seq<char>, b: Seq<char>, c: Seq<char>|
            #![trigger is_decimal(a, len as nat), is_decimal(b, seq as nat), is_decimal(c, ttl as nat)]
            is_decimal(a, len as nat) && is_decimal(b, seq as nat) && is_decimal(c, ttl as nat)
                && line@ == a + " bytes from "@ + src@ + ": icmp_seq="@ + b + " ttl="@ + c
                + " time="@ + millis@ + " ms"@,
{
    law_decimal_text_is_decimal(len as nat);
    law_decimal_text_is_decimal(seq as nat);
    law_decimal_text_is_decimal(ttl as nat);
    assert(is_decimal(decimal_text(len as nat), len as nat) && is_decimal(
        decimal_text(seq as nat),
        seq as nat,
    ) && is_decimal(decimal_text(ttl as nat), ttl as nat));
}

/// The line for a lost probe tells its number.
pub proof fn law_timeout_line_tells_the_number(number: u32, line: String)
    requires
        call_ensures(timeout_line, (number,), line),
    ensures
        exists|text: Seq<char>| #[trigger]
            is_decimal(text, number as nat) && line@ == "Request timeout for icmp_seq "@ + text,
{
    law_decimal_text_is_decimal(number as nat);
}

/// The line above the statistics names the destination.
pub proof fn law_title_line_tells_the_destination(dest: &str, line: String)
    requires
        call_ensures(title_line, (dest,), line),
    ensures
        line@ == "--- "@ + dest@ + " ping statistics ---"@,
{
}

/// The line with the counts tells how many were sent, how many were received, and
/// the loss, in that order.
pub proof fn law_counts_line_tells_the_counts(
    packets_tx: u32,
    packets_rx: u32,
    loss: &str,
    line: String,
)
    requires
        call_ensures(counts_line, (packets_tx, packets_rx, loss), line),
    ensures
        exists|a: Seq<char>, b: Seq<char>|
            #![trigger is_decimal(a, packets_tx as nat), is_decimal(b, packets_rx as nat)]
            is_decimal(a, packets_tx as nat) && is_decimal(b, packets_rx as nat) && line@ == a
                + " packets transmitted, "@ + b + " packets received, "@ + loss@
                + "% packet loss"@,
{
    law_decimal_text_is_decimal(packets_tx as nat);
    law_decimal_text_is_decimal(packets_rx as nat);
    assert(is_decimal(decimal_text(packets_tx as nat), packets_tx as nat) && is_decimal(
        decimal_text(packets_rx as nat),
        packets_rx as nat,
    ));
}

/// The line with the round-trip times tells them from least to greatest, and then
/// the deviation. There is one exactly where something was received.
pub proof fn law_round_trip_line_tells_the_times(
    packets_rx: u32,
    min: &str,
    avg: &str,
    max: &str,
    stddev: &str,
    line: Option<String>,
)
    requires
        call_ensures(round_trip_line, (packets_rx, min, avg, max, stddev), line),
    ensures
        line is Some <==> packets_rx > 0,
        line matches Some(text) ==> text@ == "round-trip min/avg/max/stddev = "@ + min@ + "/"@
            + avg@ + "/"@ + max@ + "/"@ + stddev@ + " ms"@,
{
}

} // verus!
