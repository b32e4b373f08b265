//! The lines that the `ping` program prints.
//!
//! Addresses, and times and percentages with a fraction, come in as text.

use crate::text::{decimal, decimal_text};
use vstd::prelude::*;
use vstd::string::*;

verus! {

/// The line that opens a run: the destination as typed, its address, and the
/// payload size, which counts the timestamp.
pub open spec fn header_text(dest: Seq<char>, ip: Seq<char>, size: nat) -> Seq<char> {
    "PING "@ + dest + " ("@ + ip + "): "@ + decimal_text(size) + " data bytes"@
}

/// The line that opens a run.
pub fn header_line(dest: &str, ip: &str, size: u16) -> (line: String)
    ensures
        line@ == header_text(dest@, ip@, size as nat),
{
    let mut line: String = "PING ".to_owned();
    line.append(dest);
    line.append(" (");
    line.append(ip);
    line.append("): ");
    line.append(decimal(size as u64).as_str());
    line.append(" data bytes");
    line
}

/// The line for a reply: the length of the ICMP message, who sent it, its sequence
/// number, its time to live or hop limit, and its round-trip time in milliseconds.
pub open spec fn reply_text(
    len: nat,
    src: Seq<char>,
    seq: nat,
    ttl: nat,
    millis: Seq<char>,
) -> Seq<char> {
    decimal_text(len) + " bytes from "@ + src + ": icmp_seq="@ + decimal_text(seq) + " ttl="@
        + decimal_text(ttl) + " time="@ + millis + " ms"@
}

/// The line for a reply.
pub fn reply_line(len: usize, src: &str, seq: u16, ttl: u8, millis: &str) -> (line: String)
    ensures
        line@ == reply_text(len as nat, src@, seq as nat, ttl as nat, millis@),
{
    let mut line: String = decimal(len as u64);
    line.append(" bytes from ");
    line.append(src);
    line.append(": icmp_seq=");
    line.append(decimal(seq as u64).as_str());
    line.append(" ttl=");
    line.append(decimal(ttl as u64).as_str());
    line.append(" time=");
    line.append(millis);
    line.append(" ms");
    line
}

/// The line for a probe without a reply, by its number in the run.
pub open spec fn timeout_text(number: nat) -> Seq<char> {
    "Request timeout for icmp_seq "@ + decimal_text(number)
}

/// The line for a probe without a reply.
pub fn timeout_line(number: u32) -> (line: String)
    ensures
        line@ == timeout_text(number as nat),
{
    let mut line: String = "Request timeout for icmp_seq ".to_owned();
    line.append(decimal(number as u64).as_str());
    line
}

/// The line above the statistics of a run.
pub open spec fn title_text(dest: Seq<char>) -> Seq<char> {
    "--- "@ + dest + " ping statistics ---"@
}

/// The line above the statistics of a run.
pub fn title_line(dest: &str) -> (line: String)
    ensures
        line@ == title_text(dest@),
{
    let mut line: String = "--- ".to_owned();
    line.append(dest);
    line.append(" ping statistics ---");
    line
}

/// The line with the packet counts of a run and its loss in percent.
pub open spec fn counts_text(packets_tx: nat, packets_rx: nat, loss: Seq<char>) -> Seq<char> {
    decimal_text(packets_tx) + " packets transmitted, "@ + decimal_text(packets_rx)
        + " packets received, "@ + loss + "% packet loss"@
}

/// The line with the packet counts of a run.
pub fn counts_line(packets_tx: u32, packets_rx: u32, loss: &str) -> (line: String)
    ensures
        line@ == counts_text(packets_tx as nat, packets_rx as nat, loss@),
{
    let mut line: String = decimal(packets_tx as u64);
    line.append(" packets transmitted, ");
    line.append(decimal(packets_rx as u64).as_str());
    line.append(" packets received, ");
    line.append(loss);
    line.append("% packet loss");
    line
}

/// The line with the round-trip times of a run in milliseconds.
pub open spec fn round_trip_text(
    min: Seq<char>,
    avg: Seq<char>,
    max: Seq<char>,
    stddev: Seq<char>,
) -> Seq<char> {
    "round-trip min/avg/max/stddev = "@ + min + "/"@ + avg + "/"@ + max + "/"@ + stddev + " ms"@
}

/// The line with the round-trip times of a run, or `None` where nothing was
/// received.
pub fn round_trip_line(packets_rx: u32, min: &str, avg: &str, max: &str, stddev: &str) -> (line:
    Option<String>)
    ensures
        line is None == (packets_rx == 0),
        line matches Some(text) ==> text@ == round_trip_text(min@, avg@, max@, stddev@),
{
    if packets_rx == 0 {
        return None;
    }
    let mut line: String = "round-trip min/avg/max/stddev = ".to_owned();
    line.append(min);
    line.append("/");
    line.append(avg);
    line.append("/");
    line.append(max);
    line.append("/");
    line.append(stddev);
    line.append(" ms");
    Some(line)
}

} // verus!
