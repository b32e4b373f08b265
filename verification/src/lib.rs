//! The logic of an ICMP echo (ping) client for ICMPv4 and ICMPv6.
//!
//! Everything here computes on plain values: it builds requests, tells replies
//! from other traffic, decides which sockets to open and how to set them up,
//! drives a run of probes, summarises it, and reads the command line. Sockets,
//! clocks, timers and name lookups belong to the program around it, which hands
//! in what they gave and carries out what comes back. So do reading and writing an
//! IP address as text, and writing times and percentages with a fraction: the
//! library takes the address that was read, and the text that was written.
//!
//! - [`addr`]: host addresses, and what it takes to resolve an input to one
//! - [`net`]: socket kinds, bind plans and request identifiers
//! - [`packet`]: echo request messages and the Internet checksum
//! - [`reply`]: matching what was received to a request
//! - [`exchange`]: one request and the wait for its reply
//! - [`probe`]: outcomes of probes, and runs of probes
//! - [`stats`]: round-trip time statistics
//! - [`time`]: timestamps inside requests
//! - [`cli`], [`report`]: the command line, and what the program prints
//! - [`error`], [`text`], [`natural`]: errors, text and large integers
//!
//! The modules whose names end in `_laws` state what these are for: each law relates
//! the arguments and the results of the functions themselves, over all of them.

pub mod addr;
pub mod addr_laws;
pub mod cli;
pub mod cli_laws;
pub mod error;
pub mod exchange;
pub mod natural;
pub mod net;
pub mod net_laws;
pub mod packet;
pub mod packet_laws;
mod private;
pub mod probe;
pub mod probe_laws;
pub mod reply;
pub mod reply_laws;
pub mod report;
pub mod report_laws;
pub mod stats;
pub mod stats_laws;
pub mod text;
pub mod text_laws;
pub mod time;
pub mod time_laws;

pub use crate::addr::{HostAddr, ToHostAddr};
pub use crate::packet::generate_payload;
pub use crate::probe::PingStats;
pub use crate::reply::{IcmpEchoReply, IcmpV6EchoReply};
