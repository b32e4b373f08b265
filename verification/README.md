# ping_tokio

Async ICMP ping for ICMPv4 and ICMPv6, with its logic verified by
[Verus](https://github.com/verus-lang/verus).

- `src/` is the verified library: request messages and their checksum, matching
  of replies, socket and identifier decisions, single exchanges and runs of
  probes, round-trip time statistics, the steps of address resolution, the
  command line and the lines that the program prints. It works on plain values
  only: an IP address that was read from text, and the text of an address, a time
  or a percentage with a fraction, are handed in. What holds across functions is
  stated in proof functions whose names start with `law_`.
- `app/` is the `ping` program around it: sockets, clock, timers, name lookups,
  reading and writing IP addresses as text, writing numbers with a fraction, and
  printing.
- `tests/` runs the library on concrete values.

## Usage

```text
ping <destination> [-c count] [-s size] [-W timeout_secs]
```

| Flag | Default | Description                           |
|------|---------|---------------------------------------|
| `-c` | 5       | Number of echo requests to send       |
| `-s` | 56      | Total ICMP payload size (must be > 8) |
| `-W` | 1       | Per-probe timeout in seconds          |

The send time is written into the first 8 bytes of the echo payload and read back
from the reply, so the timing information travels with the packet itself.

## Trust

The library takes the following on trust, each with a contract next to it:
`Duration::new`, `Duration::from_nanos` and `Duration::as_nanos`, `str::parse` to
`u16`, `u32` and `u64`, and a few facts about the constants of `libc`.
