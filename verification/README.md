# pinger

Ping remote hosts across operating systems, with the decisions verified in Verus.

- `src/` — the verified library (crate `pinger`):
  - `rtt` — the round-trip time field of output lines (`time=<ms>[.<fraction>] ms`), read from the line's bytes;
  - `linux` — detecting BusyBox or iputils from `ping -V`, building the command line, reading output lines;
  - `windows` — reading Windows output lines and the decisions of the ICMP echo loop;
  - `fake` — made-up replies;
  - `target`, `utils` — targets and their resolution to one address;
  - `text`, `decimal` — byte-level text helpers and decimal numbers.
- `app/` — processes, threads, tokio tasks, name lookups and `Display` around the library.
- `tests/` — tests of the library.
