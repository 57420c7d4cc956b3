# rnmap_core

An Nmap-style TCP port scanner whose decisions are verified with Verus.

## Layout

- `src/` — the verified library. Every public function carries a contract
  over mathematical models (`Seq`, `Set`, `nat`):
  - `ports` — port specs (`22`, `1-1024`, `-`, lists) to a sorted, deduplicated
    port list, with the exact error for each refused spec.
  - `target` — target specs (IP literals, CIDR networks, last-octet ranges,
    hostnames with their resolver answers) to resolved hosts.
  - `timing` — the `-T0` … `-T5` templates.
  - `checksum`, `discovery`, `scan::syn` — the Internet checksum, ICMP echo and
    IPv4/TCP packet construction and parsing, and the TCP-ping, connect-scan
    and SYN-scan decisions as state machines.
  - `service` — banner classification with the built-in regex table.
  - `output` — the normal and XML renderers and the JSON selection.
  - `cli` — Nmap-style argument rewriting and the front end's per-host
    decisions (discovery plan, which hosts and ports are scanned, host names).
- `app/` — the `rnmap` binary: argument parsing, sockets, DNS, the async
  scan loop, JSON serialisation and file output. It drives the library's
  state machines and renderers.
- `tests/` — tests of the library on concrete values.

The built-in top-ports table is not part of this source tree, so `--top-ports`
is not available and a scan needs its ports given with `-p`.

Laws proved in `src/` include: every packet built here checksums to zero
(`law_checksum_verifies`, `law_icmp_echo_checksum_valid`,
`law_ipv4_header_checksum_valid`, `law_tcp_segment_checksum_valid`); the SYN
parser reads back what the builders write (`law_parse_reads_built_segment`,
`law_answers_to_the_probe_decide`); faster timing levels are more aggressive
(`law_faster_levels_are_more_aggressive`); a TCP ping with no connection ends
up exactly when a probe was refused (`law_tcp_ping_rst_means_up`); a connect
scan retries at most `max_retries` times (`law_connect_retries_bounded`); an
accepted port spec is never empty and never holds port 0
(`law_parsed_ports_are_valid`) and holds exactly the ports its chunks cover
(`law_port_spec_membership`); XML escaping leaves no markup
(`law_escape_has_no_markup`).
