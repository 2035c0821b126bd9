# blackhole

A privacy toolkit: a fail-closed network kill switch that only lets traffic
out through Tor, encrypted DNS with leak detection and a local relay, a
fingerprint scanner that scores how identifiable a machine is and tracks
that score over time, a cookie randomizer for tracker domains, and a
terminal dashboard over all of it.

## Layout

- `src/` is the library, written in Verus: every function in it carries a
  `requires`/`ensures` contract that Verus proves, and the properties the
  tool promises (the kill switch never claims to block when it does not,
  a failed DNS lookup is never answered with an address, a detected leak
  always re-asserts the kill switch, scores stay within 0..=100, one stable
  substitute value per tracker cookie, …) are stated as `law_*` proof
  functions next to the code they are about.
  - `kill_switch/` – the guard state machine, the nftables ruleset and the
    Windows Filtering Platform plan, Tor control-port and subprocess logic.
  - `dns/` – provider fallback with DNSSEC screening, leak checks, relay
    answers and system-resolver commands.
  - `fingerprint/` – the individual checks, scoring, scan history and
    diffs, and the periodic-scan schedule.
  - `cookies/` – tracker lists, the substitute-value store, header
    rewriting, the CA fingerprint and daily statistics.
  - `dashboard/`, `status.rs`, `mobile.rs` – what the dashboard, the
    `status` command and the mobile bindings show.
- `app/` is the `blackhole` command-line program in ordinary Rust: argument
  parsing, files, sockets, processes, the proxy and the terminal UI. It
  performs the I/O and hands plain values to the library's functions.
- `tests/` exercises the library on concrete inputs.

Calls into outside crates that the library makes (`rand`, `sha2`, `time`,
`cookie`) go through small wrappers whose contracts say what those crates
document; everything else outside is used from `app/` only.
