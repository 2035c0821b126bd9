//! The decisions of the subprocess Tor backend, which drives the official
//! `tor` binary as a child process: which binary to run, whether its
//! version is acceptable, how to read its `--version` output, the command
//! line it is started with, and what its state means for Tor's status.
//! Spawning the process and talking to its control port are done by the
//! application.

use std::path::PathBuf;

use vstd::prelude::*;

use crate::kill_switch::error::BlackholeError;
use crate::kill_switch::tor::TorStatus;
use crate::text::{
    chars_of, concat2, decimal, parse_unsigned, parsed_unsigned, push_decimal, second_piece,
    second_piece_of, string_of_range,
};

verus! {

/// Below this version the backend refuses to run the binary at all: no
/// version check would mean no assurance against a known-vulnerable
/// build. A point-in-time floor, to be revisited against the Tor
/// Project's current stable series.
pub const MIN_TOR_VERSION: (u32, u32, u32) = (0, 4, 8);

pub const DEFAULT_SOCKS_PORT: u16 = 19050;

pub const DEFAULT_CONTROL_PORT: u16 = 19051;

#[derive(Debug, Clone)]
pub struct SubprocessConfig {
    /// Explicit path to the `tor` binary; when `None` it is looked up on
    /// `PATH` and in common Tor Browser install locations.
    pub binary_path: Option<PathBuf>,
    pub data_dir: PathBuf,
    pub socks_port: u16,
    pub control_port: u16,
}

impl SubprocessConfig {
    /// The default configuration, keeping Tor's state in `data_dir`.
    pub fn with_data_dir(data_dir: PathBuf) -> (c: SubprocessConfig)
        ensures
            c.binary_path is None,
            c.data_dir == data_dir,
            c.socks_port == DEFAULT_SOCKS_PORT,
            c.control_port == DEFAULT_CONTROL_PORT,
    {
        SubprocessConfig {
            binary_path: None,
            data_dir,
            socks_port: DEFAULT_SOCKS_PORT,
            control_port: DEFAULT_CONTROL_PORT,
        }
    }
}

/// `a` comes before `b` in version order (major, then minor, then patch).
pub open spec fn version_less(a: (u32, u32, u32), b: (u32, u32, u32)) -> bool {
    a.0 < b.0 || (a.0 == b.0 && (a.1 < b.1 || (a.1 == b.1 && a.2 < b.2)))
}

pub fn version_below(a: (u32, u32, u32), b: (u32, u32, u32)) -> (r: bool)
    ensures
        r == version_less(a, b),
{
    a.0 < b.0 || (a.0 == b.0 && (a.1 < b.1 || (a.1 == b.1 && a.2 < b.2)))
}

/// `c` may appear in a version number.
pub open spec fn version_char(c: char) -> bool {
    c == '.' || ('0' <= c && c <= '9')
}

/// Length of the version number `s` starts with.
pub open spec fn version_run(s: Seq<char>) -> nat
    decreases s.len(),
{
    if s.len() > 0 && version_char(s[0]) {
        1 + version_run(s.drop_first())
    } else {
        0
    }
}

/// Length of the first `.`-separated field of `s`.
pub open spec fn field_end(s: Seq<char>) -> nat
    decreases s.len(),
{
    if s.len() > 0 && s[0] != '.' {
        1 + field_end(s.drop_first())
    } else {
        0
    }
}

/// The `k`th `.`-separated field of `s` (`str::split('.').nth(k)`).
pub open spec fn dot_field(s: Seq<char>, k: nat) -> Option<Seq<char>>
    decreases k,
{
    let e = field_end(s);
    if k == 0 {
        Some(s.take(e as int))
    } else if e < s.len() {
        dot_field(s.skip(e as int + 1), (k - 1) as nat)
    } else {
        None
    }
}

proof fn lemma_field_end_bound(s: Seq<char>)
    ensures
        field_end(s) <= s.len(),
        field_end(s) < s.len() ==> s[field_end(s) as int] == '.',
    decreases s.len(),
{
    if s.len() > 0 && s[0] != '.' {
        lemma_field_end_bound(s.drop_first());
    }
}

/// A field read as a `u32`.
pub open spec fn field_u32(f: Option<Seq<char>>) -> Option<u32> {
    match f {
        Some(t) => match parsed_unsigned(t, u32::MAX as nat) {
            Some(v) => Some(v as u32),
            None => None,
        },
        None => None,
    }
}

/// The `X.Y.Z` in Tor's own version string (`Tor version 0.4.8.13.`):
/// the digits-and-dots run after the first `Tor version `, and its first
/// three fields.
pub open spec fn parsed_tor_version(text: Seq<char>) -> Option<(u32, u32, u32)> {
    match second_piece(text, "Tor version "@) {
        None => None,
        Some(after) => {
            let vs = after.take(version_run(after) as int);
            match (
                field_u32(dot_field(vs, 0)),
                field_u32(dot_field(vs, 1)),
                field_u32(dot_field(vs, 2)),
            ) {
                (Some(a), Some(b), Some(c)) => Some((a, b, c)),
                _ => None,
            }
        },
    }
}

/// The `k`th field of `v[from..]`.
fn dot_field_of(v: &Vec<char>, from: usize, k: usize) -> (r: Option<String>)
    requires
        from <= v@.len(),
    ensures
        match dot_field(v@.skip(from as int), k as nat) {
            Some(f) => r is Some && r->0@ == f,
            None => r is None,
        },
    decreases k,
{
    let ghost s = v@.skip(from as int);
    let mut e = from;
    assert(v@.skip(e as int) =~= s);
    while e < v.len() && v[e] != '.'
        invariant
            from <= e <= v@.len(),
            s == v@.skip(from as int),
            field_end(s) == (e - from) + field_end(v@.skip(e as int)),
        decreases v@.len() - e,
    {
        assert(v@.skip(e as int).drop_first() =~= v@.skip(e + 1));
        e = e + 1;
    }
    if k == 0 {
        let f = string_of_range(v, from, e);
        assert(f@ =~= s.take(e - from));
        Some(f)
    } else if e < v.len() {
        assert(s.skip(e - from + 1) =~= v@.skip(e + 1));
        dot_field_of(v, e + 1, k - 1)
    } else {
        None
    }
}

fn field_as_u32(f: Option<String>) -> (r: Option<u32>)
    ensures
        r == field_u32(match f {
            Some(s) => Some(s@),
            None => None,
        }),
{
    match f {
        Some(s) => match parse_unsigned(s.as_str(), 4294967295) {
            Some(v) => Some(v as u32),
            None => None,
        },
        None => None,
    }
}

/// Reads the version out of `tor --version` output; `None` when it does
/// not parse (`version_from_output` refuses such output).
pub fn parse_tor_version(text: &str) -> (r: Option<(u32, u32, u32)>)
    ensures
        r == parsed_tor_version(text@),
{
    proof {
        reveal_strlit("Tor version ");
    }
    let after = match second_piece_of(text, "Tor version ") {
        Some(a) => a,
        None => return None,
    };
    let v = chars_of(after.as_str());
    let mut n: usize = 0;
    assert(v@.skip(0) =~= v@);
    while n < v.len() && (v[n] == '.' || ('0' <= v[n] && v[n] <= '9'))
        invariant
            v@ == after@,
            n <= v@.len(),
            version_run(v@) == n + version_run(v@.skip(n as int)),
        decreases v@.len() - n,
    {
        assert(v@.skip(n as int).drop_first() =~= v@.skip(n + 1));
        n = n + 1;
    }
    let vs = string_of_range(&v, 0, n);
    let vsv = chars_of(vs.as_str());
    assert(vsv@.skip(0) =~= vsv@);
    assert(vsv@ =~= after@.take(version_run(after@) as int));
    let a = field_as_u32(dot_field_of(&vsv, 0, 0));
    let b = field_as_u32(dot_field_of(&vsv, 0, 1));
    let c = field_as_u32(dot_field_of(&vsv, 0, 2));
    match (a, b, c) {
        (Some(a), Some(b), Some(c)) => Some((a, b, c)),
        _ => None,
    }
}

/// The text std's `Debug` formatting gives for the string `s` (quoted,
/// with special characters escaped).
pub uninterp spec fn debug_quoted(s: Seq<char>) -> Seq<char>;

/// `format!("{:?}", s)`: std's `Debug` rendering of a string, which
/// depends on the string alone.
#[verifier::external_body]
fn debug_text(s: &str) -> (r: String)
    ensures
        r@ == debug_quoted(s@),
{
    format!("{:?}", s)
}

/// The error for `tor --version` output that yields no version.
pub open spec fn unparsable_version_message(binary: Seq<char>, text: Seq<char>) -> Seq<char> {
    "could not parse a version number out of '"@ + binary + " --version' output: "@ + debug_quoted(text)
}

/// The version `binary --version` printed as `text`: output that does not
/// parse is refused, as an unparsed version is exactly as untrustworthy
/// as a too-old one.
pub fn version_from_output(binary: &str, text: &str) -> (r: Result<(u32, u32, u32), BlackholeError>)
    ensures
        parsed_tor_version(text@) matches Some(v) ==> r == Ok::<(u32, u32, u32), BlackholeError>(v),
        parsed_tor_version(text@) is None ==> (r matches Err(BlackholeError::Tor(m)) && m@
            == unparsable_version_message(binary@, text@)),
{
    match parse_tor_version(text) {
        Some(v) => Ok(v),
        None => {
            let mut m = concat2("could not parse a version number out of '", binary);
            m.append(" --version' output: ");
            let q = debug_text(text);
            m.append(q.as_str());
            proof {
                reveal_strlit("could not parse a version number out of '");
                reveal_strlit(" --version' output: ");
            }
            assert(m@ =~= unparsable_version_message(binary@, text@));
            Err(BlackholeError::Tor(m))
        },
    }
}

/// The error for a binary whose version is below the floor.
pub open spec fn too_old_message(binary: Seq<char>, v: (u32, u32, u32)) -> Seq<char> {
    "tor binary at "@ + binary + " reports version "@ + decimal(v.0 as nat) + "."@ + decimal(
        v.1 as nat,
    ) + "."@ + decimal(v.2 as nat) + ", below the minimum "@ + decimal(MIN_TOR_VERSION.0 as nat)
        + "."@ + decimal(MIN_TOR_VERSION.1 as nat) + "."@ + decimal(MIN_TOR_VERSION.2 as nat)
        + " this backend will run (no version check would mean no assurance against a known-vulnerable build) — get a current release from https://www.torproject.org/download/tor/"@
}

/// The version check before spawning: versions below `MIN_TOR_VERSION`
/// are refused. `binary` names the binary in the message.
pub fn check_tor_version(binary: &str, version: (u32, u32, u32)) -> (r: Result<(), BlackholeError>)
    ensures
        !version_less(version, MIN_TOR_VERSION) ==> r is Ok,
        version_less(version, MIN_TOR_VERSION) ==> (r matches Err(BlackholeError::Tor(m)) && m@
            == too_old_message(binary@, version)),
{
    if !version_below(version, MIN_TOR_VERSION) {
        return Ok(());
    }
    let mut m = concat2("tor binary at ", binary);
    m.append(" reports version ");
    push_decimal(&mut m, version.0 as u64);
    m.append(".");
    push_decimal(&mut m, version.1 as u64);
    m.append(".");
    push_decimal(&mut m, version.2 as u64);
    m.append(", below the minimum ");
    push_decimal(&mut m, MIN_TOR_VERSION.0 as u64);
    m.append(".");
    push_decimal(&mut m, MIN_TOR_VERSION.1 as u64);
    m.append(".");
    push_decimal(&mut m, MIN_TOR_VERSION.2 as u64);
    m.append(
        " this backend will run (no version check would mean no assurance against a known-vulnerable build) — get a current release from https://www.torproject.org/download/tor/",
    );
    assert(m@ =~= too_old_message(binary@, version));
    Err(BlackholeError::Tor(m))
}

/// The configured binary path, how it is displayed, and whether it is a
/// file.
pub struct ConfiguredBinary {
    pub path: PathBuf,
    pub shown: String,
    pub is_file: bool,
}

/// Where the `tor` binary was found, step by step: the configured path
/// (checked to be a file), a hit on `PATH`, and the Tor Browser install
/// locations in order (each with whether it is a file).
pub struct BinarySearch {
    pub explicit: Option<ConfiguredBinary>,
    pub on_path: Option<PathBuf>,
    pub browser_candidates: Vec<(PathBuf, bool)>,
}

pub const NO_TOR_BINARY_MESSAGE: &'static str = "no tor binary found on PATH or in a common Tor Browser install location. Download one from https://www.torproject.org/download/tor/ (or use Tor Browser, which bundles one), then set `tor_binary_path` in the config file — see TOR_BACKENDS.md.";

/// The binary to run: the configured path if set (an error if it is not a
/// file), else the `PATH` hit, else the first Tor Browser location that is
/// a file, else an error saying where to get one.
pub fn locate_tor_binary(search: BinarySearch) -> (r: Result<PathBuf, BlackholeError>)
    ensures
        search.explicit is Some && search.explicit->0.is_file ==> r == Ok::<PathBuf, BlackholeError>(
            search.explicit->0.path,
        ),
        search.explicit is Some && !search.explicit->0.is_file ==> (r matches Err(
            BlackholeError::Tor(m),
        ) && m@ == "configured tor_binary_path "@ + search.explicit->0.shown@
            + " does not exist or isn't a file"@),
        search.explicit is None && search.on_path is Some ==> r == Ok::<PathBuf, BlackholeError>(
            search.on_path->0,
        ),
        search.explicit is None && search.on_path is None ==> match r {
            Ok(p) => exists|i: int|
                0 <= i < search.browser_candidates@.len() && #[trigger] search.browser_candidates@[i]
                    == (p, true) && forall|j: int|
                    0 <= j < i ==> !search.browser_candidates@[j].1,
            Err(BlackholeError::Tor(m)) => m@ == NO_TOR_BINARY_MESSAGE@ && forall|j: int|
                0 <= j < search.browser_candidates@.len() ==> !search.browser_candidates@[j].1,
            Err(_) => false,
        },
{
    match search.explicit {
        Some(c) => {
            if c.is_file {
                return Ok(c.path);
            }
            let mut m = concat2("configured tor_binary_path ", c.shown.as_str());
            m.append(" does not exist or isn't a file");
            return Err(BlackholeError::Tor(m));
        },
        None => {},
    }
    match search.on_path {
        Some(p) => {
            return Ok(p);
        },
        None => {},
    }
    let ghost explicit_none = search.explicit is None;
    let ghost path_none = search.on_path is None;
    let ghost original = search.browser_candidates@;
    let mut rest = search.browser_candidates;
    let ghost all = rest@;
    let n = rest.len();
    let mut i: usize = 0;
    while rest.len() > 0
        invariant
            explicit_none == (search.explicit is None),
            path_none == (search.on_path is None),
            explicit_none && path_none,
            original == search.browser_candidates@,
            all == original,
            all.len() == n,
            all.len() == i + rest@.len(),
            forall|j: int| 0 <= j < i ==> !all[j].1,
            rest@ == all.skip(i as int),
        decreases rest@.len(),
    {
        let (p, is_file) = rest.remove(0);
        assert(all[i as int] == (p, is_file));
        if is_file {
            return Ok(p);
        }
        i = i + 1;
        assert(rest@ =~= all.skip(i as int));
    }
    Err(BlackholeError::Tor(NO_TOR_BINARY_MESSAGE.to_owned()))
}

/// The value after the first occurrence of `flag` on a command line, if
/// there is one (how a stand-in `tor` reads `--ControlPort 127.0.0.1:N`).
pub fn arg_value(args: &Vec<String>, flag: &str) -> (r: Option<String>)
    ensures
        match r {
            Some(v) => exists|i: int|
                0 <= i && i + 1 < args@.len() && (#[trigger] args@[i])@ == flag@ && v@ == args@[i
                    + 1]@ && forall|j: int| 0 <= j < i ==> args@[j]@ != flag@,
            None => forall|i: int|
                0 <= i < args@.len() && (#[trigger] args@[i])@ == flag@ ==> (i + 1 == args@.len()
                    && forall|j: int| 0 <= j < i ==> args@[j]@ != flag@),
        },
{
    let f = flag.to_owned();
    let mut i: usize = 0;
    while i < args.len()
        invariant
            f@ == flag@,
            i <= args@.len(),
            forall|j: int| 0 <= j < i ==> (#[trigger] args@[j])@ != flag@,
        decreases args@.len() - i,
    {
        if args[i] == f {
            if i + 1 < args.len() {
                return Some(args[i + 1].clone());
            }
            return None;
        }
        i = i + 1;
    }
    None
}

/// The control address a stand-in `tor` listens on: the whole
/// `--ControlPort` value (`127.0.0.1:PORT`, as the real `tor` accepts it).
pub fn control_port_addr(control_port_arg: &str) -> (r: String)
    ensures
        r@ == control_port_arg@,
{
    control_port_arg.to_owned()
}

/// A loopback socket address on `port`, as text.
pub open spec fn loopback_addr(port: u16) -> Seq<char> {
    "127.0.0.1:"@ + decimal(port as nat)
}

/// The command line the `tor` child is started with: SOCKS and control
/// ports on loopback, cookie authentication, its own data directory, in
/// the foreground, as a client only.
pub open spec fn tor_args_text(socks_port: u16, control_port: u16, data_dir: Seq<char>) -> Seq<Seq<char>> {
    seq![
        "--SocksPort"@,
        loopback_addr(socks_port),
        "--ControlPort"@,
        loopback_addr(control_port),
        "--CookieAuthentication"@,
        "1"@,
        "--DataDirectory"@,
        data_dir,
        "--RunAsDaemon"@,
        "0"@,
        "--ClientOnly"@,
        "1"@,
    ]
}

fn loopback(port: u16) -> (r: String)
    ensures
        r@ == loopback_addr(port),
{
    let mut r = "127.0.0.1:".to_owned();
    push_decimal(&mut r, port as u64);
    r
}

pub fn tor_args(socks_port: u16, control_port: u16, data_dir: &str) -> (args: Vec<String>)
    ensures
        args@.map_values(|a: String| a@) == tor_args_text(socks_port, control_port, data_dir@),
{
    let mut args: Vec<String> = Vec::new();
    args.push("--SocksPort".to_owned());
    args.push(loopback(socks_port));
    args.push("--ControlPort".to_owned());
    args.push(loopback(control_port));
    args.push("--CookieAuthentication".to_owned());
    args.push("1".to_owned());
    args.push("--DataDirectory".to_owned());
    args.push(data_dir.to_owned());
    args.push("--RunAsDaemon".to_owned());
    args.push("0".to_owned());
    args.push("--ClientOnly".to_owned());
    args.push("1".to_owned());
    assert(args@.map_values(|a: String| a@) =~= tor_args_text(socks_port, control_port, data_dir@));
    args
}

/// A stand-in `tor` reading the command line it was started with finds
/// the control address there: `--ControlPort` first occurs third, and
/// the control address follows it.
pub proof fn law_control_port_is_found_in_the_arguments(socks_port: u16, control_port: u16, data_dir: Seq<char>)
    ensures
        tor_args_text(socks_port, control_port, data_dir)[2] == "--ControlPort"@,
        tor_args_text(socks_port, control_port, data_dir)[3] == loopback_addr(control_port),
        forall|j: int| 0 <= j < 2 ==> tor_args_text(socks_port, control_port, data_dir)[j] != "--ControlPort"@,
{
    reveal_strlit("--SocksPort");
    reveal_strlit("--ControlPort");
    reveal_strlit("127.0.0.1:");
    let args = tor_args_text(socks_port, control_port, data_dir);
    assert(args[0][2] != "--ControlPort"@[2]);
    assert(args[1][0] != "--ControlPort"@[0]);
}

/// Tor's status as the subprocess backend reports it: down with the exit
/// status when the child has exited; else what its control port says
/// about bootstrapping, or the error talking to it.
pub fn subprocess_status(
    exit_status: Option<String>,
    bootstrap: Result<(u8, bool, Option<String>), String>,
) -> (s: TorStatus)
    ensures
        exit_status is Some ==> s.bootstrap_percent == 0 && !s.ready_for_traffic && s.blocked_reason
            is Some && s.blocked_reason->0@ == "tor subprocess exited unexpectedly (status: "@
            + exit_status->0@ + ")"@,
        exit_status is None ==> match bootstrap {
            Ok((p, ready, reason)) => s.bootstrap_percent == p && s.ready_for_traffic == ready
                && s.blocked_reason == reason,
            Err(e) => s.bootstrap_percent == 0 && !s.ready_for_traffic && s.blocked_reason
                == Some(e),
        },
{
    match exit_status {
        Some(st) => {
            let mut reason = concat2("tor subprocess exited unexpectedly (status: ", st.as_str());
            reason.append(")");
            TorStatus { bootstrap_percent: 0, ready_for_traffic: false, blocked_reason: Some(reason) }
        },
        None => match bootstrap {
            Ok((p, ready, reason)) => TorStatus {
                bootstrap_percent: p,
                ready_for_traffic: ready,
                blocked_reason: reason,
            },
            Err(e) => TorStatus { bootstrap_percent: 0, ready_for_traffic: false, blocked_reason: Some(e) },
        },
    }
}

/// A new identity can only be asked of a running child.
pub fn check_child_running(exit_status: Option<String>) -> (r: Result<(), BlackholeError>)
    ensures
        exit_status is None ==> r is Ok,
        exit_status is Some ==> (r matches Err(BlackholeError::Tor(m)) && m@
            == "cannot request a new identity: tor subprocess has exited (status: "@
            + exit_status->0@ + ")"@),
{
    match exit_status {
        Some(st) => {
            let mut m = concat2("cannot request a new identity: tor subprocess has exited (status: ", st.as_str());
            m.append(")");
            Err(BlackholeError::Tor(m))
        },
        None => Ok(()),
    }
}

} // verus!
