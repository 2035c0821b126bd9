//! Local network-identity audit: MAC addresses (randomized or
//! manufacturer-original), hostname, and the OS's stable machine ID:
//! everything that can tag this machine to a network operator or a
//! service without any browser involved.
//!
//! The application reads the hostname, the user name, the machine ID and
//! the interfaces; this module decides what each means.

use vstd::prelude::*;

use crate::fingerprint::error::FingerprintError;
use crate::fingerprint::report::{finding_is, Category, Finding, Severity};
use crate::text::{
    ascii_lower_seq, chars_of, concat2, concat3, contains, has_infix, has_prefix, occurs_at, starts_with, string_of_range,
    trim, trimmed,
};

verus! {

/// std's `str::to_uppercase` (full Unicode case mapping).
pub uninterp spec fn unicode_upper(s: Seq<char>) -> Seq<char>;

/// std's `str::to_lowercase` (full Unicode case mapping).
pub uninterp spec fn unicode_lower(s: Seq<char>) -> Seq<char>;

/// Every character of `s` is ASCII.
pub open spec fn ascii_text(s: Seq<char>) -> bool {
    forall|i: int| 0 <= i < s.len() ==> (#[trigger] s[i] as u32) < 128
}

/// ASCII uppercase of a sequence: every `a`-`z` mapped to `A`-`Z`, every
/// other character unchanged.
pub open spec fn ascii_upper_seq(s: Seq<char>) -> Seq<char> {
    s.map_values(|c: char| if 'a' <= c && c <= 'z' { ((c as u32) - 32) as char } else { c })
}

/// `str::to_uppercase`: the Unicode uppercase of `s`. Unicode maps ASCII
/// letters to their ASCII counterparts and leaves other ASCII characters
/// alone, so on ASCII text it is the ASCII uppercase.
#[verifier::external_body]
fn to_uppercase(s: &str) -> (r: String)
    ensures
        r@ == unicode_upper(s@),
        ascii_text(s@) ==> r@ == ascii_upper_seq(s@),
{
    s.to_uppercase()
}

/// `str::to_lowercase`: the Unicode lowercase of `s`. On ASCII text it is
/// the ASCII lowercase.
#[verifier::external_body]
pub(crate) fn to_lowercase(s: &str) -> (r: String)
    ensures
        r@ == unicode_lower(s@),
        ascii_text(s@) ==> r@ == ascii_lower_seq(s@),
{
    s.to_lowercase()
}

/// The operating system the audit runs on; it picks the wording of
/// platform-specific advice.
#[derive(Debug, Clone, Copy, PartialEq, Eq, Structural)]
pub enum HostOs {
    Linux,
    Windows,
}

/// Hostnames that operating systems hand out by default.
pub open spec fn generic_hostname(name: Seq<char>) -> bool {
    let upper = unicode_upper(name);
    let lower = unicode_lower(name);
    has_prefix(upper, "DESKTOP-"@) || has_prefix(upper, "LAPTOP-"@) || lower == "localhost"@
        || lower == "ubuntu"@ || lower == "debian"@ || lower == "archlinux"@ || lower
        == "fedora"@
}

pub fn is_generic_hostname(name: &str) -> (b: bool)
    ensures
        b == generic_hostname(name@),
{
    let upper = to_uppercase(name);
    if starts_with(upper.as_str(), "DESKTOP-") || starts_with(upper.as_str(), "LAPTOP-") {
        return true;
    }
    let lower = to_lowercase(name);
    lower == "localhost".to_owned() || lower == "ubuntu".to_owned() || lower == "debian".to_owned()
        || lower == "archlinux".to_owned() || lower == "fedora".to_owned()
}

pub const HOSTNAME_RECOMMENDATION: &'static str = "set a generic hostname, e.g. `hostnamectl set-hostname host` (Linux) or Settings > System > About > Rename this PC (Windows)";

/// The finding for the machine's hostname (`None` when it could not be
/// read), given the local user name if known.
pub open spec fn hostname_finding(f: Finding, hostname: Option<Seq<char>>, username: Option<Seq<char>>) -> bool {
    match hostname {
        None => finding_is(f, Category::NetworkIdentity, Severity::Info, "could not read hostname"@, None),
        Some(name) => {
            let lower = unicode_lower(name);
            let user = match username {
                Some(u) => unicode_lower(u),
                None => unicode_lower(Seq::empty()),
            };
            if user.len() > 0 && lower.len() > 0 && has_infix(lower, user) {
                finding_is(
                    f,
                    Category::NetworkIdentity,
                    Severity::High,
                    "hostname '"@ + name
                        + "' contains the local username, making it identifiable to anyone who sees it on a network"@,
                    Some(HOSTNAME_RECOMMENDATION@),
                )
            } else if generic_hostname(name) {
                finding_is(
                    f,
                    Category::NetworkIdentity,
                    Severity::Info,
                    "hostname '"@ + name + "' looks auto-generated, low identifiability"@,
                    None,
                )
            } else {
                finding_is(
                    f,
                    Category::NetworkIdentity,
                    Severity::Low,
                    "hostname '"@ + name
                        + "' is custom; harmless unless it encodes personal information"@,
                    None,
                )
            }
        },
    }
}

/// Audits the hostname: one finding, identifying when it contains the
/// user name, harmless when it looks auto-generated, low otherwise.
pub fn check_hostname(hostname: Option<&str>, username: Option<&str>) -> (fs: Vec<Finding>)
    ensures
        fs@.len() == 1,
        hostname_finding(
            fs@[0],
            match hostname {
                Some(h) => Some(h@),
                None => None,
            },
            match username {
                Some(u) => Some(u@),
                None => None,
            },
        ),
{
    let mut fs: Vec<Finding> = Vec::new();
    let name = match hostname {
        None => {
            fs.push(Finding::new(Category::NetworkIdentity, Severity::Info, "could not read hostname"));
            return fs;
        },
        Some(n) => n,
    };
    let lower = to_lowercase(name);
    let user = match username {
        Some(u) => to_lowercase(u),
        None => to_lowercase(""),
    };
    proof {
        reveal_strlit("");
        assert(""@ =~= Seq::<char>::empty());
    }
    let f = if user.unicode_len() > 0 && lower.unicode_len() > 0 && contains(
        lower.as_str(),
        user.as_str(),
    ) {
        let summary = concat3(
            "hostname '",
            name,
            "' contains the local username, making it identifiable to anyone who sees it on a network",
        );
        Finding::new(Category::NetworkIdentity, Severity::High, summary.as_str()).with_recommendation(
            HOSTNAME_RECOMMENDATION,
        )
    } else if is_generic_hostname(name) {
        let summary = concat3("hostname '", name, "' looks auto-generated, low identifiability");
        Finding::new(Category::NetworkIdentity, Severity::Info, summary.as_str())
    } else {
        let summary = concat3(
            "hostname '",
            name,
            "' is custom; harmless unless it encodes personal information",
        );
        Finding::new(Category::NetworkIdentity, Severity::Low, summary.as_str())
    };
    fs.push(f);
    fs
}

/// Bytes `c` takes in UTF-8.
pub open spec fn utf8_width(c: char) -> nat {
    if (c as u32) < 0x80 {
        1
    } else if (c as u32) < 0x800 {
        2
    } else if (c as u32) < 0x10000 {
        3
    } else {
        4
    }
}

/// Bytes `s` takes in UTF-8.
pub open spec fn utf8_len(s: Seq<char>) -> nat
    decreases s.len(),
{
    if s.len() == 0 {
        0
    } else {
        utf8_len(s.drop_last()) + utf8_width(s.last())
    }
}

/// Byte offset `n` of `s` falls on a character boundary, at prefix `k`.
pub open spec fn boundary_at(s: Seq<char>, n: nat, k: int) -> bool {
    0 <= k <= s.len() && utf8_len(s.take(k)) == n
}

/// Where an identifier is cut: after its 8th byte, or at its end if it
/// is shorter.
pub open spec fn cut_bytes(s: Seq<char>) -> nat {
    if utf8_len(s) < 8 {
        utf8_len(s)
    } else {
        8
    }
}

/// Prefix `k` of `s` ends exactly where `s` is cut.
pub open spec fn cut_at(s: Seq<char>, k: int) -> bool {
    boundary_at(s, cut_bytes(s), k)
}

/// The length of the prefix of `s` kept when it is cut (there is at most
/// one, see `truncated`).
pub open spec fn cut_point(s: Seq<char>) -> int {
    choose|k: int| cut_at(s, k)
}

/// The shortened form of an identifier: its first 8 bytes, then `...`.
pub open spec fn truncated_text(id: Seq<char>, k: int) -> Seq<char> {
    id.take(k) + "..."@
}

pub proof fn lemma_utf8_len_prefix(s: Seq<char>, k: int)
    requires
        0 <= k < s.len(),
    ensures
        utf8_len(s.take(k + 1)) == utf8_len(s.take(k)) + utf8_width(s[k]),
{
    assert(s.take(k + 1).drop_last() =~= s.take(k));
}

pub proof fn lemma_utf8_len_monotone(s: Seq<char>, a: int, b: int)
    requires
        0 <= a <= b <= s.len(),
    ensures
        utf8_len(s.take(a)) <= utf8_len(s.take(b)),
        a < b ==> utf8_len(s.take(a)) < utf8_len(s.take(b)),
    decreases b - a,
{
    if a < b {
        lemma_utf8_len_prefix(s, b - 1);
        lemma_utf8_len_monotone(s, a, b - 1);
    }
}

/// The first 8 bytes of `id` (or all of it, if shorter) followed by
/// `...`. Cutting inside a character is not possible, so the cut must
/// fall on a character boundary.
pub fn truncated(id: &str) -> (r: String)
    requires
        exists|k: int| #[trigger] cut_at(id@, k),
    ensures
        cut_at(id@, cut_point(id@)),
        r@ == truncated_text(id@, cut_point(id@)),
{
    let v = chars_of(id);
    let mut k: usize = 0;
    let mut bytes: usize = 0;
    while k < v.len() && bytes < 8
        invariant
            v@ == id@,
            k <= v@.len(),
            bytes == utf8_len(v@.take(k as int)),
            bytes <= 8 + 3,
            k > 0 ==> utf8_len(v@.take(k - 1)) < 8,
        decreases v@.len() - k,
    {
        proof {
            lemma_utf8_len_prefix(v@, k as int);
        }
        let c = v[k];
        let w: usize = if (c as u32) < 0x80 {
            1
        } else if (c as u32) < 0x800 {
            2
        } else if (c as u32) < 0x10000 {
            3
        } else {
            4
        };
        bytes = bytes + w;
        k = k + 1;
    }
    proof {
        assert(v@.take(v@.len() as int) =~= v@);
        let k0 = choose|k0: int| cut_at(id@, k0);
        let len = v@.len() as int;
        assert(id@.take(len) =~= id@);
        if k0 < k {
            lemma_utf8_len_monotone(id@, k0, k - 1);
            lemma_utf8_len_monotone(id@, k0, len);
            assert(false);
        } else if k0 > k {
            lemma_utf8_len_monotone(id@, k as int, k0);
            assert(false);
        }
        assert(k0 == k);
    }
    let mut out = string_of_range(&v, 0, k);
    out.append("...");
    assert(out@ =~= truncated_text(id@, k as int));
    out
}

pub const MACHINE_ID_RECOMMENDATION: &'static str = "regenerating it (`sudo rm /etc/machine-id && sudo systemd-machine-id-setup`) helps against long-term correlation, but some services key local state off it — only do this if you understand the tradeoff";

pub const MACHINE_GUID_RECOMMENDATION: &'static str = "Windows regenerates this per-install; there is no supported way to change it without reinstalling, which this tool will not automate";

/// The cut of `trimmed(id)` exists: `truncated` can be applied to it.
pub open spec fn truncatable(id: Seq<char>) -> bool {
    exists|k: int| #[trigger] cut_at(trimmed(id), k)
}

/// The Linux machine-ID finding for the contents of `/etc/machine-id`
/// (`None` when it could not be read): the ID is shown cut short.
pub open spec fn machine_id_finding(f: Finding, contents: Option<Seq<char>>) -> bool {
    match contents {
        None => finding_is(f, Category::NetworkIdentity, Severity::Info, "no /etc/machine-id found"@, None),
        Some(c) => finding_is(
            f,
            Category::NetworkIdentity,
            Severity::Low,
            "/etc/machine-id is set ("@ + truncated_text(trimmed(c), cut_point(trimmed(c)))
                + "), a stable identifier some software uses to correlate you across sessions"@,
            Some(MACHINE_ID_RECOMMENDATION@),
        ),
    }
}

pub open spec fn opt_str(o: Option<&str>) -> Option<Seq<char>> {
    match o {
        Some(s) => Some(s@),
        None => None,
    }
}

pub fn check_machine_id(contents: Option<&str>) -> (fs: Vec<Finding>)
    requires
        contents matches Some(c) ==> truncatable(c@),
    ensures
        fs@.len() == 1,
        machine_id_finding(fs@[0], opt_str(contents)),
{
    let mut fs: Vec<Finding> = Vec::new();
    match contents {
        None => {
            fs.push(Finding::new(Category::NetworkIdentity, Severity::Info, "no /etc/machine-id found"));
        },
        Some(c) => {
            let id = trim(c);
            let short = truncated(id.as_str());
            let summary = concat3(
                "/etc/machine-id is set (",
                short.as_str(),
                "), a stable identifier some software uses to correlate you across sessions",
            );
            fs.push(
                Finding::new(Category::NetworkIdentity, Severity::Low, summary.as_str()).with_recommendation(
                    MACHINE_ID_RECOMMENDATION,
                ),
            );
        },
    }
    fs
}

/// The Windows machine-ID finding for what reading `MachineGuid` printed
/// (`None` when the read failed).
pub fn check_machine_guid(output: Option<&str>) -> (fs: Vec<Finding>)
    requires
        output matches Some(c) ==> truncatable(c@),
    ensures
        fs@.len() == 1,
        (output is None || trimmed(output->0@).len() == 0) ==> finding_is(
            fs@[0],
            Category::NetworkIdentity,
            Severity::Info,
            "could not read MachineGuid"@,
            None,
        ),
        output is Some && trimmed(output->0@).len() > 0 ==> finding_is(
            fs@[0],
            Category::NetworkIdentity,
            Severity::Low,
            "MachineGuid is set ("@ + truncated_text(trimmed(output->0@), cut_point(trimmed(output->0@)))
                + "), a stable identifier some software uses to correlate you across sessions"@,
            Some(MACHINE_GUID_RECOMMENDATION@),
        ),
{
    let mut fs: Vec<Finding> = Vec::new();
    match output {
        Some(c) => {
            let id = trim(c);
            if id.unicode_len() > 0 {
                let short = truncated(id.as_str());
                let summary = concat3(
                    "MachineGuid is set (",
                    short.as_str(),
                    "), a stable identifier some software uses to correlate you across sessions",
                );
                fs.push(
                    Finding::new(Category::NetworkIdentity, Severity::Low, summary.as_str()).with_recommendation(
                        MACHINE_GUID_RECOMMENDATION,
                    ),
                );
                return fs;
            }
        },
        None => {},
    }
    fs.push(Finding::new(Category::NetworkIdentity, Severity::Info, "could not read MachineGuid"));
    fs
}

/// The value of a hexadecimal digit.
pub open spec fn hex_digit_value(c: char) -> Option<nat> {
    if '0' <= c && c <= '9' {
        Some((c as int - '0' as int) as nat)
    } else if 'a' <= c && c <= 'f' {
        Some((c as int - 'a' as int + 10) as nat)
    } else if 'A' <= c && c <= 'F' {
        Some((c as int - 'A' as int + 10) as nat)
    } else {
        None
    }
}

/// The number the hexadecimal digits `s` spell, if they all are digits.
pub open spec fn hex_value(s: Seq<char>) -> Option<nat>
    decreases s.len(),
{
    if s.len() == 0 {
        Some(0)
    } else {
        match (hex_value(s.drop_last()), hex_digit_value(s.last())) {
            (Some(v), Some(d)) => Some(v * 16 + d),
            _ => None,
        }
    }
}

/// std's `u8::from_str_radix(s, 16)`: an optional `+`, then at least one
/// hexadecimal digit, and a value that fits in a byte.
pub open spec fn parsed_hex_byte(s: Seq<char>) -> Option<u8> {
    let digits = if s.len() > 0 && s[0] == '+' {
        s.skip(1)
    } else {
        s
    };
    if digits.len() == 0 {
        None
    } else {
        match hex_value(digits) {
            Some(v) => if v <= 255 {
                Some(v as u8)
            } else {
                None
            },
            None => None,
        }
    }
}

proof fn lemma_hex_value_monotone(s: Seq<char>, i: int, j: int)
    requires
        0 <= i <= j <= s.len(),
        hex_value(s.take(j)) is Some,
    ensures
        hex_value(s.take(i)) is Some,
        hex_value(s.take(i))->0 <= hex_value(s.take(j))->0,
    decreases j - i,
{
    if i < j {
        assert(s.take(j).drop_last() =~= s.take(j - 1));
        lemma_hex_value_monotone(s, i, j - 1);
    }
}

fn hex_digit_of(c: char) -> (r: Option<u32>)
    ensures
        match r {
            Some(d) => hex_digit_value(c) == Some(d as nat) && d < 16,
            None => hex_digit_value(c) is None,
        },
{
    if '0' <= c && c <= '9' {
        Some((c as u32) - 48)
    } else if 'a' <= c && c <= 'f' {
        Some((c as u32) - 97 + 10)
    } else if 'A' <= c && c <= 'F' {
        Some((c as u32) - 65 + 10)
    } else {
        None
    }
}

/// `u8::from_str_radix(s, 16)`, as a function of the text.
#[verifier::rlimit(40)]
pub fn parse_hex_byte(s: &str) -> (r: Option<u8>)
    ensures
        r == parsed_hex_byte(s@),
{
    let v = chars_of(s);
    let start: usize = if v.len() > 0 && v[0] == '+' { 1 } else { 0 };
    let ghost digits = if s@.len() > 0 && s@[0] == '+' { s@.skip(1) } else { s@ };
    assert(digits =~= v@.skip(start as int));
    if start == v.len() {
        return None;
    }
    let mut acc: u32 = 0;
    let mut i = start;
    while i < v.len()
        invariant
            v@ == s@,
            start <= i <= v@.len(),
            digits == v@.skip(start as int),
            digits == (if s@.len() > 0 && s@[0] == '+' { s@.skip(1) } else { s@ }),
            digits.len() > 0,
            hex_value(digits.take(i - start)) == Some(acc as nat),
            acc <= 255,
        decreases v@.len() - i,
    {
        let d = match hex_digit_of(v[i]) {
            Some(d) => d,
            None => {
                proof {
                    assert(digits.take(i - start + 1).drop_last() =~= digits.take(i - start));
                    assert(digits.take(i - start + 1).last() == v@[i as int]);
                    assert(digits.take(digits.len() as int) =~= digits);
                    if hex_value(digits) is Some {
                        lemma_hex_value_monotone(digits, i - start + 1, digits.len() as int);
                    }
                }
                return None;
            },
        };
        proof {
            assert(digits.take(i - start + 1).drop_last() =~= digits.take(i - start));
            assert(digits.take(i - start + 1).last() == v@[i as int]);
        }
        let next = acc * 16 + d;
        if next > 255 {
            proof {
                assert(digits.take(digits.len() as int) =~= digits);
                if hex_value(digits) is Some {
                    lemma_hex_value_monotone(digits, i - start + 1, digits.len() as int);
                }
            }
            return None;
        }
        acc = next;
        i = i + 1;
    }
    assert(digits.take(i - start) =~= digits);
    Some(acc as u8)
}

/// Position of the first `:` or `-` in `s`, or its length.
pub open spec fn octet_end(s: Seq<char>) -> nat
    decreases s.len(),
{
    if s.len() == 0 || s[0] == ':' || s[0] == '-' {
        0
    } else {
        1 + octet_end(s.drop_first())
    }
}

pub open spec fn mac_hint(os: HostOs) -> Seq<char> {
    match os {
        HostOs::Linux => LINUX_MAC_HINT@,
        HostOs::Windows => WINDOWS_MAC_HINT@,
    }
}

pub const LINUX_MAC_HINT: &'static str = "enable MAC randomization, e.g. via NetworkManager: `nmcli connection modify <profile> 802-11-wireless.cloned-mac-address random`, or systemd-networkd's `MACAddressPolicy=random`";

pub const WINDOWS_MAC_HINT: &'static str = "enable random hardware addresses in Settings > Network & Internet > Wi-Fi > Random hardware addresses (wireless NICs); wired NICs generally require a third-party tool or driver-level support";

/// How to turn on MAC randomization on `os`.
pub fn mac_randomization_hint(os: HostOs) -> (r: &'static str)
    ensures
        r@ == mac_hint(os),
{
    match os {
        HostOs::Linux => LINUX_MAC_HINT,
        HostOs::Windows => WINDOWS_MAC_HINT,
    }
}

/// The finding for interface `iface` with MAC address `mac` on `os`.
pub open spec fn mac_finding(f: Finding, os: HostOs, iface: Seq<char>, mac: Seq<char>) -> bool {
    match parsed_hex_byte(mac.take(octet_end(mac) as int)) {
        None => finding_is(
            f,
            Category::NetworkIdentity,
            Severity::Info,
            iface + ": could not parse MAC address '"@ + mac + "'"@,
            None,
        ),
        Some(first) => if (first / 2) % 2 == 1 {
            finding_is(
                f,
                Category::NetworkIdentity,
                Severity::Info,
                iface + ": MAC "@ + mac + " is locally administered (looks randomized) — good"@,
                None,
            )
        } else {
            finding_is(
                f,
                Category::NetworkIdentity,
                Severity::Medium,
                iface + ": MAC "@ + mac
                    + " is the manufacturer-assigned original address, unique and trackable across networks you join"@,
                Some(mac_hint(os)),
            )
        },
    }
}

/// Judges one MAC address by its first octet's locally-administered bit
/// (the second-least-significant bit): set means the address was assigned
/// by software, typically randomized; unset means it is the
/// manufacturer's globally unique original.
pub fn evaluate_mac_for(os: HostOs, iface: &str, mac: &str) -> (f: Finding)
    ensures
        mac_finding(f, os, iface@, mac@),
{
    let v = chars_of(mac);
    let mut end: usize = 0;
    assert(v@.skip(0) =~= v@);
    while end < v.len() && v[end] != ':' && v[end] != '-'
        invariant
            v@ == mac@,
            end <= v@.len(),
            octet_end(v@) == end + octet_end(v@.skip(end as int)),
        decreases v@.len() - end,
    {
        assert(v@.skip(end as int).drop_first() =~= v@.skip(end + 1));
        end = end + 1;
    }
    let first_text = string_of_range(&v, 0, end);
    assert(first_text@ =~= mac@.take(octet_end(mac@) as int));
    match parse_hex_byte(first_text.as_str()) {
        None => {
            let mut s = concat2(iface, ": could not parse MAC address '");
            s.append(mac);
            s.append("'");
            Finding::new(Category::NetworkIdentity, Severity::Info, s.as_str())
        },
        Some(first) => {
            let mut s = concat2(iface, ": MAC ");
            s.append(mac);
            if (first / 2) % 2 == 1 {
                s.append(" is locally administered (looks randomized) — good");
                Finding::new(Category::NetworkIdentity, Severity::Info, s.as_str())
            } else {
                s.append(
                    " is the manufacturer-assigned original address, unique and trackable across networks you join",
                );
                Finding::new(Category::NetworkIdentity, Severity::Medium, s.as_str()).with_recommendation(
                    mac_randomization_hint(os),
                )
            }
        },
    }
}

/// `evaluate_mac_for` on Linux.
pub fn evaluate_mac(iface: &str, mac: &str) -> (f: Finding)
    ensures
        mac_finding(f, HostOs::Linux, iface@, mac@),
{
    evaluate_mac_for(HostOs::Linux, iface, mac)
}

/// Interface names of virtual devices (containers, bridges, tunnels,
/// loopback), whose addresses say nothing about the machine.
pub open spec fn virtual_interface(name: Seq<char>) -> bool {
    has_prefix(name, "docker"@) || has_prefix(name, "veth"@) || has_prefix(name, "br-"@)
        || has_prefix(name, "virbr"@) || has_prefix(name, "tun"@) || has_prefix(name, "tap"@)
        || has_prefix(name, "wg"@) || has_prefix(name, "lo"@)
}

pub fn is_virtual_interface(name: &str) -> (b: bool)
    ensures
        b == virtual_interface(name@),
{
    starts_with(name, "docker") || starts_with(name, "veth") || starts_with(name, "br-")
        || starts_with(name, "virbr") || starts_with(name, "tun") || starts_with(name, "tap")
        || starts_with(name, "wg") || starts_with(name, "lo")
}

/// The interfaces of `ifaces` (name, and MAC address text when it could
/// be read) that are judged on Linux: physical ones whose address was
/// read, with the address trimmed.
pub open spec fn judged_interfaces(ifaces: Seq<(String, Option<String>)>) -> Seq<(Seq<char>, Seq<char>)>
    decreases ifaces.len(),
{
    if ifaces.len() == 0 {
        Seq::empty()
    } else {
        let rest = judged_interfaces(ifaces.drop_last());
        let (name, mac) = ifaces.last();
        if virtual_interface(name@) {
            rest
        } else {
            match mac {
                Some(m) => rest.push((name@, trimmed(m@))),
                None => rest,
            }
        }
    }
}

/// The Linux MAC findings: one per physical interface whose address could
/// be read, in order.
pub fn check_mac_addresses(ifaces: &Vec<(String, Option<String>)>) -> (fs: Vec<Finding>)
    ensures
        fs@.len() == judged_interfaces(ifaces@).len(),
        forall|i: int|
            0 <= i < fs@.len() ==> mac_finding(
                #[trigger] fs@[i],
                HostOs::Linux,
                judged_interfaces(ifaces@)[i].0,
                judged_interfaces(ifaces@)[i].1,
            ),
{
    let mut fs: Vec<Finding> = Vec::new();
    let mut i: usize = 0;
    while i < ifaces.len()
        invariant
            i <= ifaces@.len(),
            fs@.len() == judged_interfaces(ifaces@.take(i as int)).len(),
            forall|k: int|
                0 <= k < fs@.len() ==> mac_finding(
                    #[trigger] fs@[k],
                    HostOs::Linux,
                    judged_interfaces(ifaces@.take(i as int))[k].0,
                    judged_interfaces(ifaces@.take(i as int))[k].1,
                ),
        decreases ifaces@.len() - i,
    {
        proof {
            assert(ifaces@.take(i + 1).drop_last() =~= ifaces@.take(i as int));
            assert(ifaces@.take(i + 1).last() == ifaces@[i as int]);
        }
        let (name, mac) = &ifaces[i];
        if !is_virtual_interface(name.as_str()) {
            match mac {
                Some(m) => {
                    let t = trim(m.as_str());
                    let f = evaluate_mac(name.as_str(), t.as_str());
                    fs.push(f);
                },
                None => {},
            }
        }
        i = i + 1;
    }
    assert(ifaces@.take(i as int) =~= ifaces@);
    fs
}

/// The adapters of `adapters` (name, and MAC address when reported) that
/// have an address, with it.
pub open spec fn adapters_with_mac(adapters: Seq<(String, Option<String>)>) -> Seq<(Seq<char>, Seq<char>)>
    decreases adapters.len(),
{
    if adapters.len() == 0 {
        Seq::empty()
    } else {
        let rest = adapters_with_mac(adapters.drop_last());
        match adapters.last().1 {
            Some(m) => rest.push((adapters.last().0@, m@)),
            None => rest,
        }
    }
}

/// The Windows MAC findings: one per reported adapter that has an
/// address, in order.
pub fn check_adapter_macs(adapters: &Vec<(String, Option<String>)>) -> (fs: Vec<Finding>)
    ensures
        fs@.len() == adapters_with_mac(adapters@).len(),
        forall|i: int|
            0 <= i < fs@.len() ==> mac_finding(
                #[trigger] fs@[i],
                HostOs::Windows,
                adapters_with_mac(adapters@)[i].0,
                adapters_with_mac(adapters@)[i].1,
            ),
{
    let mut fs: Vec<Finding> = Vec::new();
    let mut i: usize = 0;
    while i < adapters.len()
        invariant
            i <= adapters@.len(),
            fs@.len() == adapters_with_mac(adapters@.take(i as int)).len(),
            forall|k: int|
                0 <= k < fs@.len() ==> mac_finding(
                    #[trigger] fs@[k],
                    HostOs::Windows,
                    adapters_with_mac(adapters@.take(i as int))[k].0,
                    adapters_with_mac(adapters@.take(i as int))[k].1,
                ),
        decreases adapters@.len() - i,
    {
        proof {
            assert(adapters@.take(i + 1).drop_last() =~= adapters@.take(i as int));
            assert(adapters@.take(i + 1).last() == adapters@[i as int]);
        }
        let (name, mac) = &adapters[i];
        match mac {
            Some(m) => {
                let f = evaluate_mac_for(HostOs::Windows, name.as_str(), m.as_str());
                fs.push(f);
            },
            None => {},
        }
        i = i + 1;
    }
    assert(adapters@.take(i as int) =~= adapters@);
    fs
}

/// Every network-identity finding on Linux: the hostname's, the machine
/// ID's, then one per physical interface; listing the interfaces failing
/// fails the whole check.
pub fn checks(
    hostname: Option<&str>,
    username: Option<&str>,
    machine_id: Option<&str>,
    interfaces: Result<Vec<(String, Option<String>)>, String>,
) -> (r: Result<Vec<Finding>, FingerprintError>)
    requires
        machine_id matches Some(c) ==> truncatable(c@),
    ensures
        interfaces is Err ==> (r matches Err(FingerprintError::Inspect(m)) && m@
            == "failed to list network interfaces: "@ + interfaces->Err_0@),
        interfaces is Ok ==> {
            let judged = judged_interfaces(interfaces->Ok_0@);
            &&& r is Ok
            &&& r->Ok_0@.len() == 2 + judged.len()
            &&& hostname_finding(r->Ok_0@[0], opt_str(hostname), opt_str(username))
            &&& machine_id_finding(r->Ok_0@[1], opt_str(machine_id))
            &&& forall|i: int|
                0 <= i < judged.len() ==> mac_finding(
                    #[trigger] r->Ok_0@[2 + i],
                    HostOs::Linux,
                    judged[i].0,
                    judged[i].1,
                )
        },
{
    let ifaces = match interfaces {
        Ok(v) => v,
        Err(e) => {
            let m = concat2("failed to list network interfaces: ", e.as_str());
            return Err(FingerprintError::Inspect(m));
        },
    };
    let mut fs = check_hostname(hostname, username);
    let id = check_machine_id(machine_id);
    let macs = check_mac_addresses(&ifaces);
    let ghost (h0, i0, m0) = (fs@, id@, macs@);
    let mut id = id;
    let mut macs = macs;
    fs.append(&mut id);
    fs.append(&mut macs);
    proof {
        assert(fs@ =~= h0 + i0 + m0);
        assert forall|i: int| 0 <= i < m0.len() implies #[trigger] fs@[2 + i] == m0[i] by {}
    }
    Ok(fs)
}

/// A hostname that contains the local username anywhere (compared in
/// lowercase) is always a High finding, with the advice to rename it,
/// whether the username sits at its start, middle or end.
pub proof fn law_username_anywhere_in_hostname_is_high(
    f: Finding,
    hostname: Seq<char>,
    username: Seq<char>,
    at: int,
)
    requires
        hostname_finding(f, Some(hostname), Some(username)),
        unicode_lower(username).len() > 0,
        0 <= at,
        at + unicode_lower(username).len() <= unicode_lower(hostname).len(),
        unicode_lower(hostname).subrange(at, at + unicode_lower(username).len()) == unicode_lower(username),
    ensures
        f.severity == Severity::High,
        f.category == Category::NetworkIdentity,
        f.recommendation is Some,
{
    assert(occurs_at(unicode_lower(hostname), unicode_lower(username), at));
}

} // verus!
