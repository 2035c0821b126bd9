//! The OS's active resolver configuration: reading what `resolvectl` and
//! `ip route` print on Linux, and the commands that point the default
//! interface at an encrypted resolver or at the local relay (`resolvectl`
//! on Linux, PowerShell on Windows). Running the commands, and parsing
//! addresses, are the application's.

use vstd::prelude::*;

use crate::dns::error::DnsError;
use crate::dns::resolver::{provider_ips, Provider};
use crate::net::{ipv4_text, ipv4_to_string, IpAddress};
use crate::text::{
    chars_of, concat2, concat3, is_unicode_ws, is_whitespace_char, leading_ws, string_of_range,
    trim, trimmed,
};

verus! {

/// Length of the leading run of non-whitespace characters of `s`.
pub open spec fn word_len(s: Seq<char>) -> nat
    decreases s.len(),
{
    if s.len() > 0 && !is_unicode_ws(s[0]) {
        1 + word_len(s.drop_first())
    } else {
        0
    }
}

pub proof fn lemma_word_len_bound(s: Seq<char>)
    ensures
        word_len(s) <= s.len(),
        s.len() > 0 && !is_unicode_ws(s[0]) ==> word_len(s) >= 1,
    decreases s.len(),
{
    if s.len() > 0 && !is_unicode_ws(s[0]) {
        lemma_word_len_bound(s.drop_first());
    }
}

pub proof fn lemma_leading_ws_bound(s: Seq<char>)
    ensures
        leading_ws(s) <= s.len(),
        leading_ws(s) < s.len() ==> !is_unicode_ws(s[leading_ws(s) as int]),
    decreases s.len(),
{
    if s.len() > 0 && is_unicode_ws(s[0]) {
        lemma_leading_ws_bound(s.drop_first());
        if leading_ws(s) < s.len() {
            assert(s.drop_first()[leading_ws(s.drop_first()) as int] == s[leading_ws(s) as int]);
        }
    }
}

/// The whitespace-separated words of `s` (`str::split_whitespace`).
pub open spec fn words(s: Seq<char>) -> Seq<Seq<char>>
    decreases s.len(),
{
    let t = s.skip(leading_ws(s) as int);
    if t.len() == 0 {
        Seq::empty()
    } else {
        proof {
            lemma_leading_ws_bound(s);
            lemma_word_len_bound(t);
        }
        seq![t.take(word_len(t) as int)] + words(t.skip(word_len(t) as int))
    }
}

/// The words of `s`.
pub fn words_of(s: &str) -> (r: Vec<String>)
    ensures
        r@.map_values(|w: String| w@) == words(s@),
{
    let v = chars_of(s);
    let mut out: Vec<String> = Vec::new();
    let mut i: usize = 0;
    assert(v@.skip(0) =~= v@);
    loop
        invariant
            v@ == s@,
            i <= v@.len(),
            out@.map_values(|w: String| w@) + words(v@.skip(i as int)) == words(v@),
        decreases v@.len() - i,
    {
        let ghost rest = v@.skip(i as int);
        let mut j = i;
        assert(v@.skip(j as int) =~= rest);
        while j < v.len() && is_whitespace_char(v[j])
            invariant
                i <= j <= v@.len(),
                rest == v@.skip(i as int),
                leading_ws(rest) == (j - i) + leading_ws(v@.skip(j as int)),
            decreases v@.len() - j,
        {
            assert(v@.skip(j as int).drop_first() =~= v@.skip(j + 1));
            j = j + 1;
        }
        let ghost t = rest.skip(leading_ws(rest) as int);
        assert(t =~= v@.skip(j as int));
        if j == v.len() {
            assert(words(rest) =~= Seq::<Seq<char>>::empty());
            assert(out@.map_values(|w: String| w@) + words(rest) =~= out@.map_values(|w: String| w@));
            return out;
        }
        let mut k = j;
        while k < v.len() && !is_whitespace_char(v[k])
            invariant
                j <= k <= v@.len(),
                t == v@.skip(j as int),
                word_len(t) == (k - j) + word_len(v@.skip(k as int)),
            decreases v@.len() - k,
        {
            assert(v@.skip(k as int).drop_first() =~= v@.skip(k + 1));
            k = k + 1;
        }
        let w = string_of_range(&v, j, k);
        assert(w@ =~= t.take(word_len(t) as int));
        assert(t.skip(word_len(t) as int) =~= v@.skip(k as int));
        let ghost before = out@.map_values(|w: String| w@);
        out.push(w);
        assert(out@.map_values(|w: String| w@) =~= before.push(w@));
        assert(words(rest) == seq![w@] + words(v@.skip(k as int)));
        assert(before + words(rest) =~= before.push(w@) + words(v@.skip(k as int)));
        i = k;
    }
}

/// Position of the last `\n` of `s`, or -1.
pub open spec fn last_newline_of(s: Seq<char>) -> int
    decreases s.len(),
{
    if s.len() == 0 {
        -1
    } else if s.last() == '\n' {
        s.len() - 1
    } else {
        last_newline_of(s.drop_last())
    }
}

pub proof fn lemma_last_newline_of(s: Seq<char>)
    ensures
        -1 <= last_newline_of(s) < s.len(),
        last_newline_of(s) >= 0 ==> s[last_newline_of(s)] == '\n',
        forall|k: int| last_newline_of(s) < k < s.len() ==> s[k] != '\n',
    decreases s.len(),
{
    if s.len() > 0 && s.last() != '\n' {
        lemma_last_newline_of(s.drop_last());
        assert forall|k: int| last_newline_of(s) < k < s.len() implies s[k] != '\n' by {
            if k < s.len() - 1 {
                assert(s.drop_last()[k] == s[k]);
            }
        }
    }
}

/// Length of `s` up to its first `:`, or its length.
pub open spec fn colon_at(s: Seq<char>) -> nat
    decreases s.len(),
{
    if s.len() > 0 && s[0] != ':' {
        1 + colon_at(s.drop_first())
    } else {
        0
    }
}

/// The address candidates of one line of `resolvectl dns` output: the
/// words after its first `:`; none when it has no `:`.
pub open spec fn line_candidates(line: Seq<char>) -> Seq<Seq<char>> {
    let c = colon_at(line);
    if c < line.len() {
        words(line.skip(c as int + 1))
    } else {
        Seq::empty()
    }
}

/// The address candidates of `resolvectl dns` output (`Link 2 (eth0):
/// 192.168.1.1`, `Global:` ...): on each line, the words after the first
/// `:`, in order. Candidates that do not parse as an address are
/// ignored by the caller.
pub open spec fn server_candidates(text: Seq<char>) -> Seq<Seq<char>>
    decreases text.len(),
{
    if text.len() == 0 {
        Seq::empty()
    } else {
        proof {
            lemma_last_newline_of(text);
        }
        let nl = last_newline_of(text);
        let before = if nl >= 0 {
            server_candidates(text.take(nl))
        } else {
            Seq::empty()
        };
        before + line_candidates(text.skip(nl + 1))
    }
}

fn line_candidates_of(v: &Vec<char>, from: usize, to: usize) -> (r: Vec<String>)
    requires
        from <= to <= v@.len(),
    ensures
        r@.map_values(|w: String| w@) == line_candidates(v@.subrange(from as int, to as int)),
{
    let ghost line = v@.subrange(from as int, to as int);
    let mut c = from;
    assert(v@.subrange(c as int, to as int) =~= line);
    while c < to && v[c] != ':'
        invariant
            from <= c <= to <= v@.len(),
            line == v@.subrange(from as int, to as int),
            colon_at(line) == (c - from) + colon_at(v@.subrange(c as int, to as int)),
        decreases to - c,
    {
        assert(v@.subrange(c as int, to as int).drop_first() =~= v@.subrange(c + 1, to as int));
        c = c + 1;
    }
    if c == to {
        return Vec::new();
    }
    let rest = string_of_range(v, c + 1, to);
    assert(rest@ =~= line.skip((c - from) + 1));
    words_of(rest.as_str())
}

fn candidates_upto(v: &Vec<char>, to: usize) -> (r: Vec<String>)
    requires
        to <= v@.len(),
    ensures
        r@.map_values(|w: String| w@) == server_candidates(v@.take(to as int)),
    decreases to,
{
    if to == 0 {
        assert(v@.take(0) =~= Seq::<char>::empty());
        return Vec::new();
    }
    let ghost s = v@.take(to as int);
    let mut j = to;
    while j > 0 && v[j - 1] != '\n'
        invariant
            j <= to <= v@.len(),
            s == v@.take(to as int),
            forall|k: int| j <= k < to ==> v@[k] != '\n',
        decreases j,
    {
        j = j - 1;
    }
    proof {
        lemma_last_newline_of(s);
        let ln = last_newline_of(s);
        if j > 0 {
            assert(s[j - 1] == '\n');
            if ln < j - 1 {
                assert(s[j - 1] != '\n');
            } else if ln > j - 1 {
                assert(v@[ln] != '\n');
            }
        } else if ln >= 0 {
            assert(v@[ln] != '\n');
        }
        assert(ln == j - 1);
    }
    let mut before: Vec<String> = if j > 0 {
        let b = candidates_upto(v, j - 1);
        assert(v@.take(j - 1) =~= s.take(j - 1));
        b
    } else {
        Vec::new()
    };
    let mut here = line_candidates_of(v, j, to);
    assert(v@.subrange(j as int, to as int) =~= s.skip(j as int));
    let ghost bv = before@.map_values(|w: String| w@);
    let ghost hv = here@.map_values(|w: String| w@);
    before.append(&mut here);
    assert(before@.map_values(|w: String| w@) =~= bv + hv);
    before
}

/// The address candidates of `resolvectl dns` output.
pub fn server_candidates_of(text: &str) -> (r: Vec<String>)
    ensures
        r@.map_values(|w: String| w@) == server_candidates(text@),
{
    let v = chars_of(text);
    assert(v@.take(v@.len() as int) =~= text@);
    candidates_upto(&v, v.len())
}

/// The interface of the default route in `ip route show default`
/// output: the word after the first `dev` that has a word after it.
pub open spec fn route_device(ws: Seq<Seq<char>>) -> Option<Seq<char>>
    decreases ws.len(),
{
    if ws.len() < 2 {
        None
    } else if ws[0] == "dev"@ {
        Some(ws[1])
    } else {
        route_device(ws.drop_first())
    }
}

/// The default-route interface named in `ip route show default` output,
/// which `resolvectl` settings are scoped to.
pub fn default_interface(route_output: &str) -> (r: Result<String, DnsError>)
    ensures
        match route_device(words(route_output@)) {
            Some(d) => r is Ok && r->Ok_0@ == d,
            None => r matches Err(DnsError::SystemConfig(m)) && m@ == "no default route interface found"@,
        },
{
    let ws = words_of(route_output);
    let ghost all = ws@.map_values(|w: String| w@);
    let mut i: usize = 0;
    let n = ws.len();
    assert(all.skip(0) =~= all);
    while n >= 2 && i < n - 1
        invariant
            n == ws@.len(),
            all == ws@.map_values(|w: String| w@),
            all == words(route_output@),
            i <= ws@.len(),
            route_device(all) == route_device(all.skip(i as int)),
        decreases ws@.len() - i,
    {
        if ws[i] == "dev".to_owned() {
            assert(all.skip(i as int)[0] == all[i as int]);
            assert(all.skip(i as int)[1] == all[i + 1]);
            return Ok(ws[i + 1].clone());
        }
        assert(all.skip(i as int).drop_first() =~= all.skip(i + 1));
        i = i + 1;
    }
    Err(DnsError::SystemConfig("no default route interface found".to_owned()))
}

/// The error for a failed `resolvectl` run.
pub fn resolvectl_failure(args: &Vec<String>, stderr: &str) -> (e: DnsError)
    ensures
        e matches DnsError::SystemConfig(m) && m@ == "resolvectl "@ + joined_args(args@) + " failed: "@
            + stderr@,
{
    let mut m = String::new();
    m.append("resolvectl ");
    let mut i: usize = 0;
    while i < args.len()
        invariant
            i <= args@.len(),
            m@ == "resolvectl "@ + joined_args(args@.take(i as int)),
        decreases args@.len() - i,
    {
        if i > 0 {
            m.append(" ");
        }
        m.append(args[i].as_str());
        proof {
            assert(args@.take(i + 1).drop_last() =~= args@.take(i as int));
            assert(args@.take(i + 1).last() == args@[i as int]);
            if i == 0 {
                assert(args@.take(1)[0] == args@[0]);
            }
        }
        i = i + 1;
        assert(m@ =~= "resolvectl "@ + joined_args(args@.take(i as int)));
    }
    assert(args@.take(i as int) =~= args@);
    m.append(" failed: ");
    m.append(stderr);
    DnsError::SystemConfig(m)
}

/// Arguments joined by single spaces.
pub open spec fn joined_args(args: Seq<String>) -> Seq<char>
    decreases args.len(),
{
    if args.len() == 0 {
        Seq::empty()
    } else if args.len() == 1 {
        args[0]@
    } else {
        joined_args(args.drop_last()) + " "@ + args.last()@
    }
}

/// The text of an IPv4 provider address.
pub open spec fn v4_texts(ips: Seq<IpAddress>) -> Seq<Seq<char>>
    decreases ips.len(),
{
    if ips.len() == 0 {
        Seq::empty()
    } else {
        v4_texts(ips.drop_last()).push(
            match ips.last() {
                IpAddress::V4(a, b, c, d) => ipv4_text(a, b, c, d),
                IpAddress::V6(..) => Seq::empty(),
            },
        )
    }
}

/// The two `resolvectl` runs that point `interface` at `provider` with
/// DNS-over-TLS: `dns <interface> <provider addresses...>`, then
/// `dnsovertls <interface> yes`.
pub fn force_via_dot(provider: Provider, interface: &str) -> (cmds: (Vec<String>, Vec<String>))
    ensures
        cmds.0@.map_values(|a: String| a@) == seq!["dns"@, interface@] + v4_texts(provider_ips(provider)),
        cmds.1@.map_values(|a: String| a@) == seq!["dnsovertls"@, interface@, "yes"@],
{
    let ips = provider.ip_addrs();
    let mut dns: Vec<String> = Vec::new();
    dns.push("dns".to_owned());
    dns.push(interface.to_owned());
    let mut i: usize = 0;
    while i < ips.len()
        invariant
            ips@ == provider_ips(provider),
            i <= ips@.len(),
            dns@.map_values(|a: String| a@) == seq!["dns"@, interface@] + v4_texts(ips@.take(i as int)),
        decreases ips@.len() - i,
    {
        let text = match ips[i] {
            IpAddress::V4(a, b, c, d) => ipv4_to_string(a, b, c, d),
            IpAddress::V6(..) => String::new(),
        };
        let ghost before = dns@.map_values(|a: String| a@);
        dns.push(text);
        proof {
            assert(ips@.take(i + 1).drop_last() =~= ips@.take(i as int));
            assert(dns@.map_values(|a: String| a@) =~= before.push(text@));
        }
        i = i + 1;
        assert(dns@.map_values(|a: String| a@) =~= seq!["dns"@, interface@] + v4_texts(ips@.take(i as int)));
    }
    assert(ips@.take(i as int) =~= ips@);
    let mut tls: Vec<String> = Vec::new();
    tls.push("dnsovertls".to_owned());
    tls.push(interface.to_owned());
    tls.push("yes".to_owned());
    assert(tls@.map_values(|a: String| a@) =~= seq!["dnsovertls"@, interface@, "yes"@]);
    (dns, tls)
}

/// The two `resolvectl` runs that point `interface` at a local relay:
/// `dns <interface> <relay>`, then `dnsovertls <interface> no`.
pub fn force_via_relay(interface: &str, relay_addr: &str) -> (cmds: (Vec<String>, Vec<String>))
    ensures
        cmds.0@.map_values(|a: String| a@) == seq!["dns"@, interface@, relay_addr@],
        cmds.1@.map_values(|a: String| a@) == seq!["dnsovertls"@, interface@, "no"@],
{
    let mut dns: Vec<String> = Vec::new();
    dns.push("dns".to_owned());
    dns.push(interface.to_owned());
    dns.push(relay_addr.to_owned());
    let mut tls: Vec<String> = Vec::new();
    tls.push("dnsovertls".to_owned());
    tls.push(interface.to_owned());
    tls.push("no".to_owned());
    assert(dns@.map_values(|a: String| a@) =~= seq!["dns"@, interface@, relay_addr@]);
    assert(tls@.map_values(|a: String| a@) =~= seq!["dnsovertls"@, interface@, "no"@]);
    (dns, tls)
}

/// Escapes a value for a PowerShell single-quoted string: every `'` is
/// doubled.
pub open spec fn ps_quoted(value: Seq<char>) -> Seq<char>
    decreases value.len(),
{
    if value.len() == 0 {
        Seq::empty()
    } else {
        ps_quoted(value.drop_last()) + if value.last() == '\'' {
            seq!['\'', '\'']
        } else {
            seq![value.last()]
        }
    }
}

pub fn ps_quote(value: &str) -> (r: String)
    ensures
        r@ == ps_quoted(value@),
{
    let v = chars_of(value);
    let mut r = String::new();
    let mut i: usize = 0;
    while i < v.len()
        invariant
            v@ == value@,
            i <= v@.len(),
            r@ == ps_quoted(v@.take(i as int)),
        decreases v@.len() - i,
    {
        let c = v[i];
        if c == '\'' {
            r.push('\'');
            r.push('\'');
        } else {
            r.push(c);
        }
        proof {
            assert(v@.take(i + 1).drop_last() =~= v@.take(i as int));
        }
        i = i + 1;
        assert(r@ =~= ps_quoted(v@.take(i as int)));
    }
    assert(v@.take(i as int) =~= v@);
    r
}

/// The default interface's alias from what PowerShell printed: the
/// trimmed output, an error when empty.
pub fn default_interface_alias(output: &str) -> (r: Result<String, DnsError>)
    ensures
        trimmed(output@).len() > 0 ==> r is Ok && r->Ok_0@ == trimmed(output@),
        trimmed(output@).len() == 0 ==> (r matches Err(DnsError::SystemConfig(m)) && m@
            == "no default route interface found"@),
{
    let alias = trim(output);
    if alias.unicode_len() == 0 {
        return Err(DnsError::SystemConfig("no default route interface found".to_owned()));
    }
    Ok(alias)
}

/// The PowerShell command that points interface `alias` at the relay.
pub fn set_dns_script(alias: &str, relay_addr: &str) -> (script: String)
    ensures
        script@ == "Set-DnsClientServerAddress -InterfaceAlias '"@ + ps_quoted(alias@)
            + "' -ServerAddresses ('"@ + relay_addr@ + "')"@,
{
    let quoted = ps_quote(alias);
    let mut s = concat3("Set-DnsClientServerAddress -InterfaceAlias '", quoted.as_str(), "' -ServerAddresses ('");
    s.append(relay_addr);
    s.append("')");
    s
}

} // verus!
