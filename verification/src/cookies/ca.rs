//! The local root CA's fingerprint: what a user checks before trusting
//! the certificate. The PEM body is decoded by a small base64 decoder
//! and hashed with SHA-256 (`sha2`). Generating, storing and loading the
//! CA are done by the application around this library.

use std::path::PathBuf;

use vstd::prelude::*;

use crate::cookies::error::CookiesError;
use crate::text::{chars_of, has_prefix, has_suffix, is_ascii_ws, string_of_range, trim, trimmed};

verus! {

/// Where the CA certificate and its private key are stored.
#[derive(Debug, Clone)]
pub struct CaPaths {
    pub cert_path: PathBuf,
    pub key_path: PathBuf,
}

/// The 6-bit value of a character of the standard base64 alphabet.
pub open spec fn b64_value(c: char) -> Option<int> {
    if 'A' <= c && c <= 'Z' {
        Some(c as int - 'A' as int)
    } else if 'a' <= c && c <= 'z' {
        Some(c as int - 'a' as int + 26)
    } else if '0' <= c && c <= '9' {
        Some(c as int - '0' as int + 52)
    } else if c == '+' {
        Some(62)
    } else if c == '/' {
        Some(63)
    } else {
        None
    }
}

/// `s` without its ASCII whitespace.
pub open spec fn without_ascii_ws(s: Seq<char>) -> Seq<char>
    decreases s.len(),
{
    if s.len() == 0 {
        Seq::empty()
    } else if is_ascii_ws(s.last()) {
        without_ascii_ws(s.drop_last())
    } else {
        without_ascii_ws(s.drop_last()).push(s.last())
    }
}

/// The base64 characters to decode: whitespace removed, then one `==` or
/// one `=` of padding removed from the end.
pub open spec fn b64_body(input: Seq<char>) -> Seq<char> {
    let f = without_ascii_ws(input);
    if has_suffix(f, "=="@) {
        f.take(f.len() - 2)
    } else if has_suffix(f, "="@) {
        f.take(f.len() - 1)
    } else {
        f
    }
}

/// The bytes `s` (valid base64 characters, no padding) encodes: each
/// group of four characters gives three bytes, a final group of three
/// gives two and a final group of two gives one.
pub open spec fn decode_groups(s: Seq<char>) -> Seq<u8>
    decreases s.len(),
{
    let v0 = b64_value(s[0])->0;
    let v1 = b64_value(s[1])->0;
    let v2 = b64_value(s[2])->0;
    let v3 = b64_value(s[3])->0;
    if s.len() >= 4 {
        seq![(v0 * 4 + v1 / 16) as u8, ((v1 % 16) * 16 + v2 / 4) as u8, ((v2 % 4) * 64 + v3) as u8]
            + decode_groups(s.skip(4))
    } else if s.len() == 3 {
        seq![(v0 * 4 + v1 / 16) as u8, ((v1 % 16) * 16 + v2 / 4) as u8]
    } else if s.len() == 2 {
        seq![(v0 * 4 + v1 / 16) as u8]
    } else {
        Seq::empty()
    }
}

/// The outcome of decoding `input`: an invalid character anywhere is
/// reported first, then a body whose length leaves a single character
/// over; otherwise the decoded bytes.
pub open spec fn base64_decoded(input: Seq<char>) -> Result<Seq<u8>, Seq<char>> {
    let body = b64_body(input);
    if exists|i: int| 0 <= i < body.len() && (#[trigger] b64_value(body[i])) is None {
        Err("invalid base64 character"@)
    } else if body.len() % 4 == 1 {
        Err("invalid base64 length"@)
    } else {
        Ok(decode_groups(body))
    }
}

fn b64_value_of(c: char) -> (r: Option<u8>)
    ensures
        match r {
            Some(v) => b64_value(c) == Some(v as int) && v < 64,
            None => b64_value(c) is None,
        },
{
    if 'A' <= c && c <= 'Z' {
        Some((c as u8) - 65)
    } else if 'a' <= c && c <= 'z' {
        Some((c as u8) - 97 + 26)
    } else if '0' <= c && c <= '9' {
        Some((c as u8) - 48 + 52)
    } else if c == '+' {
        Some(62)
    } else if c == '/' {
        Some(63)
    } else {
        None
    }
}

/// Minimal base64 decoder (standard alphabet, padding optional), for the
/// body of a PEM certificate.
#[verifier::rlimit(30)]
pub fn base64_decode(input: &str) -> (r: Result<Vec<u8>, &'static str>)
    ensures
        match base64_decoded(input@) {
            Ok(bytes) => r is Ok && r->Ok_0@ == bytes,
            Err(msg) => r is Err && r->Err_0@ == msg,
        },
{
    let chars = chars_of(input);
    let mut f: Vec<char> = Vec::new();
    let mut i: usize = 0;
    while i < chars.len()
        invariant
            chars@ == input@,
            i <= chars@.len(),
            f@ == without_ascii_ws(chars@.take(i as int)),
        decreases chars@.len() - i,
    {
        let c = chars[i];
        proof {
            assert(chars@.take(i + 1).drop_last() =~= chars@.take(i as int));
        }
        if !(c == ' ' || c == '\t' || c == '\n' || c == '\x0C' || c == '\r') {
            f.push(c);
        }
        i = i + 1;
    }
    assert(chars@.take(i as int) =~= input@);
    let n = f.len();
    let end: usize = if n >= 2 && f[n - 2] == '=' && f[n - 1] == '=' {
        n - 2
    } else if n >= 1 && f[n - 1] == '=' {
        n - 1
    } else {
        n
    };
    proof {
        reveal_strlit("==");
        reveal_strlit("=");
        let fs = f@;
        if n >= 2 && fs[n - 2] == '=' && fs[n - 1] == '=' {
            assert(fs.skip(n - 2) =~= "=="@);
        } else {
            if has_suffix(fs, "=="@) {
                assert(fs.skip(n - 2)[0] == '=');
                assert(fs.skip(n - 2)[1] == '=');
            }
            if n >= 1 && fs[n - 1] == '=' {
                assert(fs.skip(n - 1) =~= "="@);
            } else if has_suffix(fs, "="@) {
                assert(fs.skip(n - 1)[0] == '=');
            }
        }
        assert(fs.take(end as int) =~= b64_body(input@));
    }
    let ghost body = b64_body(input@);
    let mut vals: Vec<u8> = Vec::new();
    let mut k: usize = 0;
    while k < end
        invariant
            end <= f@.len(),
            body == f@.take(end as int),
            body == b64_body(input@),
            k <= end,
            vals@.len() == k,
            forall|j: int| 0 <= j < k ==> b64_value(body[j]) == Some(#[trigger] vals@[j] as int),
            forall|j: int| 0 <= j < k ==> vals@[j] < 64,
        decreases end - k,
    {
        match b64_value_of(f[k]) {
            Some(v) => {
                vals.push(v);
            },
            None => {
                assert(body[k as int] == f@[k as int]);
                assert(b64_value(body[k as int]) is None);
                assert(body == b64_body(input@));
                assert(exists|i: int| 0 <= i < body.len() && (#[trigger] b64_value(body[i])) is None);
                assert(base64_decoded(input@) == Err::<Seq<u8>, Seq<char>>("invalid base64 character"@));
                return Err("invalid base64 character");
            },
        }
        k = k + 1;
    }
    assert forall|j: int| 0 <= j < body.len() implies !(#[trigger] b64_value(body[j]) is None) by {
        assert(b64_value(body[j]) == Some(vals@[j] as int));
    }
    if end % 4 == 1 {
        return Err("invalid base64 length");
    }
    let mut out: Vec<u8> = Vec::new();
    let mut g: usize = 0;
    assert(body.skip(0) =~= body);
    while g < end
        invariant
            end <= f@.len(),
            body == f@.take(end as int),
            body == b64_body(input@),
            vals@.len() == end,
            forall|j: int| 0 <= j < end ==> b64_value(body[j]) == Some(#[trigger] vals@[j] as int),
            forall|j: int| 0 <= j < end ==> vals@[j] < 64,
            end % 4 != 1,
            g <= end,
            g % 4 == 0 || g == end,
            out@ + decode_groups(body.skip(g as int)) == decode_groups(body),
        decreases end - g,
    {
        let rest = end - g;
        let v0 = vals[g];
        let v1 = vals[g + 1];
        let ghost s = body.skip(g as int);
        proof {
            assert(s[0] == body[g as int]);
            assert(s[1] == body[g + 1]);
        }
        out.push(v0 * 4 + v1 / 16);
        if rest >= 3 {
            let v2 = vals[g + 2];
            assert(s[2] == body[g + 2]);
            out.push((v1 % 16) * 16 + v2 / 4);
            if rest >= 4 {
                let v3 = vals[g + 3];
                assert(s[3] == body[g + 3]);
                out.push((v2 % 4) * 64 + v3);
                assert(s.skip(4) =~= body.skip(g + 4));
                assert(decode_groups(s) == seq![
                    (v0 * 4 + v1 / 16) as u8,
                    ((v1 % 16) * 16 + v2 / 4) as u8,
                    ((v2 % 4) * 64 + v3) as u8,
                ] + decode_groups(s.skip(4)));
                assert(out@ + decode_groups(body.skip(g + 4)) =~= decode_groups(body));
                g = g + 4;
            } else {
                assert(decode_groups(s) =~= seq![(v0 * 4 + v1 / 16) as u8, ((v1 % 16) * 16 + v2 / 4) as u8]);
                assert(decode_groups(body.skip(end as int)) =~= Seq::<u8>::empty());
                assert(out@ + decode_groups(body.skip(end as int)) =~= decode_groups(body));
                g = end;
            }
        } else {
            assert(rest == 2);
            assert(decode_groups(s) =~= seq![(v0 * 4 + v1 / 16) as u8]);
            assert(decode_groups(body.skip(end as int)) =~= Seq::<u8>::empty());
            assert(out@ + decode_groups(body.skip(end as int)) =~= decode_groups(body));
            g = end;
        }
    }
    assert(decode_groups(body.skip(end as int)) =~= Seq::<u8>::empty());
    assert(out@ =~= decode_groups(body));
    Ok(out)
}

/// `pem`'s lines (split at `\n`) that do not start with `-----`, joined
/// together: the base64 body of a PEM block.
pub open spec fn pem_body(pem: Seq<char>) -> Seq<char>
    decreases pem.len(),
{
    if pem.len() == 0 {
        Seq::empty()
    } else {
        proof {
            lemma_last_newline(pem);
        }
        let last_nl = last_newline(pem);
        let line = pem.skip(last_nl + 1);
        let before = if last_nl >= 0 {
            pem_body(pem.take(last_nl))
        } else {
            Seq::empty()
        };
        before + if has_prefix(line, "-----"@) {
            Seq::empty()
        } else {
            line
        }
    }
}

/// Position of the last `\n` of `s`, or -1.
pub open spec fn last_newline(s: Seq<char>) -> int
    decreases s.len(),
{
    if s.len() == 0 {
        -1
    } else if s.last() == '\n' {
        s.len() - 1
    } else {
        last_newline(s.drop_last())
    }
}

pub proof fn lemma_last_newline(s: Seq<char>)
    ensures
        -1 <= last_newline(s) < s.len(),
        last_newline(s) >= 0 ==> s[last_newline(s)] == '\n',
        forall|k: int| last_newline(s) < k < s.len() ==> s[k] != '\n',
    decreases s.len(),
{
    if s.len() > 0 && s.last() != '\n' {
        lemma_last_newline(s.drop_last());
        assert forall|k: int| last_newline(s) < k < s.len() implies s[k] != '\n' by {
            if k < s.len() - 1 {
                assert(s.drop_last()[k] == s[k]);
            }
        }
    }
}

/// `pem_body` of the first `to` characters of `pem`, where `to` is 0 or
/// just after a `\n`.
fn pem_body_upto(v: &Vec<char>, to: usize) -> (r: Vec<char>)
    requires
        to <= v@.len(),
    ensures
        r@ == pem_body(v@.take(to as int)),
    decreases to,
{
    if to == 0 {
        assert(v@.take(0) =~= Seq::<char>::empty());
        return Vec::new();
    }
    let ghost s = v@.take(to as int);
    let mut j = to;
    while j > 0 && v[j - 1] != '\n'
        invariant
            j <= to <= v@.len(),
            s == v@.take(to as int),
            forall|k: int| j <= k < to ==> v@[k] != '\n',
        decreases j,
    {
        j = j - 1;
    }
    proof {
        lemma_last_newline(s);
        let ln = last_newline(s);
        if j > 0 {
            assert(s[j - 1] == '\n');
            if ln != j - 1 {
                if ln < j - 1 {
                    assert(s[j - 1] != '\n');
                } else {
                    assert(v@[ln] != '\n');
                }
            }
        } else {
            if ln >= 0 {
                assert(v@[ln] != '\n');
            }
        }
        assert(ln == j - 1);
    }
    let mut before: Vec<char> = if j > 0 {
        let b = pem_body_upto(v, j - 1);
        assert(v@.take(j - 1) =~= s.take(j - 1));
        b
    } else {
        Vec::new()
    };
    assert(before@ == old_before_view(v@, s, j as int));
    let line = string_of_range(v, j, to);
    assert(line@ =~= s.skip(j as int));
    if !crate::text::starts_with(line.as_str(), "-----") {
        let mut k = j;
        while k < to
            invariant
                j <= k <= to <= v@.len(),
                before@ == old_before_view(v@, s, j as int) + v@.subrange(j as int, k as int),
            decreases to - k,
        {
            before.push(v[k]);
            k = k + 1;
            assert(before@ =~= old_before_view(v@, s, j as int) + v@.subrange(j as int, k as int));
        }
        assert(v@.subrange(j as int, to as int) =~= s.skip(j as int));
    }
    before
}

/// The part of `pem_body(s)` that comes before the line starting at `j`.
spec fn old_before_view(v: Seq<char>, s: Seq<char>, j: int) -> Seq<char> {
    if j > 0 {
        pem_body(s.take(j - 1))
    } else {
        Seq::empty()
    }
}

/// The DER bytes of a PEM certificate: its body lines joined, trimmed,
/// and base64-decoded.
pub fn pem_to_der(pem: &str) -> (r: Result<Vec<u8>, CookiesError>)
    ensures
        match base64_decoded(trimmed(pem_body(pem@))) {
            Ok(bytes) => r is Ok && r->Ok_0@ == bytes,
            Err(msg) => r matches Err(CookiesError::Ca(m)) && m@ == "malformed CA certificate PEM: "@
                + msg,
        },
{
    let v = chars_of(pem);
    let body = pem_body_upto(&v, v.len());
    assert(v@.take(v@.len() as int) =~= pem@);
    let joined = string_of_range(&body, 0, body.len());
    assert(joined@ =~= body@);
    let t = trim(joined.as_str());
    match base64_decode(t.as_str()) {
        Ok(bytes) => Ok(bytes),
        Err(e) => {
            let mut m = String::new();
            m.append("malformed CA certificate PEM: ");
            m.append(e);
            Err(CookiesError::Ca(m))
        },
    }
}

/// The SHA-256 digest of `data`, as `sha2` computes it.
pub uninterp spec fn sha256_digest(data: Seq<u8>) -> Seq<u8>;

/// `sha2::Sha256::digest`: the SHA-256 hash of `data`, 32 bytes long
/// (`Sha256`'s output size).
#[verifier::external_body]
fn sha256(data: &[u8]) -> (r: Vec<u8>)
    ensures
        r@ == sha256_digest(data@),
        r@.len() == 32,
{
    <sha2::Sha256 as sha2::Digest>::digest(data).to_vec()
}

/// The uppercase hexadecimal digit for `d < 16`.
pub open spec fn hex_upper(d: int) -> char {
    if d < 10 {
        ('0' as int + d) as char
    } else {
        ('A' as int + d - 10) as char
    }
}

/// `bs` as two uppercase hex digits per byte, joined by `:`.
pub open spec fn colon_hex(bs: Seq<u8>) -> Seq<char>
    decreases bs.len(),
{
    if bs.len() == 0 {
        Seq::empty()
    } else {
        let b = bs.last();
        let pair = seq![hex_upper(b as int / 16), hex_upper(b as int % 16)];
        if bs.len() == 1 {
            pair
        } else {
            colon_hex(bs.drop_last()) + seq![':'] + pair
        }
    }
}

fn hex_digit(d: u8) -> (c: char)
    requires
        d < 16,
    ensures
        c == hex_upper(d as int),
{
    if d < 10 {
        (48 + d) as char
    } else {
        (55 + d) as char
    }
}

/// SHA-256 fingerprint of the certificate's DER encoding as
/// colon-separated uppercase hex (`AA:BB:...`), the conventional display
/// form a user verifies before trusting the CA.
pub fn fingerprint(cert_pem: &str) -> (r: Result<String, CookiesError>)
    ensures
        match base64_decoded(trimmed(pem_body(cert_pem@))) {
            Ok(der) => r is Ok && r->Ok_0@ == colon_hex(sha256_digest(der)),
            Err(msg) => r matches Err(CookiesError::Ca(m)) && m@ == "malformed CA certificate PEM: "@
                + msg,
        },
{
    let der = match pem_to_der(cert_pem) {
        Ok(d) => d,
        Err(e) => return Err(e),
    };
    let digest = sha256(der.as_slice());
    let mut out = String::new();
    let mut i: usize = 0;
    while i < digest.len()
        invariant
            i <= digest@.len(),
            out@ == colon_hex(digest@.take(i as int)),
        decreases digest@.len() - i,
    {
        let b = digest[i];
        if i > 0 {
            out.push(':');
        }
        out.push(hex_digit(b / 16));
        out.push(hex_digit(b % 16));
        proof {
            assert(digest@.take(i + 1).drop_last() =~= digest@.take(i as int));
            assert(digest@.take(i + 1).last() == b);
        }
        i = i + 1;
        assert(out@ =~= colon_hex(digest@.take(i as int)));
    }
    assert(digest@.take(i as int) =~= digest@);
    Ok(out)
}

/// The character of the standard base64 alphabet for the 6-bit value
/// `v`.
pub open spec fn b64_char(v: int) -> char {
    if v < 26 {
        (v + 65) as char
    } else if v < 52 {
        (v - 26 + 97) as char
    } else if v < 62 {
        (v - 52 + 48) as char
    } else if v == 62 {
        '+'
    } else {
        '/'
    }
}

/// The standard base64 encoding of `bytes` without its `=` padding: four
/// characters per three bytes, then three for two remaining bytes or two
/// for one.
pub open spec fn b64_unpadded(bytes: Seq<u8>) -> Seq<char>
    decreases bytes.len(),
{
    if bytes.len() >= 3 {
        let (x, y, z) = (bytes[0] as int, bytes[1] as int, bytes[2] as int);
        seq![b64_char(x / 4), b64_char((x % 4) * 16 + y / 16), b64_char((y % 16) * 4 + z / 64), b64_char(z % 64)]
            + b64_unpadded(bytes.skip(3))
    } else if bytes.len() == 2 {
        let (x, y) = (bytes[0] as int, bytes[1] as int);
        seq![b64_char(x / 4), b64_char((x % 4) * 16 + y / 16), b64_char((y % 16) * 4)]
    } else if bytes.len() == 1 {
        let x = bytes[0] as int;
        seq![b64_char(x / 4), b64_char((x % 4) * 16)]
    } else {
        Seq::empty()
    }
}

/// The standard padded base64 encoding of `bytes`.
pub open spec fn b64_encoding(bytes: Seq<u8>) -> Seq<char> {
    if bytes.len() % 3 == 1 {
        b64_unpadded(bytes) + "=="@
    } else if bytes.len() % 3 == 2 {
        b64_unpadded(bytes) + "="@
    } else {
        b64_unpadded(bytes)
    }
}

proof fn lemma_b64_char(v: int)
    requires
        0 <= v < 64,
    ensures
        b64_value(b64_char(v)) == Some(v),
        b64_char(v) != '=',
{
}

proof fn lemma_b64_three(x: int, y: int, z: int)
    requires
        0 <= x < 256,
        0 <= y < 256,
        0 <= z < 256,
    ensures
        0 <= x / 4 < 64,
        0 <= (x % 4) * 16 + y / 16 < 64,
        0 <= (y % 16) * 4 + z / 64 < 64,
        0 <= z % 64 < 64,
        (x / 4) * 4 + ((x % 4) * 16 + y / 16) / 16 == x,
        (((x % 4) * 16 + y / 16) % 16) * 16 + ((y % 16) * 4 + z / 64) / 4 == y,
        (((y % 16) * 4 + z / 64) % 4) * 64 + z % 64 == z,
{
    assert(0 <= x / 4 < 64) by (nonlinear_arith) requires 0 <= x < 256;
    assert(((x % 4) * 16 + y / 16) / 16 == x % 4 && ((x % 4) * 16 + y / 16) % 16 == y / 16) by (nonlinear_arith)
        requires 0 <= x < 256, 0 <= y < 256;
    assert(((y % 16) * 4 + z / 64) / 4 == y % 16 && ((y % 16) * 4 + z / 64) % 4 == z / 64) by (nonlinear_arith)
        requires 0 <= y < 256, 0 <= z < 256;
    assert((x / 4) * 4 + x % 4 == x) by (nonlinear_arith);
    assert((y / 16) * 16 + y % 16 == y) by (nonlinear_arith);
    assert((z / 64) * 64 + z % 64 == z) by (nonlinear_arith);
    assert(0 <= (x % 4) * 16 + y / 16 < 64) by (nonlinear_arith) requires 0 <= x < 256, 0 <= y < 256;
    assert(0 <= (y % 16) * 4 + z / 64 < 64) by (nonlinear_arith) requires 0 <= y < 256, 0 <= z < 256;
}

proof fn lemma_b64_unpadded(bytes: Seq<u8>)
    ensures
        forall|i: int| 0 <= i < b64_unpadded(bytes).len() ==> (#[trigger] b64_value(b64_unpadded(bytes)[i])) is Some,
        forall|i: int| 0 <= i < b64_unpadded(bytes).len() ==> #[trigger] b64_unpadded(bytes)[i] != '=',
        b64_unpadded(bytes).len() % 4 != 1,
        b64_unpadded(bytes).len() % 4 == 0 <==> bytes.len() % 3 == 0,
        decode_groups(b64_unpadded(bytes)) == bytes,
    decreases bytes.len(),
{
    let u = b64_unpadded(bytes);
    if bytes.len() >= 3 {
        let (x, y, z) = (bytes[0] as int, bytes[1] as int, bytes[2] as int);
        lemma_b64_three(x, y, z);
        let (v0, v1, v2, v3) = (x / 4, (x % 4) * 16 + y / 16, (y % 16) * 4 + z / 64, z % 64);
        lemma_b64_char(v0);
        lemma_b64_char(v1);
        lemma_b64_char(v2);
        lemma_b64_char(v3);
        let rest = bytes.skip(3);
        lemma_b64_unpadded(rest);
        let tail = b64_unpadded(rest);
        assert(u.len() == tail.len() + 4);
        assert(u.skip(4) =~= tail);
        assert(u[0] == b64_char(v0) && u[1] == b64_char(v1) && u[2] == b64_char(v2) && u[3] == b64_char(v3));
        assert(decode_groups(u) == seq![x as u8, y as u8, z as u8] + decode_groups(tail));
        assert(seq![bytes[0], bytes[1], bytes[2]] + rest =~= bytes);
        assert forall|i: int| 0 <= i < u.len() implies (#[trigger] b64_value(u[i])) is Some by {
            if i >= 4 {
                assert(u[i] == tail[i - 4]);
            }
        }
        assert forall|i: int| 0 <= i < u.len() implies #[trigger] u[i] != '=' by {
            if i >= 4 {
                assert(u[i] == tail[i - 4]);
            }
        }
    } else if bytes.len() == 2 {
        let (x, y) = (bytes[0] as int, bytes[1] as int);
        lemma_b64_three(x, y, 0);
        let (v0, v1, v2) = (x / 4, (x % 4) * 16 + y / 16, (y % 16) * 4);
        lemma_b64_char(v0);
        lemma_b64_char(v1);
        lemma_b64_char(v2);
        assert(seq![bytes[0], bytes[1]] =~= bytes);
    } else if bytes.len() == 1 {
        let x = bytes[0] as int;
        lemma_b64_three(x, 0, 0);
        let (v0, v1) = (x / 4, (x % 4) * 16);
        lemma_b64_char(v0);
        lemma_b64_char(v1);
        assert(seq![bytes[0]] =~= bytes);
    } else {
        assert(bytes =~= Seq::<u8>::empty());
    }
}

/// Decoding undoes encoding: the standard padded base64 encoding of any
/// bytes, with ASCII whitespace inserted anywhere (as in a PEM body),
/// decodes to those bytes, so `base64_decode` returns `Ok` of them
/// (e.g. `"TWFu"` gives `[77, 97, 110]`, `"TWE="` gives `[77, 97]` and
/// `"TQ=="` gives `[77]`).
pub proof fn law_decoding_undoes_encoding(bytes: Seq<u8>, input: Seq<char>)
    requires
        without_ascii_ws(input) == b64_encoding(bytes),
    ensures
        base64_decoded(input) == Ok::<Seq<u8>, Seq<char>>(bytes),
{
    reveal_strlit("=");
    reveal_strlit("==");
    lemma_b64_unpadded(bytes);
    let u = b64_unpadded(bytes);
    let f = without_ascii_ws(input);
    if bytes.len() % 3 == 1 {
        assert(f.skip(f.len() - 2) =~= "=="@);
        assert(f.take(f.len() - 2) =~= u);
    } else if bytes.len() % 3 == 2 {
        assert(u.len() > 0);
        assert(f[f.len() - 2] == u[u.len() - 1]);
        assert(!has_suffix(f, "=="@)) by {
            if has_suffix(f, "=="@) {
                assert(f.skip(f.len() - 2)[0] == f[f.len() - 2]);
            }
        }
        assert(f.skip(f.len() - 1) =~= "="@);
        assert(f.take(f.len() - 1) =~= u);
    } else {
        assert(f == u);
        if u.len() > 0 {
            assert(!has_suffix(f, "="@)) by {
                if has_suffix(f, "="@) {
                    assert(f.skip(f.len() - 1)[0] == f[f.len() - 1]);
                }
            }
            assert(!has_suffix(f, "=="@)) by {
                if has_suffix(f, "=="@) {
                    assert(f.skip(f.len() - 2)[1] == f[f.len() - 1]);
                }
            }
        }
    }
    assert(b64_body(input) == u);
}

} // verus!
