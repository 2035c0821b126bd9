//! Character-level text helpers shared by every module: the view of a
//! string is its `Seq<char>`, and every helper here states its result over
//! that view.

use vstd::prelude::*;

verus! {

/// Appending one character to a `String` extends its character sequence
/// by that character (std's `String::push`).
pub assume_specification[ String::push ](s: &mut String, ch: char)
    ensures
        final(s)@ == old(s)@.push(ch),
;

/// The characters of `s`, in order.
pub fn chars_of(s: &str) -> (v: Vec<char>)
    ensures
        v@ == s@,
{
    let mut v: Vec<char> = Vec::new();
    let n = s.unicode_len();
    let mut i: usize = 0;
    while i < n
        invariant
            n == s@.len(),
            i <= n,
            v@ == s@.take(i as int),
        decreases n - i,
    {
        let c = s.get_char(i);
        v.push(c);
        i = i + 1;
        assert(v@ =~= s@.take(i as int));
    }
    assert(v@ =~= s@);
    v
}

/// A `String` holding exactly the characters `v[from..to]`.
pub fn string_of_range(v: &Vec<char>, from: usize, to: usize) -> (s: String)
    requires
        from <= to <= v@.len(),
    ensures
        s@ == v@.subrange(from as int, to as int),
{
    let mut s = String::new();
    let mut i = from;
    while i < to
        invariant
            from <= i <= to <= v@.len(),
            s@ == v@.subrange(from as int, i as int),
        decreases to - i,
    {
        s.push(v[i]);
        i = i + 1;
        assert(s@ =~= v@.subrange(from as int, i as int));
    }
    s
}

/// A `String` holding exactly the characters of `v`.
pub fn string_of(v: &Vec<char>) -> (s: String)
    ensures
        s@ == v@,
{
    let s = string_of_range(v, 0, v.len());
    assert(v@.subrange(0, v@.len() as int) =~= v@);
    s
}

/// A `String` with the characters of `s`.
pub fn owned(s: &str) -> (r: String)
    ensures
        r@ == s@,
{
    s.to_owned()
}

/// `a` followed by `b`.
pub fn concat2(a: &str, b: &str) -> (r: String)
    ensures
        r@ == a@ + b@,
{
    let mut r = a.to_owned();
    r.append(b);
    r
}

/// `a`, `b`, `c` in that order.
pub fn concat3(a: &str, b: &str, c: &str) -> (r: String)
    ensures
        r@ == a@ + b@ + c@,
{
    let mut r = a.to_owned();
    r.append(b);
    r.append(c);
    r
}

/// The decimal digit character for `d < 10`.
pub open spec fn digit_char(d: nat) -> char {
    if d == 0 { '0' } else if d == 1 { '1' } else if d == 2 { '2' } else if d == 3 { '3' }
    else if d == 4 { '4' } else if d == 5 { '5' } else if d == 6 { '6' } else if d == 7 { '7' }
    else if d == 8 { '8' } else { '9' }
}

/// Decimal rendering of a natural number, most significant digit first,
/// with no leading zeros.
pub open spec fn decimal(n: nat) -> Seq<char>
    decreases n,
{
    if n < 10 {
        seq![digit_char(n)]
    } else {
        decimal(n / 10).push(digit_char(n % 10))
    }
}

/// Decimal rendering of an integer, with a leading `-` when negative.
pub open spec fn signed_decimal(i: int) -> Seq<char> {
    if i < 0 {
        seq!['-'] + decimal((-i) as nat)
    } else {
        decimal(i as nat)
    }
}

fn digit_of(d: u64) -> (c: char)
    requires
        d < 10,
    ensures
        c == digit_char(d as nat),
{
    if d == 0 { '0' } else if d == 1 { '1' } else if d == 2 { '2' } else if d == 3 { '3' }
    else if d == 4 { '4' } else if d == 5 { '5' } else if d == 6 { '6' } else if d == 7 { '7' }
    else if d == 8 { '8' } else { '9' }
}

/// Appends the decimal rendering of `n` to `s`.
pub fn push_decimal(s: &mut String, n: u64)
    ensures
        final(s)@ == old(s)@ + decimal(n as nat),
    decreases n,
{
    if n < 10 {
        s.push(digit_of(n));
        assert(final(s)@ =~= old(s)@ + decimal(n as nat));
    } else {
        push_decimal(s, n / 10);
        s.push(digit_of(n % 10));
        assert(final(s)@ =~= old(s)@ + decimal(n as nat));
    }
}

/// Appends the decimal rendering of a 128-bit `n` to `s`.
pub fn push_decimal_wide(s: &mut String, n: u128)
    ensures
        final(s)@ == old(s)@ + decimal(n as nat),
    decreases n,
{
    if n < 10 {
        s.push(digit_of(n as u64));
        assert(final(s)@ =~= old(s)@ + decimal(n as nat));
    } else {
        push_decimal_wide(s, n / 10);
        s.push(digit_of((n % 10) as u64));
        assert(final(s)@ =~= old(s)@ + decimal(n as nat));
    }
}

/// The decimal rendering of `n`.
pub fn u64_to_string(n: u64) -> (s: String)
    ensures
        s@ == decimal(n as nat),
{
    let mut s = String::new();
    push_decimal(&mut s, n);
    assert(s@ =~= decimal(n as nat));
    s
}

/// Appends the signed decimal rendering of `i` to `s`.
pub fn push_signed_decimal(s: &mut String, i: i64)
    ensures
        final(s)@ == old(s)@ + signed_decimal(i as int),
{
    if i < 0 {
        s.push('-');
        let magnitude: u64 = if i == i64::MIN { 9223372036854775808u64 } else { (-i) as u64 };
        push_decimal(s, magnitude);
        assert(final(s)@ =~= old(s)@ + signed_decimal(i as int));
    } else {
        push_decimal(s, i as u64);
    }
}

/// `p` is a prefix of `s`.
pub open spec fn has_prefix(s: Seq<char>, p: Seq<char>) -> bool {
    p.len() <= s.len() && s.take(p.len() as int) == p
}

/// `p` is a suffix of `s`.
pub open spec fn has_suffix(s: Seq<char>, p: Seq<char>) -> bool {
    p.len() <= s.len() && s.skip(s.len() - p.len()) == p
}

/// `p` occurs in `s` at position `i`.
pub open spec fn occurs_at(s: Seq<char>, p: Seq<char>, i: int) -> bool {
    0 <= i && i + p.len() <= s.len() && s.subrange(i, i + p.len()) == p
}

/// `p` occurs somewhere in `s` (the empty sequence occurs in every `s`).
pub open spec fn has_infix(s: Seq<char>, p: Seq<char>) -> bool {
    exists|i: int| occurs_at(s, p, i)
}

/// `text[a..b]` is one line of `text`: it starts at the beginning or just
/// after a `\n`, ends at the end or just before a `\n`, and holds no `\n`.
pub open spec fn is_line(text: Seq<char>, a: int, b: int) -> bool {
    &&& 0 <= a <= b <= text.len()
    &&& (a == 0 || text[a - 1] == '\n')
    &&& (b == text.len() || text[b] == '\n')
    &&& forall|k: int| a <= k < b ==> text[k] != '\n'
}

/// A line that ends at or after `start`, where `start` begins a line
/// and no `\n` lies in `text[start..i]`, is the line `text[start..i]`.
pub proof fn lemma_line_ends_here(text: Seq<char>, start: int, i: int, a: int, b: int)
    requires
        0 <= start <= i <= text.len(),
        start == 0 || text[start - 1] == '\n',
        forall|k: int| start <= k < i ==> text[k] != '\n',
        is_line(text, a, b),
        start <= b <= i,
    ensures
        a == start,
        b == i,
{
    if b < i {
        assert(b < text.len());
        assert(text[b] == '\n');
        assert(false);
    }
    if a < start {
        assert(text[start - 1] == '\n');
        assert(a <= start - 1 < b);
    }
    if a > start {
        assert(text[a - 1] == '\n');
    }
}

/// Whether some line of `text` (split at `\n`), once trimmed, is `target`.
pub fn has_trimmed_line(text: &str, target: &str) -> (b: bool)
    ensures
        b == exists|a: int, e: int|
            is_line(text@, a, e) && #[trigger] trimmed(text@.subrange(a, e)) == target@,
{
    let t = chars_of(text);
    let goal = target.to_owned();
    let mut start: usize = 0;
    let mut i: usize = 0;
    loop
        invariant
            t@ == text@,
            goal@ == target@,
            start <= i <= t@.len(),
            start == 0 || t@[start - 1] == '\n',
            forall|k: int| start <= k < i ==> t@[k] != '\n',
            forall|a: int, e: int|
                is_line(t@, a, e) && e < start ==> #[trigger] trimmed(t@.subrange(a, e)) != target@,
        decreases t@.len() - i,
    {
        if i == t.len() || t[i] == '\n' {
            let line = string_of_range(&t, start, i);
            let tl = trim(line.as_str());
            assert(is_line(t@, start as int, i as int));
            if tl == goal {
                return true;
            }
            proof {
                assert forall|a: int, e: int|
                    is_line(t@, a, e) && e < i + 1 implies #[trigger] trimmed(t@.subrange(a, e))
                    != target@ by {
                    if e >= start {
                        lemma_line_ends_here(t@, start as int, i as int, a, e);
                    }
                }
            }
            if i == t.len() {
                proof {
                    assert forall|a: int, e: int|
                        is_line(t@, a, e) implies #[trigger] trimmed(t@.subrange(a, e)) != target@ by {
                        assert(e <= t@.len());
                    }
                }
                return false;
            }
            start = i + 1;
        }
        i = i + 1;
    }
}

/// Whether `v[at..]` starts with `p`.
pub fn matches_at(v: &Vec<char>, at: usize, p: &Vec<char>) -> (b: bool)
    requires
        at <= v@.len(),
    ensures
        b == occurs_at(v@, p@, at as int),
{
    if p.len() > v.len() - at {
        return false;
    }
    let mut j: usize = 0;
    while j < p.len()
        invariant
            at + p@.len() <= v@.len(),
            v@.len() <= usize::MAX,
            j <= p@.len(),
            forall|k: int| 0 <= k < j ==> v@[at + k] == p@[k],
        decreases p@.len() - j,
    {
        if v[at + j] != p[j] {
            assert(v@.subrange(at as int, at + p@.len())[j as int] != p@[j as int]);
            return false;
        }
        j = j + 1;
    }
    assert(v@.subrange(at as int, at + p@.len()) =~= p@);
    true
}

/// Whether `s` starts with `p`.
pub fn starts_with(s: &str, p: &str) -> (b: bool)
    ensures
        b == has_prefix(s@, p@),
{
    let v = chars_of(s);
    let pv = chars_of(p);
    let b = matches_at(&v, 0, &pv);
    proof {
        if b {
            assert(v@.subrange(0, p@.len() as int) =~= v@.take(p@.len() as int));
        } else if p@.len() <= s@.len() {
            assert(v@.subrange(0, p@.len() as int) =~= v@.take(p@.len() as int));
        }
    }
    b
}

/// Whether `s` ends with `p`.
pub fn ends_with(s: &str, p: &str) -> (b: bool)
    ensures
        b == has_suffix(s@, p@),
{
    let v = chars_of(s);
    let pv = chars_of(p);
    if pv.len() > v.len() {
        return false;
    }
    let at = v.len() - pv.len();
    let b = matches_at(&v, at, &pv);
    assert(v@.subrange(at as int, at + p@.len()) =~= v@.skip(at as int));
    b
}

/// Whether `p` occurs in `v`.
pub fn vec_contains_seq(v: &Vec<char>, p: &Vec<char>) -> (b: bool)
    ensures
        b == has_infix(v@, p@),
{
    if p.len() > v.len() {
        assert forall|i: int| !occurs_at(v@, p@, i) by {}
        return false;
    }
    let last = v.len() - p.len();
    let mut i: usize = 0;
    loop
        invariant
            last == v@.len() - p@.len(),
            i <= last,
            forall|k: int| 0 <= k < i ==> !occurs_at(v@, p@, k),
        ensures
            forall|k: int| 0 <= k <= last ==> !occurs_at(v@, p@, k),
        decreases last - i,
    {
        if matches_at(v, i, p) {
            return true;
        }
        if i == last {
            break;
        }
        i = i + 1;
    }
    assert forall|k: int| !occurs_at(v@, p@, k) by {
        if 0 <= k && k <= last {
        }
    }
    false
}

/// Whether `p` occurs in `s`.
pub fn contains(s: &str, p: &str) -> (b: bool)
    ensures
        b == has_infix(s@, p@),
{
    let v = chars_of(s);
    let pv = chars_of(p);
    vec_contains_seq(&v, &pv)
}

/// Whether the character `c` occurs in `s`.
pub fn contains_char(s: &str, c: char) -> (b: bool)
    ensures
        b == s@.contains(c),
{
    let v = chars_of(s);
    let mut i: usize = 0;
    while i < v.len()
        invariant
            v@ == s@,
            i <= v@.len(),
            forall|k: int| 0 <= k < i ==> v@[k] != c,
        decreases v@.len() - i,
    {
        if v[i] == c {
            return true;
        }
        i = i + 1;
    }
    false
}

/// ASCII lowercase of one character (std's `char::to_ascii_lowercase`).
pub open spec fn ascii_lower(c: char) -> char {
    if 'A' <= c && c <= 'Z' {
        ((c as u32) + 32) as char
    } else {
        c
    }
}

/// ASCII lowercase of a sequence: every `A`-`Z` mapped to `a`-`z`, every
/// other character unchanged.
pub open spec fn ascii_lower_seq(s: Seq<char>) -> Seq<char> {
    s.map_values(|c: char| ascii_lower(c))
}

pub fn to_ascii_lower_char(c: char) -> (r: char)
    ensures
        r == ascii_lower(c),
{
    if 'A' <= c && c <= 'Z' {
        let b = (c as u8) + 32;
        b as char
    } else {
        c
    }
}

/// ASCII lowercase of `s` (std's `str::to_ascii_lowercase`).
pub fn to_ascii_lowercase(s: &str) -> (r: String)
    ensures
        r@ == ascii_lower_seq(s@),
{
    let v = chars_of(s);
    let mut r = String::new();
    let mut i: usize = 0;
    while i < v.len()
        invariant
            v@ == s@,
            i <= v@.len(),
            r@ == ascii_lower_seq(s@.take(i as int)),
        decreases v@.len() - i,
    {
        let c = to_ascii_lower_char(v[i]);
        r.push(c);
        i = i + 1;
        assert(r@ =~= ascii_lower_seq(s@.take(i as int)));
    }
    assert(s@.take(v@.len() as int) =~= s@);
    r
}

/// std's `char::is_ascii_whitespace`: space, tab, line feed, form feed,
/// carriage return.
pub open spec fn is_ascii_ws(c: char) -> bool {
    c == ' ' || c == '\t' || c == '\n' || c == '\x0C' || c == '\r'
}

/// std's `char::is_whitespace`: the Unicode `White_Space` property.
pub open spec fn is_unicode_ws(c: char) -> bool {
    let u = c as u32;
    (9 <= u && u <= 13) || u == 32 || u == 0x85 || u == 0xA0 || u == 0x1680
        || (0x2000 <= u && u <= 0x200A) || u == 0x2028 || u == 0x2029 || u == 0x202F
        || u == 0x205F || u == 0x3000
}

pub fn is_whitespace_char(c: char) -> (b: bool)
    ensures
        b == is_unicode_ws(c),
{
    let u = c as u32;
    (9 <= u && u <= 13) || u == 32 || u == 0x85 || u == 0xA0 || u == 0x1680
        || (0x2000 <= u && u <= 0x200A) || u == 0x2028 || u == 0x2029 || u == 0x202F
        || u == 0x205F || u == 0x3000
}

/// Number of leading whitespace characters of `s`.
pub open spec fn leading_ws(s: Seq<char>) -> nat
    decreases s.len(),
{
    if s.len() > 0 && is_unicode_ws(s[0]) {
        1 + leading_ws(s.drop_first())
    } else {
        0
    }
}

/// Number of trailing whitespace characters of `s`.
pub open spec fn trailing_ws(s: Seq<char>) -> nat
    decreases s.len(),
{
    if s.len() > 0 && is_unicode_ws(s.last()) {
        1 + trailing_ws(s.drop_last())
    } else {
        0
    }
}

/// std's `str::trim`: `s` without its leading and trailing whitespace.
pub open spec fn trimmed(s: Seq<char>) -> Seq<char> {
    let t = s.skip(leading_ws(s) as int);
    t.take(t.len() - trailing_ws(t))
}

proof fn lemma_leading_ws_bound(s: Seq<char>)
    ensures
        leading_ws(s) <= s.len(),
    decreases s.len(),
{
    if s.len() > 0 && is_unicode_ws(s[0]) {
        lemma_leading_ws_bound(s.drop_first());
    }
}

proof fn lemma_trailing_ws_bound(s: Seq<char>)
    ensures
        trailing_ws(s) <= s.len(),
    decreases s.len(),
{
    if s.len() > 0 && is_unicode_ws(s.last()) {
        lemma_trailing_ws_bound(s.drop_last());
    }
}

/// Start index of the trimmed part of `v[from..to]`, scanning forwards.
fn skip_leading_ws(v: &Vec<char>, from: usize, to: usize) -> (i: usize)
    requires
        from <= to <= v@.len(),
    ensures
        from <= i <= to,
        i - from == leading_ws(v@.subrange(from as int, to as int)),
{
    let mut i = from;
    while i < to && is_whitespace_char(v[i])
        invariant
            from <= i <= to <= v@.len(),
            forall|k: int| from <= k < i ==> is_unicode_ws(#[trigger] v@[k]),
            leading_ws(v@.subrange(from as int, to as int)) == (i - from) + leading_ws(
                v@.subrange(i as int, to as int),
            ),
        decreases to - i,
    {
        assert(v@.subrange(i as int, to as int).drop_first() =~= v@.subrange(i + 1, to as int));
        i = i + 1;
    }
    i
}

/// End index of the trimmed part of `v[from..to]`, scanning backwards.
fn skip_trailing_ws(v: &Vec<char>, from: usize, to: usize) -> (j: usize)
    requires
        from <= to <= v@.len(),
    ensures
        from <= j <= to,
        to - j == trailing_ws(v@.subrange(from as int, to as int)),
{
    let mut j = to;
    while j > from && is_whitespace_char(v[j - 1])
        invariant
            from <= j <= to <= v@.len(),
            trailing_ws(v@.subrange(from as int, to as int)) == (to - j) + trailing_ws(
                v@.subrange(from as int, j as int),
            ),
        decreases j - from,
    {
        assert(v@.subrange(from as int, j as int).drop_last() =~= v@.subrange(from as int, j - 1));
        j = j - 1;
    }
    j
}

/// Bounds `(start, end)` of the trimmed part of `v[from..to]`.
pub fn trim_bounds(v: &Vec<char>, from: usize, to: usize) -> (r: (usize, usize))
    requires
        from <= to <= v@.len(),
    ensures
        from <= r.0 <= r.1 <= to,
        v@.subrange(r.0 as int, r.1 as int) == trimmed(v@.subrange(from as int, to as int)),
{
    let i = skip_leading_ws(v, from, to);
    let j = skip_trailing_ws(v, i, to);
    proof {
        let s = v@.subrange(from as int, to as int);
        let t = s.skip(leading_ws(s) as int);
        assert(t =~= v@.subrange(i as int, to as int));
        assert(t.take(t.len() - trailing_ws(t)) =~= v@.subrange(i as int, j as int));
    }
    (i, j)
}

/// std's `str::trim`.
pub fn trim(s: &str) -> (r: String)
    ensures
        r@ == trimmed(s@),
{
    let v = chars_of(s);
    let (i, j) = trim_bounds(&v, 0, v.len());
    assert(v@.subrange(0, v@.len() as int) =~= s@);
    string_of_range(&v, i, j)
}

/// The value of a decimal digit.
pub open spec fn decimal_digit_value(c: char) -> Option<nat> {
    if '0' <= c && c <= '9' {
        Some((c as int - '0' as int) as nat)
    } else {
        None
    }
}

/// The number the decimal digits `s` spell, if they all are digits.
pub open spec fn decimal_value(s: Seq<char>) -> Option<nat>
    decreases s.len(),
{
    if s.len() == 0 {
        Some(0)
    } else {
        match (decimal_value(s.drop_last()), decimal_digit_value(s.last())) {
            (Some(v), Some(d)) => Some(v * 10 + d),
            _ => None,
        }
    }
}

/// std's `str::parse::<i32>`: an optional `+` or `-`, at least one
/// decimal digit, and a value within `i32`.
pub open spec fn parsed_i32(s: Seq<char>) -> Option<i32> {
    let neg = s.len() > 0 && s[0] == '-';
    let digits = if s.len() > 0 && (s[0] == '-' || s[0] == '+') {
        s.skip(1)
    } else {
        s
    };
    if digits.len() == 0 {
        None
    } else {
        match decimal_value(digits) {
            Some(v) => {
                let x: int = if neg {
                    -v
                } else {
                    v as int
                };
                if i32::MIN <= x && x <= i32::MAX {
                    Some(x as i32)
                } else {
                    None
                }
            },
            None => None,
        }
    }
}

proof fn lemma_decimal_value_monotone(s: Seq<char>, i: int, j: int)
    requires
        0 <= i <= j <= s.len(),
        decimal_value(s.take(j)) is Some,
    ensures
        decimal_value(s.take(i)) is Some,
        decimal_value(s.take(i))->0 <= decimal_value(s.take(j))->0,
    decreases j - i,
{
    if i < j {
        assert(s.take(j).drop_last() =~= s.take(j - 1));
        lemma_decimal_value_monotone(s, i, j - 1);
    }
}

/// `str::parse::<i32>`, as a function of the text.
pub fn parse_i32(s: &str) -> (r: Option<i32>)
    ensures
        r == parsed_i32(s@),
{
    let v = chars_of(s);
    let signed = v.len() > 0 && (v[0] == '-' || v[0] == '+');
    let neg = v.len() > 0 && v[0] == '-';
    let start: usize = if signed { 1 } else { 0 };
    let ghost digits = if s@.len() > 0 && (s@[0] == '-' || s@[0] == '+') { s@.skip(1) } else { s@ };
    assert(digits =~= v@.skip(start as int));
    if start == v.len() {
        return None;
    }
    let mut acc: i64 = 0;
    let mut i = start;
    while i < v.len()
        invariant
            v@ == s@,
            start <= i <= v@.len(),
            digits == v@.skip(start as int),
            digits == (if s@.len() > 0 && (s@[0] == '-' || s@[0] == '+') { s@.skip(1) } else { s@ }),
            digits.len() > 0,
            decimal_value(digits.take(i - start)) == Some(acc as nat),
            0 <= acc <= 2147483648,
        decreases v@.len() - i,
    {
        let c = v[i];
        proof {
            assert(digits.take(i - start + 1).drop_last() =~= digits.take(i - start));
            assert(digits.take(i - start + 1).last() == v@[i as int]);
            assert(digits.take(digits.len() as int) =~= digits);
        }
        if !('0' <= c && c <= '9') {
            proof {
                if decimal_value(digits) is Some {
                    lemma_decimal_value_monotone(digits, i - start + 1, digits.len() as int);
                }
            }
            return None;
        }
        let next = acc * 10 + ((c as u32) - 48) as i64;
        if next > 2147483648 {
            proof {
                if decimal_value(digits) is Some {
                    lemma_decimal_value_monotone(digits, i - start + 1, digits.len() as int);
                }
            }
            return None;
        }
        acc = next;
        i = i + 1;
    }
    assert(digits.take(i - start) =~= digits);
    let x: i64 = if neg { -acc } else { acc };
    if x < -2147483648 || x > 2147483647 {
        None
    } else {
        Some(x as i32)
    }
}

/// std's `str::parse` for an unsigned type whose largest value is
/// `max`: an optional `+`, at least one decimal digit, a value up to `max`.
pub open spec fn parsed_unsigned(s: Seq<char>, max: nat) -> Option<nat> {
    let digits = if s.len() > 0 && s[0] == '+' {
        s.skip(1)
    } else {
        s
    };
    if digits.len() == 0 {
        None
    } else {
        match decimal_value(digits) {
            Some(v) => if v <= max {
                Some(v)
            } else {
                None
            },
            None => None,
        }
    }
}

/// `str::parse::<u8>`, `::<u32>` or `::<u64>` (by `max`), as a function
/// of the text.
pub fn parse_unsigned(s: &str, max: u64) -> (r: Option<u64>)
    ensures
        match parsed_unsigned(s@, max as nat) {
            Some(v) => r == Some(v as u64),
            None => r is None,
        },
{
    let v = chars_of(s);
    let start: usize = if v.len() > 0 && v[0] == '+' { 1 } else { 0 };
    let ghost digits = if s@.len() > 0 && s@[0] == '+' { s@.skip(1) } else { s@ };
    assert(digits =~= v@.skip(start as int));
    if start == v.len() {
        return None;
    }
    let mut acc: u64 = 0;
    let mut i = start;
    while i < v.len()
        invariant
            v@ == s@,
            start <= i <= v@.len(),
            digits == v@.skip(start as int),
            digits == (if s@.len() > 0 && s@[0] == '+' { s@.skip(1) } else { s@ }),
            digits.len() > 0,
            decimal_value(digits.take(i - start)) == Some(acc as nat),
            acc <= max,
        decreases v@.len() - i,
    {
        let c = v[i];
        proof {
            assert(digits.take(i - start + 1).drop_last() =~= digits.take(i - start));
            assert(digits.take(i - start + 1).last() == v@[i as int]);
            assert(digits.take(digits.len() as int) =~= digits);
        }
        if !('0' <= c && c <= '9') {
            proof {
                if decimal_value(digits) is Some {
                    lemma_decimal_value_monotone(digits, i - start + 1, digits.len() as int);
                }
            }
            return None;
        }
        let d = ((c as u32) - 48) as u64;
        if d > max || acc > (max - d) / 10 {
            proof {
                if d <= max {
                    assert(acc * 10 + d > max) by (nonlinear_arith)
                        requires
                            acc > (max - d) / 10,
                            d <= max,
                    ;
                }
                if decimal_value(digits) is Some {
                    lemma_decimal_value_monotone(digits, i - start + 1, digits.len() as int);
                }
            }
            return None;
        }
        proof {
            assert(acc * 10 + d <= max) by (nonlinear_arith)
                requires
                    acc <= (max - d) / 10,
                    d <= max,
            ;
        }
        acc = acc * 10 + d;
        i = i + 1;
    }
    assert(digits.take(i - start) =~= digits);
    Some(acc)
}

/// `i` is where `p` first occurs in `s` at or after `from`.
pub open spec fn first_occurrence(s: Seq<char>, p: Seq<char>, from: int, i: int) -> bool {
    from <= i && occurs_at(s, p, i) && forall|j: int| from <= j < i ==> !occurs_at(s, p, j)
}

/// The second piece of `s` split at `p` (`str::split(p).nth(1)`): what
/// follows the first occurrence of `p`, up to the next one; `None` when
/// `p` does not occur.
pub open spec fn second_piece(s: Seq<char>, p: Seq<char>) -> Option<Seq<char>> {
    if exists|i: int| #[trigger] first_occurrence(s, p, 0, i) {
        let i = choose|i: int| #[trigger] first_occurrence(s, p, 0, i);
        let from = i + p.len();
        if exists|j: int| #[trigger] first_occurrence(s, p, from, j) {
            let j = choose|j: int| #[trigger] first_occurrence(s, p, from, j);
            Some(s.subrange(from, j))
        } else {
            Some(s.skip(from))
        }
    } else {
        None
    }
}

proof fn lemma_first_occurrence_unique(s: Seq<char>, p: Seq<char>, from: int, i: int, j: int)
    requires
        first_occurrence(s, p, from, i),
        first_occurrence(s, p, from, j),
    ensures
        i == j,
{
}

/// Where `p` first occurs in `v` at or after `from`, if it does.
pub fn find_from(v: &Vec<char>, p: &Vec<char>, from: usize) -> (r: Option<usize>)
    requires
        from <= v@.len(),
    ensures
        match r {
            Some(i) => first_occurrence(v@, p@, from as int, i as int),
            None => forall|i: int| #![trigger occurs_at(v@, p@, i)] from <= i ==> !occurs_at(v@, p@, i),
        },
{
    let mut i = from;
    loop
        invariant
            from <= i <= v@.len(),
            forall|j: int| from <= j < i ==> !occurs_at(v@, p@, j),
        decreases v@.len() - i,
    {
        if matches_at(v, i, p) {
            return Some(i);
        }
        if i == v.len() {
            assert forall|j: int| #![trigger occurs_at(v@, p@, j)] from <= j implies !occurs_at(v@, p@, j) by {
                if j > i {
                    assert(j + p@.len() > v@.len());
                }
            }
            return None;
        }
        i = i + 1;
    }
}

/// Where `p` first occurs in `s` at or after `from`, if it does.
pub open spec fn find_first_from(s: Seq<char>, p: Seq<char>, from: int) -> Option<int> {
    if exists|i: int| #[trigger] first_occurrence(s, p, from, i) {
        Some(choose|i: int| #[trigger] first_occurrence(s, p, from, i))
    } else {
        None
    }
}

/// Where `p` first occurs inside `s[from..to]`, if it does.
pub open spec fn find_within(s: Seq<char>, p: Seq<char>, from: int, to: int) -> Option<int> {
    match find_first_from(s, p, from) {
        Some(i) => if i + p.len() <= to {
            Some(i)
        } else {
            None
        },
        None => None,
    }
}

pub fn find_in(v: &Vec<char>, p: &Vec<char>, from: usize, to: usize) -> (r: Option<usize>)
    requires
        from <= to <= v@.len(),
    ensures
        match r {
            Some(i) => find_within(v@, p@, from as int, to as int) == Some(i as int) && i + p@.len() <= to,
            None => find_within(v@, p@, from as int, to as int) is None,
        },
{
    match find_from(v, p, from) {
        Some(i) => {
            proof {
                let j = choose|j: int| #[trigger] first_occurrence(v@, p@, from as int, j);
                lemma_first_occurrence_unique(v@, p@, from as int, i as int, j);
            }
            if i <= to && p.len() <= to - i {
                Some(i)
            } else {
                None
            }
        },
        None => {
            assert(!exists|i: int| #[trigger] first_occurrence(v@, p@, from as int, i));
            None
        },
    }
}

/// `str::split(p).nth(1)` for a non-empty pattern.
pub fn second_piece_of(s: &str, p: &str) -> (r: Option<String>)
    requires
        p@.len() > 0,
    ensures
        match second_piece(s@, p@) {
            Some(piece) => r is Some && r->0@ == piece,
            None => r is None,
        },
{
    let v = chars_of(s);
    let pv = chars_of(p);
    match find_from(&v, &pv, 0) {
        None => {
            assert(!exists|i: int| #[trigger] first_occurrence(s@, p@, 0, i));
            None
        },
        Some(i) => {
            proof {
                let i0 = choose|i0: int| #[trigger] first_occurrence(s@, p@, 0, i0);
                lemma_first_occurrence_unique(s@, p@, 0, i as int, i0);
            }
            let n = v.len();
            assert(occurs_at(v@, pv@, i as int));
            assert(i + pv@.len() <= n);
            let from = i + pv.len();
            match find_from(&v, &pv, from) {
                None => {
                    assert(!exists|j: int| #[trigger] first_occurrence(s@, p@, from as int, j));
                    let r = string_of_range(&v, from, v.len());
                    assert(r@ =~= s@.skip(from as int));
                    Some(r)
                },
                Some(j) => {
                    proof {
                        let j0 = choose|j0: int| #[trigger] first_occurrence(s@, p@, from as int, j0);
                        lemma_first_occurrence_unique(s@, p@, from as int, j as int, j0);
                    }
                    Some(string_of_range(&v, from, j))
                },
            }
        },
    }
}

/// Length of the leading run of `s` whose characters satisfy `keep`.
pub open spec fn run_len(s: Seq<char>, keep: spec_fn(char) -> bool) -> nat
    decreases s.len(),
{
    if s.len() > 0 && keep(s[0]) {
        1 + run_len(s.drop_first(), keep)
    } else {
        0
    }
}

/// `str::split_whitespace().next()`: the first whitespace-separated word.
pub open spec fn first_word(s: Seq<char>) -> Option<Seq<char>> {
    let t = s.skip(leading_ws(s) as int);
    if t.len() == 0 {
        None
    } else {
        Some(t.take(run_len(t, |c: char| !is_unicode_ws(c)) as int))
    }
}

pub fn first_word_of(s: &str) -> (r: Option<String>)
    ensures
        match first_word(s@) {
            Some(w) => r is Some && r->0@ == w,
            None => r is None,
        },
{
    let v = chars_of(s);
    let mut i: usize = 0;
    assert(v@.skip(0) =~= v@);
    while i < v.len() && is_whitespace_char(v[i])
        invariant
            v@ == s@,
            i <= v@.len(),
            leading_ws(v@) == i + leading_ws(v@.skip(i as int)),
        decreases v@.len() - i,
    {
        assert(v@.skip(i as int).drop_first() =~= v@.skip(i + 1));
        i = i + 1;
    }
    if i == v.len() {
        return None;
    }
    let ghost t = v@.skip(i as int);
    let mut j = i;
    assert(v@.skip(j as int) =~= t.skip(0));
    while j < v.len() && !is_whitespace_char(v[j])
        invariant
            v@ == s@,
            i <= j <= v@.len(),
            t == v@.skip(i as int),
            run_len(t, |c: char| !is_unicode_ws(c)) == (j - i) + run_len(
                v@.skip(j as int),
                |c: char| !is_unicode_ws(c),
            ),
        decreases v@.len() - j,
    {
        assert(v@.skip(j as int).drop_first() =~= v@.skip(j + 1));
        j = j + 1;
    }
    let w = string_of_range(&v, i, j);
    assert(w@ =~= t.take(j - i));
    Some(w)
}

} // verus!
