//! The decisions of a minimal Tor control-port client (the line-oriented
//! protocol the Tor Project documents in its control spec): the command
//! lines it sends and how it reads the replies. The socket itself is the
//! application's.

use vstd::prelude::*;

use crate::kill_switch::error::BlackholeError;
use crate::text::{
    concat2, contains, first_word, first_word_of, has_infix, has_prefix, parse_unsigned,
    parsed_unsigned, second_piece, second_piece_of, starts_with,
};

verus! {

/// The lowercase hexadecimal digit for `d < 16`.
pub open spec fn hex_lower(d: int) -> char {
    if d < 10 {
        ('0' as int + d) as char
    } else {
        ('a' as int + d - 10) as char
    }
}

/// Two lowercase hex digits per byte, no separator.
pub open spec fn lower_hex(bytes: Seq<u8>) -> Seq<char>
    decreases bytes.len(),
{
    if bytes.len() == 0 {
        Seq::empty()
    } else {
        lower_hex(bytes.drop_last()) + seq![
            hex_lower(bytes.last() as int / 16),
            hex_lower(bytes.last() as int % 16),
        ]
    }
}

fn hex_digit_lower(d: u8) -> (c: char)
    requires
        d < 16,
    ensures
        c == hex_lower(d as int),
{
    if d < 10 {
        (48 + d) as char
    } else {
        (87 + d) as char
    }
}

/// The cookie-authentication command: `AUTHENTICATE ` and the cookie in
/// lowercase hex.
pub fn authenticate_command(cookie: &[u8]) -> (line: String)
    ensures
        line@ == "AUTHENTICATE "@ + lower_hex(cookie@),
{
    let mut line = String::new();
    line.append("AUTHENTICATE ");
    let ghost head = line@;
    let mut i: usize = 0;
    while i < cookie.len()
        invariant
            i <= cookie@.len(),
            line@ == head + lower_hex(cookie@.take(i as int)),
        decreases cookie@.len() - i,
    {
        let b = cookie[i];
        line.push(hex_digit_lower(b / 16));
        line.push(hex_digit_lower(b % 16));
        proof {
            assert(cookie@.take(i + 1).drop_last() =~= cookie@.take(i as int));
        }
        i = i + 1;
        assert(line@ =~= head + lower_hex(cookie@.take(i as int)));
    }
    assert(cookie@.take(i as int) =~= cookie@);
    line
}

/// A reply line that reports success starts with status `250`.
pub fn reply_ok(reply: &str) -> (b: bool)
    ensures
        b == has_prefix(reply@, "250"@),
{
    starts_with(reply, "250")
}

/// `line` without its trailing `\r` and `\n` characters.
pub open spec fn without_line_end(line: Seq<char>) -> Seq<char>
    decreases line.len(),
{
    if line.len() > 0 && (line.last() == '\r' || line.last() == '\n') {
        without_line_end(line.drop_last())
    } else {
        line
    }
}

/// A reply line as read: empty input means the port closed the
/// connection; otherwise the line without its line ending.
pub fn reply_line(raw: &str) -> (r: Result<String, BlackholeError>)
    ensures
        raw@.len() == 0 ==> (r matches Err(BlackholeError::Tor(m)) && m@
            == "tor control port closed the connection unexpectedly"@),
        raw@.len() > 0 ==> r is Ok && r->Ok_0@ == without_line_end(raw@),
{
    let v = crate::text::chars_of(raw);
    if v.len() == 0 {
        return Err(BlackholeError::Tor("tor control port closed the connection unexpectedly".to_owned()));
    }
    let mut end = v.len();
    assert(v@.take(end as int) =~= v@);
    while end > 0 && (v[end - 1] == '\r' || v[end - 1] == '\n')
        invariant
            v@ == raw@,
            end <= v@.len(),
            without_line_end(raw@) == without_line_end(v@.take(end as int)),
        decreases end,
    {
        assert(v@.take(end as int).drop_last() =~= v@.take(end - 1));
        end = end - 1;
    }
    let s = crate::text::string_of_range(&v, 0, end);
    assert(s@ =~= v@.take(end as int));
    Ok(s)
}

/// The reply to `AUTHENTICATE`: accepted on `250`, else an error quoting
/// it.
pub fn check_authenticate_reply(reply: &str) -> (r: Result<(), BlackholeError>)
    ensures
        has_prefix(reply@, "250"@) ==> r is Ok,
        !has_prefix(reply@, "250"@) ==> (r matches Err(BlackholeError::Tor(m)) && m@
            == "tor control AUTHENTICATE failed: "@ + reply@),
{
    if reply_ok(reply) {
        Ok(())
    } else {
        Err(BlackholeError::Tor(concat2("tor control AUTHENTICATE failed: ", reply)))
    }
}

/// The reply to `SIGNAL NEWNYM`: accepted on `250`, else an error
/// quoting it.
pub fn check_newnym_reply(reply: &str) -> (r: Result<(), BlackholeError>)
    ensures
        has_prefix(reply@, "250"@) ==> r is Ok,
        !has_prefix(reply@, "250"@) ==> (r matches Err(BlackholeError::Tor(m)) && m@
            == "tor control SIGNAL NEWNYM failed: "@ + reply@),
{
    if reply_ok(reply) {
        Ok(())
    } else {
        Err(BlackholeError::Tor(concat2("tor control SIGNAL NEWNYM failed: ", reply)))
    }
}

pub const BOOTSTRAP_QUERY: &'static str = "GETINFO status/bootstrap-phase";

pub const NEWNYM_COMMAND: &'static str = "SIGNAL NEWNYM";

/// The progress percentage a bootstrap-phase line reports: the first
/// word after the first `PROGRESS=`, read as a byte; 0 when missing or
/// not a number.
pub open spec fn bootstrap_percent(data: Seq<char>) -> u8 {
    match second_piece(data, "PROGRESS="@) {
        Some(rest) => match first_word(rest) {
            Some(w) => match parsed_unsigned(w, 255) {
                Some(v) => v as u8,
                None => 0,
            },
            None => 0,
        },
        None => 0,
    }
}

/// Reads the two-line `GETINFO status/bootstrap-phase` reply (`data`,
/// then the terminator) as `(percent, ready for traffic, blocked reason)`:
/// ready when the phase's tag is `done`, blocked (with the whole line as
/// the reason) when it carries a warning or error severity.
pub fn parse_bootstrap_reply(data: &str, terminator: &str) -> (r: Result<
    (u8, bool, Option<String>),
    BlackholeError,
>)
    ensures
        !has_prefix(terminator@, "250"@) ==> (r matches Err(BlackholeError::Tor(m)) && m@
            == "unexpected GETINFO status/bootstrap-phase reply: "@ + data@ + " / "@ + terminator@),
        has_prefix(terminator@, "250"@) ==> r is Ok && r->Ok_0.0 == bootstrap_percent(data@)
            && r->Ok_0.1 == has_infix(data@, "TAG=done"@) && (r->Ok_0.2 is Some == (has_infix(
            data@,
            " WARN "@,
        ) || has_infix(data@, " ERR "@))) && (r->Ok_0.2 is Some ==> r->Ok_0.2->0@ == data@),
{
    if !reply_ok(terminator) {
        let mut m = concat2("unexpected GETINFO status/bootstrap-phase reply: ", data);
        m.append(" / ");
        m.append(terminator);
        return Err(BlackholeError::Tor(m));
    }
    proof {
        reveal_strlit("PROGRESS=");
    }
    let percent: u8 = match second_piece_of(data, "PROGRESS=") {
        Some(rest) => match first_word_of(rest.as_str()) {
            Some(w) => match parse_unsigned(w.as_str(), 255) {
                Some(v) => v as u8,
                None => 0,
            },
            None => 0,
        },
        None => 0,
    };
    let ready = contains(data, "TAG=done");
    let blocked = if contains(data, " WARN ") || contains(data, " ERR ") {
        Some(data.to_owned())
    } else {
        None
    };
    Ok((percent, ready, blocked))
}

} // verus!
