//! What each part of the dashboard shows: the header, the three module
//! panels, the help line and the panic-mode banner, as text runs with a
//! tone and an emphasis. The terminal drawing itself (`ratatui` widgets,
//! layout) is the application's; it draws exactly these.

use vstd::prelude::*;

use crate::dashboard::app::{danger_of, Danger, DnsInfo, KillSwitchInfo, ModuleState, Snapshot, TorInfo};
use crate::dns::leak::{fmt_ips, joined};
use crate::text::{concat2, contains, decimal, has_infix, push_decimal_wide};

verus! {

/// The dashboard's palette.
#[derive(Debug, Clone, Copy, PartialEq, Eq, Structural)]
pub enum Tone {
    Green,
    Yellow,
    Red,
    /// Dark gray: modules that are not there.
    Gray,
}

/// How a run of text is drawn.
#[derive(Debug, Clone, Copy, PartialEq, Eq, Structural)]
pub enum Emphasis {
    /// The terminal's default style.
    Plain,
    /// Bold, in the tone.
    Bold(Tone),
    /// Bold black text on the tone.
    Badge(Tone),
}

#[derive(Debug, Clone)]
pub struct TextSpan {
    pub text: String,
    pub emphasis: Emphasis,
}

/// What a panel holds inside its border.
#[derive(Debug, Clone)]
pub enum PanelBody {
    /// One message in one tone (module starting up, or missing).
    Message { text: String, tone: Tone },
    /// Lines of text runs.
    Lines(Vec<Vec<TextSpan>>),
    /// A progress gauge (percent and its label), with lines below it.
    Gauge { percent: u8, label: String, lines: Vec<Vec<TextSpan>> },
}

/// A bordered, titled panel.
#[derive(Debug, Clone)]
pub struct Panel {
    pub title: &'static str,
    pub border: Tone,
    pub body: PanelBody,
}

/// `line` is exactly the runs `expected` (text, emphasis), in order.
pub open spec fn spans_are(line: Vec<TextSpan>, expected: Seq<(Seq<char>, Emphasis)>) -> bool {
    &&& line@.len() == expected.len()
    &&& forall|i: int|
        0 <= i < expected.len() ==> (#[trigger] line@[i]).text@ == expected[i].0 && line@[i].emphasis
            == expected[i].1
}

/// `lines` are exactly the lines `expected`, in order.
pub open spec fn lines_are(lines: Vec<Vec<TextSpan>>, expected: Seq<Seq<(Seq<char>, Emphasis)>>) -> bool {
    &&& lines@.len() == expected.len()
    &&& forall|i: int| 0 <= i < expected.len() ==> spans_are(#[trigger] lines@[i], expected[i])
}

/// A line of one plain run.
pub open spec fn plain(text: Seq<char>) -> Seq<(Seq<char>, Emphasis)> {
    seq![(text, Emphasis::Plain)]
}

fn span(text: &str, emphasis: Emphasis) -> (s: TextSpan)
    ensures
        s.text@ == text@,
        s.emphasis == emphasis,
{
    TextSpan { text: text.to_owned(), emphasis }
}

fn plain_line(text: String) -> (line: Vec<TextSpan>)
    ensures
        spans_are(line, plain(text@)),
{
    let mut line: Vec<TextSpan> = Vec::new();
    line.push(TextSpan { text, emphasis: Emphasis::Plain });
    line
}

pub open spec fn tone_of(d: Danger) -> Tone {
    match d {
        Danger::Protected => Tone::Green,
        Danger::Warning => Tone::Yellow,
        Danger::Danger => Tone::Red,
    }
}

/// The dominant color for a danger level: green, yellow, red.
pub fn danger_color(danger: Danger) -> (t: Tone)
    ensures
        t == tone_of(danger),
{
    match danger {
        Danger::Protected => Tone::Green,
        Danger::Warning => Tone::Yellow,
        Danger::Danger => Tone::Red,
    }
}

pub open spec fn danger_word(d: Danger) -> Seq<char> {
    match d {
        Danger::Protected => "PROTECTED"@,
        Danger::Warning => "WARNING"@,
        Danger::Danger => "DANGER"@,
    }
}

/// The header: the name as a badge in the overall danger color, then the
/// danger level in words.
pub fn header_line(snapshot: &Snapshot) -> (line: Vec<TextSpan>)
    ensures
        spans_are(
            line,
            seq![
                (" BlackHole "@, Emphasis::Badge(tone_of(danger_of(*snapshot)))),
                ("  "@, Emphasis::Plain),
                (danger_word(danger_of(*snapshot)), Emphasis::Bold(tone_of(danger_of(*snapshot)))),
            ],
        ),
{
    let danger = snapshot.danger();
    let tone = danger_color(danger);
    let label = match danger {
        Danger::Protected => "PROTECTED",
        Danger::Warning => "WARNING",
        Danger::Danger => "DANGER",
    };
    let mut line: Vec<TextSpan> = Vec::new();
    line.push(span(" BlackHole ", Emphasis::Badge(tone)));
    line.push(span("  ", Emphasis::Plain));
    line.push(span(label, Emphasis::Bold(tone)));
    line
}

/// A panel for a module still starting up.
pub fn initializing_paragraph(title: &'static str) -> (p: Panel)
    ensures
        p.title == title,
        initializing_is(p),
{
    Panel {
        title,
        border: Tone::Yellow,
        body: PanelBody::Message { text: "initialisation...".to_owned(), tone: Tone::Yellow },
    }
}

/// A panel for a module that could not be reached, with the reason.
pub fn unavailable_paragraph(title: &'static str, reason: &str) -> (p: Panel)
    ensures
        p.title == title,
        unavailable_is(p, reason@),
{
    Panel {
        title,
        border: Tone::Gray,
        body: PanelBody::Message { text: concat2("module non détecté\n\n", reason), tone: Tone::Gray },
    }
}

/// The color of a kill-switch state word: green when enabled, red when
/// faulted, yellow otherwise.
pub open spec fn guard_tone(state: Seq<char>) -> Tone {
    if state == "enabled"@ {
        Tone::Green
    } else if state == "faulted"@ {
        Tone::Red
    } else {
        Tone::Yellow
    }
}

pub open spec fn text_or(o: Option<String>, fallback: Seq<char>) -> Seq<char> {
    match o {
        Some(s) => s@,
        None => fallback,
    }
}

/// The kill-switch panel.
pub fn draw_kill_switch(state: &ModuleState<KillSwitchInfo>) -> (p: Panel)
    ensures
        p.title == "Kill Switch",
        match state {
            ModuleState::Initializing => initializing_is(p),
            ModuleState::Unavailable(reason) => unavailable_is(p, reason@),
            ModuleState::Ready(info) => {
                &&& p.border == guard_tone(info.state@)
                &&& p.body matches PanelBody::Lines(lines) && lines_are(
                    lines,
                    seq![
                        seq![("state:   "@, Emphasis::Plain), (info.state@, Emphasis::Bold(guard_tone(info.state@)))],
                        plain("egress:  "@ + text_or(info.allowed_egress, "(unknown)"@)),
                    ],
                )
            },
        },
{
    match state {
        ModuleState::Initializing => initializing_paragraph("Kill Switch"),
        ModuleState::Unavailable(reason) => unavailable_paragraph("Kill Switch", reason.as_str()),
        ModuleState::Ready(info) => {
            let tone = if info.state == "enabled".to_owned() {
                Tone::Green
            } else if info.state == "faulted".to_owned() {
                Tone::Red
            } else {
                Tone::Yellow
            };
            let mut first: Vec<TextSpan> = Vec::new();
            first.push(span("state:   ", Emphasis::Plain));
            first.push(TextSpan { text: info.state.clone(), emphasis: Emphasis::Bold(tone) });
            let egress = match &info.allowed_egress {
                Some(e) => concat2("egress:  ", e.as_str()),
                None => "egress:  (unknown)".to_owned(),
            };
            proof {
                reveal_strlit("egress:  (unknown)");
                reveal_strlit("egress:  ");
                reveal_strlit("(unknown)");
                assert("egress:  (unknown)"@ =~= "egress:  "@ + "(unknown)"@);
            }
            let mut lines: Vec<Vec<TextSpan>> = Vec::new();
            lines.push(first);
            lines.push(plain_line(egress));
            Panel { title: "Kill Switch", border: tone, body: PanelBody::Lines(lines) }
        },
    }
}

/// `p` is the panel for a module starting up.
pub open spec fn initializing_is(p: Panel) -> bool {
    &&& p.border == Tone::Yellow
    &&& p.body matches PanelBody::Message { text, tone } && text@ == "initialisation..."@ && tone
        == Tone::Yellow
}

/// `p` is the panel for a module that could not be reached.
pub open spec fn unavailable_is(p: Panel, reason: Seq<char>) -> bool {
    &&& p.border == Tone::Gray
    &&& p.body matches PanelBody::Message { text, tone } && text@ == "module non détecté\n\n"@ + reason
        && tone == Tone::Gray
}

/// The Tor panel. `exit_ip` is the printed form of the exit address, when
/// one is known.
pub fn draw_tor(state: &ModuleState<TorInfo>, exit_ip: Option<String>) -> (p: Panel)
    ensures
        p.title == "Tor",
        match state {
            ModuleState::Initializing => initializing_is(p),
            ModuleState::Unavailable(reason) => unavailable_is(p, reason@),
            ModuleState::Ready(info) => {
                let tone = if info.ready_for_traffic { Tone::Green } else { Tone::Yellow };
                &&& p.border == tone
                &&& p.body matches PanelBody::Gauge { percent, label, lines } && percent
                    == info.bootstrap_percent && label@ == decimal(info.bootstrap_percent as nat) + "%"@
                    && lines_are(
                    lines,
                    seq![
                        plain("status:   "@ + if info.ready_for_traffic { "connected"@ } else { "bootstrapping"@ }),
                        plain("exit ip:  "@ + text_or(exit_ip, "(unknown)"@)),
                    ],
                )
            },
        },
{
    match state {
        ModuleState::Initializing => initializing_paragraph("Tor"),
        ModuleState::Unavailable(reason) => unavailable_paragraph("Tor", reason.as_str()),
        ModuleState::Ready(info) => {
            let tone = if info.ready_for_traffic {
                Tone::Green
            } else {
                Tone::Yellow
            };
            let mut label = String::new();
            push_decimal_wide(&mut label, info.bootstrap_percent as u128);
            label.append("%");
            let status = if info.ready_for_traffic {
                "status:   connected".to_owned()
            } else {
                "status:   bootstrapping".to_owned()
            };
            let ip = match exit_ip {
                Some(t) => concat2("exit ip:  ", t.as_str()),
                None => "exit ip:  (unknown)".to_owned(),
            };
            proof {
                reveal_strlit("status:   connected");
                reveal_strlit("status:   bootstrapping");
                reveal_strlit("status:   ");
                reveal_strlit("connected");
                reveal_strlit("bootstrapping");
                reveal_strlit("exit ip:  (unknown)");
                reveal_strlit("exit ip:  ");
                reveal_strlit("(unknown)");
                assert("status:   connected"@ =~= "status:   "@ + "connected"@);
                assert("status:   bootstrapping"@ =~= "status:   "@ + "bootstrapping"@);
                assert("exit ip:  (unknown)"@ =~= "exit ip:  "@ + "(unknown)"@);
            }
            let mut lines: Vec<Vec<TextSpan>> = Vec::new();
            lines.push(plain_line(status));
            lines.push(plain_line(ip));
            Panel {
                title: "Tor",
                border: tone,
                body: PanelBody::Gauge { percent: info.bootstrap_percent, label, lines },
            }
        },
    }
}

/// The DNS panel's lines for a reachable module.
pub open spec fn dns_lines(info: DnsInfo, leaking: Seq<String>) -> Seq<Seq<(Seq<char>, Emphasis)>> {
    let tone = if info.leak_detected { Tone::Red } else { Tone::Green };
    let base = seq![
        plain("resolver: "@ + info.provider@),
        seq![("leak:     "@, Emphasis::Plain), (if info.leak_detected { "YES"@ } else { "no"@ }, Emphasis::Bold(tone))],
        plain("latency:  "@ + match info.latency_ms {
            Some(l) => decimal(l as nat) + " ms"@,
            None => "(n/a)"@,
        }),
    ];
    if info.leak_detected && info.leaking_servers@.len() > 0 {
        base.push(plain("via:      "@ + joined(leaking)))
    } else {
        base
    }
}

/// The DNS panel. `leaking` holds the printed forms of the leaking
/// servers, in order.
pub fn draw_dns(state: &ModuleState<DnsInfo>, leaking: &Vec<String>) -> (p: Panel)
    requires
        state matches ModuleState::Ready(info) ==> leaking@.len() == info.leaking_servers@.len(),
    ensures
        p.title == "DNS",
        match state {
            ModuleState::Initializing => initializing_is(p),
            ModuleState::Unavailable(reason) => unavailable_is(p, reason@),
            ModuleState::Ready(info) => {
                &&& p.border == if info.leak_detected { Tone::Red } else { Tone::Green }
                &&& p.body matches PanelBody::Lines(lines) && lines_are(lines, dns_lines(*info, leaking@))
            },
        },
{
    match state {
        ModuleState::Initializing => initializing_paragraph("DNS"),
        ModuleState::Unavailable(reason) => unavailable_paragraph("DNS", reason.as_str()),
        ModuleState::Ready(info) => {
            let tone = if info.leak_detected {
                Tone::Red
            } else {
                Tone::Green
            };
            let mut lines: Vec<Vec<TextSpan>> = Vec::new();
            lines.push(plain_line(concat2("resolver: ", info.provider.as_str())));
            let mut leak: Vec<TextSpan> = Vec::new();
            leak.push(span("leak:     ", Emphasis::Plain));
            leak.push(span(if info.leak_detected { "YES" } else { "no" }, Emphasis::Bold(tone)));
            lines.push(leak);
            let mut latency = "latency:  ".to_owned();
            match info.latency_ms {
                Some(l) => {
                    push_decimal_wide(&mut latency, l);
                    latency.append(" ms");
                    assert(latency@ =~= "latency:  "@ + (decimal(l as nat) + " ms"@));
                },
                None => {
                    latency.append("(n/a)");
                },
            }
            proof {
                reveal_strlit("latency:  ");
                reveal_strlit(" ms");
                reveal_strlit("(n/a)");
            }
            lines.push(plain_line(latency));
            if info.leak_detected && info.leaking_servers.len() > 0 {
                let via = concat2("via:      ", fmt_ips(leaking).as_str());
                lines.push(plain_line(via));
            }
            proof {
                let expected = dns_lines(*info, leaking@);
                assert(spans_are(lines@[0], expected[0]));
                assert(spans_are(lines@[1], expected[1]));
                assert(spans_are(lines@[2], expected[2]));
                if info.leak_detected && info.leaking_servers@.len() > 0 {
                    assert(spans_are(lines@[3], expected[3]));
                }
            }
            Panel { title: "DNS", border: tone, body: PanelBody::Lines(lines) }
        },
    }
}

/// The help line: the two keys, or a notice while panic mode runs.
pub fn draw_help(panic_in_flight: bool) -> (line: Vec<TextSpan>)
    ensures
        panic_in_flight ==> spans_are(line, seq![(" triggering panic mode... "@, Emphasis::Badge(Tone::Red))]),
        !panic_in_flight ==> spans_are(
            line,
            seq![
                (" p "@, Emphasis::Badge(Tone::Red)),
                (" panic mode (force kill switch)    "@, Emphasis::Plain),
                (" q "@, Emphasis::Badge(Tone::Gray)),
                (" quit"@, Emphasis::Plain),
            ],
        ),
{
    let mut line: Vec<TextSpan> = Vec::new();
    if panic_in_flight {
        line.push(span(" triggering panic mode... ", Emphasis::Badge(Tone::Red)));
    } else {
        line.push(span(" p ", Emphasis::Badge(Tone::Red)));
        line.push(span(" panic mode (force kill switch)    ", Emphasis::Plain));
        line.push(span(" q ", Emphasis::Badge(Tone::Gray)));
        line.push(span(" quit", Emphasis::Plain));
    }
    line
}

/// The banner's color: red when it reports a failure, green otherwise.
pub fn banner_tone(message: &str) -> (t: Tone)
    ensures
        t == if has_infix(message@, "FAILED"@) { Tone::Red } else { Tone::Green },
{
    if contains(message, "FAILED") {
        Tone::Red
    } else {
        Tone::Green
    }
}

/// Where the banner pops up inside the screen area `(x, y, width,
/// height)`: 5 rows high, 4 columns narrower than the screen but between
/// 20 and 60 wide, centered.
pub open spec fn banner_width(width: u16) -> int {
    let w = if width >= 4 { width - 4 } else { 0 };
    if w < 20 { 20 } else if w > 60 { 60 } else { w }
}

pub open spec fn half_rest(total: u16, used: int) -> int {
    (if total >= used { total - used } else { 0 }) / 2
}

pub fn banner_area(x: u16, y: u16, width: u16, height: u16) -> (r: (u16, u16, u16, u16))
    requires
        x + half_rest(width, banner_width(width)) <= u16::MAX,
        y + half_rest(height, 5) <= u16::MAX,
    ensures
        r.0 == x + half_rest(width, banner_width(width)),
        r.1 == y + half_rest(height, 5),
        r.2 == banner_width(width),
        r.3 == 5,
{
    let narrower = width.saturating_sub(4);
    let w: u16 = if narrower < 20 {
        20
    } else if narrower > 60 {
        60
    } else {
        narrower
    };
    let h: u16 = 5;
    (x + width.saturating_sub(w) / 2, y + height.saturating_sub(h) / 2, w, h)
}

} // verus!
