//! Small display pieces: byte sizes, nickname colours, clock times, and the
//! lines a message is shown as.

use vstd::prelude::*;
use vstd::string::*;
use crate::text::{join_text, decimal, digit, digit_char, push_char, push_decimal, text_eq};
use crate::types::{Message, MessageContent, MessageStatus, Timestamp};
use crate::rounding::{div_round_half_even, float_of, float_value, round_half_even};

verus! {

/// A number of tenths shown with one decimal: `12` as `1.2`.
pub open spec fn one_decimal(t: nat) -> Seq<char> {
    decimal(t / 10) + seq!['.', digit_char(t % 10)]
}

/// 2^30, 2^20, 2^10.
pub open spec fn gib() -> nat {
    1073741824
}

pub open spec fn mib() -> nat {
    1048576
}

pub open spec fn kib() -> nat {
    1024
}

/// How a byte count is shown: in GB or MB with one decimal, in KB with
/// none, or in bytes.
pub open spec fn size_text(b: nat) -> Seq<char> {
    if b >= gib() {
        one_decimal(round_half_even(float_of(b) * 10, gib())) + seq![' ', 'G', 'B']
    } else if b >= mib() {
        one_decimal(round_half_even(b * 10, mib())) + seq![' ', 'M', 'B']
    } else if b >= kib() {
        decimal(round_half_even(b, kib())) + seq![' ', 'K', 'B']
    } else {
        decimal(b) + seq![' ', 'B']
    }
}

/// The text of a byte count (see `size_text`).
pub fn human_size(bytes: u64) -> (r: String)
    ensures
        r@ == size_text(bytes as nat),
{
    let mut s = String::new();
    if bytes >= 1073741824 {
        let f = float_value(bytes);
        let t = div_round_half_even(f * 10, 1073741824);
        assert((f * 10) / 1073741824 <= 343597383680) by (nonlinear_arith)
            requires
                f <= 36893488147419103232,
        {
        }
        assert(t <= 343597383681);
        let tt = t as u64;
        push_decimal(&mut s, tt / 10);
        push_char(&mut s, '.');
        push_char(&mut s, digit(tt % 10));
        push_char(&mut s, ' ');
        push_char(&mut s, 'G');
        push_char(&mut s, 'B');
    } else if bytes >= 1048576 {
        let t = div_round_half_even((bytes as u128) * 10, 1048576) as u64;
        push_decimal(&mut s, t / 10);
        push_char(&mut s, '.');
        push_char(&mut s, digit(t % 10));
        push_char(&mut s, ' ');
        push_char(&mut s, 'M');
        push_char(&mut s, 'B');
    } else if bytes >= 1024 {
        let t = div_round_half_even(bytes as u128, 1024) as u64;
        push_decimal(&mut s, t);
        push_char(&mut s, ' ');
        push_char(&mut s, 'K');
        push_char(&mut s, 'B');
    } else {
        push_decimal(&mut s, bytes);
        push_char(&mut s, ' ');
        push_char(&mut s, 'B');
    }
    assert(s@ =~= size_text(bytes as nat));
    s
}

/// A colour of the terminal: black, or given by red, green and blue levels.
#[derive(Clone, Copy, Debug, PartialEq, Eq, Structural)]
pub enum Color {
    Black,
    Rgb { r: u8, g: u8, b: u8 },
}

/// How a piece of text is drawn.
#[derive(Clone, Copy, Debug, PartialEq, Eq, Structural)]
pub struct Style {
    pub fg: Option<Color>,
    pub bg: Option<Color>,
    pub bold: bool,
    pub italic: bool,
}

/// A piece of text in one style.
#[derive(Debug)]
pub struct Span {
    pub text: String,
    pub style: Style,
}

/// A line of text, in pieces.
pub type Line = Vec<Span>;

/// The colour with levels `r`, `g`, `b`.
pub open spec fn rgb(r: u8, g: u8, b: u8) -> Color {
    Color::Rgb { r, g, b }
}

/// Text in colour `c`.
pub open spec fn fg(c: Color) -> Style {
    Style { fg: Some(c), bg: None, bold: false, italic: false }
}

/// Text in colour `c`, bold.
pub open spec fn fg_bold(c: Color) -> Style {
    Style { fg: Some(c), bg: None, bold: true, italic: false }
}

/// Text in colour `c`, italic.
pub open spec fn fg_italic(c: Color) -> Style {
    Style { fg: Some(c), bg: None, bold: false, italic: true }
}

/// Text with no style of its own.
pub open spec fn plain() -> Style {
    Style { fg: None, bg: None, bold: false, italic: false }
}

/// A piece with text `t` in style `st`.
fn span(t: String, st: Style) -> (r: Span)
    ensures
        r.text == t,
        r.style == st,
{
    Span { text: t, style: st }
}

/// The rolling hash of a nickname's bytes: each step multiplies by 31 and
/// adds the byte, modulo 2^32.
pub open spec fn nick_hash(b: Seq<u8>) -> nat
    decreases b.len(),
{
    if b.len() == 0 {
        0
    } else {
        ((nick_hash(b.drop_last()) * 31 + b.last()) % 4294967296) as nat
    }
}

/// The colours nicknames of other nodes are shown in.
pub open spec fn nick_palette(i: nat) -> Color {
    if i == 0 {
        rgb(80, 200, 255)
    } else if i == 1 {
        rgb(80, 255, 160)
    } else if i == 2 {
        rgb(255, 160, 80)
    } else if i == 3 {
        rgb(200, 80, 255)
    } else if i == 4 {
        rgb(255, 220, 80)
    } else if i == 5 {
        rgb(80, 255, 220)
    } else if i == 6 {
        rgb(255, 100, 160)
    } else {
        rgb(100, 255, 100)
    }
}

/// The colour of a nickname: picked from the palette by the hash of its
/// UTF-8 bytes.
pub fn nick_color(nick: &str) -> (c: Color)
    ensures
        c == nick_palette(nick_hash(nick.spec_bytes()) % 8),
{
    let b = nick.as_bytes();
    let mut h: u64 = 0;
    let mut i: usize = 0;
    while i < b.len()
        invariant
            b@ == nick.spec_bytes(),
            i <= b@.len(),
            h == nick_hash(b@.take(i as int)),
            h < 4294967296,
        decreases b@.len() - i,
    {
        assert(b@.take(i as int + 1).drop_last() =~= b@.take(i as int));
        h = (h * 31 + b[i] as u64) % 4294967296;
        i = i + 1;
    }
    assert(b@.take(b@.len() as int) =~= b@);
    let k = h % 8;
    if k == 0 {
        Color::Rgb { r: 80, g: 200, b: 255 }
    } else if k == 1 {
        Color::Rgb { r: 80, g: 255, b: 160 }
    } else if k == 2 {
        Color::Rgb { r: 255, g: 160, b: 80 }
    } else if k == 3 {
        Color::Rgb { r: 200, g: 80, b: 255 }
    } else if k == 4 {
        Color::Rgb { r: 255, g: 220, b: 80 }
    } else if k == 5 {
        Color::Rgb { r: 80, g: 255, b: 220 }
    } else if k == 6 {
        Color::Rgb { r: 255, g: 100, b: 160 }
    } else {
        Color::Rgb { r: 100, g: 255, b: 100 }
    }
}

/// Two digits for `n` (below 100), with a leading zero.
pub open spec fn two_digits(n: nat) -> Seq<char> {
    seq![digit_char(n / 10), digit_char(n % 10)]
}

/// The UTC time of day of `t` as hours and minutes, `HH:MM`.
pub open spec fn clock_text(t: Timestamp) -> Seq<char> {
    let day = (t.secs as int % 86400) as nat;
    two_digits(day / 3600) + seq![':'] + two_digits((day % 3600) / 60)
}

/// The UTC time of day of `t`, `HH:MM`.
pub fn clock(t: Timestamp) -> (r: String)
    ensures
        r@ == clock_text(t),
{
    let m = (t.secs as i128) % 86400;
    let day: u64 = if m < 0 {
        (m + 86400) as u64
    } else {
        m as u64
    };
    assert(day == (t.secs as int % 86400));
    let h = day / 3600;
    let mi = (day % 3600) / 60;
    let mut s = String::new();
    push_char(&mut s, digit(h / 10));
    push_char(&mut s, digit(h % 10));
    push_char(&mut s, ':');
    push_char(&mut s, digit(mi / 10));
    push_char(&mut s, digit(mi % 10));
    assert(s@ =~= clock_text(t));
    s
}

/// A line as text and style pairs.
pub open spec fn line_view(l: Line) -> Seq<(Seq<char>, Style)> {
    l@.map_values(|x: Span| (x.text@, x.style))
}

/// Lines as text and style pairs.
pub open spec fn lines_view(v: Vec<Line>) -> Seq<Seq<(Seq<char>, Style)>> {
    v@.map_values(|l: Line| line_view(l))
}

/// The delivery tick shown after an own message, by its status.
pub open spec fn tick(own: bool, st: MessageStatus) -> (Seq<char>, Style) {
    if !own {
        (Seq::empty(), plain())
    } else {
        match st {
            MessageStatus::Sending => (" ·"@, fg(rgb(100, 100, 130))),
            MessageStatus::Sent => (" ✓"@, fg(rgb(140, 140, 170))),
            MessageStatus::Delivered => (" ✓✓"@, fg(rgb(80, 200, 255))),
            MessageStatus::Read => (" ✓✓"@, fg(rgb(80, 255, 160))),
            MessageStatus::System => (Seq::empty(), plain()),
        }
    }
}

/// The lines a message is shown as, for the node `self_id`: its time, the
/// sender, the text or command or file offer, and the tick of own messages.
pub open spec fn message_view(m: Message, self_id: Seq<char>) -> Seq<Seq<(Seq<char>, Style)>> {
    let ts = clock_text(m.timestamp);
    let own = m.sender_id@ == self_id;
    let t = tick(own, m.status);
    let dim = fg(rgb(60, 60, 90));
    match m.content {
        MessageContent::System(text) => seq![
            seq![("  "@ + ts + " "@, dim), ("◈ "@ + text@, fg_italic(rgb(80, 80, 120)))],
        ],
        MessageContent::Chat(text) => {
            let nc = if own {
                rgb(80, 200, 255)
            } else {
                nick_palette(nick_hash(crate::text::utf8(m.sender_nick@)) % 8)
            };
            seq![
                seq![
                    ("  "@ + ts + " "@, dim),
                    (m.sender_nick@, fg_bold(nc)),
                    ("  "@, plain()),
                    (text@, fg(rgb(210, 210, 235))),
                    t,
                ],
            ]
        },
        MessageContent::Command(cmd) => seq![
            seq![
                ("  ╭─ cmd "@, fg_bold(rgb(255, 200, 60))),
                ("["@ + m.sender_nick@ + "]  "@, fg(rgb(120, 120, 160))),
                (ts, dim),
                t,
            ],
            seq![("  │  $ "@, fg(rgb(255, 200, 60))), (cmd@, fg_bold(rgb(220, 220, 160)))],
            seq![("  ╰─────"@, fg(rgb(255, 200, 60)))],
        ],
        MessageContent::FileOffer { name, size, .. } => seq![
            seq![
                ("  "@ + ts + " "@, dim),
                (m.sender_nick@, fg_bold(rgb(180, 80, 255))),
                (" ◈ file offer: "@ + name@ + " ("@ + size_text(size as nat) + ")"@, fg(rgb(180, 80, 255))),
                t,
            ],
        ],
    }
}

/// The tick after an own message tells its delivery apart: the same own
/// message (chat, command or file offer) shown as sending, as sent to some
/// peer, and as delivered to all, ends its first line with three different
/// pieces; in particular a message not yet sent never shows the sent tick.
pub proof fn law_ticks_tell_status_apart(m: Message, self_id: Seq<char>, s1: MessageStatus, s2: MessageStatus)
    requires
        m.sender_id@ == self_id,
        !(m.content is System),
        s1 is Sending || s1 is Sent || s1 is Delivered,
        s2 is Sending || s2 is Sent || s2 is Delivered,
        s1 != s2,
    ensures
        message_view(Message { status: s1, ..m }, self_id)[0].last() != message_view(Message { status: s2, ..m }, self_id)[0].last(),
{
    reveal_strlit(" ·");
    reveal_strlit(" ✓");
    reveal_strlit(" ✓✓");
    let v1 = message_view(Message { status: s1, ..m }, self_id)[0].last();
    let v2 = message_view(Message { status: s2, ..m }, self_id)[0].last();
    assert(v1 == tick(true, s1));
    assert(v2 == tick(true, s2));
    assert(" ·"@[1] != " ✓"@[1]);
    assert(" ✓"@.len() != " ✓✓"@.len());
    assert(" ·"@.len() != " ✓✓"@.len());
}

/// A style with foreground `(r, g, b)`, bold and italic as given.
fn style(r: u8, g: u8, b: u8, bold: bool, italic: bool) -> (st: Style)
    ensures
        st == (Style { fg: Some(rgb(r, g, b)), bg: None, bold, italic }),
{
    Style { fg: Some(Color::Rgb { r, g, b }), bg: None, bold, italic }
}

/// The tick piece after a message.
fn tick_span(own: bool, st: MessageStatus) -> (r: Span)
    ensures
        (r.text@, r.style) == tick(own, st),
{
    if !own {
        return Span { text: String::new(), style: Style { fg: None, bg: None, bold: false, italic: false } };
    }
    match st {
        MessageStatus::Sending => span(" ·".to_owned(), style(100, 100, 130, false, false)),
        MessageStatus::Sent => span(" ✓".to_owned(), style(140, 140, 170, false, false)),
        MessageStatus::Delivered => span(" ✓✓".to_owned(), style(80, 200, 255, false, false)),
        MessageStatus::Read => span(" ✓✓".to_owned(), style(80, 255, 160, false, false)),
        MessageStatus::System => Span { text: String::new(), style: Style { fg: None, bg: None, bold: false, italic: false } },
    }
}

/// The lines a message is shown as (see `message_view`).
pub fn message_lines(msg: &Message, self_id: &str) -> (r: Vec<Line>)
    ensures
        lines_view(r) == message_view(*msg, self_id@),
{
    let ts = clock(msg.timestamp);
    let own = text_eq(msg.sender_id.as_str(), self_id);
    let dim = style(60, 60, 90, false, false);
    let mut lines: Vec<Line> = Vec::new();
    match &msg.content {
        MessageContent::System(text) => {
            let mut l: Line = Vec::new();
            l.push(span(join_text(join_text("  ", ts.as_str()).as_str(), " "), dim));
            l.push(span(join_text("◈ ", text.as_str()), style(80, 80, 120, false, true)));
            lines.push(l);
        },
        MessageContent::Chat(text) => {
            let nc = if own {
                Color::Rgb { r: 80, g: 200, b: 255 }
            } else {
                nick_color(msg.sender_nick.as_str())
            };
            let mut l: Line = Vec::new();
            l.push(span(join_text(join_text("  ", ts.as_str()).as_str(), " "), dim));
            l.push(span(msg.sender_nick.clone(), Style { fg: Some(nc), bg: None, bold: true, italic: false }));
            l.push(span("  ".to_owned(), Style { fg: None, bg: None, bold: false, italic: false }));
            l.push(span(text.clone(), style(210, 210, 235, false, false)));
            l.push(tick_span(own, msg.status));
            lines.push(l);
        },
        MessageContent::Command(cmd) => {
            let mut l1: Line = Vec::new();
            l1.push(span("  ╭─ cmd ".to_owned(), style(255, 200, 60, true, false)));
            l1.push(span(join_text(join_text("[", msg.sender_nick.as_str()).as_str(), "]  "), style(120, 120, 160, false, false)));
            l1.push(span(ts, dim));
            l1.push(tick_span(own, msg.status));
            let mut l2: Line = Vec::new();
            l2.push(span("  │  $ ".to_owned(), style(255, 200, 60, false, false)));
            l2.push(span(cmd.clone(), style(220, 220, 160, true, false)));
            let mut l3: Line = Vec::new();
            l3.push(span("  ╰─────".to_owned(), style(255, 200, 60, false, false)));
            lines.push(l1);
            lines.push(l2);
            lines.push(l3);
        },
        MessageContent::FileOffer { name, size, .. } => {
            let hs = human_size(*size);
            let t = join_text(join_text(join_text(join_text(" ◈ file offer: ", name.as_str()).as_str(), " (").as_str(), hs.as_str()).as_str(), ")");
            let mut l: Line = Vec::new();
            l.push(span(join_text(join_text("  ", ts.as_str()).as_str(), " "), dim));
            l.push(span(msg.sender_nick.clone(), style(180, 80, 255, true, false)));
            l.push(span(t, style(180, 80, 255, false, false)));
            l.push(tick_span(own, msg.status));
            lines.push(l);
        },
    }
    assert(lines_view(lines) =~= message_view(*msg, self_id@)) by {
        assert forall|i: int| 0 <= i < lines@.len() implies line_view(#[trigger] lines@[i]) =~= message_view(*msg, self_id@)[i] by {
        }
    }
    lines
}

} // verus!
