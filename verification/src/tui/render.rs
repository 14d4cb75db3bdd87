//! What the screen shows: clickable regions, popup placement, and the
//! labels of the channel list, the feed and the transfer list.

use vstd::prelude::*;
use vstd::string::*;
use crate::state::{AppState, JoinRequest};
use crate::text::{join_text, decimal, push_char, push_decimal, u64_decimal};
use crate::tui::widgets::{Color, clock, clock_text, human_size, size_text, Line, Span, Style, fg, fg_bold, fg_italic, line_view, lines_view, message_lines, message_view, plain, rgb};
use crate::types::{same_kind, ChannelKind, FileTransfer, Message, MessageContent, TransferDirection, TransferStatus};
use crate::tui::app::App;
use crate::rounding::pct_of;

verus! {

/// A rectangle of terminal cells.
#[derive(Clone, Copy, Debug, PartialEq, Eq, Structural)]
pub struct Rect {
    pub x: u16,
    pub y: u16,
    pub width: u16,
    pub height: u16,
}

/// Calls `ratatui::layout::Rect::new`.  The crate's source keeps `x` and
/// `y`, and keeps `width` and `height` whenever their product is at most
/// `u16::MAX`; otherwise it shrinks them in floating point, which is not
/// stated.
#[verifier::external_body]
pub(crate) fn rect_new(x: u16, y: u16, width: u16, height: u16) -> (r: Rect)
    ensures
        r.x == x,
        r.y == y,
        width * height <= u16::MAX ==> r.width == width && r.height == height,
{
    let t = ratatui::layout::Rect::new(x, y, width, height);
    Rect { x: t.x, y: t.y, width: t.width, height: t.height }
}

/// Whether the cell at column `col`, row `row` lies in `r`.
pub open spec fn holds(r: Rect, col: u16, row: u16) -> bool {
    r.x <= col < r.x + r.width && r.y <= row < r.y + r.height
}

/// Whether the cell at column `col`, row `row` lies in `r`.
pub fn rect_holds(r: Rect, col: u16, row: u16) -> (b: bool)
    ensures
        b == holds(r, col, row),
{
    col >= r.x && (col as u32) < (r.x as u32) + (r.width as u32) && row >= r.y && (row as u32) < (r.y as u32)
        + (r.height as u32)
}

/// What a click on a region does.
#[derive(Debug)]
pub enum ClickAction {
    SelectChannel(usize),
    ScrollUp,
    ScrollDown,
    ClosePopup,
    AcceptFile,
    RejectFile,
    ApproveJoin { group: String, requester_id: String },
    DenyJoin { group: String, requester_id: String },
    OpenHelp,
}

impl Clone for ClickAction {
    fn clone(&self) -> (r: Self)
        ensures
            r == *self,
    {
        match self {
            ClickAction::SelectChannel(i) => ClickAction::SelectChannel(*i),
            ClickAction::ScrollUp => ClickAction::ScrollUp,
            ClickAction::ScrollDown => ClickAction::ScrollDown,
            ClickAction::ClosePopup => ClickAction::ClosePopup,
            ClickAction::AcceptFile => ClickAction::AcceptFile,
            ClickAction::RejectFile => ClickAction::RejectFile,
            ClickAction::ApproveJoin { group, requester_id } => ClickAction::ApproveJoin {
                group: group.clone(),
                requester_id: requester_id.clone(),
            },
            ClickAction::DenyJoin { group, requester_id } => ClickAction::DenyJoin {
                group: group.clone(),
                requester_id: requester_id.clone(),
            },
            ClickAction::OpenHelp => ClickAction::OpenHelp,
        }
    }
}

/// A clickable region of the last frame drawn.
#[derive(Debug)]
pub struct ClickRegion {
    pub rect: Rect,
    pub action: ClickAction,
}

/// Draws the screen.
#[derive(Debug)]
pub struct Renderer;

impl Renderer {
    /// A renderer.
    pub fn new() -> (r: Renderer) {
        Renderer
    }
}

/// What one frame shows of the state.
#[derive(Debug)]
pub struct RenderSnapshot {
    pub channel_names: Vec<String>,
    pub channel_unreads: Vec<usize>,
    pub channel_kinds: Vec<ChannelKind>,
    pub active_idx: usize,
    pub messages: Vec<Message>,
    pub peer_nicks: Vec<String>,
    pub transfers: Vec<FileTransfer>,
    pub is_gateway: bool,
    pub self_nick: String,
    pub self_id: String,
    pub pending_reqs: Vec<JoinRequest>,
}

/// The nicknames of the peers, in the order they are held.
fn peer_nicks(state: &AppState) -> (r: Vec<String>)
    ensures
        r@.len() == state.peer_seq().len(),
        forall|i: int| 0 <= i < r@.len() ==> #[trigger] r@[i] == state.peer_seq()[i].nickname,
{
    let ps = state.peers();
    let mut r: Vec<String> = Vec::new();
    let mut i: usize = 0;
    while i < ps.len()
        invariant
            ps@ == state.peer_seq(),
            i <= ps@.len(),
            r@.len() == i,
            forall|k: int| 0 <= k < i ==> #[trigger] r@[k] == ps@[k].nickname,
        decreases ps@.len() - i,
    {
        r.push(ps[i].nickname.clone());
        i = i + 1;
    }
    r
}

/// Takes what the next frame shows from the state.
pub fn build_snapshot(state: &AppState) -> (r: RenderSnapshot)
    requires
        state.wf(),
    ensures
        r.channel_names@.len() == state.channel_seq().len(),
        forall|i: int| 0 <= i < r.channel_names@.len() ==> #[trigger] r.channel_names@[i] == state.channel_seq()[i].name,
        r.channel_unreads@.len() == state.channel_seq().len(),
        forall|i: int| 0 <= i < r.channel_unreads@.len() ==> #[trigger] r.channel_unreads@[i] == state.channel_seq()[i].unread,
        r.channel_kinds@.len() == state.channel_seq().len(),
        forall|i: int| 0 <= i < r.channel_kinds@.len() ==> same_kind(#[trigger] r.channel_kinds@[i], state.channel_seq()[i].kind),
        r.active_idx == state.active(),
        r.messages@ == state.channel_seq()[state.active() as int].messages@,
        r.peer_nicks@.len() == state.peer_seq().len(),
        forall|i: int| 0 <= i < r.peer_nicks@.len() ==> #[trigger] r.peer_nicks@[i] == state.peer_seq()[i].nickname,
        r.transfers@ == state.transfer_seq(),
        r.is_gateway == state.gateway(),
        r.self_nick@ == state.nick_view(),
        r.self_id@ == state.id_view(),
        r.pending_reqs@ == state.request_seq(),
{
    RenderSnapshot {
        channel_names: state.channel_names(),
        channel_unreads: state.channel_unreads(),
        channel_kinds: state.channel_kinds(),
        active_idx: state.active_channel_index(),
        messages: state.active_messages(),
        peer_nicks: peer_nicks(state),
        transfers: state.transfers(),
        is_gateway: state.is_gateway(),
        self_nick: state.nickname().to_owned(),
        self_id: state.self_id().to_owned(),
        pending_reqs: state.pending_requests(),
    }
}

/// `a - b`, or 0 when `b` is larger.
pub open spec fn sat_sub(a: int, b: int) -> int {
    if a > b {
        a - b
    } else {
        0
    }
}

/// The smaller of `a` and `b`.
pub open spec fn min(a: int, b: int) -> int {
    if a < b {
        a
    } else {
        b
    }
}

/// A `w` by `h` popup centred in `area` (shrunk to fit).
pub fn center_rect(w: u16, h: u16, area: Rect) -> (r: Rect)
    requires
        area.x + area.width <= u16::MAX,
        area.y + area.height <= u16::MAX,
    ensures
        r.x == area.x + sat_sub(area.width as int, w as int) / 2,
        r.y == area.y + sat_sub(area.height as int, h as int) / 2,
        min(w as int, area.width as int) * min(h as int, area.height as int) <= u16::MAX ==> r.width == min(w as int, area.width as int)
            && r.height == min(h as int, area.height as int),
{
    let dx = area.width.saturating_sub(w) / 2;
    let dy = area.height.saturating_sub(h) / 2;
    let ww = if w < area.width { w } else { area.width };
    let hh = if h < area.height { h } else { area.height };
    rect_new(area.x + dx, area.y + dy, ww, hh)
}

/// Which lines of the feed are shown: the offset kept (the scroll, at
/// most the lines above the window) and the first line shown.
pub open spec fn feed_window(total: int, inner_h: int, scroll: int) -> (int, int) {
    let offset = min(scroll, sat_sub(total, inner_h));
    let start = if total > inner_h {
        sat_sub(total - inner_h, offset)
    } else {
        0
    };
    (offset, start)
}

/// The scroll offset kept and the first line shown, for `total` lines in a
/// window of `inner_h` lines scrolled up by `scroll`.
pub fn feed_scroll(total: usize, inner_h: usize, scroll: usize) -> (r: (usize, usize))
    ensures
        (r.0 as int, r.1 as int) == feed_window(total as int, inner_h as int, scroll as int),
        r.1 <= total,
{
    let max_offset = total.saturating_sub(inner_h);
    let offset = if scroll < max_offset { scroll } else { max_offset };
    let start = if total > inner_h {
        (total - inner_h).saturating_sub(offset)
    } else {
        0
    };
    (offset, start)
}

/// The blank line between two messages of the feed.
pub open spec fn blank_line() -> Seq<(Seq<char>, Style)> {
    seq![(Seq::<char>::empty(), plain())]
}

/// The lines of the feed for the messages `ms`, each message followed by
/// a blank line, before a last empty line is dropped.
pub open spec fn feed_body(ms: Seq<Message>, self_id: Seq<char>) -> Seq<Seq<(Seq<char>, Style)>>
    decreases ms.len(),
{
    if ms.len() == 0 {
        Seq::empty()
    } else {
        feed_body(ms.drop_last(), self_id) + message_view(ms.last(), self_id) + seq![blank_line()]
    }
}

/// The lines of the feed: `feed_body` without a last line that has no
/// pieces.
pub open spec fn feed_view(ms: Seq<Message>, self_id: Seq<char>) -> Seq<Seq<(Seq<char>, Style)>> {
    let b = feed_body(ms, self_id);
    if b.len() > 0 && b.last().len() == 0 {
        b.drop_last()
    } else {
        b
    }
}

/// The lines of the feed for `messages`, seen by `self_id`.
pub fn feed_lines(messages: &Vec<Message>, self_id: &str) -> (r: Vec<Line>)
    ensures
        lines_view(r) == feed_view(messages@, self_id@),
{
    let mut all: Vec<Line> = Vec::new();
    let mut i: usize = 0;
    while i < messages.len()
        invariant
            i <= messages@.len(),
            lines_view(all) == feed_body(messages@.take(i as int), self_id@),
        decreases messages@.len() - i,
    {
        assert(messages@.take(i as int + 1).drop_last() =~= messages@.take(i as int));
        let ghost before = lines_view(all);
        let mut ls = message_lines(&messages[i], self_id);
        let ghost added = lines_view(ls);
        all.append(&mut ls);
        let mut blank: Line = Vec::new();
        blank.push(Span { text: String::new(), style: Style { fg: None, bg: None, bold: false, italic: false } });
        assert(line_view(blank) =~= blank_line());
        all.push(blank);
        assert(lines_view(all) =~= before + added + seq![blank_line()]);
        i = i + 1;
    }
    assert(messages@.take(messages@.len() as int) =~= messages@);
    let n = all.len();
    if n > 0 && all[n - 1].len() == 0 {
        all.pop();
        assert(lines_view(all) =~= feed_body(messages@, self_id@).drop_last());
    }
    all
}

/// The clickable scroll arrows at the right of the feed's title row.
pub fn feed_regions(area: Rect) -> (r: Vec<ClickRegion>)
    requires
        area.x + area.width <= u16::MAX,
    ensures
        r@.len() == 2,
        r@[0].action == ClickAction::ScrollUp,
        r@[0].rect == (Rect { x: (area.x + sat_sub(area.width as int, 6)) as u16, y: area.y, width: 3, height: 1 }),
        r@[1].action == ClickAction::ScrollDown,
        r@[1].rect == (Rect { x: (area.x + sat_sub(area.width as int, 3)) as u16, y: area.y, width: 3, height: 1 }),
{
    let mut r: Vec<ClickRegion> = Vec::new();
    r.push(ClickRegion { rect: rect_new(area.x + area.width.saturating_sub(6), area.y, 3, 1), action: ClickAction::ScrollUp });
    r.push(ClickRegion { rect: rect_new(area.x + area.width.saturating_sub(3), area.y, 3, 1), action: ClickAction::ScrollDown });
    r
}

/// The label of channel `name` in the channel list and its style: the
/// shown channel highlighted, a channel with unread messages with their
/// count, a private group marked with a hexagon.
pub open spec fn channel_label(name: Seq<char>, active: bool, unread: nat, group: bool) -> (Seq<char>, Style) {
    let icon = if group {
        "⬡ "@
    } else if active {
        "▶ "@
    } else {
        "○ "@
    };
    if active {
        (" "@ + icon + name, Style { fg: Some(Color::Black), bg: Some(rgb(80, 180, 255)), bold: true, italic: false })
    } else if unread > 0 {
        (" "@ + icon + name + "  ("@ + decimal(unread) + ")"@, fg_bold(rgb(255, 200, 60)))
    } else {
        (" "@ + icon + name, fg(rgb(80, 80, 110)))
    }
}

/// The label of one channel of the list (see `channel_label`).
pub fn channel_entry(name: &str, active: bool, unread: usize, group: bool) -> (r: Span)
    ensures
        (r.text@, r.style) == channel_label(name@, active, unread as nat, group),
{
    let icon = if group {
        "⬡ "
    } else if active {
        "▶ "
    } else {
        "○ "
    };
    let base = join_text(join_text(" ", icon).as_str(), name);
    if active {
        Span { text: base, style: Style { fg: Some(Color::Black), bg: Some(Color::Rgb { r: 80, g: 180, b: 255 }), bold: true, italic: false } }
    } else if unread > 0 {
        let mut t = join_text(base.as_str(), "  (");
        push_decimal(&mut t, unread as u64);
        push_char(&mut t, ')');
        proof {
            reveal_strlit(")");
        }
        assert(t@ =~= base@ + "  ("@ + decimal(unread as nat) + ")"@);
        Span { text: t, style: Style { fg: Some(Color::Rgb { r: 255, g: 200, b: 60 }), bg: None, bold: true, italic: false } }
    } else {
        Span { text: base, style: Style { fg: Some(Color::Rgb { r: 80, g: 80, b: 110 }), bg: None, bold: false, italic: false } }
    }
}

/// The channel list of a frame: one label per channel, and one clickable
/// row per channel selecting it, from the row below the top border of
/// `area` on.
pub fn channel_list(snap: &RenderSnapshot, area: Rect) -> (r: (Vec<Span>, Vec<ClickRegion>))
    requires
        area.y + 1 + snap.channel_names@.len() <= u16::MAX,
    ensures
        r.0@.len() == snap.channel_names@.len(),
        r.1@.len() == snap.channel_names@.len(),
        forall|i: int| 0 <= i < r.0@.len() ==> {
            let unread = if i < snap.channel_unreads@.len() { snap.channel_unreads@[i] as nat } else { 0 };
            let group = i < snap.channel_kinds@.len() && snap.channel_kinds@[i] is Group;
            (#[trigger] r.0@[i].text@, r.0@[i].style) == channel_label(snap.channel_names@[i]@, i == snap.active_idx, unread, group)
        },
        forall|i: int| 0 <= i < r.1@.len() ==> {
            &&& (#[trigger] r.1@[i]).action == ClickAction::SelectChannel(i as usize)
            &&& r.1@[i].rect.x == area.x
            &&& r.1@[i].rect.y == area.y + 1 + i
            &&& r.1@[i].rect.width == area.width
            &&& r.1@[i].rect.height == 1
        },
{
    let mut labels: Vec<Span> = Vec::new();
    let mut regions: Vec<ClickRegion> = Vec::new();
    let n = snap.channel_names.len();
    let mut i: usize = 0;
    while i < n
        invariant
            n == snap.channel_names@.len(),
            area.y + 1 + n <= u16::MAX,
            i <= n,
            labels@.len() == i,
            regions@.len() == i,
            forall|k: int| 0 <= k < i ==> {
                let unread = if k < snap.channel_unreads@.len() { snap.channel_unreads@[k] as nat } else { 0 };
                let group = k < snap.channel_kinds@.len() && snap.channel_kinds@[k] is Group;
                (#[trigger] labels@[k].text@, labels@[k].style) == channel_label(snap.channel_names@[k]@, k == snap.active_idx, unread, group)
            },
            forall|k: int| 0 <= k < i ==> {
                &&& (#[trigger] regions@[k]).action == ClickAction::SelectChannel(k as usize)
                &&& regions@[k].rect.x == area.x
                &&& regions@[k].rect.y == area.y + 1 + k
                &&& regions@[k].rect.width == area.width
                &&& regions@[k].rect.height == 1
            },
        decreases n - i,
    {
        let unread = if i < snap.channel_unreads.len() { snap.channel_unreads[i] } else { 0 };
        let group = i < snap.channel_kinds.len() && match snap.channel_kinds[i] {
            ChannelKind::Group { .. } => true,
            ChannelKind::Open => false,
        };
        labels.push(channel_entry(snap.channel_names[i].as_str(), i == snap.active_idx, unread, group));
        let row = area.y + 1 + (i as u16);
        regions.push(ClickRegion { rect: rect_new(area.x, row, area.width, 1), action: ClickAction::SelectChannel(i) });
        i = i + 1;
    }
    (labels, regions)
}

/// Black text on the background `c`, bold.
pub open spec fn badge(c: Color) -> Style {
    Style { fg: Some(Color::Black), bg: Some(c), bold: true, italic: false }
}

/// `""` when `n` is 1, `"s"` otherwise.
pub open spec fn plural(n: nat) -> Seq<char> {
    if n == 1 {
        Seq::empty()
    } else {
        seq!['s']
    }
}

/// The pieces of the title bar.
pub open spec fn titlebar_view(peers: nat, gateway: bool, pending: nat, nick: Seq<char>) -> Seq<(Seq<char>, Style)> {
    seq![
        (" ◆ mshwisper "@, badge(rgb(80, 180, 255))),
        (" MESH:ONLINE "@, fg_bold(rgb(80, 255, 160))),
        (" "@ + decimal(peers) + " peer"@ + plural(peers) + " "@, fg(rgb(120, 120, 160))),
        if gateway {
            (" ◈ GATEWAY "@, badge(rgb(255, 200, 60)))
        } else {
            (Seq::<char>::empty(), plain())
        },
        if pending > 0 {
            (" ⚑ "@ + decimal(pending) + " join req"@ + plural(pending) + " "@, badge(rgb(255, 100, 100)))
        } else {
            (Seq::<char>::empty(), plain())
        },
        ("  "@ + nick + " "@, fg_italic(rgb(100, 100, 140))),
        (" [F1:help] "@, fg(rgb(60, 60, 100))),
    ]
}

/// Appends `""` or `"s"` for the count `n`.
fn push_plural(s: &mut String, n: usize)
    ensures
        final(s)@ == old(s)@ + plural(n as nat),
{
    if n != 1 {
        push_char(s, 's');
    }
    assert(final(s)@ =~= old(s)@ + plural(n as nat));
}

/// A piece with no text.
fn empty_span() -> (r: Span)
    ensures
        r.text@ == Seq::<char>::empty(),
        r.style == plain(),
{
    Span { text: String::new(), style: Style { fg: None, bg: None, bold: false, italic: false } }
}

/// The title bar of a frame and its clickable help region (the last eight
/// cells of the bar).
pub fn titlebar(snap: &RenderSnapshot, area: Rect) -> (r: (Line, ClickRegion))
    requires
        area.x + area.width <= u16::MAX,
    ensures
        line_view(r.0) == titlebar_view(snap.peer_nicks@.len(), snap.is_gateway, snap.pending_reqs@.len(), snap.self_nick@),
        r.1.action == ClickAction::OpenHelp,
        r.1.rect == (Rect { x: (area.x + sat_sub(area.width as int, 8)) as u16, y: area.y, width: 8, height: 1 }),
{
    let help = ClickRegion { rect: rect_new(area.x + area.width.saturating_sub(8), area.y, 8, 1), action: ClickAction::OpenHelp };
    let np = snap.peer_nicks.len();
    let mut peers = join_text(" ", u64_decimal(np as u64).as_str());
    peers.append(" peer");
    push_plural(&mut peers, np);
    peers.append(" ");
    let gw = if snap.is_gateway {
        Span { text: " ◈ GATEWAY ".to_owned(), style: Style { fg: Some(Color::Black), bg: Some(Color::Rgb { r: 255, g: 200, b: 60 }), bold: true, italic: false } }
    } else {
        empty_span()
    };
    let nr = snap.pending_reqs.len();
    let pend = if nr > 0 {
        let mut t = join_text(" ⚑ ", u64_decimal(nr as u64).as_str());
        t.append(" join req");
        push_plural(&mut t, nr);
        t.append(" ");
        Span { text: t, style: Style { fg: Some(Color::Black), bg: Some(Color::Rgb { r: 255, g: 100, b: 100 }), bold: true, italic: false } }
    } else {
        empty_span()
    };
    let mut line: Line = Vec::new();
    line.push(Span { text: " ◆ mshwisper ".to_owned(), style: Style { fg: Some(Color::Black), bg: Some(Color::Rgb { r: 80, g: 180, b: 255 }), bold: true, italic: false } });
    line.push(Span { text: " MESH:ONLINE ".to_owned(), style: Style { fg: Some(Color::Rgb { r: 80, g: 255, b: 160 }), bg: None, bold: true, italic: false } });
    line.push(Span { text: peers, style: Style { fg: Some(Color::Rgb { r: 120, g: 120, b: 160 }), bg: None, bold: false, italic: false } });
    line.push(gw);
    line.push(pend);
    line.push(Span { text: join_text(join_text("  ", snap.self_nick.as_str()).as_str(), " "), style: Style { fg: Some(Color::Rgb { r: 100, g: 100, b: 140 }), bg: None, bold: false, italic: true } });
    line.push(Span { text: " [F1:help] ".to_owned(), style: Style { fg: Some(Color::Rgb { r: 60, g: 60, b: 100 }), bg: None, bold: false, italic: false } });
    assert(line_view(line) =~= titlebar_view(snap.peer_nicks@.len(), snap.is_gateway, snap.pending_reqs@.len(), snap.self_nick@));
    (line, help)
}

/// The operator list: this node first, then each peer's nickname, or a
/// waiting notice when no peer is known.
pub open spec fn operators_view(nick: Seq<char>, peers: Seq<String>) -> Seq<Seq<(Seq<char>, Style)>> {
    let me = seq![(" ◆ "@, fg(rgb(80, 180, 255))), (nick + " (you)"@, fg_italic(rgb(80, 180, 255)))];
    if peers.len() == 0 {
        seq![me, seq![("   waiting…"@, fg_italic(rgb(60, 60, 90)))]]
    } else {
        seq![me] + peers.map_values(|p: String| seq![(" ● "@, fg(rgb(80, 255, 160))), (p@, fg(rgb(200, 200, 230)))])
    }
}

/// The operator list of a frame (see `operators_view`).
pub fn operators(snap: &RenderSnapshot) -> (r: Vec<Line>)
    ensures
        lines_view(r) == operators_view(snap.self_nick@, snap.peer_nicks@),
{
    let mut me: Line = Vec::new();
    me.push(Span { text: " ◆ ".to_owned(), style: Style { fg: Some(Color::Rgb { r: 80, g: 180, b: 255 }), bg: None, bold: false, italic: false } });
    me.push(Span { text: join_text(snap.self_nick.as_str(), " (you)"), style: Style { fg: Some(Color::Rgb { r: 80, g: 180, b: 255 }), bg: None, bold: false, italic: true } });
    let mut r: Vec<Line> = Vec::new();
    assert(line_view(me) =~= seq![(" ◆ "@, fg(rgb(80, 180, 255))), (snap.self_nick@ + " (you)"@, fg_italic(rgb(80, 180, 255)))]);
    r.push(me);
    if snap.peer_nicks.len() == 0 {
        let mut w: Line = Vec::new();
        w.push(Span { text: "   waiting…".to_owned(), style: Style { fg: Some(Color::Rgb { r: 60, g: 60, b: 90 }), bg: None, bold: false, italic: true } });
        assert(line_view(w) =~= seq![("   waiting…"@, fg_italic(rgb(60, 60, 90)))]);
        assert(line_view(r@[0]) =~= seq![(" ◆ "@, fg(rgb(80, 180, 255))), (snap.self_nick@ + " (you)"@, fg_italic(rgb(80, 180, 255)))]);
        r.push(w);
        assert(lines_view(r) =~= operators_view(snap.self_nick@, snap.peer_nicks@));
        return r;
    }
    let mut i: usize = 0;
    while i < snap.peer_nicks.len()
        invariant
            i <= snap.peer_nicks@.len(),
            snap.peer_nicks@.len() > 0,
            r@.len() == i + 1,
            line_view(r@[0]) == seq![(" ◆ "@, fg(rgb(80, 180, 255))), (snap.self_nick@ + " (you)"@, fg_italic(rgb(80, 180, 255)))],
            forall|k: int| 0 <= k < i ==> line_view(#[trigger] r@[k + 1]) == seq![(" ● "@, fg(rgb(80, 255, 160))), (snap.peer_nicks@[k]@, fg(rgb(200, 200, 230)))],
        decreases snap.peer_nicks@.len() - i,
    {
        let mut l: Line = Vec::new();
        l.push(Span { text: " ● ".to_owned(), style: Style { fg: Some(Color::Rgb { r: 80, g: 255, b: 160 }), bg: None, bold: false, italic: false } });
        l.push(Span { text: snap.peer_nicks[i].clone(), style: Style { fg: Some(Color::Rgb { r: 200, g: 200, b: 230 }), bg: None, bold: false, italic: false } });
        assert(line_view(l) =~= seq![(" ● "@, fg(rgb(80, 255, 160))), (snap.peer_nicks@[i as int]@, fg(rgb(200, 200, 230)))]);
        r.push(l);
        i = i + 1;
    }
    assert(lines_view(r) =~= operators_view(snap.self_nick@, snap.peer_nicks@)) by {
        assert forall|k: int| 0 <= k < lines_view(r).len() implies lines_view(r)[k] =~= operators_view(snap.self_nick@, snap.peer_nicks@)[k] by {
            if k > 0 {
                assert(line_view(r@[(k - 1) + 1]) == seq![(" ● "@, fg(rgb(80, 255, 160))), (snap.peer_nicks@[k - 1]@, fg(rgb(200, 200, 230)))]);
            }
        }
    }
    r
}

/// The shared command lines among `ms`, in order.
pub open spec fn command_list(ms: Seq<Message>) -> Seq<Message>
    decreases ms.len(),
{
    if ms.len() == 0 {
        Seq::empty()
    } else {
        let r = command_list(ms.drop_last());
        if ms.last().content is Command {
            r.push(ms.last())
        } else {
            r
        }
    }
}

/// The two lines of the arsenal panel for a command line: its time and
/// sender, then the command.
pub open spec fn arsenal_pair(m: Message) -> Seq<Seq<(Seq<char>, Style)>> {
    let cmd = match m.content {
        MessageContent::Command(c) => c@,
        _ => Seq::empty(),
    };
    seq![
        seq![("  "@ + clock_text(m.timestamp) + " "@, fg(rgb(80, 80, 110))), (m.sender_nick@, fg(rgb(120, 160, 255)))],
        seq![("  $ "@, fg_bold(rgb(255, 200, 60))), (cmd, fg_bold(rgb(220, 220, 180)))],
    ]
}

/// The arsenal lines of the command lines `s`, in order.
pub open spec fn arsenal_entries(s: Seq<Message>) -> Seq<Seq<(Seq<char>, Style)>>
    decreases s.len(),
{
    if s.len() == 0 {
        Seq::empty()
    } else {
        arsenal_entries(s.drop_last()) + arsenal_pair(s.last())
    }
}

/// The arsenal panel: the last ten shared command lines of the feed, newest
/// first, or a notice when there is none.
pub open spec fn arsenal_view(ms: Seq<Message>) -> Seq<Seq<(Seq<char>, Style)>> {
    let c = command_list(ms);
    if c.len() == 0 {
        seq![seq![("  no commands yet"@, fg_italic(rgb(60, 60, 90)))]]
    } else {
        arsenal_entries(c.reverse().take(min(10, c.len() as int)))
    }
}

/// The arsenal panel of a frame (see `arsenal_view`).
pub fn arsenal(messages: &Vec<Message>) -> (r: Vec<Line>)
    ensures
        lines_view(r) == arsenal_view(messages@),
{
    let mut cmds: Vec<Message> = Vec::new();
    let mut i: usize = 0;
    while i < messages.len()
        invariant
            i <= messages@.len(),
            cmds@ == command_list(messages@.take(i as int)),
        decreases messages@.len() - i,
    {
        assert(messages@.take(i as int + 1).drop_last() =~= messages@.take(i as int));
        let is_cmd = match &messages[i].content {
            MessageContent::Command(_) => true,
            _ => false,
        };
        if is_cmd {
            cmds.push(messages[i].clone());
        }
        i = i + 1;
    }
    assert(messages@.take(messages@.len() as int) =~= messages@);
    let mut r: Vec<Line> = Vec::new();
    let n = cmds.len();
    if n == 0 {
        let mut l: Line = Vec::new();
        l.push(Span { text: "  no commands yet".to_owned(), style: Style { fg: Some(Color::Rgb { r: 60, g: 60, b: 90 }), bg: None, bold: false, italic: true } });
        assert(line_view(l) =~= seq![("  no commands yet"@, fg_italic(rgb(60, 60, 90)))]);
        r.push(l);
        assert(lines_view(r) =~= arsenal_view(messages@));
        return r;
    }
    let k = if n < 10 { n } else { 10 };
    let mut j: usize = 0;
    while j < k
        invariant
            n == cmds@.len(),
            n > 0,
            k == min(10, n as int),
            j <= k,
            lines_view(r) == arsenal_entries(cmds@.reverse().take(j as int)),
        decreases k - j,
    {
        let m = &cmds[n - 1 - j];
        assert(cmds@.reverse().take(j as int + 1).drop_last() =~= cmds@.reverse().take(j as int));
        assert(cmds@.reverse().take(j as int + 1).last() == cmds@[n - 1 - j]);
        let cmd_text = match &m.content {
            MessageContent::Command(c) => c.clone(),
            _ => String::new(),
        };
        let mut l1: Line = Vec::new();
        l1.push(Span { text: join_text(join_text("  ", clock(m.timestamp).as_str()).as_str(), " "), style: Style { fg: Some(Color::Rgb { r: 80, g: 80, b: 110 }), bg: None, bold: false, italic: false } });
        l1.push(Span { text: m.sender_nick.clone(), style: Style { fg: Some(Color::Rgb { r: 120, g: 160, b: 255 }), bg: None, bold: false, italic: false } });
        let mut l2: Line = Vec::new();
        l2.push(Span { text: "  $ ".to_owned(), style: Style { fg: Some(Color::Rgb { r: 255, g: 200, b: 60 }), bg: None, bold: true, italic: false } });
        l2.push(Span { text: cmd_text, style: Style { fg: Some(Color::Rgb { r: 220, g: 220, b: 180 }), bg: None, bold: true, italic: false } });
        assert(line_view(l1) =~= arsenal_pair(cmds@[n - 1 - j])[0]);
        assert(line_view(l2) =~= arsenal_pair(cmds@[n - 1 - j])[1]);
        let ghost before = lines_view(r);
        r.push(l1);
        r.push(l2);
        assert(lines_view(r) =~= before + arsenal_pair(cmds@[n - 1 - j]));
        j = j + 1;
    }
    r
}

/// The colour and status word of a transfer.
pub open spec fn transfer_status_look(st: TransferStatus) -> (Color, Seq<char>) {
    match st {
        TransferStatus::Active => (rgb(80, 200, 255), "active"@),
        TransferStatus::Complete => (rgb(80, 255, 160), "done ✓"@),
        TransferStatus::Failed(_) => (rgb(255, 80, 80), "failed"@),
        TransferStatus::Pending => (rgb(255, 200, 60), "pending"@),
    }
}

/// `n` copies of `c`.
pub open spec fn repeat(c: char, n: nat) -> Seq<char> {
    Seq::new(n, |i: int| c)
}

/// The progress bar of a transfer `pct` percent done: ten cells, the done
/// part full.
pub open spec fn bar_text(pct: nat) -> Seq<char> {
    let filled = min(10 * pct as int / 100, 10) as nat;
    repeat('█', filled) + repeat('░', (10 - filled) as nat)
}

/// `s` padded with spaces on the right to `w` characters.
pub open spec fn pad_right(s: Seq<char>, w: nat) -> Seq<char> {
    s + repeat(' ', sat_sub(w as int, s.len() as int) as nat)
}

/// `s` padded with spaces on the left to `w` characters.
pub open spec fn pad_left(s: Seq<char>, w: nat) -> Seq<char> {
    repeat(' ', sat_sub(w as int, s.len() as int) as nat) + s
}

/// The line of the transfer list for `t`, `pct` percent done: direction,
/// name (at most 14 characters, padded), then the bar, the percentage and
/// the status word.
pub open spec fn transfer_view(t: FileTransfer, pct: nat) -> Seq<(Seq<char>, Style)> {
    let (color, word) = transfer_status_look(t.status);
    let dir = if t.direction == TransferDirection::Sending { "▲"@ } else { "▼"@ };
    let name = t.filename@.take(min(14, t.filename@.len() as int));
    seq![
        ("  "@ + dir + " "@ + pad_right(name, 14) + " "@, fg_bold(color)),
        ("\n"@, plain()),
        ("    "@ + bar_text(pct) + " "@ + pad_left(decimal(pct), 3) + "% "@ + word, fg(color)),
    ]
}

/// Appends `n` copies of `c`.
fn push_repeat(s: &mut String, c: char, n: usize)
    ensures
        final(s)@ == old(s)@ + repeat(c, n as nat),
{
    let mut i: usize = 0;
    while i < n
        invariant
            i <= n,
            s@ == old(s)@ + repeat(c, i as nat),
        decreases n - i,
    {
        push_char(s, c);
        assert(s@ =~= old(s)@ + repeat(c, (i + 1) as nat));
        i = i + 1;
    }
}

/// The line of the transfer list for `t`, with its progress in percent
/// (see `transfer_view` and `pct_of`).
#[verifier::rlimit(60)]
#[verifier::spinoff_prover]
pub fn transfer_line(t: &FileTransfer) -> (r: Line)
    ensures
        line_view(r) == transfer_view(*t, pct_of(t.transferred as nat, t.size as nat)),
{
    let pct = t.progress_pct();
    let (color, word) = match &t.status {
        TransferStatus::Active => (Color::Rgb { r: 80, g: 200, b: 255 }, "active"),
        TransferStatus::Complete => (Color::Rgb { r: 80, g: 255, b: 160 }, "done ✓"),
        TransferStatus::Failed(_) => (Color::Rgb { r: 255, g: 80, b: 80 }, "failed"),
        TransferStatus::Pending => (Color::Rgb { r: 255, g: 200, b: 60 }, "pending"),
    };
    let dir = match t.direction {
        TransferDirection::Sending => "▲",
        TransferDirection::Receiving => "▼",
    };
    let total = t.filename.as_str().unicode_len();
    let keep = if total < 14 { total } else { 14 };
    let name = t.filename.as_str().substring_char(0, keep);
    let mut head = join_text(join_text(join_text("  ", dir).as_str(), " ").as_str(), name);
    push_repeat(&mut head, ' ', 14 - keep);
    head.append(" ");
    let filled: usize = if 10 * (pct as usize) / 100 < 10 { 10 * (pct as usize) / 100 } else { 10 };
    let mut tail = "    ".to_owned();
    push_repeat(&mut tail, '█', filled);
    push_repeat(&mut tail, '░', 10 - filled);
    tail.append(" ");
    let digits = u64_decimal(pct as u64);
    let dn = digits.as_str().unicode_len();
    push_repeat(&mut tail, ' ', if dn < 3 { 3 - dn } else { 0 });
    tail.append(digits.as_str());
    tail.append("% ");
    tail.append(word);
    let ghost look = transfer_status_look(t.status);
    assert(color == look.0 && word@ == look.1);
    let ghost dirs = if t.direction == TransferDirection::Sending { "▲"@ } else { "▼"@ };
    assert(dir@ == dirs);
    let ghost nm = t.filename@.take(min(14, t.filename@.len() as int));
    assert(name@ =~= nm);
    assert(head@ =~= "  "@ + dirs + " "@ + pad_right(nm, 14) + " "@);
    assert(filled as int == min(10 * pct as int / 100, 10));
    assert(tail@ =~= "    "@ + bar_text(pct as nat) + " "@ + pad_left(decimal(pct as nat), 3) + "% "@ + look.1);
    let mut l: Line = Vec::new();
    l.push(Span { text: head, style: Style { fg: Some(color), bg: None, bold: true, italic: false } });
    l.push(Span { text: "\n".to_owned(), style: Style { fg: None, bg: None, bold: false, italic: false } });
    l.push(Span { text: tail, style: Style { fg: Some(color), bg: None, bold: false, italic: false } });
    assert(line_view(l) =~= transfer_view(*t, pct as nat));
    l
}

/// The status line: the status message (red for an error, green
/// otherwise), or the key reminder.
pub open spec fn status_view(msg: Option<String>, err: bool) -> (Seq<char>, Style) {
    match msg {
        Some(m) => (" "@ + m@ + " "@, Style {
            fg: Some(if err { rgb(255, 80, 80) } else { rgb(80, 255, 160) }),
            bg: Some(rgb(8, 8, 14)),
            bold: false,
            italic: false,
        }),
        None => (" F1:help  PgUp/Dn:channel  ↑↓:scroll  /join /cmd /group /gateway  Ctrl+X:KILL"@, Style {
            fg: Some(rgb(60, 60, 90)),
            bg: Some(rgb(8, 8, 14)),
            bold: false,
            italic: false,
        }),
    }
}

/// The status line of a frame (see `status_view`).
pub fn status_line(app: &App) -> (r: Span)
    ensures
        (r.text@, r.style) == status_view(app.status_msg, app.status_error),
{
    match &app.status_msg {
        Some(m) => {
            let c = if app.status_error { Color::Rgb { r: 255, g: 80, b: 80 } } else { Color::Rgb { r: 80, g: 255, b: 160 } };
            Span { text: join_text(join_text(" ", m.as_str()).as_str(), " "), style: Style { fg: Some(c), bg: Some(Color::Rgb { r: 8, g: 8, b: 14 }), bold: false, italic: false } }
        },
        None => Span {
            text: " F1:help  PgUp/Dn:channel  ↑↓:scroll  /join /cmd /group /gateway  Ctrl+X:KILL".to_owned(),
            style: Style { fg: Some(Color::Rgb { r: 60, g: 60, b: 90 }), bg: Some(Color::Rgb { r: 8, g: 8, b: 14 }), bold: false, italic: false },
        },
    }
}

/// The input line: a hint when nothing is typed; otherwise the history
/// position when browsing, the text before the cursor, the character at the
/// cursor (a space at the end) highlighted, and the rest; a command line in
/// bold yellow.
pub open spec fn input_view(a: App) -> Seq<(Seq<char>, Style)> {
    if a.input_buf@.len() == 0 {
        seq![("  Type a message, or /join  /cmd  /group  /gateway  /help  /quit"@, fg(rgb(45, 45, 70)))]
    } else {
        let b = crate::text::utf8(a.input_buf@);
        let before = vstd::utf8::decode_utf8(b.take(a.cursor_pos as int));
        let after = vstd::utf8::decode_utf8(b.skip(a.cursor_pos as int));
        let cur = if after.len() > 0 { seq![after[0]] } else { seq![' '] };
        let rest = if after.len() > 0 { after.drop_first() } else { Seq::<char>::empty() };
        let ts = if a.input_buf@[0] == '/' { fg_bold(rgb(255, 200, 60)) } else { fg(rgb(220, 220, 255)) };
        let hist = match a.history_idx {
            Some(i) => seq![(" [↑"@ + decimal((i + 1) as nat) + "/"@ + decimal(a.history@.len()) + "] "@, fg(rgb(255, 200, 60)))],
            None => Seq::empty(),
        };
        hist + seq![
            (before, ts),
            (cur, Style { fg: Some(Color::Black), bg: Some(rgb(80, 180, 255)), bold: false, italic: false }),
            (rest, ts),
        ]
    }
}

/// The input line of a frame (see `input_view`).
pub fn input_line(app: &App) -> (r: Line)
    requires
        app.editor_ok(),
    ensures
        line_view(r) == input_view(*app),
{
    let mut l: Line = Vec::new();
    let n = app.input_buf.as_str().unicode_len();
    if n == 0 {
        l.push(Span {
            text: "  Type a message, or /join  /cmd  /group  /gateway  /help  /quit".to_owned(),
            style: Style { fg: Some(Color::Rgb { r: 45, g: 45, b: 70 }), bg: None, bold: false, italic: false },
        });
        assert(line_view(l) =~= input_view(*app));
        return l;
    }
    let (before, after) = crate::text::split_text(app.input_buf.as_str(), app.cursor_pos);
    proof {
        vstd::utf8::encode_utf8_decode_utf8(before@);
        vstd::utf8::encode_utf8_decode_utf8(after@);
    }
    let m = after.as_str().unicode_len();
    let (cur, rest) = if m > 0 {
        let mut c = String::new();
        push_char(&mut c, after.as_str().get_char(0));
        (c, after.as_str().substring_char(1, m).to_owned())
    } else {
        let mut c = String::new();
        push_char(&mut c, ' ');
        (c, String::new())
    };
    let ts = if app.input_buf.as_str().get_char(0) == '/' {
        Style { fg: Some(Color::Rgb { r: 255, g: 200, b: 60 }), bg: None, bold: true, italic: false }
    } else {
        Style { fg: Some(Color::Rgb { r: 220, g: 220, b: 255 }), bg: None, bold: false, italic: false }
    };
    match app.history_idx {
        Some(i) => {
            let hl = app.history.len();
            assert(i < hl);
            let mut t = " [↑".to_owned();
            push_decimal(&mut t, (i + 1) as u64);
            push_char(&mut t, '/');
            push_decimal(&mut t, app.history.len() as u64);
            t.append("] ");
            proof {
                reveal_strlit("/");
            }
            assert(t@ =~= " [↑"@ + decimal((i + 1) as nat) + "/"@ + decimal(app.history@.len()) + "] "@);
            l.push(Span { text: t, style: Style { fg: Some(Color::Rgb { r: 255, g: 200, b: 60 }), bg: None, bold: false, italic: false } });
        },
        None => {},
    }
    l.push(Span { text: before, style: ts });
    l.push(Span { text: cur, style: Style { fg: Some(Color::Black), bg: Some(Color::Rgb { r: 80, g: 180, b: 255 }), bold: false, italic: false } });
    l.push(Span { text: rest, style: ts });
    assert(line_view(l) =~= input_view(*app));
    l
}

/// A line of one plain piece.
fn plain_line(t: String) -> (r: Line)
    ensures
        line_view(r) == seq![(t@, plain())],
{
    let mut l: Line = Vec::new();
    l.push(Span { text: t, style: Style { fg: None, bg: None, bold: false, italic: false } });
    assert(line_view(l) =~= seq![(t@, plain())]);
    l
}

/// The lines of the incoming-file popup.
pub open spec fn file_popup_view(fname: Seq<char>, bytes: nat, from: Seq<char>) -> Seq<Seq<(Seq<char>, Style)>> {
    seq![
        seq![(Seq::<char>::empty(), plain())],
        seq![("  "@, plain()), (from, fg_bold(rgb(80, 180, 255))), (" wants to send:"@, plain())],
        seq![("  "@ + fname + " "@, fg_bold(rgb(220, 220, 255))), ("("@ + size_text(bytes) + ")"@, fg(rgb(120, 120, 160)))],
        seq![(Seq::<char>::empty(), plain())],
        seq![
            ("  "@, plain()),
            (" [Y] Accept "@, badge(rgb(80, 255, 160))),
            ("   "@, plain()),
            (" [N] Reject "@, badge(rgb(255, 80, 80))),
        ],
        seq![("  (click or press Y / N)"@, fg_italic(rgb(60, 60, 90)))],
    ]
}

/// The incoming-file popup, centred in `size`: its area, its lines, and
/// its Accept and Reject buttons (row 6 of the popup, columns 2 and 18).
pub fn file_popup(size: Rect, fname: &str, bytes: u64, from: &str) -> (r: (Rect, Vec<Line>, Vec<ClickRegion>))
    requires
        size.x + size.width + 18 <= u16::MAX,
        size.y + size.height + 6 <= u16::MAX,
    ensures
        r.0.x == size.x + sat_sub(size.width as int, min(56, size.width as int)) / 2,
        r.0.y == size.y + sat_sub(size.height as int, min(9, size.height as int)) / 2,
        r.0.width == min(56, size.width as int),
        r.0.height == min(9, size.height as int),
        lines_view(r.1) == file_popup_view(fname@, bytes as nat, from@),
        r.2@.len() == 2,
        r.2@[0] == (ClickRegion { rect: Rect { x: (r.0.x + 2) as u16, y: (r.0.y + 6) as u16, width: 12, height: 1 }, action: ClickAction::AcceptFile }),
        r.2@[1] == (ClickRegion { rect: Rect { x: (r.0.x + 18) as u16, y: (r.0.y + 6) as u16, width: 12, height: 1 }, action: ClickAction::RejectFile }),
{
    let pw: u16 = if 56 < size.width { 56 } else { size.width };
    let ph: u16 = if 9 < size.height { 9 } else { size.height };
    assert(min(pw as int, size.width as int) * min(ph as int, size.height as int) <= 504) by (nonlinear_arith)
        requires
            pw <= 56,
            ph <= 9,
            min(pw as int, size.width as int) <= pw,
            min(ph as int, size.height as int) <= ph,
            min(pw as int, size.width as int) >= 0,
            min(ph as int, size.height as int) >= 0,
    ;
    let popup = center_rect(pw, ph, size);
    let btn_y = popup.y + 6;
    let mut regions: Vec<ClickRegion> = Vec::new();
    regions.push(ClickRegion { rect: rect_new(popup.x + 2, btn_y, 12, 1), action: ClickAction::AcceptFile });
    regions.push(ClickRegion { rect: rect_new(popup.x + 18, btn_y, 12, 1), action: ClickAction::RejectFile });
    let sz = human_size(bytes);
    let mut lines: Vec<Line> = Vec::new();
    lines.push(plain_line(String::new()));
    let mut l1: Line = Vec::new();
    l1.push(Span { text: "  ".to_owned(), style: Style { fg: None, bg: None, bold: false, italic: false } });
    l1.push(Span { text: from.to_owned(), style: Style { fg: Some(Color::Rgb { r: 80, g: 180, b: 255 }), bg: None, bold: true, italic: false } });
    l1.push(Span { text: " wants to send:".to_owned(), style: Style { fg: None, bg: None, bold: false, italic: false } });
    let mut l2: Line = Vec::new();
    l2.push(Span { text: join_text(join_text("  ", fname).as_str(), " "), style: Style { fg: Some(Color::Rgb { r: 220, g: 220, b: 255 }), bg: None, bold: true, italic: false } });
    l2.push(Span { text: join_text(join_text("(", sz.as_str()).as_str(), ")"), style: Style { fg: Some(Color::Rgb { r: 120, g: 120, b: 160 }), bg: None, bold: false, italic: false } });
    let mut l4: Line = Vec::new();
    l4.push(Span { text: "  ".to_owned(), style: Style { fg: None, bg: None, bold: false, italic: false } });
    l4.push(Span { text: " [Y] Accept ".to_owned(), style: Style { fg: Some(Color::Black), bg: Some(Color::Rgb { r: 80, g: 255, b: 160 }), bold: true, italic: false } });
    l4.push(Span { text: "   ".to_owned(), style: Style { fg: None, bg: None, bold: false, italic: false } });
    l4.push(Span { text: " [N] Reject ".to_owned(), style: Style { fg: Some(Color::Black), bg: Some(Color::Rgb { r: 255, g: 80, b: 80 }), bold: true, italic: false } });
    let mut l5: Line = Vec::new();
    l5.push(Span { text: "  (click or press Y / N)".to_owned(), style: Style { fg: Some(Color::Rgb { r: 60, g: 60, b: 90 }), bg: None, bold: false, italic: true } });
    assert(line_view(l1) =~= file_popup_view(fname@, bytes as nat, from@)[1]);
    assert(line_view(l2) =~= file_popup_view(fname@, bytes as nat, from@)[2]);
    assert(line_view(l4) =~= file_popup_view(fname@, bytes as nat, from@)[4]);
    assert(line_view(l5) =~= file_popup_view(fname@, bytes as nat, from@)[5]);
    lines.push(l1);
    lines.push(l2);
    lines.push(plain_line(String::new()));
    lines.push(l4);
    lines.push(l5);
    assert(lines_view(lines) =~= file_popup_view(fname@, bytes as nat, from@));
    (popup, lines, regions)
}

/// The two lines of the join-request popup for one request.
pub open spec fn request_lines(q: JoinRequest) -> Seq<Seq<(Seq<char>, Style)>> {
    seq![
        seq![("  "@ + q.2@ + " "@, fg_bold(rgb(220, 220, 255))), ("→ "@ + q.0@, fg(rgb(120, 120, 160)))],
        seq![
            ("  "@, plain()),
            (" [A] Approve "@, badge(rgb(80, 255, 160))),
            ("  "@, plain()),
            (" [D] Deny "@, badge(rgb(255, 80, 80))),
        ],
    ]
}

/// The lines of the join-request popup for the requests `qs`, in order.
pub open spec fn requests_body(qs: Seq<JoinRequest>) -> Seq<Seq<(Seq<char>, Style)>>
    decreases qs.len(),
{
    if qs.len() == 0 {
        Seq::empty()
    } else {
        requests_body(qs.drop_last()) + request_lines(qs.last())
    }
}

/// The join-request popup, centred in `size`: its area, its lines (a blank
/// line, two lines per request, a blank line), and for request `i` its
/// Approve and Deny buttons on row `1 + 2 i` of the popup.
pub fn join_popup(size: Rect, reqs: &Vec<JoinRequest>) -> (r: (Rect, Vec<Line>, Vec<ClickRegion>))
    requires
        size.x + size.width + 16 <= u16::MAX,
        size.y + size.height + 1 + 2 * reqs@.len() <= u16::MAX,
        6 + 2 * reqs@.len() <= u16::MAX,
    ensures
        r.0.x == size.x + sat_sub(size.width as int, min(58, size.width as int)) / 2,
        r.0.y == size.y + sat_sub(size.height as int, min(6 + 2 * reqs@.len() as int, size.height as int)) / 2,
        lines_view(r.1) == seq![seq![(Seq::<char>::empty(), plain())]] + requests_body(reqs@) + seq![seq![(Seq::<char>::empty(), plain())]],
        r.2@.len() == 2 * reqs@.len(),
        forall|i: int| 0 <= i < reqs@.len() ==> {
            &&& (#[trigger] r.2@[2 * i]).rect == (Rect { x: (r.0.x + 2) as u16, y: (r.0.y + 1 + 2 * i) as u16, width: 11, height: 1 })
            &&& r.2@[2 * i].action == ClickAction::ApproveJoin { group: reqs@[i].0, requester_id: reqs@[i].1 }
            &&& r.2@[2 * i + 1].rect == (Rect { x: (r.0.x + 16) as u16, y: (r.0.y + 1 + 2 * i) as u16, width: 9, height: 1 })
            &&& r.2@[2 * i + 1].action == ClickAction::DenyJoin { group: reqs@[i].0, requester_id: reqs@[i].1 }
        },
{
    let n = reqs.len();
    let pw: u16 = if 58 < size.width { 58 } else { size.width };
    let want: u16 = 4 + (n as u16) * 2 + 2;
    let ph: u16 = if want < size.height { want } else { size.height };
    let popup = center_rect(pw, ph, size);
    let mut lines: Vec<Line> = Vec::new();
    lines.push(plain_line(String::new()));
    let mut regions: Vec<ClickRegion> = Vec::new();
    let mut i: usize = 0;
    while i < n
        invariant
            n == reqs@.len(),
            size.y + size.height + 1 + 2 * n <= u16::MAX,
            popup.y <= size.y + size.height,
            popup.x <= size.x + size.width,
            size.x + size.width + 16 <= u16::MAX,
            i <= n,
            lines_view(lines) == seq![seq![(Seq::<char>::empty(), plain())]] + requests_body(reqs@.take(i as int)),
            regions@.len() == 2 * i,
            forall|k: int| 0 <= k < i ==> {
                &&& (#[trigger] regions@[2 * k]).rect == (Rect { x: (popup.x + 2) as u16, y: (popup.y + 1 + 2 * k) as u16, width: 11, height: 1 })
                &&& regions@[2 * k].action == ClickAction::ApproveJoin { group: reqs@[k].0, requester_id: reqs@[k].1 }
                &&& regions@[2 * k + 1].rect == (Rect { x: (popup.x + 16) as u16, y: (popup.y + 1 + 2 * k) as u16, width: 9, height: 1 })
                &&& regions@[2 * k + 1].action == ClickAction::DenyJoin { group: reqs@[k].0, requester_id: reqs@[k].1 }
            },
        decreases n - i,
    {
        let q = &reqs[i];
        let row_y = popup.y + 1 + (i as u16) * 2;
        let ghost before = regions@;
        regions.push(ClickRegion {
            rect: rect_new(popup.x + 2, row_y, 11, 1),
            action: ClickAction::ApproveJoin { group: q.0.clone(), requester_id: q.1.clone() },
        });
        regions.push(ClickRegion {
            rect: rect_new(popup.x + 16, row_y, 9, 1),
            action: ClickAction::DenyJoin { group: q.0.clone(), requester_id: q.1.clone() },
        });
        assert forall|k: int| 0 <= k < i + 1 implies {
            &&& (#[trigger] regions@[2 * k]).rect == (Rect { x: (popup.x + 2) as u16, y: (popup.y + 1 + 2 * k) as u16, width: 11, height: 1 })
            &&& regions@[2 * k].action == ClickAction::ApproveJoin { group: reqs@[k].0, requester_id: reqs@[k].1 }
            &&& regions@[2 * k + 1].rect == (Rect { x: (popup.x + 16) as u16, y: (popup.y + 1 + 2 * k) as u16, width: 9, height: 1 })
            &&& regions@[2 * k + 1].action == ClickAction::DenyJoin { group: reqs@[k].0, requester_id: reqs@[k].1 }
        } by {
            if k < i {
                assert(regions@[2 * k] == before[2 * k]);
                assert(regions@[2 * k + 1] == before[2 * k + 1]);
            }
        }
        let mut l1: Line = Vec::new();
        l1.push(Span { text: join_text(join_text("  ", q.2.as_str()).as_str(), " "), style: Style { fg: Some(Color::Rgb { r: 220, g: 220, b: 255 }), bg: None, bold: true, italic: false } });
        l1.push(Span { text: join_text("→ ", q.0.as_str()), style: Style { fg: Some(Color::Rgb { r: 120, g: 120, b: 160 }), bg: None, bold: false, italic: false } });
        let mut l2: Line = Vec::new();
        l2.push(Span { text: "  ".to_owned(), style: Style { fg: None, bg: None, bold: false, italic: false } });
        l2.push(Span { text: " [A] Approve ".to_owned(), style: Style { fg: Some(Color::Black), bg: Some(Color::Rgb { r: 80, g: 255, b: 160 }), bold: true, italic: false } });
        l2.push(Span { text: "  ".to_owned(), style: Style { fg: None, bg: None, bold: false, italic: false } });
        l2.push(Span { text: " [D] Deny ".to_owned(), style: Style { fg: Some(Color::Black), bg: Some(Color::Rgb { r: 255, g: 80, b: 80 }), bold: true, italic: false } });
        assert(line_view(l1) =~= request_lines(reqs@[i as int])[0]);
        assert(line_view(l2) =~= request_lines(reqs@[i as int])[1]);
        assert(reqs@.take(i as int + 1).drop_last() =~= reqs@.take(i as int));
        let ghost lv = lines_view(lines);
        lines.push(l1);
        lines.push(l2);
        assert(lines_view(lines) =~= lv + request_lines(reqs@[i as int]));
        i = i + 1;
    }
    assert(reqs@.take(n as int) =~= reqs@);
    lines.push(plain_line(String::new()));
    (popup, lines, regions)
}

/// The help popup's area, centred in `size`; a click anywhere in it closes
/// it.
pub fn help_region(size: Rect) -> (r: ClickRegion)
    requires
        size.x + size.width <= u16::MAX,
        size.y + size.height <= u16::MAX,
    ensures
        r.action == ClickAction::ClosePopup,
        r.rect.x == size.x + sat_sub(size.width as int, min(64, size.width as int)) / 2,
        r.rect.y == size.y + sat_sub(size.height as int, min(32, size.height as int)) / 2,
        r.rect.width == min(64, size.width as int),
        r.rect.height == min(32, size.height as int),
{
    let pw: u16 = if 64 < size.width { 64 } else { size.width };
    let ph: u16 = if 32 < size.height { 32 } else { size.height };
    assert(min(pw as int, size.width as int) * min(ph as int, size.height as int) <= 2048) by (nonlinear_arith)
        requires
            pw <= 64,
            ph <= 32,
            min(pw as int, size.width as int) <= pw,
            min(ph as int, size.height as int) <= ph,
            min(pw as int, size.width as int) >= 0,
            min(ph as int, size.height as int) >= 0,
    ;
    ClickRegion { rect: center_rect(pw, ph, size), action: ClickAction::ClosePopup }
}

/// The help button at the right end of the title bar `area`.
pub open spec fn help_button(area: Rect) -> ClickRegion {
    ClickRegion {
        rect: Rect { x: (area.x + sat_sub(area.width as int, 8)) as u16, y: area.y, width: 8, height: 1 },
        action: ClickAction::OpenHelp,
    }
}

/// The rows of `n` channels in the channel list `area`.
pub open spec fn channel_rows(area: Rect, n: nat) -> Seq<ClickRegion> {
    Seq::new(
        n,
        |i: int|
            ClickRegion {
                rect: Rect { x: area.x, y: (area.y + 1 + i) as u16, width: area.width, height: 1 },
                action: ClickAction::SelectChannel(i as usize),
            },
    )
}

/// The scroll buttons at the right end of the feed `area`'s top line.
pub open spec fn feed_buttons(area: Rect) -> Seq<ClickRegion> {
    seq![
        ClickRegion {
            rect: Rect { x: (area.x + sat_sub(area.width as int, 6)) as u16, y: area.y, width: 3, height: 1 },
            action: ClickAction::ScrollUp,
        },
        ClickRegion {
            rect: Rect { x: (area.x + sat_sub(area.width as int, 3)) as u16, y: area.y, width: 3, height: 1 },
            action: ClickAction::ScrollDown,
        },
    ]
}

/// The approve and deny buttons of the join-request popup placed at
/// (`px`, `py`), two per request.
pub open spec fn join_buttons(px: int, py: int, reqs: Seq<JoinRequest>) -> Seq<ClickRegion> {
    Seq::new(
        2 * reqs.len(),
        |k: int|
            if k % 2 == 0 {
                ClickRegion {
                    rect: Rect { x: (px + 2) as u16, y: (py + 1 + k) as u16, width: 11, height: 1 },
                    action: ClickAction::ApproveJoin { group: reqs[k / 2].0, requester_id: reqs[k / 2].1 },
                }
            } else {
                ClickRegion {
                    rect: Rect { x: (px + 16) as u16, y: (py + k) as u16, width: 9, height: 1 },
                    action: ClickAction::DenyJoin { group: reqs[k / 2].0, requester_id: reqs[k / 2].1 },
                }
            },
    )
}

/// The accept and reject buttons of the file-offer popup on `screen`.
pub open spec fn file_buttons(screen: Rect) -> Seq<ClickRegion> {
    let x = screen.x + sat_sub(screen.width as int, min(56, screen.width as int)) / 2;
    let y = screen.y + sat_sub(screen.height as int, min(9, screen.height as int)) / 2;
    seq![
        ClickRegion { rect: Rect { x: (x + 2) as u16, y: (y + 6) as u16, width: 12, height: 1 }, action: ClickAction::AcceptFile },
        ClickRegion { rect: Rect { x: (x + 18) as u16, y: (y + 6) as u16, width: 12, height: 1 }, action: ClickAction::RejectFile },
    ]
}

/// The help popup on `screen`, which closes when clicked.
pub open spec fn help_popup(screen: Rect) -> ClickRegion {
    ClickRegion {
        rect: Rect {
            x: (screen.x + sat_sub(screen.width as int, min(64, screen.width as int)) / 2) as u16,
            y: (screen.y + sat_sub(screen.height as int, min(32, screen.height as int)) / 2) as u16,
            width: min(64, screen.width as int) as u16,
            height: min(32, screen.height as int) as u16,
        },
        action: ClickAction::ClosePopup,
    }
}

/// The channel list fits below the top of `area`.
pub open spec fn channels_fit(snap: RenderSnapshot, area: Rect) -> bool {
    area.y + 1 + snap.channel_names@.len() <= u16::MAX
}

/// The join-request popup is shown on `screen`: requests are pending, the
/// popup is open, and it fits.
pub open spec fn join_popup_shown(app: App, snap: RenderSnapshot, screen: Rect) -> bool {
    &&& snap.pending_reqs@.len() > 0
    &&& app.show_join_requests
    &&& 6 + 2 * snap.pending_reqs@.len() <= u16::MAX
    &&& screen.y + screen.height + 1 + 2 * snap.pending_reqs@.len() <= u16::MAX
}

/// The clickable regions of a frame, in drawing order: the help button of
/// the title bar, the channel rows, the feed's scroll buttons, then those of
/// the popups shown (join requests, file offer, help).
pub open spec fn frame_regions_view(app: App, snap: RenderSnapshot, screen: Rect, title: Rect, channels: Rect, feed: Rect) -> Seq<ClickRegion> {
    let n = snap.pending_reqs@.len() as int;
    let jx = screen.x + sat_sub(screen.width as int, min(58, screen.width as int)) / 2;
    let jy = screen.y + sat_sub(screen.height as int, min(6 + 2 * n, screen.height as int)) / 2;
    seq![help_button(title)]
        + (if channels_fit(snap, channels) { channel_rows(channels, snap.channel_names@.len()) } else { Seq::empty() })
        + feed_buttons(feed)
        + (if join_popup_shown(app, snap, screen) { join_buttons(jx, jy, snap.pending_reqs@) } else { Seq::empty() })
        + (if app.file_offer is Some { file_buttons(screen) } else { Seq::empty() })
        + (if app.show_help { seq![help_popup(screen)] } else { Seq::empty() })
}

/// The clickable regions of a frame drawn on `screen`, whose title bar,
/// channel list and feed lie at `title`, `channels` and `feed` (see
/// `frame_regions_view`).
pub fn frame_regions(app: &App, snap: &RenderSnapshot, screen: Rect, title: Rect, channels: Rect, feed: Rect) -> (r: Vec<ClickRegion>)
    requires
        title.x + title.width <= u16::MAX,
        feed.x + feed.width <= u16::MAX,
        screen.x + screen.width + 18 <= u16::MAX,
        screen.y + screen.height + 6 <= u16::MAX,
    ensures
        r@ == frame_regions_view(*app, *snap, screen, title, channels, feed),
{
    let mut out: Vec<ClickRegion> = Vec::new();
    let (_, help) = titlebar(snap, title);
    out.push(help);
    let ghost s0 = out@;
    assert(s0 =~= seq![help_button(title)]);
    if snap.channel_names.len() <= 65535 && channels.y as usize + 1 + snap.channel_names.len() <= 65535 {
        let (_, mut rows) = channel_list(snap, channels);
        assert(rows@ =~= channel_rows(channels, snap.channel_names@.len()));
        out.append(&mut rows);
    }
    let ghost s1 = out@;
    assert(s1 =~= s0 + (if channels_fit(*snap, channels) { channel_rows(channels, snap.channel_names@.len()) } else { Seq::empty() }));
    let mut fb = feed_regions(feed);
    assert(fb@ =~= feed_buttons(feed));
    out.append(&mut fb);
    let n = snap.pending_reqs.len();
    if n > 0 && app.show_join_requests && n <= 32764 && screen.y as usize + screen.height as usize + 1 + 2 * n <= 65535 {
        let (popup, _, mut rs) = join_popup(screen, &snap.pending_reqs);
        let ghost jx = screen.x + sat_sub(screen.width as int, min(58, screen.width as int)) / 2;
        let ghost jy = screen.y + sat_sub(screen.height as int, min(6 + 2 * n as int, screen.height as int)) / 2;
        assert forall|k: int| 0 <= k < rs@.len() implies #[trigger] rs@[k] == join_buttons(jx, jy, snap.pending_reqs@)[k] by {
            let i = k / 2;
            assert(0 <= i < snap.pending_reqs@.len());
            assert(k == 2 * i || k == 2 * i + 1);
            assert(rs@[2 * i].rect == (Rect { x: (popup.x + 2) as u16, y: (popup.y + 1 + 2 * i) as u16, width: 11, height: 1 }));
        }
        assert(rs@ =~= join_buttons(jx, jy, snap.pending_reqs@));
        out.append(&mut rs);
    }
    match &app.file_offer {
        Some((fname, sz, _, from)) => {
            let (_, _, mut rs) = file_popup(screen, fname.as_str(), *sz, from.as_str());
            assert(rs@ =~= file_buttons(screen));
            out.append(&mut rs);
        },
        None => {},
    }
    if app.show_help {
        out.push(help_region(screen));
    }
    assert(out@ =~= frame_regions_view(*app, *snap, screen, title, channels, feed));
    out
}

} // verus!
