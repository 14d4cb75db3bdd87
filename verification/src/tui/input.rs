//! Key handling: editing keys, scrolling, channel switching, and the
//! commands typed on the input line.

use vstd::prelude::*;
use vstd::string::*;
use crate::events::UiCommand;
use crate::state::{channel_added, targets, AppState};
use crate::text::{
    join_text, hashed, is_white_space, split_at_first_space, starts, strip_prefix, text_eq, trim, trimmed, utf8,
    with_hash,
};
use crate::tui::app::{
    App, InputResult, backspaced, browsed_back, browsed_forward, cut_end, cut_start, deleted_forward,
    moved_end, moved_home, moved_left, moved_right, moved_word_left, moved_word_right, pasted,
    pushed_history, typed_text, word_cut,
};
use crate::types::{Channel, PeerAddr};

verus! {

/// A key, as the terminal reports it.
#[derive(Clone, Copy, Debug, PartialEq, Eq, Structural)]
pub enum KeyCode {
    Backspace,
    Enter,
    Left,
    Right,
    Up,
    Down,
    Home,
    End,
    PageUp,
    PageDown,
    Tab,
    BackTab,
    Delete,
    Insert,
    F(u8),
    Char(char),
    Esc,
    Other,
}

/// A key press: the key, whether Control is among the modifiers held, and
/// whether Control is the only one.
#[derive(Clone, Copy, Debug, PartialEq, Eq, Structural)]
pub struct KeyEvent {
    pub code: KeyCode,
    pub ctrl: bool,
    pub ctrl_only: bool,
}

/// What handling a key or a line asks of the rest of the program.
#[derive(Debug)]
pub struct Handled {
    /// Whether to keep running.
    pub result: InputResult,
    /// A command to send to the mesh.
    pub command: Option<UiCommand>,
    /// An address typed after `/gateway`, to be parsed as `ip:port`.
    pub gateway: Option<String>,
}

/// Nothing more to do.
pub open spec fn nothing(h: Handled) -> bool {
    h.result == InputResult::Continue && h.command is None && h.gateway is None
}

/// Only `cmd` to send.
pub open spec fn sends(h: Handled, cmd: UiCommand) -> bool {
    h.result == InputResult::Continue && h.command == Some(cmd) && h.gateway is None
}

/// `n` is `o` with `text` in the status line (an error when `err`).
pub open spec fn status_set(o: App, n: App, text: Seq<char>, err: bool) -> bool {
    &&& n.status_msg matches Some(m) && m@ == text
    &&& n.status_error == err
    &&& n.input_buf == o.input_buf
    &&& n.cursor_pos == o.cursor_pos
    &&& n.yank_buf == o.yank_buf
    &&& n.history == o.history
    &&& n.history_idx == o.history_idx
    &&& n.input_draft == o.input_draft
    &&& n.scroll_offset == o.scroll_offset
    &&& n.file_offer == o.file_offer
    &&& n.show_help == o.show_help
    &&& n.show_join_requests == o.show_join_requests
    &&& n.click_regions == o.click_regions
}

/// The text after the first space of `s` (trimmed), split at its first
/// space into two trimmed parts `a` and `b`.
pub open spec fn two_args(s: Seq<char>, a: Seq<char>, b: Seq<char>) -> bool {
    exists|t: Seq<char>, x: Seq<char>, y: Seq<char>|
        #![trigger trimmed(s, t), trimmed(x, a), trimmed(y, b)]
        trimmed(s, t) && t == x + seq![' '] + y && !x.contains(' ') && trimmed(x, a) && trimmed(y, b)
}

/// The trimmed text of `s` holds no space.
pub open spec fn one_arg(s: Seq<char>) -> bool {
    exists|t: Seq<char>| #[trigger] trimmed(s, t) && !t.contains(' ')
}

/// A text cannot both hold one argument and split into two.
proof fn lemma_args_exclusive(s: Seq<char>, a: Seq<char>, b: Seq<char>)
    requires
        two_args(s, a, b),
    ensures
        !one_arg(s),
{
    let (t, x, y) = choose|t: Seq<char>, x: Seq<char>, y: Seq<char>|
        #![trigger trimmed(s, t), trimmed(x, a), trimmed(y, b)]
        trimmed(s, t) && t == x + seq![' '] + y && !x.contains(' ') && trimmed(x, a) && trimmed(y, b);
    if one_arg(s) {
        let t2 = choose|t2: Seq<char>| #[trigger] trimmed(s, t2) && !t2.contains(' ');
        lemma_trimmed_unique(s, t, t2);
        assert(t[x.len() as int] == ' ');
    }
}

/// Trimming gives one result.
pub proof fn lemma_trimmed_unique(s: Seq<char>, r1: Seq<char>, r2: Seq<char>)
    requires
        trimmed(s, r1),
        trimmed(s, r2),
    ensures
        r1 == r2,
{
    let (a1, b1) = choose|a: int, b: int|
        #![trigger s.subrange(a, b)]
        {
            &&& 0 <= a <= b <= s.len()
            &&& r1 == s.subrange(a, b)
            &&& forall|i: int| 0 <= i < a ==> is_white_space(#[trigger] s[i])
            &&& forall|i: int| b <= i < s.len() ==> is_white_space(#[trigger] s[i])
            &&& a < b ==> !is_white_space(s[a]) && !is_white_space(s[b - 1])
        };
    let (a2, b2) = choose|a: int, b: int|
        #![trigger s.subrange(a, b)]
        {
            &&& 0 <= a <= b <= s.len()
            &&& r2 == s.subrange(a, b)
            &&& forall|i: int| 0 <= i < a ==> is_white_space(#[trigger] s[i])
            &&& forall|i: int| b <= i < s.len() ==> is_white_space(#[trigger] s[i])
            &&& a < b ==> !is_white_space(s[a]) && !is_white_space(s[b - 1])
        };
    if a1 < b1 && a2 < b2 {
        if a1 < a2 {
            assert(is_white_space(s[a1]));
        }
        if a2 < a1 {
            assert(is_white_space(s[a2]));
        }
        if b1 < b2 {
            assert(is_white_space(s[b2 - 1]));
        }
        if b2 < b1 {
            assert(is_white_space(s[b1 - 1]));
        }
    } else if a1 < b1 {
        // r2 is empty: every character is whitespace
        assert(forall|i: int| 0 <= i < s.len() ==> is_white_space(#[trigger] s[i]));
        assert(is_white_space(s[a1]));
    } else if a2 < b2 {
        assert(forall|i: int| 0 <= i < s.len() ==> is_white_space(#[trigger] s[i]));
        assert(is_white_space(s[a2]));
    } else {
        assert(r1 =~= r2);
    }
}

/// Splits the trimmed `rest` at its first space into two trimmed parts.
fn args2(rest: &str) -> (r: Option<(String, String)>)
    ensures
        r matches Some((a, b)) ==> two_args(rest@, a@, b@),
        r is None ==> one_arg(rest@),
{
    let t = trim(rest);
    match split_at_first_space(t.as_str()) {
        Some((x, y)) => {
            let a = trim(x.as_str());
            let b = trim(y.as_str());
            assert(two_args(rest@, a@, b@));
            Some((a, b))
        },
        None => None,
    }
}

/// The effect of the line `raw` (already trimmed, not empty) on the
/// interface `oa` and the state `os`, giving `na`, `ns` and `h`.
pub open spec fn dispatched(oa: App, na: App, os: AppState, ns: AppState, raw: Seq<char>, h: Handled) -> bool {
    let active = os.channel_seq()[os.active() as int].name;
    if starts(raw, "/cmd "@) {
        &&& na == oa && ns == os
        &&& h.result == InputResult::Continue && h.gateway is None
        &&& h.command matches Some(UiCommand::SendCommand { channel, cmd }) && channel == active
            && cmd@ == raw.skip("/cmd "@.len() as int)
    } else if starts(raw, "/join "@) {
        exists|name: Seq<char>, mid: Seq<Channel>|
            #![trigger trimmed(raw.skip("/join "@.len() as int), name), channel_added(os.channel_seq(), mid, hashed(name))]
            {
                &&& trimmed(raw.skip("/join "@.len() as int), name)
                &&& channel_added(os.channel_seq(), mid, hashed(name))
                &&& ns.same_but_channels(&os)
                &&& ns.active() < mid.len()
                &&& mid[ns.active() as int].name@ == hashed(name)
                &&& ns.channel_seq() == mid.update(ns.active() as int, Channel { unread: 0, ..mid[ns.active() as int] })
                &&& status_set(oa, na, "Joined "@ + hashed(name), false)
                &&& nothing(h)
            }
    } else if starts(raw, "/mshsend "@) {
        let rest = raw.skip("/mshsend "@.len() as int);
        &&& ns == os
        &&& one_arg(rest) ==> status_set(oa, na, "Usage: /mshsend <peer_nick> <file_path>"@, true) && nothing(h)
        &&& !one_arg(rest) ==> exists|target: Seq<char>, path: Seq<char>|
            #[trigger] two_args(rest, target, path) && {
                if exists|i: int| 0 <= i < os.peer_seq().len() && targets(#[trigger] os.peer_seq()[i], target) {
                    exists|i: int|
                        #![trigger os.peer_seq()[i]]
                        0 <= i < os.peer_seq().len() && targets(os.peer_seq()[i], target) && (forall|k: int|
                            0 <= k < i ==> !targets(#[trigger] os.peer_seq()[k], target)) && (h.command matches Some(
                            UiCommand::SendFile { peer_id, path: p },
                        ) && peer_id == os.peer_seq()[i].id && p@ == path) && h.result == InputResult::Continue
                            && h.gateway is None && status_set(oa, na, "Sending "@ + path + "…"@, false)
                } else {
                    &&& nothing(h)
                    &&& status_set(oa, na, "Peer '"@ + target + "' not found. Use /mshsend <nick> <path>"@, true)
                }
            }
    } else if starts(raw, "/group "@) {
        exists|name: Seq<char>|
            #![trigger trimmed(raw.skip("/group "@.len() as int), name)]
            {
                &&& trimmed(raw.skip("/group "@.len() as int), name)
                &&& ns == os
                &&& status_set(oa, na, "Created private group "@ + hashed(name) + " — announced to mesh"@, false)
                &&& h.result == InputResult::Continue && h.gateway is None
                &&& h.command matches Some(UiCommand::CreateGroup { name: g }) && g@ == hashed(name)
            }
    } else if starts(raw, "/request "@) {
        let rest = raw.skip("/request "@.len() as int);
        &&& ns == os
        &&& one_arg(rest) ==> status_set(oa, na, "Usage: /request <#group> <owner_node_id>"@, true) && nothing(h)
        &&& !one_arg(rest) ==> exists|g: Seq<char>, owner: Seq<char>|
            #[trigger] two_args(rest, g, owner) && {
                &&& status_set(oa, na, "Join request sent for "@ + hashed(g), false)
                &&& h.result == InputResult::Continue && h.gateway is None
                &&& h.command matches Some(UiCommand::RequestJoinGroup { group_name, owner_id })
                    && group_name@ == hashed(g) && owner_id@ == owner
            }
    } else if starts(raw, "/approve "@) {
        let rest = raw.skip("/approve "@.len() as int);
        &&& ns == os
        &&& one_arg(rest) ==> status_set(oa, na, "Usage: /approve <#group> <requester_id>"@, true) && nothing(h)
        &&& !one_arg(rest) ==> exists|g: Seq<char>, id: Seq<char>|
            #[trigger] two_args(rest, g, id) && {
                &&& na == oa
                &&& h.result == InputResult::Continue && h.gateway is None
                &&& h.command matches Some(UiCommand::ApproveJoin { group_name, requester_id })
                    && group_name@ == g && requester_id@ == id
            }
    } else if starts(raw, "/deny "@) {
        let rest = raw.skip("/deny "@.len() as int);
        &&& ns == os
        &&& one_arg(rest) ==> status_set(oa, na, "Usage: /deny <#group> <requester_id>"@, true) && nothing(h)
        &&& !one_arg(rest) ==> exists|g: Seq<char>, id: Seq<char>|
            #[trigger] two_args(rest, g, id) && {
                &&& na == oa
                &&& h.result == InputResult::Continue && h.gateway is None
                &&& h.command matches Some(UiCommand::DenyJoin { group_name, requester_id })
                    && group_name@ == g && requester_id@ == id
            }
    } else if starts(raw, "/requests"@) {
        &&& ns == os
        &&& na == App { show_join_requests: !oa.show_join_requests, ..oa }
        &&& nothing(h)
    } else if starts(raw, "/gateway "@) {
        &&& ns == os
        &&& na == oa
        &&& h.result == InputResult::Continue && h.command is None
        &&& h.gateway matches Some(t) && trimmed(raw.skip("/gateway "@.len() as int), t@)
    } else if raw == "/gateway"@ {
        &&& ns == os
        &&& status_set(oa, na, "Usage: /gateway <ip:port>"@, false)
        &&& nothing(h)
    } else if raw == "/help"@ {
        &&& ns == os
        &&& na == App { show_help: true, ..oa }
        &&& nothing(h)
    } else if raw == "/quit"@ || raw == "/exit"@ {
        &&& ns == os
        &&& na == oa
        &&& h.result == InputResult::Quit && h.command == Some(UiCommand::Shutdown) && h.gateway is None
    } else if raw.len() > 0 && raw[0] == '/' {
        &&& ns == os
        &&& status_set(oa, na, "Unknown command: "@ + raw + "  (F1 for help)"@, true)
        &&& nothing(h)
    } else {
        &&& na == oa && ns == os
        &&& h.result == InputResult::Continue && h.gateway is None
        &&& h.command matches Some(UiCommand::SendMessage { channel, content }) && channel == active
            && content@ == raw
    }
}

/// A line that does not begin with `/` is a chat line: it is sent, as it
/// is, to the channel shown, whichever that is, and nothing else changes.
pub proof fn law_plain_line_goes_to_shown_channel(oa: App, na: App, os: AppState, ns: AppState, raw: Seq<char>, h: Handled)
    requires
        dispatched(oa, na, os, ns, raw, h),
        raw.len() > 0,
        raw[0] != '/',
    ensures
        na == oa,
        ns == os,
        h.result == InputResult::Continue,
        h.command matches Some(UiCommand::SendMessage { channel, content })
            && channel == os.channel_seq()[os.active() as int].name && content@ == raw,
{
    reveal_strlit("/cmd ");
    reveal_strlit("/join ");
    reveal_strlit("/mshsend ");
    reveal_strlit("/group ");
    reveal_strlit("/request ");
    reveal_strlit("/approve ");
    reveal_strlit("/deny ");
    reveal_strlit("/requests");
    reveal_strlit("/gateway ");
    reveal_strlit("/gateway");
    reveal_strlit("/help");
    reveal_strlit("/quit");
    reveal_strlit("/exit");
    assert forall|p: Seq<char>| p.len() > 0 && p[0] == '/' implies !#[trigger] starts(raw, p) by {
        if starts(raw, p) {
            assert(raw.take(p.len() as int)[0] == raw[0]);
        }
    }
    assert(!starts(raw, "/cmd "@));
    assert(!starts(raw, "/join "@));
    assert(!starts(raw, "/mshsend "@));
    assert(!starts(raw, "/group "@));
    assert(!starts(raw, "/request "@));
    assert(!starts(raw, "/approve "@));
    assert(!starts(raw, "/deny "@));
    assert(!starts(raw, "/requests"@));
    assert(!starts(raw, "/gateway "@));
    assert(raw != "/gateway"@);
    assert(raw != "/help"@);
    assert(raw != "/quit"@);
    assert(raw != "/exit"@);
}

/// A `/cmd` line shares the rest of the line as a command in the channel
/// shown, whichever that is, and changes nothing else.
pub proof fn law_command_goes_to_shown_channel(oa: App, na: App, os: AppState, ns: AppState, raw: Seq<char>, h: Handled)
    requires
        dispatched(oa, na, os, ns, raw, h),
        starts(raw, "/cmd "@),
    ensures
        na == oa,
        ns == os,
        h.command matches Some(UiCommand::SendCommand { channel, cmd })
            && channel == os.channel_seq()[os.active() as int].name && raw == "/cmd "@ + cmd@,
{
    reveal_strlit("/cmd ");
    assert(raw =~= "/cmd "@ + raw.skip(5));
}

/// Shows `text` in the status line.
fn status(app: &mut App, text: String, err: bool)
    ensures
        status_set(*old(app), *final(app), text@, err),
{
    app.set_status(text, err);
}

/// Handles the keys.
pub struct InputHandler;

impl InputHandler {
    /// Carries out the line `raw` (trimmed and not empty): a command when it
    /// starts with `/`, a chat line in the channel shown otherwise.
    pub fn dispatch(app: &mut App, state: &mut AppState, raw: String) -> (h: Handled)
        requires
            old(state).wf(),
            old(app).editor_ok(),
        ensures
            final(state).wf(),
            final(app).editor_ok(),
            dispatched(*old(app), *final(app), *old(state), *final(state), raw@, h),
    {
        let cont = InputResult::Continue;
        if let Some(cmd) = strip_prefix(raw.as_str(), "/cmd ") {
            let ch = state.active_channel_name();
            return Handled { result: cont, command: Some(UiCommand::SendCommand { channel: ch, cmd }), gateway: None };
        }
        if let Some(rest) = strip_prefix(raw.as_str(), "/join ") {
            let name = trim(rest.as_str());
            let ch = with_hash(name.as_str());
            state.add_channel(ch.clone());
            let ghost mid = state.channel_seq();
            proof {
                if !crate::state::has_channel(old(state).channel_seq(), ch@) {
                    assert(mid[mid.len() - 1].name@ == ch@);
                }
            }
            match state.channel_index(ch.as_str()) {
                Some(i) => state.set_active_channel(i),
                None => {},
            }
            status(app, join_text("Joined ", ch.as_str()), false);
            assert(trimmed(raw@.skip("/join "@.len() as int), name@) && channel_added(old(state).channel_seq(), mid, hashed(name@)));
            return Handled { result: cont, command: None, gateway: None };
        }
        if let Some(rest) = strip_prefix(raw.as_str(), "/mshsend ") {
            match args2(rest.as_str()) {
                Some((target, path)) => {
                    assert(!one_arg(rest@)) by {
                        lemma_args_exclusive(rest@, target@, path@);
                    }
                    match state.find_peer_for_target(target.as_str()) {
                        Some(peer_id) => {
                            let text = join_text(join_text("Sending ", path.as_str()).as_str(), "…");
                            status(app, text, false);
                            return Handled { result: cont, command: Some(UiCommand::SendFile { peer_id, path }), gateway: None };
                        },
                        None => {
                            let text = join_text(join_text("Peer '", target.as_str()).as_str(), "' not found. Use /mshsend <nick> <path>");
                            status(app, text, true);
                            return Handled { result: cont, command: None, gateway: None };
                        },
                    }
                },
                None => {
                    status(app, "Usage: /mshsend <peer_nick> <file_path>".to_owned(), true);
                    return Handled { result: cont, command: None, gateway: None };
                },
            }
        }
        if let Some(rest) = strip_prefix(raw.as_str(), "/group ") {
            let name = trim(rest.as_str());
            let g = with_hash(name.as_str());
            status(app, join_text(join_text("Created private group ", g.as_str()).as_str(), " — announced to mesh"), false);
            return Handled { result: cont, command: Some(UiCommand::CreateGroup { name: g }), gateway: None };
        }
        if let Some(rest) = strip_prefix(raw.as_str(), "/request ") {
            match args2(rest.as_str()) {
                Some((g, owner)) => {
                    assert(!one_arg(rest@)) by {
                        lemma_args_exclusive(rest@, g@, owner@);
                    }
                    let gname = with_hash(g.as_str());
                    status(app, join_text("Join request sent for ", gname.as_str()), false);
                    return Handled {
                        result: cont,
                        command: Some(UiCommand::RequestJoinGroup { group_name: gname, owner_id: owner }),
                        gateway: None,
                    };
                },
                None => {
                    status(app, "Usage: /request <#group> <owner_node_id>".to_owned(), true);
                    return Handled { result: cont, command: None, gateway: None };
                },
            }
        }
        if let Some(rest) = strip_prefix(raw.as_str(), "/approve ") {
            match args2(rest.as_str()) {
                Some((g, id)) => {
                    assert(!one_arg(rest@)) by {
                        lemma_args_exclusive(rest@, g@, id@);
                    }
                    return Handled {
                        result: cont,
                        command: Some(UiCommand::ApproveJoin { group_name: g, requester_id: id }),
                        gateway: None,
                    };
                },
                None => {
                    status(app, "Usage: /approve <#group> <requester_id>".to_owned(), true);
                    return Handled { result: cont, command: None, gateway: None };
                },
            }
        }
        if let Some(rest) = strip_prefix(raw.as_str(), "/deny ") {
            match args2(rest.as_str()) {
                Some((g, id)) => {
                    assert(!one_arg(rest@)) by {
                        lemma_args_exclusive(rest@, g@, id@);
                    }
                    return Handled {
                        result: cont,
                        command: Some(UiCommand::DenyJoin { group_name: g, requester_id: id }),
                        gateway: None,
                    };
                },
                None => {
                    status(app, "Usage: /deny <#group> <requester_id>".to_owned(), true);
                    return Handled { result: cont, command: None, gateway: None };
                },
            }
        }
        if let Some(_) = strip_prefix(raw.as_str(), "/requests") {
            app.show_join_requests = !app.show_join_requests;
            return Handled { result: cont, command: None, gateway: None };
        }
        if let Some(rest) = strip_prefix(raw.as_str(), "/gateway ") {
            return Handled { result: cont, command: None, gateway: Some(trim(rest.as_str())) };
        }
        if text_eq(raw.as_str(), "/gateway") {
            status(app, "Usage: /gateway <ip:port>".to_owned(), false);
            return Handled { result: cont, command: None, gateway: None };
        }
        if text_eq(raw.as_str(), "/help") {
            app.show_help = true;
            return Handled { result: cont, command: None, gateway: None };
        }
        if text_eq(raw.as_str(), "/quit") || text_eq(raw.as_str(), "/exit") {
            return Handled { result: InputResult::Quit, command: Some(UiCommand::Shutdown), gateway: None };
        }
        if raw.as_str().unicode_len() > 0 && raw.as_str().get_char(0) == '/' {
            let text = join_text(join_text("Unknown command: ", raw.as_str()).as_str(), "  (F1 for help)");
            status(app, text, true);
            return Handled { result: cont, command: None, gateway: None };
        }
        let ch = state.active_channel_name();
        Handled { result: cont, command: Some(UiCommand::SendMessage { channel: ch, content: raw }), gateway: None }
    }

    /// Handles a key press on the main screen: channel switching, feed
    /// scrolling, history browsing, line editing, and sending the line on
    /// Enter.
    pub fn handle(app: &mut App, state: &mut AppState, key: KeyEvent) -> (h: Handled)
        requires
            old(state).wf(),
            old(app).editor_ok(),
        ensures
            final(state).wf(),
            final(app).editor_ok(),
            key_handled(*old(app), *final(app), *old(state), *final(state), key, h),
    {
        let ctrl = key.ctrl;
        let cont = Handled { result: InputResult::Continue, command: None, gateway: None };
        match key.code {
            KeyCode::PageUp => {
                let c = state.active_channel_index();
                if c > 0 {
                    state.set_active_channel(c - 1);
                    app.scroll_offset = 0;
                }
            },
            KeyCode::PageDown => {
                let n = state.channels_len();
                let c = state.active_channel_index();
                if c + 1 < n {
                    state.set_active_channel(c + 1);
                    app.scroll_offset = 0;
                }
            },
            KeyCode::Up => {
                if ctrl {
                    app.scroll_offset = app.scroll_offset.saturating_add(1);
                } else if app.input_buf.as_str().as_bytes().len() == 0 {
                    app.scroll_offset = app.scroll_offset.saturating_add(3);
                } else {
                    app.history_prev();
                }
            },
            KeyCode::Down => {
                if ctrl {
                    if app.scroll_offset > 0 {
                        app.scroll_offset = app.scroll_offset - 1;
                    }
                } else if app.input_buf.as_str().as_bytes().len() == 0 {
                    if app.scroll_offset > 0 {
                        app.scroll_offset = app.scroll_offset.saturating_sub(3);
                    }
                } else {
                    app.history_next();
                }
            },
            KeyCode::Left => {
                if ctrl {
                    app.move_word_left();
                } else {
                    app.move_char_left();
                }
            },
            KeyCode::Right => {
                if ctrl {
                    app.move_word_right();
                } else {
                    app.move_char_right();
                }
            },
            KeyCode::Home => {
                app.cursor_home();
            },
            KeyCode::End => {
                app.cursor_end();
            },
            KeyCode::Char(c) => {
                if ctrl {
                    if c == 'a' {
                        app.cursor_home();
                    } else if c == 'e' {
                        app.cursor_end();
                    } else if c == 'k' {
                        app.cut_to_end();
                    } else if c == 'u' {
                        app.cut_to_start();
                    } else if c == 'v' || c == 'y' {
                        app.paste();
                    } else if c == 'w' {
                        app.delete_word_before();
                    }
                } else {
                    app.insert_char(c);
                }
            },
            KeyCode::Backspace => {
                if ctrl {
                    app.delete_word_before();
                } else {
                    app.delete_char_before();
                }
            },
            KeyCode::Delete => {
                app.delete_char_after();
            },
            KeyCode::Enter => {
                let raw = trim(app.input_buf.as_str());
                if raw.as_str().as_bytes().len() == 0 {
                    assert(raw@.len() == 0) by {
                        if raw@.len() > 0 {
                            crate::text::lemma_utf8_concat(seq![raw@[0]], raw@.drop_first());
                            assert(seq![raw@[0]] + raw@.drop_first() =~= raw@);
                            assert(crate::text::utf8(seq![raw@[0]]).len() > 0);
                        }
                    }
                    return cont;
                }
                assert(raw@.len() > 0);
                app.history_push(raw.clone());
                app.input_buf = String::new();
                app.cursor_pos = 0;
                app.scroll_offset = 0;
                app.status_msg = None;
                proof {
                    vstd::utf8::encode_utf8_valid_utf8(app.input_buf@);
                }
                let ghost mid = *app;
                let h = Self::dispatch(app, state, raw);
                assert(cleared_for_send(*old(app), mid, raw));
                return h;
            },
            KeyCode::Esc => {
                app.status_msg = None;
                app.show_help = false;
                app.show_join_requests = false;
                if app.history_idx.is_some() {
                    app.input_buf = app.input_draft.clone();
                    app.cursor_pos = app.input_buf.as_str().as_bytes().len();
                    app.history_idx = None;
                    proof {
                        vstd::utf8::encode_utf8_valid_utf8(app.input_buf@);
                        vstd::utf8::is_char_boundary_start_end_of_seq(utf8(app.input_buf@));
                    }
                }
            },
            _ => {},
        }
        cont
    }
}

/// `m` is `o` once the line `line` is taken for sending: recorded in the
/// history, the input line cleared, the feed scrolled to the bottom and the
/// status line cleared.
pub open spec fn cleared_for_send(o: App, m: App, line: String) -> bool {
    &&& m.history@ == pushed_history(o.history@, line)
    &&& m.history_idx is None
    &&& m.input_buf@.len() == 0
    &&& m.cursor_pos == 0
    &&& m.scroll_offset == 0
    &&& m.status_msg is None
    &&& m.status_error == o.status_error
    &&& m.yank_buf == o.yank_buf
    &&& m.input_draft == o.input_draft
    &&& m.file_offer == o.file_offer
    &&& m.show_help == o.show_help
    &&& m.show_join_requests == o.show_join_requests
    &&& m.click_regions == o.click_regions
}

/// `n` is `o` with the feed scrolled to `offset`.
pub open spec fn scrolled(o: App, n: App, offset: usize) -> bool {
    n == App { scroll_offset: offset, ..o }
}

/// The effect of the key `key` on the interface `oa` and the state `os`,
/// giving `na`, `ns` and `h`.
pub open spec fn key_handled(oa: App, na: App, os: AppState, ns: AppState, key: KeyEvent, h: Handled) -> bool {
    let empty = oa.input_buf@.len() == 0;
    match key.code {
        KeyCode::PageUp => nothing(h) && if os.active() > 0 {
            &&& ns.same_but_channels(&os)
            &&& ns.active() == os.active() - 1
            &&& ns.channel_seq() == os.channel_seq().update(
                os.active() - 1,
                Channel { unread: 0, ..os.channel_seq()[os.active() - 1] },
            )
            &&& scrolled(oa, na, 0)
        } else {
            ns == os && na == oa
        },
        KeyCode::PageDown => nothing(h) && if os.active() + 1 < os.channel_seq().len() {
            &&& ns.same_but_channels(&os)
            &&& ns.active() == os.active() + 1
            &&& ns.channel_seq() == os.channel_seq().update(
                os.active() + 1int,
                Channel { unread: 0, ..os.channel_seq()[os.active() + 1int] },
            )
            &&& scrolled(oa, na, 0)
        } else {
            ns == os && na == oa
        },
        KeyCode::Up => nothing(h) && ns == os && if key.ctrl {
            scrolled(oa, na, if oa.scroll_offset == usize::MAX { usize::MAX } else { (oa.scroll_offset + 1) as usize })
        } else if empty {
            scrolled(oa, na, if oa.scroll_offset > usize::MAX - 3 { usize::MAX } else { (oa.scroll_offset + 3) as usize })
        } else {
            browsed_back(oa, na)
        },
        KeyCode::Down => nothing(h) && ns == os && if key.ctrl {
            scrolled(oa, na, if oa.scroll_offset > 0 { (oa.scroll_offset - 1) as usize } else { 0 })
        } else if empty {
            scrolled(oa, na, if oa.scroll_offset > 3 { (oa.scroll_offset - 3) as usize } else { 0 })
        } else {
            browsed_forward(oa, na)
        },
        KeyCode::Left => nothing(h) && ns == os && if key.ctrl {
            moved_word_left(oa, na)
        } else {
            moved_left(oa, na)
        },
        KeyCode::Right => nothing(h) && ns == os && if key.ctrl {
            moved_word_right(oa, na)
        } else {
            moved_right(oa, na)
        },
        KeyCode::Home => nothing(h) && ns == os && moved_home(oa, na),
        KeyCode::End => nothing(h) && ns == os && moved_end(oa, na),
        KeyCode::Char(c) => nothing(h) && ns == os && if key.ctrl {
            if c == 'a' {
                moved_home(oa, na)
            } else if c == 'e' {
                moved_end(oa, na)
            } else if c == 'k' {
                cut_end(oa, na)
            } else if c == 'u' {
                cut_start(oa, na)
            } else if c == 'v' || c == 'y' {
                pasted(oa, na)
            } else if c == 'w' {
                word_cut(oa, na)
            } else {
                na == oa
            }
        } else {
            typed_text(oa, na, seq![c])
        },
        KeyCode::Backspace => nothing(h) && ns == os && if key.ctrl {
            word_cut(oa, na)
        } else {
            backspaced(oa, na)
        },
        KeyCode::Delete => nothing(h) && ns == os && deleted_forward(oa, na),
        KeyCode::Enter => exists|raw: String|
            #![trigger trimmed(oa.input_buf@, raw@)]
            trimmed(oa.input_buf@, raw@) && if raw@.len() == 0 {
                nothing(h) && ns == os && na == oa
            } else {
                exists|mid: App| #[trigger] cleared_for_send(oa, mid, raw) && dispatched(mid, na, os, ns, raw@, h)
            },
        KeyCode::Esc => nothing(h) && ns == os && {
            &&& na.status_msg is None
            &&& !na.show_help
            &&& !na.show_join_requests
            &&& na.yank_buf == oa.yank_buf
            &&& na.history == oa.history
            &&& na.input_draft == oa.input_draft
            &&& na.scroll_offset == oa.scroll_offset
            &&& na.status_error == oa.status_error
            &&& na.file_offer == oa.file_offer
            &&& na.click_regions == oa.click_regions
            &&& if oa.history_idx is Some {
                &&& na.input_buf == oa.input_draft
                &&& na.cursor_pos == utf8(oa.input_draft@).len()
                &&& na.history_idx is None
            } else {
                &&& na.input_buf == oa.input_buf
                &&& na.cursor_pos == oa.cursor_pos
                &&& na.history_idx == oa.history_idx
            }
        },
        _ => nothing(h) && ns == os && na == oa,
    }
}

/// What a key press on the whole screen asks of the rest of the program.
#[derive(Debug)]
pub struct Routed {
    /// Control-X: wipe everything and leave at once.
    pub kill: bool,
    pub handled: Handled,
}

/// The effect of a key press on the whole screen: the kill switch first,
/// then F1 toggling the help, the help and join-request popups taking
/// Escape, the file offer popup taking Y or N (or Escape), and otherwise the
/// main screen's key handling.
pub open spec fn key_routed(oa: App, na: App, os: AppState, ns: AppState, key: KeyEvent, r: Routed) -> bool {
    if key.ctrl_only && key.code == KeyCode::Char('x') {
        r.kill && nothing(r.handled) && na == oa && ns == os
    } else if key.code == KeyCode::F(1) {
        !r.kill && nothing(r.handled) && ns == os && na == App { show_help: !oa.show_help, ..oa }
    } else if oa.show_help {
        &&& !r.kill && nothing(r.handled) && ns == os
        &&& na == if key.code == KeyCode::Esc {
            App { show_help: false, ..oa }
        } else {
            oa
        }
    } else if oa.show_join_requests && key.code == KeyCode::Esc {
        !r.kill && nothing(r.handled) && ns == os && na == App { show_join_requests: false, ..oa }
    } else if oa.file_offer is Some {
        let (fname, _, tid, _) = oa.file_offer->0;
        &&& !r.kill && ns == os
        &&& if key.code == KeyCode::Char('y') || key.code == KeyCode::Char('Y') {
            &&& sends(r.handled, UiCommand::AcceptFile { transfer_id: tid })
            &&& na.status_msg matches Some(m) && m@ == "Downloading "@ + fname@ + "…"@
            &&& na == App { file_offer: None, status_msg: na.status_msg, status_error: false, ..oa }
        } else if key.code == KeyCode::Char('n') || key.code == KeyCode::Char('N') || key.code == KeyCode::Esc {
            &&& sends(r.handled, UiCommand::RejectFile { transfer_id: tid })
            &&& na.status_msg matches Some(m) && m@ == "Transfer rejected."@
            &&& na == App { file_offer: None, status_msg: na.status_msg, status_error: false, ..oa }
        } else {
            nothing(r.handled) && na == oa
        }
    } else {
        !r.kill && key_handled(oa, na, os, ns, key, r.handled)
    }
}

/// Routes a key press on the whole screen (see `key_routed`).
pub fn route_key(app: &mut App, state: &mut AppState, key: KeyEvent) -> (r: Routed)
    requires
        old(state).wf(),
        old(app).editor_ok(),
    ensures
        final(state).wf(),
        final(app).editor_ok(),
        key_routed(*old(app), *final(app), *old(state), *final(state), key, r),
{
    let none = Handled { result: InputResult::Continue, command: None, gateway: None };
    if key.ctrl_only && key.code == KeyCode::Char('x') {
        return Routed { kill: true, handled: none };
    }
    if key.code == KeyCode::F(1) {
        app.show_help = !app.show_help;
        return Routed { kill: false, handled: none };
    }
    if app.show_help {
        if key.code == KeyCode::Esc {
            app.show_help = false;
        }
        return Routed { kill: false, handled: none };
    }
    if app.show_join_requests && key.code == KeyCode::Esc {
        app.show_join_requests = false;
        return Routed { kill: false, handled: none };
    }
    if app.file_offer.is_some() {
        let accept = key.code == KeyCode::Char('y') || key.code == KeyCode::Char('Y');
        let reject = key.code == KeyCode::Char('n') || key.code == KeyCode::Char('N') || key.code == KeyCode::Esc;
        if accept || reject {
            match app.file_offer.take() {
                Some((fname, _, tid, _)) => {
                    if accept {
                        app.set_status(join_text(join_text("Downloading ", fname.as_str()).as_str(), "…"), false);
                        return Routed {
                            kill: false,
                            handled: Handled {
                                result: InputResult::Continue,
                                command: Some(UiCommand::AcceptFile { transfer_id: tid }),
                                gateway: None,
                            },
                        };
                    } else {
                        app.set_status("Transfer rejected.".to_owned(), false);
                        return Routed {
                            kill: false,
                            handled: Handled {
                                result: InputResult::Continue,
                                command: Some(UiCommand::RejectFile { transfer_id: tid }),
                                gateway: None,
                            },
                        };
                    }
                },
                None => {
                    return Routed { kill: false, handled: none };
                },
            }
        }
        return Routed { kill: false, handled: none };
    }
    let h = InputHandler::handle(app, state, key);
    Routed { kill: false, handled: h }
}

/// Finishes `/gateway <text>` once `text` was read as an address (`None`
/// when it is not `ip:port`): the command to link to it, or an error in the
/// status line.
pub fn gateway_outcome(app: &mut App, text: &str, addr: Option<PeerAddr>) -> (r: Option<UiCommand>)
    ensures
        match addr {
            Some(a) => r == Some(UiCommand::EnableGateway { target_addr: a }) && status_set(
                *old(app),
                *final(app),
                "Connecting gateway to "@ + text@ + "…"@,
                false,
            ),
            None => r is None && status_set(*old(app), *final(app), "Invalid address '"@ + text@ + "' — use ip:port"@, true),
        },
{
    match addr {
        Some(a) => {
            app.set_status(join_text(join_text("Connecting gateway to ", text).as_str(), "…"), false);
            Some(UiCommand::EnableGateway { target_addr: a })
        },
        None => {
            app.set_status(join_text(join_text("Invalid address '", text).as_str(), "' — use ip:port"), true);
            None
        },
    }
}

} // verus!
