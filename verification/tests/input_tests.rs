use mshwisper::events::UiCommand;
use mshwisper::state::AppState;
use mshwisper::tui::app::{App, InputResult};
use mshwisper::tui::input::{gateway_outcome, route_key, Handled, InputHandler, KeyCode, KeyEvent};
use mshwisper::types::{Peer, PeerAddr, Timestamp};

fn key(code: KeyCode) -> KeyEvent {
    KeyEvent { code, ctrl: false, ctrl_only: false }
}

fn ctrl(code: KeyCode) -> KeyEvent {
    KeyEvent { code, ctrl: true, ctrl_only: true }
}

fn type_line(app: &mut App, state: &mut AppState, text: &str) -> Handled {
    for c in text.chars() {
        InputHandler::handle(app, state, key(KeyCode::Char(c)));
    }
    InputHandler::handle(app, state, key(KeyCode::Enter))
}

fn setup() -> (App, AppState) {
    (App::new(), AppState::new("me-id".to_string(), "me".to_string()))
}

#[test]
fn plain_line_is_sent_to_the_channel_shown() {
    let (mut a, mut s) = setup();
    let h = type_line(&mut a, &mut s, "  hello there ");
    match h.command {
        Some(UiCommand::SendMessage { channel, content }) => {
            assert_eq!(channel, "#general");
            assert_eq!(content, "hello there");
        }
        _ => panic!(),
    }
    assert_eq!(h.result, InputResult::Continue);
    assert_eq!(a.input_buf, "");
    assert_eq!(a.history, vec!["hello there".to_string()]);
}

#[test]
fn blank_line_does_nothing() {
    let (mut a, mut s) = setup();
    let h = type_line(&mut a, &mut s, "   ");
    assert!(h.command.is_none());
    assert_eq!(a.input_buf, "   ");
    assert!(a.history.is_empty());
}

#[test]
fn join_switches_to_the_joined_channel() {
    let (mut a, mut s) = setup();
    type_line(&mut a, &mut s, "/join ops");
    assert_eq!(s.channel_names()[3], "#ops");
    assert_eq!(s.active_channel_index(), 3);
    assert_eq!(a.status_msg.as_deref(), Some("Joined #ops"));
    type_line(&mut a, &mut s, "/join #recon");
    assert_eq!(s.channels_len(), 4);
    assert_eq!(s.active_channel_index(), 1);
    assert_eq!(a.status_msg.as_deref(), Some("Joined #recon"));
}

#[test]
fn join_of_an_existing_channel_shows_it() {
    let (mut a, mut s) = setup();
    type_line(&mut a, &mut s, "/join recon");
    assert_eq!(s.channel_names(), vec!["#general".to_string(), "#recon".to_string(), "#web-attack".to_string()]);
    assert_eq!(s.active_channel_index(), 1);
    assert_eq!(a.status_msg.as_deref(), Some("Joined #recon"));
}

#[test]
fn cmd_group_request_approve_deny() {
    let (mut a, mut s) = setup();
    match type_line(&mut a, &mut s, "/cmd ls -la").command {
        Some(UiCommand::SendCommand { channel, cmd }) => {
            assert_eq!(channel, "#general");
            assert_eq!(cmd, "ls -la");
        }
        _ => panic!(),
    }
    match type_line(&mut a, &mut s, "/group red team").command {
        Some(UiCommand::CreateGroup { name }) => assert_eq!(name, "#red team"),
        _ => panic!(),
    }
    assert_eq!(a.status_msg.as_deref(), Some("Created private group #red team — announced to mesh"));
    match type_line(&mut a, &mut s, "/request red  owner-1 ").command {
        Some(UiCommand::RequestJoinGroup { group_name, owner_id }) => {
            assert_eq!(group_name, "#red");
            assert_eq!(owner_id, "owner-1");
        }
        _ => panic!(),
    }
    assert!(type_line(&mut a, &mut s, "/request red").command.is_none());
    assert_eq!(a.status_msg.as_deref(), Some("Usage: /request <#group> <owner_node_id>"));
    assert!(a.status_error);
    match type_line(&mut a, &mut s, "/approve #g bob").command {
        Some(UiCommand::ApproveJoin { group_name, requester_id }) => {
            assert_eq!(group_name, "#g");
            assert_eq!(requester_id, "bob");
        }
        _ => panic!(),
    }
    match type_line(&mut a, &mut s, "/deny #g bob").command {
        Some(UiCommand::DenyJoin { requester_id, .. }) => assert_eq!(requester_id, "bob"),
        _ => panic!(),
    }
    assert!(type_line(&mut a, &mut s, "/deny #g").command.is_none());
    assert_eq!(a.status_msg.as_deref(), Some("Usage: /deny <#group> <requester_id>"));
}

#[test]
fn mshsend_resolves_peers() {
    let (mut a, mut s) = setup();
    s.add_peer(Peer {
        id: "abcdef-123".to_string(),
        nickname: "pal".to_string(),
        addr: PeerAddr::V4 { octets: [1, 2, 3, 4], port: 5 },
        subnet: "1.2.x.x".to_string(),
        last_seen: Timestamp { secs: 0, nanos: 0 },
        is_gateway: false,
    });
    match type_line(&mut a, &mut s, "/mshsend pal /tmp/a b.txt").command {
        Some(UiCommand::SendFile { peer_id, path }) => {
            assert_eq!(peer_id, "abcdef-123");
            assert_eq!(path, "/tmp/a b.txt");
        }
        _ => panic!(),
    }
    assert_eq!(a.status_msg.as_deref(), Some("Sending /tmp/a b.txt…"));
    assert!(type_line(&mut a, &mut s, "/mshsend abc /x").command.is_some());
    assert!(type_line(&mut a, &mut s, "/mshsend nobody /x").command.is_none());
    assert_eq!(a.status_msg.as_deref(), Some("Peer 'nobody' not found. Use /mshsend <nick> <path>"));
    assert!(type_line(&mut a, &mut s, "/mshsend pal").command.is_none());
    assert_eq!(a.status_msg.as_deref(), Some("Usage: /mshsend <peer_nick> <file_path>"));
}

#[test]
fn misc_commands() {
    let (mut a, mut s) = setup();
    type_line(&mut a, &mut s, "/requests");
    assert!(a.show_join_requests);
    type_line(&mut a, &mut s, "/help");
    assert!(a.show_help);
    let h = type_line(&mut a, &mut s, "/gateway  10.0.0.1:47801 ");
    assert_eq!(h.gateway.as_deref(), Some("10.0.0.1:47801"));
    type_line(&mut a, &mut s, "/gateway");
    assert_eq!(a.status_msg.as_deref(), Some("Usage: /gateway <ip:port>"));
    assert!(!a.status_error);
    type_line(&mut a, &mut s, "/frobnicate");
    assert_eq!(a.status_msg.as_deref(), Some("Unknown command: /frobnicate  (F1 for help)"));
    let h = type_line(&mut a, &mut s, "/quit");
    assert_eq!(h.result, InputResult::Quit);
    assert!(matches!(h.command, Some(UiCommand::Shutdown)));
    let h = type_line(&mut a, &mut s, "/exit");
    assert_eq!(h.result, InputResult::Quit);
}

#[test]
fn gateway_outcome_statuses() {
    let (mut a, _) = setup();
    let c = gateway_outcome(&mut a, "1.2.3.4:5", Some(PeerAddr::V4 { octets: [1, 2, 3, 4], port: 5 }));
    assert!(matches!(c, Some(UiCommand::EnableGateway { .. })));
    assert_eq!(a.status_msg.as_deref(), Some("Connecting gateway to 1.2.3.4:5…"));
    assert!(gateway_outcome(&mut a, "nope", None).is_none());
    assert_eq!(a.status_msg.as_deref(), Some("Invalid address 'nope' — use ip:port"));
    assert!(a.status_error);
}

#[test]
fn navigation_keys() {
    let (mut a, mut s) = setup();
    InputHandler::handle(&mut a, &mut s, key(KeyCode::PageDown));
    assert_eq!(s.active_channel_index(), 1);
    InputHandler::handle(&mut a, &mut s, key(KeyCode::PageDown));
    InputHandler::handle(&mut a, &mut s, key(KeyCode::PageDown));
    assert_eq!(s.active_channel_index(), 2);
    InputHandler::handle(&mut a, &mut s, key(KeyCode::PageUp));
    assert_eq!(s.active_channel_index(), 1);
    InputHandler::handle(&mut a, &mut s, key(KeyCode::Up));
    assert_eq!(a.scroll_offset, 3);
    InputHandler::handle(&mut a, &mut s, ctrl(KeyCode::Up));
    assert_eq!(a.scroll_offset, 4);
    InputHandler::handle(&mut a, &mut s, key(KeyCode::Down));
    assert_eq!(a.scroll_offset, 1);
    InputHandler::handle(&mut a, &mut s, key(KeyCode::Down));
    assert_eq!(a.scroll_offset, 0);
}

#[test]
fn control_keys_edit() {
    let (mut a, mut s) = setup();
    for c in "abc def".chars() {
        InputHandler::handle(&mut a, &mut s, key(KeyCode::Char(c)));
    }
    InputHandler::handle(&mut a, &mut s, ctrl(KeyCode::Char('w')));
    assert_eq!(a.input_buf, "abc ");
    InputHandler::handle(&mut a, &mut s, ctrl(KeyCode::Char('a')));
    assert_eq!(a.cursor_pos, 0);
    InputHandler::handle(&mut a, &mut s, ctrl(KeyCode::Char('y')));
    assert_eq!(a.input_buf, "defabc ");
    InputHandler::handle(&mut a, &mut s, ctrl(KeyCode::Char('k')));
    assert_eq!(a.input_buf, "def");
    InputHandler::handle(&mut a, &mut s, ctrl(KeyCode::Char('e')));
    assert_eq!(a.cursor_pos, 3);
    InputHandler::handle(&mut a, &mut s, ctrl(KeyCode::Char('u')));
    assert_eq!(a.input_buf, "");
    assert_eq!(a.yank_buf, "def");
    InputHandler::handle(&mut a, &mut s, ctrl(KeyCode::Char('b')));
    assert_eq!(a.input_buf, "");
}

#[test]
fn escape_restores_draft() {
    let (mut a, mut s) = setup();
    type_line(&mut a, &mut s, "first");
    for c in "dra".chars() {
        InputHandler::handle(&mut a, &mut s, key(KeyCode::Char(c)));
    }
    InputHandler::handle(&mut a, &mut s, key(KeyCode::Up));
    assert_eq!(a.input_buf, "first");
    InputHandler::handle(&mut a, &mut s, key(KeyCode::Esc));
    assert_eq!(a.input_buf, "dra");
    assert_eq!(a.history_idx, None);
}

#[test]
fn routing_popups_and_kill_switch() {
    let (mut a, mut s) = setup();
    let r = route_key(&mut a, &mut s, ctrl(KeyCode::Char('x')));
    assert!(r.kill);
    route_key(&mut a, &mut s, key(KeyCode::F(1)));
    assert!(a.show_help);
    route_key(&mut a, &mut s, key(KeyCode::Char('z')));
    assert_eq!(a.input_buf, "");
    route_key(&mut a, &mut s, key(KeyCode::Esc));
    assert!(!a.show_help);
    a.file_offer = Some(("f.txt".to_string(), 10, "tid".to_string(), "pal".to_string()));
    let r = route_key(&mut a, &mut s, key(KeyCode::Char('q')));
    assert!(r.handled.command.is_none());
    let r = route_key(&mut a, &mut s, key(KeyCode::Char('Y')));
    assert!(matches!(r.handled.command, Some(UiCommand::AcceptFile { ref transfer_id }) if transfer_id == "tid"));
    assert_eq!(a.status_msg.as_deref(), Some("Downloading f.txt…"));
    assert!(a.file_offer.is_none());
    a.file_offer = Some(("f.txt".to_string(), 10, "tid".to_string(), "pal".to_string()));
    let r = route_key(&mut a, &mut s, key(KeyCode::Esc));
    assert!(matches!(r.handled.command, Some(UiCommand::RejectFile { .. })));
    assert_eq!(a.status_msg.as_deref(), Some("Transfer rejected."));
    let r = route_key(&mut a, &mut s, key(KeyCode::Char('h')));
    assert!(!r.kill);
    assert_eq!(a.input_buf, "h");
}

#[test]
fn join_trims_unicode_whitespace() {
    let (mut a, mut s) = setup();
    type_line(&mut a, &mut s, "/join \u{3000}ops\u{00A0}");
    assert_eq!(s.channel_names()[3], "#ops");
    assert_eq!(s.active_channel_index(), 3);
}
