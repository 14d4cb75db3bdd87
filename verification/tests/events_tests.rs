use mshwisper::events::{NetEvent, UiCommand};
use mshwisper::state::AppState;
use mshwisper::tui::app::{App, MouseEvent, MouseKind};
use mshwisper::tui::render::{ClickAction, ClickRegion, Rect};
use mshwisper::types::{
    FileTransfer, GroupInfo, MessageContent, Peer, PeerAddr, Timestamp, TransferDirection,
    TransferStatus,
};

fn fresh() -> (App, AppState) {
    (App::new(), AppState::new("me".to_string(), "alice".to_string()))
}

fn last_system_text(state: &AppState) -> String {
    let msgs = state.active_messages();
    match &msgs[msgs.len() - 1].content {
        MessageContent::System(t) => t.clone(),
        other => panic!("expected a system line, got {:?}", other),
    }
}

fn bob() -> Peer {
    Peer {
        id: "p1".to_string(),
        nickname: "bob".to_string(),
        addr: PeerAddr::V4 { octets: [10, 0, 0, 7], port: 47801 },
        subnet: "10.0.x.x".to_string(),
        last_seen: Timestamp { secs: 5, nanos: 0 },
        is_gateway: false,
    }
}

#[test]
fn peer_joined_writes_a_notice_with_address() {
    let (mut app, mut state) = fresh();
    app.scroll_offset = 9;
    app.handle_net_event(&mut state, NetEvent::PeerJoined(bob()));
    assert_eq!(last_system_text(&state), "[+] bob joined  [10.0.0.7:47801]");
    assert_eq!(app.scroll_offset, 0);
}

#[test]
fn peer_left_uses_nickname_when_known_else_id() {
    let (mut app, mut state) = fresh();
    state.add_peer(bob());
    app.handle_net_event(&mut state, NetEvent::PeerLeft("p1".to_string()));
    assert_eq!(last_system_text(&state), "[-] bob left");
    app.handle_net_event(&mut state, NetEvent::PeerLeft("zz".to_string()));
    assert_eq!(last_system_text(&state), "[-] zz left");
}

#[test]
fn file_offer_is_kept_and_accepted_by_click() {
    let (mut app, mut state) = fresh();
    app.handle_net_event(
        &mut state,
        NetEvent::FileOfferReceived {
            from_id: "p1".to_string(),
            from_nick: "bob".to_string(),
            filename: "a.txt".to_string(),
            size: 12,
            transfer_id: "t9".to_string(),
        },
    );
    assert_eq!(
        app.file_offer,
        Some(("a.txt".to_string(), 12, "t9".to_string(), "bob".to_string()))
    );
    let cmd = app.dispatch_click(&mut state, ClickAction::AcceptFile);
    match cmd {
        Some(UiCommand::AcceptFile { transfer_id }) => assert_eq!(transfer_id, "t9"),
        other => panic!("unexpected {:?}", other),
    }
    assert!(app.file_offer.is_none());
    assert_eq!(app.status_msg.as_deref(), Some("Downloading a.txt…"));
    assert!(!app.status_error);
    // No offer left: a second click does nothing.
    assert!(app.dispatch_click(&mut state, ClickAction::AcceptFile).is_none());
}

#[test]
fn reject_click_answers_the_offer() {
    let (mut app, mut state) = fresh();
    app.file_offer = Some(("b".to_string(), 1, "t1".to_string(), "bob".to_string()));
    match app.dispatch_click(&mut state, ClickAction::RejectFile) {
        Some(UiCommand::RejectFile { transfer_id }) => assert_eq!(transfer_id, "t1"),
        other => panic!("unexpected {:?}", other),
    }
    assert_eq!(app.status_msg.as_deref(), Some("Transfer rejected."));
}

#[test]
fn transfer_events_update_the_list() {
    let (mut app, mut state) = fresh();
    state.add_transfer(FileTransfer {
        id: "t2".to_string(),
        filename: "x.bin".to_string(),
        size: 100,
        transferred: 0,
        direction: TransferDirection::Receiving,
        peer_nick: "bob".to_string(),
        status: TransferStatus::Pending,
    });
    app.handle_net_event(
        &mut state,
        NetEvent::TransferProgress { transfer_id: "t2".to_string(), bytes_done: 40 },
    );
    assert_eq!(state.transfers()[0].transferred, 40);
    assert_eq!(state.transfers()[0].status, TransferStatus::Active);
    app.handle_net_event(
        &mut state,
        NetEvent::FileTransferFailed { transfer_id: "t2".to_string(), reason: "gone".to_string() },
    );
    assert_eq!(state.transfers()[0].status, TransferStatus::Failed("gone".to_string()));
    assert_eq!(app.status_msg.as_deref(), Some("Transfer failed: gone"));
    assert!(app.status_error);
}

#[test]
fn join_request_and_group_events() {
    let (mut app, mut state) = fresh();
    app.handle_net_event(
        &mut state,
        NetEvent::GroupJoinRequest {
            group_name: "#red".to_string(),
            requester_id: "p1".to_string(),
            requester_nick: "bob".to_string(),
        },
    );
    assert!(app.show_join_requests);
    assert_eq!(state.pending_requests().len(), 1);
    app.handle_net_event(
        &mut state,
        NetEvent::GroupAnnounced {
            info: GroupInfo { name: "#ops".to_string(), creator_id: "p2".to_string(), members: vec![] },
        },
    );
    assert_eq!(
        app.status_msg.as_deref(),
        Some("Group #ops exists — /request #ops <owner_id> to join")
    );
    app.handle_net_event(&mut state, NetEvent::GroupJoinDenied { group_name: "#ops".to_string() });
    assert_eq!(app.status_msg.as_deref(), Some("Join request for #ops was denied"));
    assert!(app.status_error);
}

#[test]
fn gateway_linked_adds_bridge_channel() {
    let (mut app, mut state) = fresh();
    app.handle_net_event(&mut state, NetEvent::GatewayLinked("10.1.x.x".to_string()));
    assert!(state.channel_names().contains(&"#10.1.x.x-bridge".to_string()));
    assert_eq!(last_system_text(&state), "Gateway bridged to subnet 10.1.x.x");
    assert_eq!(app.status_msg.as_deref(), Some("Gateway linked: 10.1.x.x"));
}

#[test]
fn clicks_scroll_select_and_close() {
    let (mut app, mut state) = fresh();
    assert!(app.dispatch_click(&mut state, ClickAction::ScrollUp).is_none());
    assert_eq!(app.scroll_offset, 3);
    app.dispatch_click(&mut state, ClickAction::ScrollDown);
    app.dispatch_click(&mut state, ClickAction::ScrollDown);
    assert_eq!(app.scroll_offset, 0);
    app.dispatch_click(&mut state, ClickAction::SelectChannel(2));
    assert_eq!(state.active_channel_index(), 2);
    app.dispatch_click(&mut state, ClickAction::OpenHelp);
    assert!(app.show_help);
    app.show_join_requests = true;
    app.dispatch_click(&mut state, ClickAction::ClosePopup);
    assert!(!app.show_help && !app.show_join_requests);
    match app.dispatch_click(
        &mut state,
        ClickAction::ApproveJoin { group: "#red".to_string(), requester_id: "p1".to_string() },
    ) {
        Some(UiCommand::ApproveJoin { group_name, requester_id }) => {
            assert_eq!(group_name, "#red");
            assert_eq!(requester_id, "p1");
        }
        other => panic!("unexpected {:?}", other),
    }
}

#[test]
fn mouse_click_uses_first_region_holding_the_cell() {
    let (mut app, mut state) = fresh();
    app.click_regions = vec![
        ClickRegion { rect: Rect { x: 0, y: 0, width: 10, height: 2 }, action: ClickAction::OpenHelp },
        ClickRegion { rect: Rect { x: 0, y: 0, width: 20, height: 5 }, action: ClickAction::SelectChannel(1) },
    ];
    app.handle_mouse(&mut state, MouseEvent { kind: MouseKind::LeftDown, column: 3, row: 1 });
    assert!(app.show_help);
    assert_eq!(state.active_channel_index(), 0);
    app.handle_mouse(&mut state, MouseEvent { kind: MouseKind::LeftDown, column: 15, row: 4 });
    assert_eq!(state.active_channel_index(), 1);
    // Outside every region: nothing changes.
    app.handle_mouse(&mut state, MouseEvent { kind: MouseKind::LeftDown, column: 50, row: 50 });
    assert_eq!(state.active_channel_index(), 1);
    app.handle_mouse(&mut state, MouseEvent { kind: MouseKind::ScrollUp, column: 0, row: 0 });
    assert_eq!(app.scroll_offset, 3);
}
