use mshwisper::events::{NetEvent, UiCommand};
use mshwisper::mesh::{
    acks_after_leave, chunk_progress, gateway_linked, handle_app_msg, handle_command, handle_hello, offer_accepted, peer_gone, transfer_done,
    register_offer, AckBook, MeshAction,
};
use mshwisper::state::AppState;
use mshwisper::types::{
    AppMessage, ChannelKind, GroupInfo, Message, MessageContent, MessageStatus, PeerAddr,
    Timestamp, TransferDirection, TransferStatus,
};

fn state() -> AppState {
    AppState::new("me-id".to_string(), "me".to_string())
}

fn none() -> Vec<String> {
    Vec::new()
}

fn ids(v: &[&str]) -> Vec<String> {
    v.iter().map(|s| s.to_string()).collect()
}

fn cmd(s: &mut AppState, c: UiCommand) -> Vec<MeshAction> {
    handle_command(s, c, &none(), &mut AckBook::new())
}

fn msg_in(s: &mut AppState, m: AppMessage, from: &str, nick: &str) -> Option<NetEvent> {
    handle_app_msg(s, m, from, nick, &mut AckBook::new()).0
}

fn v4(a: u8, b: u8, c: u8, d: u8, port: u16) -> PeerAddr {
    PeerAddr::V4 { octets: [a, b, c, d], port }
}

#[test]
fn send_message_without_peers_stays_local() {
    let mut s = state();
    let out = cmd(&mut s, UiCommand::SendMessage { channel: "#general".to_string(), content: "hi".to_string() });
    assert!(out.is_empty());
    let m = s.active_messages();
    assert_eq!(m.len(), 2);
    assert_eq!(m[1].status, MessageStatus::Sending);
    assert_eq!(m[1].sender_nick, "me");
    assert_eq!(m[1].id.len(), 36);
}

#[test]
fn send_message_to_a_known_peer_without_session_stays_sending() {
    let mut s = state();
    handle_hello(&mut s, "p".to_string(), "pal".to_string(), 47801, &v4(10, 0, 0, 2, 5000));
    let mut book = AckBook::new();
    let out = handle_command(&mut s, UiCommand::SendMessage { channel: "#general".to_string(), content: "hi".to_string() }, &none(), &mut book);
    assert!(out.is_empty());
    assert_eq!(s.active_messages()[1].status, MessageStatus::Sending);
    assert!(book.awaiting.is_empty());
}

#[test]
fn send_message_with_a_session_is_broadcast_and_marked_sent() {
    let mut s = state();
    handle_hello(&mut s, "p".to_string(), "pal".to_string(), 47801, &v4(10, 0, 0, 2, 5000));
    let mut book = AckBook::new();
    let out = handle_command(&mut s, UiCommand::SendMessage { channel: "#general".to_string(), content: "hi".to_string() }, &ids(&["p"]), &mut book);
    assert_eq!(out.len(), 1);
    match &out[0] {
        MeshAction::Broadcast(AppMessage::Chat(m)) => {
            assert!(matches!(&m.content, MessageContent::Chat(t) if t == "hi"));
            assert_eq!(m.status, MessageStatus::Sending);
        }
        _ => panic!(),
    }
    assert_eq!(s.active_messages()[1].status, MessageStatus::Sent);
    assert_eq!(book.awaiting.len(), 1);
    assert_eq!(book.awaiting[0].0, s.active_messages()[1].id);
    assert_eq!(book.awaiting[0].1, ids(&["p"]));
}

#[test]
fn send_command_without_session_stays_sending() {
    let mut s = state();
    let out = cmd(&mut s, UiCommand::SendCommand { channel: "#general".to_string(), cmd: "ls".to_string() });
    assert!(out.is_empty());
    let m = s.active_messages();
    assert!(matches!(&m[1].content, MessageContent::Command(c) if c == "ls"));
    assert_eq!(m[1].sender_id, "me-id");
    assert_eq!(m[1].status, MessageStatus::Sending);
}

#[test]
fn send_command_with_sessions_is_broadcast() {
    let mut s = state();
    let mut book = AckBook::new();
    let out = handle_command(&mut s, UiCommand::SendCommand { channel: "#recon".to_string(), cmd: "id".to_string() }, &ids(&["a", "b"]), &mut book);
    assert_eq!(out.len(), 1);
    s.set_active_channel(1);
    assert_eq!(s.active_messages()[0].status, MessageStatus::Sent);
    assert_eq!(book.awaiting[0].1, ids(&["a", "b"]));
}

#[test]
fn delivered_only_once_every_receiver_acknowledged() {
    let mut s = state();
    let mut book = AckBook::new();
    handle_command(&mut s, UiCommand::SendMessage { channel: "#general".to_string(), content: "hi".to_string() }, &ids(&["a", "b"]), &mut book);
    let id = s.active_messages()[1].id.clone();
    let (ev, reply) = handle_app_msg(&mut s, AppMessage::Delivered { msg_id: id.clone() }, "a", "A", &mut book);
    assert!(ev.is_none() && reply.is_none());
    assert_eq!(s.active_messages()[1].status, MessageStatus::Sent);
    // A repeated acknowledgement, or one from a stranger, changes nothing.
    handle_app_msg(&mut s, AppMessage::Delivered { msg_id: id.clone() }, "a", "A", &mut book);
    handle_app_msg(&mut s, AppMessage::Delivered { msg_id: id.clone() }, "z", "Z", &mut book);
    assert_eq!(s.active_messages()[1].status, MessageStatus::Sent);
    let (ev, _) = handle_app_msg(&mut s, AppMessage::Delivered { msg_id: id.clone() }, "b", "B", &mut book);
    assert!(matches!(ev, Some(NetEvent::MessageDelivered { ref msg_id }) if *msg_id == id));
    assert_eq!(s.active_messages()[1].status, MessageStatus::Delivered);
    assert!(book.awaiting.is_empty());
    // An acknowledgement of an unknown message is ignored.
    let (ev, _) = handle_app_msg(&mut s, AppMessage::Delivered { msg_id: "nope".to_string() }, "b", "B", &mut book);
    assert!(ev.is_none());
}

#[test]
fn ack_book_by_itself() {
    let mut b = AckBook::new();
    b.expect("m".to_string(), ids(&["x", "y"]));
    b.expect("n".to_string(), ids(&["x"]));
    assert!(!b.acknowledge("m", "y"));
    assert_eq!(b.awaiting[0].1, ids(&["x"]));
    assert!(b.acknowledge("n", "x"));
    assert_eq!(b.awaiting.len(), 1);
    assert!(b.acknowledge("m", "x"));
    assert!(b.awaiting.is_empty());
    assert!(!b.acknowledge("m", "x"));
}

#[test]
fn create_group_announces_once() {
    let mut s = state();
    let out = cmd(&mut s, UiCommand::CreateGroup { name: "red".to_string() });
    match &out[..] {
        [MeshAction::Broadcast(AppMessage::GroupAnnounce { info })] => {
            assert_eq!(info.name, "#red");
            assert_eq!(info.creator_id, "me-id");
            assert_eq!(info.members, vec!["me-id".to_string()]);
        }
        _ => panic!(),
    }
    let again = cmd(&mut s, UiCommand::CreateGroup { name: "#red".to_string() });
    assert!(again.is_empty());
}

#[test]
fn approve_and_deny_join() {
    let mut s = state();
    cmd(&mut s, UiCommand::CreateGroup { name: "#g".to_string() });
    s.add_pending_request("#g".to_string(), "bob".to_string(), "Bob".to_string());
    s.group_add_pending("#g", "bob".to_string());
    let out = cmd(&mut s, UiCommand::ApproveJoin { group_name: "#g".to_string(), requester_id: "bob".to_string() });
    assert!(matches!(&out[..], [MeshAction::Broadcast(AppMessage::GroupJoinApprove { .. })]));
    assert!(s.pending_requests().is_empty());
    match &s.channel_kinds()[3] {
        ChannelKind::Group { members, pending, .. } => {
            assert!(members.contains(&"bob".to_string()));
            assert!(pending.is_empty());
        }
        _ => panic!(),
    }
    s.add_pending_request("#g".to_string(), "eve".to_string(), "Eve".to_string());
    s.group_add_pending("#g", "eve".to_string());
    let out = cmd(&mut s, UiCommand::DenyJoin { group_name: "#g".to_string(), requester_id: "eve".to_string() });
    match &out[..] {
        [MeshAction::SendTo { peer_id, msg: AppMessage::GroupJoinDeny { denied_id, .. } }] => {
            assert_eq!(peer_id, "eve");
            assert_eq!(denied_id, "eve");
        }
        _ => panic!(),
    }
    assert!(s.pending_requests().is_empty());
    match &s.channel_kinds()[3] {
        ChannelKind::Group { members, pending, .. } => {
            assert!(!members.contains(&"eve".to_string()));
            assert!(pending.is_empty());
        }
        _ => panic!(),
    }
}

#[test]
fn approving_needs_ownership() {
    let mut s = state();
    let info = GroupInfo { name: "#theirs".to_string(), creator_id: "o".to_string(), members: vec!["o".to_string()] };
    msg_in(&mut s, AppMessage::GroupAnnounce { info }, "o", "O");
    let before = s.channel_kinds();
    let out = cmd(&mut s, UiCommand::ApproveJoin { group_name: "#theirs".to_string(), requester_id: "bob".to_string() });
    assert!(out.is_empty());
    assert_eq!(s.channel_kinds(), before);
    let out = cmd(&mut s, UiCommand::ApproveJoin { group_name: "#nowhere".to_string(), requester_id: "bob".to_string() });
    assert!(out.is_empty());
}

#[test]
fn accept_file_opens_receiver_when_known() {
    let mut s = state();
    let out = cmd(&mut s, UiCommand::AcceptFile { transfer_id: "t".to_string() });
    assert_eq!(out.len(), 1);
    msg_in(
        &mut s,
        AppMessage::FileOffer { name: "a.bin".to_string(), size: 5, transfer_id: "t".to_string(), from_id: "p".to_string() },
        "p",
        "pal",
    );
    let out = cmd(&mut s, UiCommand::AcceptFile { transfer_id: "t".to_string() });
    match &out[..] {
        [MeshAction::OpenReceiver { transfer_id, filename }, MeshAction::Broadcast(AppMessage::FileAccept { .. })] => {
            assert_eq!(transfer_id, "t");
            assert_eq!(filename, "a.bin");
        }
        _ => panic!(),
    }
}

#[test]
fn other_commands_map_to_actions() {
    let mut s = state();
    let out = cmd(&mut s, UiCommand::RequestJoinGroup { group_name: "#g".to_string(), owner_id: "o".to_string() });
    match &out[..] {
        [MeshAction::SendTo { peer_id, msg: AppMessage::GroupJoinReq { requester_id, requester_nick, .. } }] => {
            assert_eq!(peer_id, "o");
            assert_eq!(requester_id, "me-id");
            assert_eq!(requester_nick, "me");
        }
        _ => panic!(),
    }
    assert!(matches!(&cmd(&mut s, UiCommand::Shutdown)[..], [MeshAction::Shutdown]));
    assert!(matches!(&cmd(&mut s, UiCommand::RejectFile { transfer_id: "t".to_string() })[..], [MeshAction::Broadcast(AppMessage::FileReject { .. })]));
    assert!(matches!(&cmd(&mut s, UiCommand::SendFile { peer_id: "p".to_string(), path: "/x".to_string() })[..], [MeshAction::OfferFile { .. }]));
    assert!(matches!(&cmd(&mut s, UiCommand::EnableGateway { target_addr: v4(1, 2, 3, 4, 5) })[..], [MeshAction::ConnectGateway(_)]));
}

#[test]
fn app_messages_update_state() {
    let mut s = state();
    let m = Message {
        id: "m".to_string(),
        sender_id: "p".to_string(),
        sender_nick: "pal".to_string(),
        channel: "#recon".to_string(),
        content: MessageContent::Chat("yo".to_string()),
        timestamp: Timestamp { secs: 1, nanos: 0 },
        status: MessageStatus::Sent,
    };
    let (ev, reply) = handle_app_msg(&mut s, AppMessage::Chat(m), "p", "pal", &mut AckBook::new());
    assert!(matches!(ev, Some(NetEvent::MessageReceived(_))));
    match reply {
        Some(MeshAction::SendTo { peer_id, msg: AppMessage::Delivered { msg_id } }) => {
            assert_eq!(peer_id, "p");
            assert_eq!(msg_id, "m");
        }
        _ => panic!(),
    }
    assert_eq!(s.channel_unreads()[1], 1);
    let ev = msg_in(&mut s, AppMessage::FileOffer { name: "f".to_string(), size: 3, transfer_id: "t".to_string(), from_id: "p".to_string() }, "p", "pal");
    match ev {
        Some(NetEvent::FileOfferReceived { from_nick, filename, size, .. }) => {
            assert_eq!(from_nick, "pal");
            assert_eq!(filename, "f");
            assert_eq!(size, 3);
        }
        _ => panic!(),
    }
    assert_eq!(s.transfers()[0].direction, TransferDirection::Receiving);
    assert!(msg_in(&mut s, AppMessage::FileAccept { transfer_id: "t".to_string() }, "p", "pal").is_none());
    assert_eq!(s.transfers()[0].status, TransferStatus::Active);
    assert!(offer_accepted(&s, "t"));
    msg_in(&mut s, AppMessage::FileReject { transfer_id: "t".to_string() }, "p", "pal");
    assert_eq!(s.transfers()[0].status, TransferStatus::Failed("rejected".to_string()));
    assert!(!offer_accepted(&s, "t"));
}

#[test]
fn join_requests_only_for_owned_groups() {
    let mut s = state();
    cmd(&mut s, UiCommand::CreateGroup { name: "#mine".to_string() });
    let ev = msg_in(&mut s, AppMessage::GroupJoinReq { group_name: "#mine".to_string(), requester_id: "r".to_string(), requester_nick: "R".to_string() }, "r", "R");
    assert!(matches!(ev, Some(NetEvent::GroupJoinRequest { .. })));
    assert_eq!(s.pending_requests().len(), 1);
    match &s.channel_kinds()[3] {
        ChannelKind::Group { pending, .. } => assert_eq!(pending, &vec!["r".to_string()]),
        _ => panic!(),
    }
    let info = GroupInfo { name: "#theirs".to_string(), creator_id: "o".to_string(), members: vec!["o".to_string()] };
    msg_in(&mut s, AppMessage::GroupAnnounce { info }, "o", "O");
    let before = s.channel_kinds();
    let ev = msg_in(&mut s, AppMessage::GroupJoinReq { group_name: "#theirs".to_string(), requester_id: "q".to_string(), requester_nick: "Q".to_string() }, "q", "Q");
    assert!(ev.is_none());
    assert_eq!(s.pending_requests().len(), 1);
    assert_eq!(s.channel_kinds(), before);
    assert!(msg_in(&mut s, AppMessage::GroupJoinReq { group_name: "#none".to_string(), requester_id: "q".to_string(), requester_nick: "Q".to_string() }, "q", "Q").is_none());
}

#[test]
fn group_messages_from_peers() {
    let mut s = state();
    let info = GroupInfo { name: "#g".to_string(), creator_id: "o".to_string(), members: vec!["o".to_string()] };
    assert!(matches!(msg_in(&mut s, AppMessage::GroupAnnounce { info }, "o", "O"), Some(NetEvent::GroupAnnounced { .. })));
    assert_eq!(s.channels_len(), 4);
    s.group_add_pending("#g", "r".to_string());
    let ev = msg_in(&mut s, AppMessage::GroupJoinApprove { group_name: "#other".to_string(), approved_id: "me-id".to_string() }, "o", "O");
    assert!(matches!(ev, Some(NetEvent::GroupJoinApproved { .. })));
    assert_eq!(s.channel_names()[4], "#other");
    let ev = msg_in(&mut s, AppMessage::GroupJoinApprove { group_name: "#g".to_string(), approved_id: "r".to_string() }, "o", "O");
    assert!(ev.is_none());
    match &s.channel_kinds()[3] {
        ChannelKind::Group { members, pending, .. } => {
            assert_eq!(members, &vec!["o".to_string(), "r".to_string()]);
            assert!(pending.is_empty());
        }
        _ => panic!(),
    }
    let ev = msg_in(&mut s, AppMessage::GroupJoinDeny { group_name: "#x".to_string(), denied_id: "me-id".to_string() }, "o", "O");
    assert!(matches!(ev, Some(NetEvent::GroupJoinDenied { .. })));
}

#[test]
fn hello_handling() {
    let mut s = state();
    assert!(handle_hello(&mut s, "me-id".to_string(), "me".to_string(), 1, &v4(1, 1, 1, 1, 2)).is_none());
    assert_eq!(s.peer_count(), 0);
    let target = handle_hello(&mut s, "p".to_string(), "pal".to_string(), 47801, &v4(192, 168, 7, 3, 55000));
    match target {
        Some(PeerAddr::V4 { octets, port }) => {
            assert_eq!(octets, [192, 168, 7, 3]);
            assert_eq!(port, 47801);
        }
        _ => panic!(),
    }
    assert_eq!(s.peers()[0].subnet, "192.168.x.x");
    assert!(handle_hello(&mut s, "p".to_string(), "pal".to_string(), 47801, &v4(192, 168, 7, 3, 55000)).is_none());
    assert_eq!(s.peer_count(), 1);
    let six = PeerAddr::V6 { ip: "fe80::1".to_string(), port: 6000, scope_id: 0 };
    match handle_hello(&mut s, "q".to_string(), "q".to_string(), 47801, &six) {
        Some(PeerAddr::V6 { port, .. }) => assert_eq!(port, 6000),
        _ => panic!(),
    }
    assert_eq!(s.peers()[1].subnet, "IPv6");
    let ev = peer_gone(&mut s, "p".to_string());
    assert!(matches!(ev, NetEvent::PeerLeft(ref id) if id == "p"));
    assert_eq!(s.peer_count(), 1);
}

#[test]
fn gateway_and_offers() {
    let mut s = state();
    match gateway_linked(&mut s, &v4(10, 1, 2, 3, 9)) {
        NetEvent::GatewayLinked(ip) => assert_eq!(ip, "10.1.2.3"),
        _ => panic!(),
    }
    assert!(s.is_gateway());
    let (tid, offer) = register_offer(&mut s, "peer".to_string(), "/home/u/docs/report.pdf", 99);
    assert_eq!(tid.len(), 36);
    match offer {
        AppMessage::FileOffer { name, size, transfer_id, from_id } => {
            assert_eq!(name, "report.pdf");
            assert_eq!(size, 99);
            assert_eq!(transfer_id, tid);
            assert_eq!(from_id, "me-id");
        }
        _ => panic!(),
    }
    let t = &s.transfers()[0];
    assert_eq!(t.direction, TransferDirection::Sending);
    assert_eq!(t.peer_nick, "peer");
    let (_, offer) = register_offer(&mut s, "peer".to_string(), "/", 1);
    assert!(matches!(offer, AppMessage::FileOffer { ref name, .. } if name == "file"));
}

#[test]
fn chunk_progress_and_completion() {
    let mut s = state();
    msg_in(&mut s, AppMessage::FileOffer { name: "a.bin".to_string(), size: 10, transfer_id: "t".to_string(), from_id: "p".to_string() }, "p", "pal");
    let mut r = mshwisper::transfer::FileReceiver::new("t".to_string(), "a.bin".to_string(), "/home/u", false).unwrap();
    r.write_chunk(0, 6).unwrap();
    match chunk_progress(&mut s, &r) {
        NetEvent::TransferProgress { transfer_id, bytes_done } => {
            assert_eq!(transfer_id, "t");
            assert_eq!(bytes_done, 6);
        }
        _ => panic!(),
    }
    assert_eq!(s.transfers()[0].transferred, 6);
    assert_eq!(s.transfers()[0].status, TransferStatus::Active);
    match transfer_done(&mut s, r) {
        NetEvent::FileTransferComplete { transfer_id, dest_path } => {
            assert_eq!(transfer_id, "t");
            assert_eq!(dest_path, "/home/u/Downloads/a.bin");
        }
        _ => panic!(),
    }
    assert_eq!(s.transfers()[0].status, TransferStatus::Complete);
}

#[test]
fn hello_from_known_peer_keeps_its_fields() {
    let mut s = state();
    handle_hello(&mut s, "p".to_string(), "pal".to_string(), 47801, &v4(10, 0, 0, 2, 5000));
    let before = s.peers()[0].clone();
    handle_hello(&mut s, "p".to_string(), "other".to_string(), 1, &v4(10, 9, 9, 9, 1));
    let after = &s.peers()[0];
    assert_eq!(after.nickname, before.nickname);
    assert_eq!(format!("{:?}", after.addr), format!("{:?}", before.addr));
    assert_eq!(after.subnet, before.subnet);
    assert_eq!(after.is_gateway, before.is_gateway);
}

#[test]
fn a_peer_leaving_completes_what_only_it_owed() {
    let mut s = state();
    let mut book = AckBook::new();
    handle_command(&mut s, UiCommand::SendMessage { channel: "#general".to_string(), content: "one".to_string() }, &ids(&["a", "b"]), &mut book);
    handle_command(&mut s, UiCommand::SendMessage { channel: "#general".to_string(), content: "two".to_string() }, &ids(&["b", "c"]), &mut book);
    let first = s.active_messages()[1].id.clone();
    handle_app_msg(&mut s, AppMessage::Delivered { msg_id: first.clone() }, "a", "A", &mut book);
    assert_eq!(s.active_messages()[1].status, MessageStatus::Sent);
    let evs = acks_after_leave(&mut s, &mut book, "b");
    assert_eq!(evs.len(), 1);
    assert!(matches!(&evs[0], NetEvent::MessageDelivered { msg_id } if *msg_id == first));
    assert_eq!(s.active_messages()[1].status, MessageStatus::Delivered);
    assert_eq!(s.active_messages()[2].status, MessageStatus::Sent);
    assert_eq!(book.awaiting.len(), 1);
    assert_eq!(book.awaiting[0].1, ids(&["c"]));
    assert!(acks_after_leave(&mut s, &mut book, "zz").is_empty());
}

#[test]
fn forget_keeps_order_and_reports_completed() {
    let mut b = AckBook::new();
    b.expect("m1".to_string(), ids(&["x"]));
    b.expect("m2".to_string(), ids(&["x", "y"]));
    b.expect("m3".to_string(), ids(&["x"]));
    let done = b.forget("x");
    assert_eq!(done, ids(&["m1", "m3"]));
    assert_eq!(b.awaiting.len(), 1);
    assert_eq!(b.awaiting[0].0, "m2");
    assert_eq!(b.awaiting[0].1, ids(&["y"]));
}
