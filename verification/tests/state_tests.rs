use mshwisper::state::AppState;
use mshwisper::types::{
    Channel, ChannelKind, FileTransfer, Message, MessageContent, MessageStatus, Peer, PeerAddr,
    Timestamp, TransferDirection, TransferStatus,
};

fn peer(id: &str, nick: &str, secs: i64) -> Peer {
    Peer {
        id: id.to_string(),
        nickname: nick.to_string(),
        addr: PeerAddr::V4 { octets: [192, 168, 1, 9], port: 47801 },
        subnet: "192.168.x.x".to_string(),
        last_seen: Timestamp { secs, nanos: 0 },
        is_gateway: false,
    }
}

fn message(id: &str, ch: &str, status: MessageStatus) -> Message {
    Message {
        id: id.to_string(),
        sender_id: "me".to_string(),
        sender_nick: "me".to_string(),
        channel: ch.to_string(),
        content: MessageContent::Chat("x".to_string()),
        timestamp: Timestamp { secs: 0, nanos: 0 },
        status,
    }
}

fn transfer(id: &str) -> FileTransfer {
    FileTransfer {
        id: id.to_string(),
        filename: "f.bin".to_string(),
        size: 10,
        transferred: 0,
        direction: TransferDirection::Receiving,
        peer_nick: "p".to_string(),
        status: TransferStatus::Pending,
    }
}

#[test]
fn new_state_has_three_channels_and_greeting() {
    let s = AppState::new("me".to_string(), "nick".to_string());
    assert_eq!(s.channel_names(), vec!["#general", "#recon", "#web-attack"]);
    assert_eq!(s.active_channel_index(), 0);
    let msgs = s.active_messages();
    assert_eq!(msgs.len(), 1);
    assert_eq!(msgs[0].status, MessageStatus::System);
    match &msgs[0].content {
        MessageContent::System(t) => assert!(t.starts_with("mshwisper online.")),
        _ => panic!("greeting is a system message"),
    }
    assert_eq!(s.self_id(), "me");
    assert_eq!(s.nickname(), "nick");
    assert_eq!(s.peer_count(), 0);
    assert!(!s.is_gateway());
}

#[test]
fn add_channel_is_idempotent() {
    let mut s = AppState::new("me".to_string(), "n".to_string());
    s.add_channel("#ops".to_string());
    s.add_channel("#ops".to_string());
    assert_eq!(s.channels_len(), 4);
    assert_eq!(s.channel_names()[3], "#ops");
    s.add_channel("#general".to_string());
    assert_eq!(s.channels_len(), 4);
}

#[test]
fn add_group_channel_reports_whether_added() {
    let mut s = AppState::new("me".to_string(), "n".to_string());
    assert!(s.add_group_channel("#red".to_string(), "me".to_string()));
    assert!(!s.add_group_channel("#red".to_string(), "other".to_string()));
    assert!(!s.add_group_channel("#general".to_string(), "other".to_string()));
    match &s.channel_kinds()[3] {
        ChannelKind::Group { creator_id, members, pending } => {
            assert_eq!(creator_id, "me");
            assert_eq!(members, &vec!["me".to_string()]);
            assert!(pending.is_empty());
        }
        _ => panic!("group expected"),
    }
}

#[test]
fn push_message_counts_unread_only_off_screen() {
    let mut s = AppState::new("me".to_string(), "n".to_string());
    s.push_message(message("a", "#general", MessageStatus::Sending));
    s.push_message(message("b", "#recon", MessageStatus::Sending));
    s.push_message(message("c", "#recon", MessageStatus::Sending));
    assert_eq!(s.channel_unreads(), vec![0, 2, 0]);
    s.push_message(message("d", "#new", MessageStatus::Sending));
    assert_eq!(s.channels_len(), 4);
    assert_eq!(s.channel_unreads()[3], 0);
    s.set_active_channel(1);
    assert_eq!(s.active_channel_index(), 1);
    assert_eq!(s.channel_unreads()[1], 0);
    assert_eq!(s.active_messages().len(), 2);
    s.set_active_channel(99);
    assert_eq!(s.active_channel_index(), 1);
}

#[test]
fn mark_sent_then_delivered_touches_first_match_only() {
    let mut s = AppState::new("me".to_string(), "n".to_string());
    s.push_message(message("x", "#general", MessageStatus::Sending));
    s.push_message(message("x", "#general", MessageStatus::Sending));
    s.mark_delivered("x");
    assert_eq!(s.active_messages()[1].status, MessageStatus::Sending);
    s.mark_sent("x");
    let m = s.active_messages();
    assert_eq!(m[1].status, MessageStatus::Sent);
    assert_eq!(m[2].status, MessageStatus::Sending);
    s.mark_delivered("x");
    let m = s.active_messages();
    assert_eq!(m[1].status, MessageStatus::Delivered);
    assert_eq!(m[2].status, MessageStatus::Sending);
}

#[test]
fn group_approve_moves_pending_to_members() {
    let mut s = AppState::new("me".to_string(), "n".to_string());
    s.add_group_channel("#g".to_string(), "me".to_string());
    s.group_add_pending("#g", "bob".to_string());
    s.group_add_pending("#g", "bob".to_string());
    s.group_add_pending("#g", "eve".to_string());
    match &s.channel_kinds()[3] {
        ChannelKind::Group { pending, .. } => assert_eq!(pending, &vec!["bob".to_string(), "eve".to_string()]),
        _ => panic!(),
    }
    s.group_approve("#g", "bob".to_string());
    s.group_approve("#g", "bob".to_string());
    match &s.channel_kinds()[3] {
        ChannelKind::Group { members, pending, .. } => {
            assert_eq!(members, &vec!["me".to_string(), "bob".to_string()]);
            assert_eq!(pending, &vec!["eve".to_string()]);
        }
        _ => panic!(),
    }
    s.group_approve("#general", "bob".to_string());
    assert_eq!(s.channel_kinds()[0], ChannelKind::Open);
}

#[test]
fn channel_membership() {
    let g = Channel::new_group("#g".to_string(), "me".to_string());
    assert!(g.is_group());
    assert!(g.is_member("me"));
    assert!(!g.is_member("you"));
    let o = Channel::new("#o".to_string());
    assert!(!o.is_group());
    assert!(o.is_member("anyone"));
}

#[test]
fn pending_requests_are_kept_once_and_removed() {
    let mut s = AppState::new("me".to_string(), "n".to_string());
    s.add_pending_request("#g".to_string(), "bob".to_string(), "Bob".to_string());
    s.add_pending_request("#g".to_string(), "bob".to_string(), "Bobby".to_string());
    s.add_pending_request("#h".to_string(), "bob".to_string(), "Bob".to_string());
    assert_eq!(s.pending_requests().len(), 2);
    s.remove_pending_request("#g", "bob");
    let p = s.pending_requests();
    assert_eq!(p, vec![("#h".to_string(), "bob".to_string(), "Bob".to_string())]);
}

#[test]
fn transfers_progress_and_completion() {
    let mut s = AppState::new("me".to_string(), "n".to_string());
    s.add_transfer(transfer("t1"));
    s.add_transfer(transfer("t2"));
    s.update_transfer_progress("t2", 7);
    let t = s.transfers();
    assert_eq!(t[1].transferred, 7);
    assert_eq!(t[1].status, TransferStatus::Active);
    assert_eq!(t[0].status, TransferStatus::Pending);
    s.complete_transfer("t1", false, None);
    assert_eq!(s.transfers()[0].status, TransferStatus::Failed(String::new()));
    s.complete_transfer("t2", true, None);
    assert_eq!(s.transfers()[1].status, TransferStatus::Complete);
    s.complete_transfer("t1", false, Some("boom".to_string()));
    assert_eq!(s.transfers()[0].status, TransferStatus::Failed("boom".to_string()));
    s.update_transfer_progress("none", 1);
    assert_eq!(s.transfers().len(), 2);
}

#[test]
fn peers_replace_remove_and_go_stale() {
    let mut s = AppState::new("me".to_string(), "n".to_string());
    s.add_peer(peer("p1", "one", 100));
    s.add_peer(peer("p2", "two", 110));
    s.add_peer(peer("p1", "uno", 100));
    assert_eq!(s.peer_count(), 2);
    assert_eq!(s.peer_nickname("p1"), Some("uno".to_string()));
    let now = Timestamp { secs: 116, nanos: 0 };
    assert_eq!(s.stale_peers(now), vec!["p1".to_string()]);
    let now = Timestamp { secs: 115, nanos: 999_999_999 };
    assert!(s.stale_peers(now).is_empty());
    s.touch_peer("p1", Timestamp { secs: 200, nanos: 0 });
    assert_eq!(s.peers()[0].last_seen, Timestamp { secs: 200, nanos: 0 });
    s.remove_peer("p1");
    assert_eq!(s.peer_count(), 1);
    assert_eq!(s.peer_nickname("p1"), None);
    assert_eq!(s.find_peer_for_target("tw"), None);
    assert_eq!(s.find_peer_for_target("two"), Some("p2".to_string()));
    assert_eq!(s.find_peer_for_target("p"), Some("p2".to_string()));
}

#[test]
fn wipe_forgets_everything_but_channels() {
    let mut s = AppState::new("me".to_string(), "n".to_string());
    s.add_peer(peer("p1", "one", 0));
    s.add_transfer(transfer("t"));
    s.add_pending_request("#g".to_string(), "b".to_string(), "B".to_string());
    s.push_message(message("a", "#recon", MessageStatus::Sent));
    s.set_gateway(true);
    s.wipe();
    assert_eq!(s.peer_count(), 0);
    assert!(s.transfers().is_empty());
    assert!(s.pending_requests().is_empty());
    assert!(s.active_messages().is_empty());
    assert_eq!(s.channels_len(), 3);
    assert_eq!(s.channel_unreads(), vec![0, 1, 0]);
    assert!(s.is_gateway());
}

fn sized(transferred: u64, size: u64) -> FileTransfer {
    FileTransfer { transferred, size, ..transfer("p") }
}

#[test]
fn progress_pct_follows_float_arithmetic() {
    assert_eq!(sized(0, 0).progress_pct(), 100);
    assert_eq!(sized(7, 0).progress_pct(), 100);
    assert_eq!(sized(0, 10).progress_pct(), 0);
    assert_eq!(sized(1, 3).progress_pct(), 33);
    assert_eq!(sized(2, 3).progress_pct(), 66);
    assert_eq!(sized(50, 100).progress_pct(), 50);
    // 0.29 * 100 is 28.999999999999996 in 64-bit floats.
    assert_eq!(sized(29, 100).progress_pct(), 28);
    assert_eq!(sized(57, 100).progress_pct(), 56);
    assert_eq!(sized(10, 10).progress_pct(), 100);
    assert_eq!(sized(11, 10).progress_pct(), 100);
    assert_eq!(sized(u64::MAX - 1, u64::MAX).progress_pct(), 100);
    assert_eq!(sized(1 << 63, u64::MAX).progress_pct(), 50);
    assert_eq!(sized((1 << 53) + 1, (1 << 53) + 3).progress_pct(), 99);
}

#[test]
fn progress_pct_matches_f64_on_a_sweep() {
    for s in 1u64..300 {
        for t in 0..=s + 1 {
            let expect = ((t as f64 / s as f64) * 100.0).min(100.0) as u8;
            assert_eq!(sized(t, s).progress_pct(), expect, "{} / {}", t, s);
        }
    }
}

#[test]
fn progress_never_goes_back() {
    for s in [1u64, 3, 7, 100, 999, 65536, (1 << 53) + 3] {
        let mut prev = 0u8;
        for t in (0..=s.min(2000)).chain([s]) {
            let p = sized(t, s).progress_pct();
            assert!(p >= prev, "{} / {}", t, s);
            assert!(p <= 100);
            prev = p;
        }
    }
}
