use mshwisper::state::AppState;
use mshwisper::text::{split_at_first_space, starts_with, strip_prefix, with_hash};
use mshwisper::tui::app::{App, MouseEvent, MouseKind};
use mshwisper::tui::render::{
    arsenal, build_snapshot, center_rect, channel_list, feed_lines, feed_scroll, file_popup,
    frame_regions, help_region, input_line, join_popup, operators, status_line, titlebar, transfer_line,
    ClickAction, ClickRegion, Rect, Renderer,
};
use mshwisper::tui::widgets::Color;
use mshwisper::types::{
    addr_to_text, subnet_from_addr, FileTransfer, Message, MessageContent, MessageStatus, PeerAddr,
    Timestamp, TransferDirection, TransferStatus,
};

fn rect(x: u16, y: u16, width: u16, height: u16) -> Rect {
    Rect { x, y, width, height }
}

#[test]
fn renderer_and_centering() {
    let _r = Renderer::new();
    assert_eq!(center_rect(56, 9, rect(0, 0, 100, 40)), rect(22, 15, 56, 9));
    assert_eq!(center_rect(56, 9, rect(5, 2, 40, 6)), rect(5, 2, 40, 6));
    let h = help_region(rect(0, 0, 80, 24));
    assert_eq!(h.rect, rect(8, 0, 64, 24));
    assert!(matches!(h.action, ClickAction::ClosePopup));
}

#[test]
fn feed_window_arithmetic() {
    assert_eq!(feed_scroll(100, 20, 0), (0, 80));
    assert_eq!(feed_scroll(100, 20, 30), (30, 50));
    assert_eq!(feed_scroll(100, 20, 500), (80, 0));
    assert_eq!(feed_scroll(10, 20, 5), (0, 0));
}

#[test]
fn feed_keeps_a_blank_after_each_message() {
    let m = Message {
        id: "1".to_string(),
        sender_id: "x".to_string(),
        sender_nick: "x".to_string(),
        channel: "#general".to_string(),
        content: MessageContent::Command("pwd".to_string()),
        timestamp: Timestamp { secs: 60, nanos: 0 },
        status: MessageStatus::Sent,
    };
    let lines = feed_lines(&vec![m.clone(), m], "me");
    assert_eq!(lines.len(), 8);
    assert_eq!(lines[7].len(), 1);
    assert_eq!(lines[7][0].text, "");
    let cmds = arsenal(&vec![]);
    assert_eq!(cmds[0][0].text, "  no commands yet");
}

#[test]
fn arsenal_lists_newest_first_at_most_ten() {
    let mut ms = Vec::new();
    for i in 0..12 {
        ms.push(Message {
            id: format!("{}", i),
            sender_id: "x".to_string(),
            sender_nick: format!("n{}", i),
            channel: "#general".to_string(),
            content: if i % 2 == 0 { MessageContent::Command(format!("c{}", i)) } else { MessageContent::Chat("hi".to_string()) },
            timestamp: Timestamp { secs: 0, nanos: 0 },
            status: MessageStatus::Sent,
        });
    }
    let a = arsenal(&ms);
    assert_eq!(a.len(), 12);
    assert_eq!(a[0][1].text, "n10");
    assert_eq!(a[1][1].text, "c10");
    assert_eq!(a[11][1].text, "c0");
}

#[test]
fn channel_list_labels_and_rows() {
    let mut s = AppState::new("me".to_string(), "nick".to_string());
    s.add_group_channel("#g".to_string(), "me".to_string());
    s.push_message(Message {
        id: "1".to_string(),
        sender_id: "x".to_string(),
        sender_nick: "x".to_string(),
        channel: "#recon".to_string(),
        content: MessageContent::Chat("hi".to_string()),
        timestamp: Timestamp { secs: 0, nanos: 0 },
        status: MessageStatus::Sent,
    });
    let snap = build_snapshot(&s);
    let (labels, regions) = channel_list(&snap, rect(0, 1, 20, 10));
    assert_eq!(labels[0].text, " ▶ #general");
    assert_eq!(labels[0].style.fg, Some(Color::Black));
    assert_eq!(labels[1].text, " ○ #recon  (1)");
    assert_eq!(labels[2].text, " ○ #web-attack");
    assert_eq!(labels[3].text, " ⬡ #g");
    assert_eq!(regions[2].rect, rect(0, 4, 20, 1));
    assert!(matches!(regions[3].action, ClickAction::SelectChannel(3)));
    let ops = operators(&snap);
    assert_eq!(ops[0][1].text, "nick (you)");
    assert_eq!(ops[1][0].text, "   waiting…");
    let (title, help) = titlebar(&snap, rect(0, 0, 80, 1));
    assert_eq!(title[2].text, " 0 peers ");
    assert_eq!(title[4].text, "");
    assert_eq!(help.rect, rect(72, 0, 8, 1));
}

#[test]
fn transfer_lines() {
    let t = FileTransfer {
        id: "t".to_string(),
        filename: "a-rather-long-file-name.iso".to_string(),
        size: 100,
        transferred: 42,
        direction: TransferDirection::Sending,
        peer_nick: "p".to_string(),
        status: TransferStatus::Active,
    };
    let l = transfer_line(&t);
    assert_eq!(l[0].text, format!("  ▲ {:<14} ", "a-rather-long-"));
    assert_eq!(l[2].text, format!("    {}{} {:>3}% active", "█".repeat(4), "░".repeat(6), 42));
    let u = FileTransfer { filename: "x".to_string(), status: TransferStatus::Failed("e".to_string()), direction: TransferDirection::Receiving, transferred: 100, ..t };
    let l = transfer_line(&u);
    assert_eq!(l[0].text, format!("  ▼ {:<14} ", "x"));
    assert_eq!(l[2].text, format!("    {} 100% failed", "█".repeat(10)));
}

#[test]
fn status_and_input_lines() {
    let mut a = App::new();
    assert!(status_line(&a).text.starts_with(" F1:help"));
    a.set_status("oops".to_string(), true);
    let s = status_line(&a);
    assert_eq!(s.text, " oops ");
    assert_eq!(s.style.fg, Some(Color::Rgb { r: 255, g: 80, b: 80 }));
    let l = input_line(&a);
    assert!(l[0].text.starts_with("  Type a message"));
    a.input_buf = "/joiné x".to_string();
    a.cursor_pos = 5;
    let l = input_line(&a);
    assert_eq!(l[0].text, "/join");
    assert_eq!(l[1].text, "é");
    assert_eq!(l[2].text, " x");
    assert!(l[0].style.bold);
    a.history = vec!["a".to_string(), "b".to_string()];
    a.history_idx = Some(0);
    a.cursor_pos = a.input_buf.len();
    let l = input_line(&a);
    assert_eq!(l[0].text, " [↑1/2] ");
    assert_eq!(l[2].text, " ");
}

#[test]
fn popups_regions() {
    let (popup, lines, regions) = file_popup(rect(0, 0, 100, 40), "doc.pdf", 3 << 20, "pal");
    assert_eq!(popup, rect(22, 15, 56, 9));
    assert_eq!(lines[2][1].text, "(3.0 MB)");
    assert_eq!(regions[0].rect, rect(24, 21, 12, 1));
    assert_eq!(regions[1].rect, rect(40, 21, 12, 1));
    let reqs = vec![("#g".to_string(), "id1".to_string(), "Bob".to_string())];
    let (p, lines, regions) = join_popup(rect(0, 0, 100, 40), &reqs);
    assert_eq!(p, rect(21, 16, 58, 8));
    assert_eq!(lines.len(), 4);
    assert_eq!(lines[1][0].text, "  Bob ");
    assert_eq!(regions[0].rect, rect(23, 17, 11, 1));
    assert!(matches!(&regions[1].action, ClickAction::DenyJoin { group, requester_id } if group == "#g" && requester_id == "id1"));
}

#[test]
fn mouse_clicks_first_region() {
    let mut a = App::new();
    let mut s = AppState::new("me".to_string(), "n".to_string());
    a.click_regions = vec![
        ClickRegion { rect: rect(0, 0, 10, 1), action: ClickAction::SelectChannel(2) },
        ClickRegion { rect: rect(0, 0, 80, 24), action: ClickAction::ClosePopup },
    ];
    a.show_help = true;
    a.scroll_offset = 9;
    a.handle_mouse(&mut s, MouseEvent { kind: MouseKind::LeftDown, column: 3, row: 0 });
    assert_eq!(s.active_channel_index(), 2);
    assert_eq!(a.scroll_offset, 0);
    assert!(a.show_help);
    a.handle_mouse(&mut s, MouseEvent { kind: MouseKind::LeftDown, column: 30, row: 5 });
    assert!(!a.show_help);
    a.handle_mouse(&mut s, MouseEvent { kind: MouseKind::ScrollUp, column: 0, row: 0 });
    assert_eq!(a.scroll_offset, 3);
    a.handle_mouse(&mut s, MouseEvent { kind: MouseKind::LeftDown, column: 99, row: 99 });
    assert_eq!(a.scroll_offset, 3);
}

#[test]
fn text_helpers() {
    assert_eq!(mshwisper::text::join_text("ab", "ç"), "abç");
    assert!(starts_with("/cmd x", "/cmd "));
    assert!(!starts_with("/cm", "/cmd "));
    assert_eq!(strip_prefix("/join  x", "/join "), Some(" x".to_string()));
    assert_eq!(strip_prefix("/joi", "/join "), None);
    assert_eq!(split_at_first_space("a b c"), Some(("a".to_string(), "b c".to_string())));
    assert_eq!(split_at_first_space("abc"), None);
    assert_eq!(with_hash("x"), "#x");
    assert_eq!(with_hash("#x"), "#x");
    assert_eq!(with_hash(""), "#");
}

#[test]
fn address_texts() {
    let a = PeerAddr::V4 { octets: [192, 168, 0, 17], port: 47801 };
    assert_eq!(addr_to_text(&a), "192.168.0.17:47801");
    assert_eq!(subnet_from_addr(&a), "192.168.x.x");
    let b = PeerAddr::V6 { ip: "fe80::1".to_string(), port: 80, scope_id: 3 };
    assert_eq!(addr_to_text(&b), "[fe80::1%3]:80");
    assert_eq!(subnet_from_addr(&b), "IPv6");
    let c = PeerAddr::V6 { ip: "::1".to_string(), port: 80, scope_id: 0 };
    assert_eq!(addr_to_text(&c), "[::1]:80");
}

#[test]
fn frame_regions_in_drawing_order() {
    let mut s = AppState::new("me".to_string(), "nick".to_string());
    s.add_pending_request("#g".to_string(), "r1".to_string(), "R".to_string());
    let snap = build_snapshot(&s);
    let mut a = App::new();
    let screen = rect(0, 0, 100, 40);
    let regions = frame_regions(&a, &snap, screen, rect(0, 0, 100, 1), rect(0, 1, 18, 20), rect(18, 1, 52, 37));
    let got: Vec<(Rect, String)> = regions.iter().map(|r| (r.rect, format!("{:?}", r.action))).collect();
    assert_eq!(got.len(), 6);
    assert_eq!(got[0], (rect(92, 0, 8, 1), "OpenHelp".to_string()));
    assert_eq!(got[1], (rect(0, 2, 18, 1), "SelectChannel(0)".to_string()));
    assert_eq!(got[3], (rect(0, 4, 18, 1), "SelectChannel(2)".to_string()));
    assert_eq!(got[4], (rect(64, 1, 3, 1), "ScrollUp".to_string()));
    assert_eq!(got[5], (rect(67, 1, 3, 1), "ScrollDown".to_string()));
    a.show_join_requests = true;
    a.file_offer = Some(("f".to_string(), 3, "t".to_string(), "bob".to_string()));
    a.show_help = true;
    let regions = frame_regions(&a, &snap, screen, rect(0, 0, 100, 1), rect(0, 1, 18, 20), rect(18, 1, 52, 37));
    assert_eq!(regions.len(), 11);
    assert!(matches!(&regions[6].action, ClickAction::ApproveJoin { group, requester_id } if group == "#g" && requester_id == "r1"));
    assert_eq!(regions[6].rect, rect(23, 17, 11, 1));
    assert!(matches!(&regions[7].action, ClickAction::DenyJoin { .. }));
    assert_eq!(regions[7].rect, rect(37, 17, 9, 1));
    assert!(matches!(regions[8].action, ClickAction::AcceptFile));
    assert_eq!(regions[8].rect, rect(24, 21, 12, 1));
    assert!(matches!(regions[9].action, ClickAction::RejectFile));
    assert!(matches!(regions[10].action, ClickAction::ClosePopup));
    assert_eq!(regions[10].rect, rect(18, 4, 64, 32));
}
