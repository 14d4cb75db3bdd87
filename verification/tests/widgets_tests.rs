use mshwisper::text::u64_decimal;
use mshwisper::tui::widgets::{clock, human_size, message_lines, nick_color, Color};
use mshwisper::types::{Message, MessageContent, MessageStatus, Timestamp};

fn float_size(bytes: u64) -> String {
    if bytes >= 1 << 30 {
        format!("{:.1} GB", bytes as f64 / (1u64 << 30) as f64)
    } else if bytes >= 1 << 20 {
        format!("{:.1} MB", bytes as f64 / (1u64 << 20) as f64)
    } else if bytes >= 1 << 10 {
        format!("{:.0} KB", bytes as f64 / (1u64 << 10) as f64)
    } else {
        format!("{} B", bytes)
    }
}

#[test]
fn human_size_small_values() {
    assert_eq!(human_size(0), "0 B");
    assert_eq!(human_size(1023), "1023 B");
    assert_eq!(human_size(1024), "1 KB");
    assert_eq!(human_size(1048576), "1.0 MB");
    assert_eq!(human_size(1073741824), "1.0 GB");
}

#[test]
fn human_size_matches_float_formatting_on_ties() {
    for k in 1u64..2000 {
        let b = k * 1024 + 512;
        if b < (1 << 20) {
            assert_eq!(human_size(b), float_size(b), "bytes {}", b);
        }
    }
    for k in 1u64..200 {
        let b = (1u64 << 20) * k / 10 + (1u64 << 19) / 10 * 0 + 52429;
        assert_eq!(human_size(b), float_size(b), "bytes {}", b);
        let c = (1u64 << 20) + k * 104857 + 52428;
        assert_eq!(human_size(c), float_size(c), "bytes {}", c);
    }
    // exact ties at the first decimal of a megabyte: (2k + 1) / 20 MB
    for k in 0u64..100 {
        let b = (1u64 << 18) * (2 * k + 21) / 5;
        assert_eq!(human_size(b), float_size(b), "bytes {}", b);
    }
}

#[test]
fn human_size_matches_float_formatting_on_large_values() {
    let samples = [
        (1u64 << 30) + (1u64 << 25),
        (1u64 << 30) * 3 / 2 + 53687091,
        (1u64 << 40) + 12345,
        (1u64 << 53) - 1,
        1u64 << 53,
        (1u64 << 53) + 1,
        (1u64 << 53) + 3,
        (1u64 << 60) + (1u64 << 7) + 1,
        u64::MAX,
        u64::MAX - 1024,
        (1u64 << 63) + (1u64 << 10),
    ];
    for b in samples {
        assert_eq!(human_size(b), float_size(b), "bytes {}", b);
    }
    let mut x: u64 = 0x9e3779b97f4a7c15;
    for _ in 0..5000 {
        x ^= x << 13;
        x ^= x >> 7;
        x ^= x << 17;
        for b in [x, x >> 20, x >> 34, x >> 44, x >> 50, x >> 54] {
            assert_eq!(human_size(b), float_size(b), "bytes {}", b);
        }
    }
}

#[test]
fn nick_color_uses_byte_hash() {
    let h = |s: &str| s.bytes().fold(0u32, |a, b| a.wrapping_mul(31).wrapping_add(b as u32));
    let palette = [
        (80, 200, 255), (80, 255, 160), (255, 160, 80), (200, 80, 255),
        (255, 220, 80), (80, 255, 220), (255, 100, 160), (100, 255, 100),
    ];
    for nick in ["alice", "bob", "", "zeta_9", "ümlaut", "a-very-long-nickname-xyz"] {
        let (r, g, b) = palette[(h(nick) as usize) % 8];
        assert_eq!(nick_color(nick), Color::Rgb { r, g, b });
    }
}

#[test]
fn clock_formats_utc_hours_and_minutes() {
    assert_eq!(clock(Timestamp { secs: 0, nanos: 0 }), "00:00");
    assert_eq!(clock(Timestamp { secs: 3600 * 13 + 60 * 7 + 59, nanos: 5 }), "13:07");
    assert_eq!(clock(Timestamp { secs: 86400 * 3 + 23 * 3600 + 59 * 60, nanos: 0 }), "23:59");
    assert_eq!(clock(Timestamp { secs: -60, nanos: 0 }), "23:59");
}

fn msg(sender: &str, content: MessageContent, status: MessageStatus) -> Message {
    Message {
        id: "m1".to_string(),
        sender_id: sender.to_string(),
        sender_nick: "nick".to_string(),
        channel: "#general".to_string(),
        content,
        timestamp: Timestamp { secs: 3600 * 9 + 60 * 5, nanos: 0 },
        status,
    }
}

#[test]
fn message_lines_chat_own_has_tick() {
    let m = msg("me", MessageContent::Chat("hello".to_string()), MessageStatus::Sent);
    let lines = message_lines(&m, "me");
    assert_eq!(lines.len(), 1);
    let texts: Vec<&str> = lines[0].iter().map(|s| s.text.as_str()).collect();
    assert_eq!(texts, vec!["  09:05 ", "nick", "  ", "hello", " ✓"]);
    assert_eq!(lines[0][1].style.fg, Some(Color::Rgb { r: 80, g: 200, b: 255 }));
    assert!(lines[0][1].style.bold);
}

#[test]
fn message_lines_other_sender_has_no_tick() {
    let m = msg("them", MessageContent::Chat("hi".to_string()), MessageStatus::Delivered);
    let lines = message_lines(&m, "me");
    assert_eq!(lines[0][4].text, "");
    assert_eq!(lines[0][1].style.fg, Some(nick_color("nick")));
}

#[test]
fn message_lines_command_has_three_lines() {
    let m = msg("me", MessageContent::Command("nmap -sV".to_string()), MessageStatus::Delivered);
    let lines = message_lines(&m, "me");
    assert_eq!(lines.len(), 3);
    assert_eq!(lines[0][1].text, "[nick]  ");
    assert_eq!(lines[0][3].text, " ✓✓");
    assert_eq!(lines[1][1].text, "nmap -sV");
    assert_eq!(lines[2][0].text, "  ╰─────");
}

#[test]
fn message_lines_system_and_file_offer() {
    let m = msg("system", MessageContent::System("up".to_string()), MessageStatus::System);
    let lines = message_lines(&m, "me");
    assert_eq!(lines[0][1].text, "◈ up");
    assert!(lines[0][1].style.italic);
    let f = msg(
        "x",
        MessageContent::FileOffer { name: "a.txt".to_string(), size: 2048, transfer_id: "t".to_string() },
        MessageStatus::Sending,
    );
    let lines = message_lines(&f, "me");
    assert_eq!(lines[0][2].text, " ◈ file offer: a.txt (2 KB)");
}

#[test]
fn decimal_rendering() {
    assert_eq!(u64_decimal(0), "0");
    assert_eq!(u64_decimal(7), "7");
    assert_eq!(u64_decimal(1234567890), "1234567890");
    assert_eq!(u64_decimal(u64::MAX), u64::MAX.to_string());
}
