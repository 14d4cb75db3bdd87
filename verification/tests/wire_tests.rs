use mshwisper::discovery::directed_broadcast_of;
use mshwisper::crypto::{CryptoError, SessionCipher};
use mshwisper::transfer::{downloads_path, open_chunk, seal_chunk, FileReceiver, FileSender, TransferError, CHUNK_SIZE};
use mshwisper::types::WirePacket;
use mshwisper::wire::{frame_length, handshake_frame_fits, length_prefix, session_frame_fits};

fn session() -> SessionCipher {
    SessionCipher::from_secret_bytes(b"chunk session")
}

#[test]
fn length_prefix_is_big_endian() {
    assert_eq!(length_prefix(0), [0, 0, 0, 0]);
    assert_eq!(length_prefix(258), [0, 0, 1, 2]);
    assert_eq!(length_prefix(0x0102_0304), (0x0102_0304u32).to_be_bytes());
    for n in [0usize, 1, 255, 256, 65535, 8191, 8192, 67108864, 4294967295] {
        assert_eq!(frame_length(length_prefix(n)) as usize, n);
        assert_eq!(length_prefix(n), (n as u32).to_be_bytes());
    }
}

#[test]
fn frame_limits() {
    assert!(session_frame_fits(67108864));
    assert!(!session_frame_fits(67108865));
    assert!(handshake_frame_fits(8191));
    assert!(!handshake_frame_fits(8192));
}

#[test]
fn directed_broadcast_addresses() {
    assert_eq!(directed_broadcast_of([192, 168, 1, 42]), [192, 168, 1, 255]);
    assert_eq!(directed_broadcast_of([10, 0, 7, 1]), [10, 0, 7, 255]);
    assert_eq!(directed_broadcast_of([172, 20, 3, 4]), [172, 20, 3, 255]);
    assert_eq!(directed_broadcast_of([169, 254, 3, 4]), [169, 254, 255, 255]);
    assert_eq!(directed_broadcast_of([8, 8, 4, 4]), [8, 8, 4, 255]);
}

#[test]
fn file_sender_numbers_chunks() {
    let mut s = FileSender::new("t".to_string(), CHUNK_SIZE as u64 + 10);
    match s.next_packet(vec![1u8; CHUNK_SIZE], &session()) {
        Some(WirePacket::FileChunk { chunk_index, is_last, data, .. }) => {
            assert_eq!(chunk_index, 0);
            assert!(!is_last);
            assert_eq!(data.len(), 12 + CHUNK_SIZE + 16);
            assert_eq!(open_chunk(&session(), &data).unwrap(), vec![1u8; CHUNK_SIZE]);
        }
        _ => panic!(),
    }
    match s.next_packet(vec![1u8; 10], &session()) {
        Some(WirePacket::FileChunk { chunk_index, is_last, transfer_id, .. }) => {
            assert_eq!(chunk_index, 1);
            assert!(is_last);
            assert_eq!(transfer_id, "t");
        }
        _ => panic!(),
    }
    assert_eq!(s.total, CHUNK_SIZE as u64 + 10);
    assert!(s.next_packet(Vec::new(), &session()).is_none());
}

#[test]
fn file_of_whole_chunks_ends_with_a_last_chunk() {
    let mut s = FileSender::new("t".to_string(), 2 * CHUNK_SIZE as u64);
    let mut lasts = Vec::new();
    for _ in 0..2 {
        match s.next_packet(vec![7u8; CHUNK_SIZE], &session()) {
            Some(WirePacket::FileChunk { is_last, .. }) => lasts.push(is_last),
            _ => panic!(),
        }
    }
    assert_eq!(lasts, vec![false, true]);
}

#[test]
fn empty_file_sends_nothing() {
    let mut s = FileSender::new("t".to_string(), 0);
    assert!(s.next_packet(Vec::new(), &session()).is_none());
    assert_eq!(s.next_index, 0);
}

#[test]
fn file_receiver_checks_order() {
    let mut r = FileReceiver::new("t".to_string(), "a.txt".to_string(), "/home/u", false).unwrap();
    assert_eq!(r.dest_path, "/home/u/Downloads/a.txt");
    assert_eq!(r.write_chunk(0, 5), Ok(()));
    assert_eq!(r.write_chunk(2, 5), Err(TransferError::OutOfOrder { expected: 1, got: 2 }));
    assert_eq!(r.write_chunk(1, 3), Ok(()));
    assert_eq!(r.received_bytes, 8);
    assert_eq!(r.expected_next, 2);
}

#[test]
fn downloads_paths() {
    assert_eq!(downloads_path("/tmp", "x", false).as_deref(), Some("/tmp/Downloads/x"));
    assert_eq!(downloads_path("C:\\Users\\Public", "x", true).as_deref(), Some("C:\\Users\\Public\\Downloads\\x"));
    assert_eq!(downloads_path("/tmp", "..x", false).as_deref(), Some("/tmp/Downloads/..x"));
}

#[test]
fn file_names_that_leave_downloads_are_refused() {
    for bad in ["..", "../.bashrc", "a/../../x", "/etc/passwd", "x/.."] {
        assert_eq!(downloads_path("/home/u", bad, false), None, "{:?}", bad);
        assert!(matches!(
            FileReceiver::new("t".to_string(), bad.to_string(), "/home/u", false),
            Err(TransferError::BadName)
        ));
    }
    for bad in ["..\\x", "\\x", "a\\..\\..\\y", "a/../b"] {
        assert_eq!(downloads_path("C:\\Users\\u", bad, true), None, "{:?}", bad);
    }
}

#[test]
fn file_names_that_stay_inside_downloads_are_kept() {
    for good in ["a.txt", "...", "..x", "x..", "sub/a.txt", "a\\b", "a/./b"] {
        assert_eq!(downloads_path("/home/u", good, false), Some(format!("/home/u/Downloads/{}", good)), "{:?}", good);
    }
    assert_eq!(downloads_path("C:\\U", "a/b", true).as_deref(), Some("C:\\U\\Downloads\\a/b"));
}


#[test]
fn sealed_chunks_open_only_under_their_session() {
    let c = session();
    let sealed = seal_chunk(&c, b"file bytes").unwrap();
    assert_ne!(&sealed[12..22], b"file bytes");
    assert_eq!(open_chunk(&c, &sealed).unwrap(), b"file bytes".to_vec());
    let other = SessionCipher::from_secret_bytes(b"another session");
    assert_eq!(open_chunk(&other, &sealed), Err(CryptoError::Decrypt));
    assert_eq!(open_chunk(&c, &sealed[..5]), Err(CryptoError::TooShort));
    assert_eq!(open_chunk(&c, &sealed[..20]), Err(CryptoError::TooShort));
}
