//! Chunked file transfer over the mesh sessions: sealing and numbering the
//! chunks sent, opening and checking the order of the chunks received, and
//! where received files go.

use vstd::prelude::*;
use vstd::string::*;
use vstd::slice::slice_subrange;
use crate::crypto::{decrypt_result, keystream_overrun, CryptoError, SessionCipher, MAX_SEALED_LEN, NONCE_LEN, TAG_LEN};
use crate::text::join_text;
use crate::types::WirePacket;

verus! {

/// Size of a file chunk: 64 KiB.
pub const CHUNK_SIZE: usize = 65536;

/// What opening the sealed chunk data `sealed` (a nonce, then the
/// ciphertext and its tag) under `key` gives.
pub open spec fn chunk_opened(key: Seq<u8>, sealed: Seq<u8>) -> Result<Seq<u8>, CryptoError> {
    if sealed.len() < NONCE_LEN {
        Err(CryptoError::TooShort)
    } else {
        decrypt_result(key, sealed.take(NONCE_LEN as int), sealed.skip(NONCE_LEN as int))
    }
}

/// Seals chunk data under the session: a fresh nonce followed by the
/// ciphertext and its tag.  Opening the result gives `data` back.
pub fn seal_chunk(cipher: &SessionCipher, data: &[u8]) -> (r: Result<Vec<u8>, CryptoError>)
    requires
        cipher.key().len() == 32,
        !keystream_overrun(data@.len(), 0),
    ensures
        r is Err <==> data@.len() > MAX_SEALED_LEN,
        r is Err ==> r == Err::<Vec<u8>, CryptoError>(CryptoError::Encrypt),
        r matches Ok(v) ==> v@.len() == NONCE_LEN + data@.len() + TAG_LEN
            && chunk_opened(cipher.key(), v@) == Ok::<Seq<u8>, CryptoError>(data@),
{
    match cipher.encrypt(data) {
        Ok((nonce, ct)) => {
            let mut v = nonce;
            let ghost n = v@;
            let mut c = ct;
            let ghost cv = c@;
            v.append(&mut c);
            assert(v@.take(NONCE_LEN as int) =~= n);
            assert(v@.skip(NONCE_LEN as int) =~= cv);
            Ok(v)
        },
        Err(e) => Err(e),
    }
}

/// Opens sealed chunk data under the session (see `chunk_opened`).
pub fn open_chunk(cipher: &SessionCipher, sealed: &[u8]) -> (r: Result<Vec<u8>, CryptoError>)
    requires
        cipher.key().len() == 32,
        sealed@.len() >= NONCE_LEN + TAG_LEN ==> !keystream_overrun((sealed@.len() - NONCE_LEN - TAG_LEN) as nat, TAG_LEN as nat),
    ensures
        match r {
            Ok(p) => chunk_opened(cipher.key(), sealed@) == Ok::<Seq<u8>, CryptoError>(p@),
            Err(e) => chunk_opened(cipher.key(), sealed@) == Err::<Seq<u8>, CryptoError>(e),
        },
{
    if sealed.len() < NONCE_LEN {
        return Err(CryptoError::TooShort);
    }
    let nonce = slice_subrange(sealed, 0, NONCE_LEN);
    let body = slice_subrange(sealed, NONCE_LEN, sealed.len());
    assert(nonce@ == sealed@.take(NONCE_LEN as int));
    assert(body@ == sealed@.skip(NONCE_LEN as int));
    cipher.decrypt(nonce, body)
}

/// Numbers the chunks of a file of `size` bytes being sent and counts the
/// bytes sent.
#[derive(Debug)]
pub struct FileSender {
    pub transfer_id: String,
    pub size: u64,
    pub next_index: u64,
    pub total: u64,
}

impl FileSender {
    /// A sender for `transfer_id`, a file of `size` bytes, that has sent
    /// nothing yet.
    pub fn new(transfer_id: String, size: u64) -> (r: FileSender)
        ensures
            r.transfer_id == transfer_id,
            r.size == size,
            r.next_index == 0,
            r.total == 0,
    {
        FileSender { transfer_id, size, next_index: 0, total: 0 }
    }

    /// The packet carrying the next chunk, `data`, as read from the file,
    /// sealed under the session `cipher`: `None` when nothing was read (the
    /// file is done).  The chunk that brings the bytes sent up to the file's
    /// size is the last one.
    pub fn next_packet(&mut self, data: Vec<u8>, cipher: &SessionCipher) -> (r: Option<WirePacket>)
        requires
            old(self).total + data@.len() <= u64::MAX,
            old(self).next_index < u64::MAX,
            data@.len() <= CHUNK_SIZE,
            cipher.key().len() == 32,
        ensures
            data@.len() == 0 ==> r is None && *final(self) == *old(self),
            data@.len() > 0 ==> {
                &&& final(self).transfer_id == old(self).transfer_id
                &&& final(self).size == old(self).size
                &&& final(self).next_index == old(self).next_index + 1
                &&& final(self).total == old(self).total + data@.len()
                &&& r matches Some(WirePacket::FileChunk { transfer_id, chunk_index, data: d, is_last })
                    && transfer_id == old(self).transfer_id && chunk_index == old(self).next_index
                    && chunk_opened(cipher.key(), d@) == Ok::<Seq<u8>, CryptoError>(data@)
                    && is_last == (old(self).total + data@.len() >= old(self).size)
            },
    {
        let n = data.len();
        if n == 0 {
            return None;
        }
        let sealed = match seal_chunk(cipher, data.as_slice()) {
            Ok(v) => v,
            Err(_) => {
                assert(false);
                return None;
            },
        };
        let index = self.next_index;
        self.total = self.total + n as u64;
        self.next_index = self.next_index + 1;
        let last = self.total >= self.size;
        Some(WirePacket::FileChunk { transfer_id: self.transfer_id.clone(), chunk_index: index, data: sealed, is_last: last })
    }
}

/// Why a received chunk was refused.
#[derive(Clone, Copy, Debug, PartialEq, Eq, Structural)]
pub enum TransferError {
    /// Chunk `got` arrived while chunk `expected` was due.
    OutOfOrder { expected: u64, got: u64 },
    /// The offered file name would lead out of the Downloads folder.
    BadName,
}

/// Where the chunks of a file being received go, and how far it got.
#[derive(Debug)]
pub struct FileReceiver {
    pub transfer_id: String,
    pub filename: String,
    pub dest_path: String,
    pub received_bytes: u64,
    /// The chunk index due next.
    pub expected_next: u64,
}

/// `home` followed by the downloads folder and `filename`, with the path
/// separator of the platform.
pub open spec fn downloads_text(home: Seq<char>, filename: Seq<char>, windows: bool) -> Seq<char> {
    if windows {
        home + "\\Downloads\\"@ + filename
    } else {
        home + "/Downloads/"@ + filename
    }
}

/// `c` separates path components: `/`, and on Windows `\\` too.
pub open spec fn is_separator(c: char, windows: bool) -> bool {
    c == '/' || (windows && c == '\\')
}

/// The two characters of `n` at `i` are a `..` component.
pub open spec fn parent_at(n: Seq<char>, i: int, windows: bool) -> bool {
    &&& 0 <= i
    &&& i + 2 <= n.len()
    &&& n[i] == '.'
    &&& n[i + 1] == '.'
    &&& (i == 0 || is_separator(n[i - 1], windows))
    &&& (i + 2 == n.len() || is_separator(n[i + 2], windows))
}

/// Joined below a folder, the name `n` stays inside it: it does not start
/// with a separator, and none of its components is `..`.
pub open spec fn stays_inside(n: Seq<char>, windows: bool) -> bool {
    &&& !(n.len() > 0 && is_separator(n[0], windows))
    &&& forall|i: int| !#[trigger] parent_at(n, i, windows)
}

/// Whether the name `n` stays inside the folder it is joined to (see
/// `stays_inside`).
pub fn name_stays_inside(n: &str, windows: bool) -> (r: bool)
    ensures
        r == stays_inside(n@, windows),
{
    let len = n.unicode_len();
    if len > 0 {
        let c = n.get_char(0);
        if c == '/' || (windows && c == '\\') {
            return false;
        }
    }
    let mut i: usize = 0;
    while len > 0 && i < len - 1
        invariant
            len == n@.len(),
            i <= len,
            forall|p: int| 0 <= p < i ==> !#[trigger] parent_at(n@, p, windows),
        decreases len - i,
    {
        let dots = n.get_char(i) == '.' && n.get_char(i + 1) == '.';
        if dots {
            let before = i == 0 || {
                let c = n.get_char(i - 1);
                c == '/' || (windows && c == '\\')
            };
            let after = i + 2 == len || {
                let c = n.get_char(i + 2);
                c == '/' || (windows && c == '\\')
            };
            if before && after {
                assert(parent_at(n@, i as int, windows));
                return false;
            }
        }
        i = i + 1;
    }
    assert forall|p: int| !#[trigger] parent_at(n@, p, windows) by {
        if 0 <= p && p + 2 <= n@.len() {
            assert(p < i);
        }
    }
    true
}

/// The path of `filename` in the Downloads folder under `home`; `None` when
/// the name would lead out of that folder.
pub fn downloads_path(home: &str, filename: &str, windows: bool) -> (r: Option<String>)
    ensures
        stays_inside(filename@, windows) ==> (r matches Some(p) && p@ == downloads_text(home@, filename@, windows)),
        !stays_inside(filename@, windows) ==> r is None,
{
    if !name_stays_inside(filename, windows) {
        return None;
    }
    let mid = if windows {
        join_text(home, "\\Downloads\\")
    } else {
        join_text(home, "/Downloads/")
    };
    Some(join_text(mid.as_str(), filename))
}

impl FileReceiver {
    /// A receiver for `transfer_id` writing to `filename` in the Downloads
    /// folder under `home`, nothing received yet; refused when the name would
    /// lead out of that folder.
    pub fn new(transfer_id: String, filename: String, home: &str, windows: bool) -> (r: Result<FileReceiver, TransferError>)
        ensures
            !stays_inside(filename@, windows) ==> r == Err::<FileReceiver, TransferError>(TransferError::BadName),
            stays_inside(filename@, windows) ==> (r matches Ok(f) && {
                &&& f.transfer_id == transfer_id
                &&& f.filename == filename
                &&& f.dest_path@ == downloads_text(home@, filename@, windows)
                &&& f.received_bytes == 0
                &&& f.expected_next == 0
            }),
    {
        match downloads_path(home, filename.as_str(), windows) {
            Some(dest_path) => Ok(FileReceiver { transfer_id, filename, dest_path, received_bytes: 0, expected_next: 0 }),
            None => Err(TransferError::BadName),
        }
    }

    /// Takes in chunk `index` of `len` bytes: refused unless it is the
    /// chunk due; otherwise counted, and the next one becomes due.
    pub fn write_chunk(&mut self, index: u64, len: u64) -> (r: Result<(), TransferError>)
        requires
            old(self).received_bytes + len <= u64::MAX,
            old(self).expected_next < u64::MAX,
        ensures
            final(self).transfer_id == old(self).transfer_id,
            final(self).filename == old(self).filename,
            final(self).dest_path == old(self).dest_path,
            index != old(self).expected_next ==> {
                &&& r == Err::<(), TransferError>(TransferError::OutOfOrder { expected: old(self).expected_next, got: index })
                &&& final(self).received_bytes == old(self).received_bytes
                &&& final(self).expected_next == old(self).expected_next
            },
            index == old(self).expected_next ==> {
                &&& r is Ok
                &&& final(self).received_bytes == old(self).received_bytes + len
                &&& final(self).expected_next == old(self).expected_next + 1
            },
    {
        if index != self.expected_next {
            return Err(TransferError::OutOfOrder { expected: self.expected_next, got: index });
        }
        self.received_bytes = self.received_bytes + len;
        self.expected_next = index + 1;
        Ok(())
    }
}

} // verus!
