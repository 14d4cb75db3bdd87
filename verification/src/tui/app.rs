//! The input line editor (a text with a byte cursor, a cut buffer and a
//! history of sent lines) and the interface's own state.

use vstd::prelude::*;
use vstd::string::*;
use vstd::utf8::*;
use crate::text::{at_boundary, lemma_ascii_boundaries, lemma_boundary_at_concat, lemma_utf8_concat, push_char, split_text, utf8};
use crate::events::{NetEvent, UiCommand};
use crate::state::{channel_added, has_peer, message_pushed, restamped, transfer_updated, AppState};
use crate::text::{join_text, u64_decimal};
use crate::tui::render::{ClickAction, ClickRegion, holds, rect_holds};
use crate::types::{addr_text, Message, MessageContent, MessageStatus, Peer, addr_to_text};

verus! {

/// Byte position of the character before `pos` in `s`: the closest
/// position below `pos` that starts a character (0 when `pos` is 0).
pub fn prev_char_boundary(s: &str, pos: usize) -> (r: usize)
    ensures
        pos == 0 ==> r == 0,
        pos > 0 ==> {
            &&& r < pos
            &&& (r == 0 || at_boundary(s@, r as int))
            &&& forall|k: int| r < k < pos ==> !at_boundary(s@, k)
        },
{
    let mut p: usize = if pos == 0 {
        0
    } else {
        pos - 1
    };
    while p > 0 && !s.is_char_boundary(p)
        invariant
            pos == 0 ==> p == 0,
            pos > 0 ==> p < pos,
            forall|k: int| p < k < pos ==> !at_boundary(s@, k),
        decreases p,
    {
        p = p - 1;
    }
    p
}

/// Start of the word before byte position `pos`: spaces just before `pos`
/// are skipped, then the non-space bytes before them.
pub fn word_start_before(s: &str, pos: usize) -> (r: usize)
    requires
        pos <= utf8(s@).len(),
    ensures
        word_start(utf8(s@), pos as int, r as int),
{
    let b = s.as_bytes();
    let mut i: usize = pos;
    while i > 0 && b[i - 1] == 32u8
        invariant
            b@ == utf8(s@),
            i <= pos <= b@.len(),
            forall|k: int| i <= k < pos ==> b@[k] == 32u8,
        decreases i,
    {
        i = i - 1;
    }
    let ghost m: int = i as int;
    while i > 0 && b[i - 1] != 32u8
        invariant
            b@ == utf8(s@),
            i <= m <= pos <= b@.len(),
            forall|k: int| m <= k < pos ==> b@[k] == 32u8,
            m == 0 || b@[m - 1] != 32u8,
            forall|k: int| i <= k < m ==> b@[k] != 32u8,
        decreases i,
    {
        i = i - 1;
    }
    assert(word_start_at(b@, pos as int, i as int, m));
    i
}

/// `r` is where the word before `pos` starts in `b`: between `r` and some
/// `m` no byte is a space, between `m` and `pos` every byte is; `m` follows
/// a non-space (or is 0) and `r` follows a space (or is 0).
pub open spec fn word_start(b: Seq<u8>, pos: int, r: int) -> bool {
    exists|m: int| #[trigger] word_start_at(b, pos, r, m)
}

/// `word_start` with the end `m` of the word named.
pub open spec fn word_start_at(b: Seq<u8>, pos: int, r: int, m: int) -> bool {
    &&& 0 <= r <= m <= pos
    &&& forall|k: int| m <= k < pos ==> b[k] == 32u8
    &&& forall|k: int| r <= k < m ==> b[k] != 32u8
    &&& (m == 0 || b[m - 1] != 32u8)
    &&& (r == 0 || b[r - 1] == 32u8)
}

/// `r` is where the word after `pos` ends in `b`: between `pos` and some
/// `m` every byte is a space, between `m` and `r` none is; `r` is the end
/// or holds a space, and `m` is the end or holds a non-space.
pub open spec fn word_end(b: Seq<u8>, pos: int, r: int) -> bool {
    exists|m: int| #[trigger] word_end_at(b, pos, r, m)
}

/// `word_end` with the start `m` of the word named.
pub open spec fn word_end_at(b: Seq<u8>, pos: int, r: int, m: int) -> bool {
    &&& pos <= m <= r <= b.len()
    &&& forall|k: int| pos <= k < m ==> b[k] == 32u8
    &&& forall|k: int| m <= k < r ==> b[k] != 32u8
    &&& (m == b.len() || b[m] != 32u8)
    &&& (r == b.len() || b[r] == 32u8)
}

/// End of the word after byte position `pos`: spaces from `pos` on are
/// skipped, then the non-space bytes after them.  A position past the end
/// is returned as it is.
pub fn word_end_after(s: &str, pos: usize) -> (r: usize)
    ensures
        pos <= utf8(s@).len() ==> word_end(utf8(s@), pos as int, r as int),
        pos > utf8(s@).len() ==> r == pos,
{
    let b = s.as_bytes();
    if pos > b.len() {
        return pos;
    }
    let mut i: usize = pos;
    while i < b.len() && b[i] == 32u8
        invariant
            b@ == utf8(s@),
            pos <= i <= b@.len(),
            forall|k: int| pos <= k < i ==> b@[k] == 32u8,
        decreases b@.len() - i,
    {
        i = i + 1;
    }
    let ghost m: int = i as int;
    while i < b.len() && b[i] != 32u8
        invariant
            b@ == utf8(s@),
            pos <= m <= i <= b@.len(),
            forall|k: int| pos <= k < m ==> b@[k] == 32u8,
            m == b@.len() || b@[m] != 32u8,
            forall|k: int| m <= k < i ==> b@[k] != 32u8,
        decreases b@.len() - i,
    {
        i = i + 1;
    }
    assert(word_end_at(b@, pos as int, i as int, m));
    i
}

/// How many sent lines the history keeps.
pub const HISTORY_LIMIT: usize = 200;

/// Whether the interface model (`InputResult`) keeps running or quits.
#[derive(Clone, Copy, Debug, PartialEq, Eq, Structural)]
pub enum InputResult {
    Continue,
    Quit,
}

/// The interface's own state: the input line and its cursor (a byte
/// position), the cut buffer, the history of sent lines, the feed scroll,
/// the status line, the popups, and the clickable regions of the last frame.
#[derive(Debug)]
pub struct App {
    pub input_buf: String,
    pub cursor_pos: usize,
    pub yank_buf: String,
    pub history: Vec<String>,
    pub history_idx: Option<usize>,
    pub input_draft: String,
    pub scroll_offset: usize,
    pub status_msg: Option<String>,
    pub status_error: bool,
    pub file_offer: Option<(String, u64, String, String)>,
    pub show_help: bool,
    pub show_join_requests: bool,
    pub click_regions: Vec<ClickRegion>,
}

/// `s` is `l`, then one character `c`, then `r`, where the UTF-8 form of
/// `l` (`with_c` false) or of `l` followed by `c` (`with_c` true) is
/// `pos` bytes long.
pub open spec fn char_at(s: Seq<char>, pos: int, l: Seq<char>, c: char, r: Seq<char>) -> bool {
    &&& s == l + seq![c] + r
    &&& utf8(l).len() == pos
}

impl App {
    /// The editor's invariant: the cursor starts a character of the input
    /// line (or is its end), and a history position is within the history.
    pub open spec fn editor_ok(&self) -> bool {
        &&& at_boundary(self.input_buf@, self.cursor_pos as int)
        &&& (self.history_idx matches Some(i) ==> i < self.history@.len())
    }

    /// Everything but the input line, its cursor and the cut buffer is as in `old`.
    pub open spec fn same_but_line(&self, old: &App) -> bool {
        &&& self.history == old.history
        &&& self.history_idx == old.history_idx
        &&& self.input_draft == old.input_draft
        &&& self.scroll_offset == old.scroll_offset
        &&& self.status_msg == old.status_msg
        &&& self.status_error == old.status_error
        &&& self.file_offer == old.file_offer
        &&& self.show_help == old.show_help
        &&& self.show_join_requests == old.show_join_requests
        &&& self.click_regions == old.click_regions
    }

    /// An empty editor: nothing typed, no history, no popup.
    pub fn new() -> (r: App)
        ensures
            r.editor_ok(),
            r.input_buf@.len() == 0,
            r.cursor_pos == 0,
            r.yank_buf@.len() == 0,
            r.history@.len() == 0,
            r.history_idx is None,
            r.input_draft@.len() == 0,
            r.scroll_offset == 0,
            r.status_msg is None,
            !r.status_error,
            r.file_offer is None,
            !r.show_help,
            !r.show_join_requests,
            r.click_regions@.len() == 0,
    {
        proof {
            encode_utf8_valid_utf8(Seq::<char>::empty());
        }
        App {
            input_buf: String::new(),
            cursor_pos: 0,
            yank_buf: String::new(),
            history: Vec::new(),
            history_idx: None,
            input_draft: String::new(),
            scroll_offset: 0,
            status_msg: None,
            status_error: false,
            file_offer: None,
            show_help: false,
            show_join_requests: false,
            click_regions: Vec::new(),
        }
    }

    /// Shows `msg` in the status line, as an error when `err`.
    pub fn set_status(&mut self, msg: String, err: bool)
        ensures
            final(self).status_msg == Some(msg),
            final(self).status_error == err,
            final(self).input_buf == old(self).input_buf,
            final(self).cursor_pos == old(self).cursor_pos,
            final(self).yank_buf == old(self).yank_buf,
            final(self).history == old(self).history,
            final(self).history_idx == old(self).history_idx,
            final(self).input_draft == old(self).input_draft,
            final(self).scroll_offset == old(self).scroll_offset,
            final(self).file_offer == old(self).file_offer,
            final(self).show_help == old(self).show_help,
            final(self).show_join_requests == old(self).show_join_requests,
            final(self).click_regions == old(self).click_regions,
    {
        self.status_msg = Some(msg);
        self.status_error = err;
    }

    // ── Editing ────────────────────────────────────────────────────────────

    /// Inserts `s` at the cursor and moves the cursor after it.
    pub fn insert_str(&mut self, s: &str)
        requires
            old(self).editor_ok(),
        ensures
            typed_text(*old(self), *final(self), s@),
    {
        let (a, b) = split_text(self.input_buf.as_str(), self.cursor_pos);
        let mut left = a;
        left.append(s);
        let new_pos = left.as_str().as_bytes().len();
        let mut whole = left.clone();
        whole.append(b.as_str());
        proof {
            encode_utf8_valid_utf8(old(self).input_buf@);
            assert(self.cursor_pos <= utf8(old(self).input_buf@).len());
            assert(utf8(a@).len() == self.cursor_pos);
            lemma_utf8_concat(a@, s@);
            lemma_utf8_concat(left@, b@);
            lemma_boundary_at_concat(left@, b@);
            assert(new_pos == utf8(left@).len());
        }
        self.input_buf = whole;
        self.cursor_pos = new_pos;
    }

    /// Inserts the character `c` at the cursor and moves the cursor after it.
    pub fn insert_char(&mut self, c: char)
        requires
            old(self).editor_ok(),
        ensures
            final(self).editor_ok(),
            final(self).same_but_line(old(self)),
            final(self).yank_buf == old(self).yank_buf,
            utf8(final(self).input_buf@) == utf8(old(self).input_buf@).take(old(self).cursor_pos as int) + utf8(seq![c])
                + utf8(old(self).input_buf@).skip(old(self).cursor_pos as int),
            final(self).cursor_pos == old(self).cursor_pos + utf8(seq![c]).len(),
    {
        let mut one = String::new();
        push_char(&mut one, c);
        assert(one@ =~= seq![c]);
        self.insert_str(one.as_str());
    }

    /// Deletes the character before the cursor, which moves back over it.
    pub fn delete_char_before(&mut self)
        requires
            old(self).editor_ok(),
        ensures
            backspaced(*old(self), *final(self)),
    {
        if self.cursor_pos == 0 {
            return;
        }
        proof {
            encode_utf8_valid_utf8(old(self).input_buf@);
        }
        let (a, b) = split_text(self.input_buf.as_str(), self.cursor_pos);
        let n = a.as_str().unicode_len();
        assert(a@.len() > 0) by {
            if a@.len() == 0 {
                assert(utf8(a@) =~= Seq::<u8>::empty());
            }
        }
        let l = a.as_str().substring_char(0, n - 1).to_owned();
        let ghost c = a@.last();
        assert(a@ =~= l@ + seq![c]);
        let new_pos = l.as_str().as_bytes().len();
        let mut whole = l.clone();
        whole.append(b.as_str());
        proof {
            lemma_utf8_concat(l@, seq![c]);
            assert(utf8(a@) == utf8(l@) + utf8(seq![c]));
            assert(old(self).cursor_pos <= utf8(old(self).input_buf@).len());
            assert(utf8(a@).len() == old(self).cursor_pos);
            lemma_boundary_at_concat(l@, b@);
            assert(old(self).input_buf@ =~= l@ + seq![c] + b@);
            assert(char_at(old(self).input_buf@, old(self).cursor_pos - utf8(seq![c]).len(), l@, c, b@));
        }
        self.input_buf = whole;
        self.cursor_pos = new_pos;
    }

    /// Deletes the character at the cursor, if any; the cursor stays.
    pub fn delete_char_after(&mut self)
        requires
            old(self).editor_ok(),
        ensures
            deleted_forward(*old(self), *final(self)),
    {
        if self.cursor_pos >= self.input_buf.as_str().as_bytes().len() {
            return;
        }
        proof {
            encode_utf8_valid_utf8(old(self).input_buf@);
        }
        let (a, b) = split_text(self.input_buf.as_str(), self.cursor_pos);
        let m = b.as_str().unicode_len();
        assert(b@.len() > 0) by {
            if b@.len() == 0 {
                assert(utf8(b@) =~= Seq::<u8>::empty());
            }
        }
        let r = b.as_str().substring_char(1, m).to_owned();
        let ghost c = b@[0];
        assert(b@ =~= seq![c] + r@);
        let mut whole = a.clone();
        whole.append(r.as_str());
        proof {
            lemma_boundary_at_concat(a@, r@);
            assert(utf8(a@).len() == old(self).cursor_pos);
            assert(old(self).input_buf@ =~= a@ + seq![c] + r@);
            assert(char_at(old(self).input_buf@, old(self).cursor_pos as int, a@, c, r@));
        }
        self.input_buf = whole;
    }

    /// Cuts the word before the cursor (see `word_start_before`) into the
    /// cut buffer; the cursor moves to where the word started.
    pub fn delete_word_before(&mut self)
        requires
            old(self).editor_ok(),
        ensures
            word_cut(*old(self), *final(self)),
    {
        if self.cursor_pos == 0 {
            return;
        }
        proof {
            encode_utf8_valid_utf8(old(self).input_buf@);
        }
        let start = word_start_before(self.input_buf.as_str(), self.cursor_pos);
        let (a, b) = split_text(self.input_buf.as_str(), self.cursor_pos);
        proof {
            let bytes = utf8(old(self).input_buf@);
            encode_utf8_valid_utf8(a@);
            assert(utf8(a@) == bytes.take(self.cursor_pos as int));
            if start > 0 {
                assert(bytes[start - 1] == 32u8);
                assert(utf8(a@)[start - 1] == 32u8);
                lemma_ascii_boundaries(utf8(a@), start - 1);
            }
        }
        let (head, word) = split_text(a.as_str(), start);
        let mut whole = head.clone();
        whole.append(b.as_str());
        proof {
            let bytes = utf8(old(self).input_buf@);
            lemma_utf8_concat(head@, b@);
            lemma_boundary_at_concat(head@, b@);
            assert(utf8(word@) =~= bytes.subrange(start as int, self.cursor_pos as int));
            assert(utf8(head@) =~= bytes.take(start as int));
            assert(utf8(whole@) =~= bytes.take(start as int) + bytes.skip(self.cursor_pos as int));
        }
        self.yank_buf = word;
        self.input_buf = whole;
        self.cursor_pos = start;
    }

    /// Moves the cursor back over one character.
    pub fn move_char_left(&mut self)
        requires
            old(self).editor_ok(),
        ensures
            moved_left(*old(self), *final(self)),
    {
        if self.cursor_pos > 0 {
            self.cursor_pos = prev_char_boundary(self.input_buf.as_str(), self.cursor_pos);
            proof {
                encode_utf8_valid_utf8(self.input_buf@);
            }
        }
    }

    /// Moves the cursor forward over one character, if any.
    pub fn move_char_right(&mut self)
        requires
            old(self).editor_ok(),
        ensures
            moved_right(*old(self), *final(self)),
    {
        if self.cursor_pos >= self.input_buf.as_str().as_bytes().len() {
            return;
        }
        proof {
            encode_utf8_valid_utf8(old(self).input_buf@);
        }
        let (a, b) = split_text(self.input_buf.as_str(), self.cursor_pos);
        let m = b.as_str().unicode_len();
        assert(b@.len() > 0) by {
            if b@.len() == 0 {
                assert(utf8(b@) =~= Seq::<u8>::empty());
            }
        }
        let r = b.as_str().substring_char(1, m);
        let ghost c = b@[0];
        assert(b@ =~= seq![c] + r@);
        let step = b.as_str().as_bytes().len() - r.as_bytes().len();
        proof {
            lemma_utf8_concat(seq![c], r@);
            lemma_utf8_concat(a@, seq![c]);
            assert(a@ + seq![c] + r@ =~= old(self).input_buf@);
            lemma_boundary_at_concat(a@ + seq![c], r@);
            assert(utf8(a@).len() == old(self).cursor_pos);
            assert(char_at(old(self).input_buf@, old(self).cursor_pos as int, a@, c, r@));
        }
        self.cursor_pos = self.cursor_pos + step;
    }

    /// Moves the cursor to the start of the word before it.
    pub fn move_word_left(&mut self)
        requires
            old(self).editor_ok(),
        ensures
            moved_word_left(*old(self), *final(self)),
    {
        proof {
            encode_utf8_valid_utf8(old(self).input_buf@);
        }
        let p = word_start_before(self.input_buf.as_str(), self.cursor_pos);
        proof {
            if p > 0 {
                lemma_ascii_boundaries(utf8(self.input_buf@), p - 1);
            }
        }
        self.cursor_pos = p;
    }

    /// Moves the cursor to the end of the word after it.
    pub fn move_word_right(&mut self)
        requires
            old(self).editor_ok(),
        ensures
            moved_word_right(*old(self), *final(self)),
    {
        proof {
            encode_utf8_valid_utf8(old(self).input_buf@);
        }
        let p = word_end_after(self.input_buf.as_str(), self.cursor_pos);
        proof {
            let bytes = utf8(self.input_buf@);
            if p < bytes.len() {
                lemma_ascii_boundaries(bytes, p as int);
            } else {
                is_char_boundary_start_end_of_seq(bytes);
            }
        }
        self.cursor_pos = p;
    }

    /// Moves the cursor to the start of the line.
    pub fn cursor_home(&mut self)
        requires
            old(self).editor_ok(),
        ensures
            moved_home(*old(self), *final(self)),
    {
        self.cursor_pos = 0;
        proof {
            encode_utf8_valid_utf8(self.input_buf@);
        }
    }

    /// Moves the cursor to the end of the line.
    pub fn cursor_end(&mut self)
        requires
            old(self).editor_ok(),
        ensures
            moved_end(*old(self), *final(self)),
    {
        self.cursor_pos = self.input_buf.as_str().as_bytes().len();
        proof {
            encode_utf8_valid_utf8(self.input_buf@);
            is_char_boundary_start_end_of_seq(utf8(self.input_buf@));
        }
    }

    /// Cuts from the cursor to the end of the line into the cut buffer.
    pub fn cut_to_end(&mut self)
        requires
            old(self).editor_ok(),
        ensures
            cut_end(*old(self), *final(self)),
    {
        let (a, b) = split_text(self.input_buf.as_str(), self.cursor_pos);
        proof {
            encode_utf8_valid_utf8(old(self).input_buf@);
            encode_utf8_valid_utf8(a@);
            assert(old(self).cursor_pos <= utf8(old(self).input_buf@).len());
            assert(utf8(a@).len() == old(self).cursor_pos);
            is_char_boundary_start_end_of_seq(utf8(a@));
        }
        self.yank_buf = b;
        self.input_buf = a;
    }

    /// Cuts from the start of the line to the cursor into the cut buffer;
    /// the cursor moves to the start.
    pub fn cut_to_start(&mut self)
        requires
            old(self).editor_ok(),
        ensures
            cut_start(*old(self), *final(self)),
    {
        let (a, b) = split_text(self.input_buf.as_str(), self.cursor_pos);
        proof {
            encode_utf8_valid_utf8(b@);
        }
        self.yank_buf = a;
        self.input_buf = b;
        self.cursor_pos = 0;
    }

    /// Inserts the cut buffer at the cursor.
    pub fn paste(&mut self)
        requires
            old(self).editor_ok(),
        ensures
            pasted(*old(self), *final(self)),
    {
        let y = self.yank_buf.clone();
        self.insert_str(y.as_str());
    }

    // ── History ────────────────────────────────────────────────────────────

    /// Records a sent line, unless it repeats the last one; the oldest line
    /// goes once more than `HISTORY_LIMIT` are kept.  Browsing stops.
    pub fn history_push(&mut self, line: String)
        requires
            old(self).editor_ok(),
        ensures
            final(self).editor_ok(),
            final(self).history_idx is None,
            final(self).history@ == pushed_history(old(self).history@, line),
            final(self).input_buf == old(self).input_buf,
            final(self).cursor_pos == old(self).cursor_pos,
            final(self).yank_buf == old(self).yank_buf,
            final(self).input_draft == old(self).input_draft,
            final(self).scroll_offset == old(self).scroll_offset,
            final(self).status_msg == old(self).status_msg,
            final(self).status_error == old(self).status_error,
            final(self).file_offer == old(self).file_offer,
            final(self).show_help == old(self).show_help,
            final(self).show_join_requests == old(self).show_join_requests,
            final(self).click_regions == old(self).click_regions,
    {
        let n = self.history.len();
        if n > 0 && self.history[n - 1] == line {
            self.history_idx = None;
            return;
        }
        self.history.push(line);
        if self.history.len() > HISTORY_LIMIT {
            self.history.remove(0);
            assert(self.history@ =~= old(self).history@.push(line).drop_first());
        }
        self.history_idx = None;
    }

    /// Shows the previous line of the history (the last one when not
    /// browsing yet, keeping the line being typed as a draft).
    pub fn history_prev(&mut self)
        requires
            old(self).editor_ok(),
        ensures
            browsed_back(*old(self), *final(self)),
    {
        if self.history.len() == 0 {
            return;
        }
        match self.history_idx {
            None => {
                self.input_draft = self.input_buf.clone();
                self.history_idx = Some(self.history.len() - 1);
            },
            Some(0) => {},
            Some(i) => {
                self.history_idx = Some(i - 1);
            },
        }
        match self.history_idx {
            Some(i) => {
                self.input_buf = self.history[i].clone();
                self.cursor_pos = self.input_buf.as_str().as_bytes().len();
                proof {
                    encode_utf8_valid_utf8(self.input_buf@);
                    is_char_boundary_start_end_of_seq(utf8(self.input_buf@));
                }
            },
            None => {},
        }
    }

    /// Shows the next line of the history, or the draft after the last one.
    pub fn history_next(&mut self)
        requires
            old(self).editor_ok(),
        ensures
            browsed_forward(*old(self), *final(self)),
    {
        match self.history_idx {
            None => {},
            Some(i) => {
                if i >= self.history.len() - 1 {
                    self.history_idx = None;
                    self.input_buf = self.input_draft.clone();
                } else {
                    self.history_idx = Some(i + 1);
                    self.input_buf = self.history[i + 1].clone();
                }
                self.cursor_pos = self.input_buf.as_str().as_bytes().len();
                proof {
                    encode_utf8_valid_utf8(self.input_buf@);
                    is_char_boundary_start_end_of_seq(utf8(self.input_buf@));
                }
            },
        }
    }
}

/// `n` is `o` with `s` typed at the cursor, the cursor after it.
pub open spec fn typed_text(o: App, n: App, s: Seq<char>) -> bool {
    &&& n.editor_ok()
    &&& n.same_but_line(&o)
    &&& n.yank_buf == o.yank_buf
    &&& utf8(n.input_buf@) == utf8(o.input_buf@).take(o.cursor_pos as int) + utf8(s)
        + utf8(o.input_buf@).skip(o.cursor_pos as int)
    &&& n.cursor_pos == o.cursor_pos + utf8(s).len()
}

/// `n` is `o` with the character before the cursor deleted and the cursor
/// moved back over it; nothing changes at the start of the line.
pub open spec fn backspaced(o: App, n: App) -> bool {
    &&& n.editor_ok()
    &&& n.same_but_line(&o)
    &&& n.yank_buf == o.yank_buf
    &&& o.cursor_pos == 0 ==> n.input_buf == o.input_buf && n.cursor_pos == 0
    &&& o.cursor_pos > 0 ==> exists|l: Seq<char>, c: char, r: Seq<char>|
        #[trigger] char_at(o.input_buf@, o.cursor_pos - utf8(seq![c]).len(), l, c, r)
            && n.input_buf@ == l + r && n.cursor_pos == utf8(l).len()
}

/// `n` is `o` with the character at the cursor deleted; nothing changes at
/// the end of the line.
pub open spec fn deleted_forward(o: App, n: App) -> bool {
    &&& n.editor_ok()
    &&& n.same_but_line(&o)
    &&& n.yank_buf == o.yank_buf
    &&& n.cursor_pos == o.cursor_pos
    &&& o.cursor_pos >= utf8(o.input_buf@).len() ==> n.input_buf == o.input_buf
    &&& o.cursor_pos < utf8(o.input_buf@).len() ==> exists|l: Seq<char>, c: char, r: Seq<char>|
        #[trigger] char_at(o.input_buf@, o.cursor_pos as int, l, c, r) && n.input_buf@ == l + r
}

/// `n` is `o` with the word before the cursor cut into the cut buffer and
/// the cursor at its start; nothing changes at the start of the line.
pub open spec fn word_cut(o: App, n: App) -> bool {
    &&& n.editor_ok()
    &&& n.same_but_line(&o)
    &&& o.cursor_pos == 0 ==> n.input_buf == o.input_buf && n.cursor_pos == 0
        && n.yank_buf == o.yank_buf
    &&& o.cursor_pos > 0 ==> {
        let b = utf8(o.input_buf@);
        let (p, q) = (n.cursor_pos as int, o.cursor_pos as int);
        &&& word_start(b, q, p)
        &&& utf8(n.yank_buf@) == b.subrange(p, q)
        &&& utf8(n.input_buf@) == b.take(p) + b.skip(q)
    }
}

/// `n` is `o` with the cursor moved back to the previous character start.
pub open spec fn moved_left(o: App, n: App) -> bool {
    &&& n.editor_ok()
    &&& n.same_but_line(&o)
    &&& n.input_buf == o.input_buf
    &&& n.yank_buf == o.yank_buf
    &&& o.cursor_pos == 0 ==> n.cursor_pos == 0
    &&& o.cursor_pos > 0 ==> {
        &&& n.cursor_pos < o.cursor_pos
        &&& forall|k: int| n.cursor_pos < k < o.cursor_pos ==> !at_boundary(o.input_buf@, k)
    }
}

/// `n` is `o` with the cursor moved forward over one character.
pub open spec fn moved_right(o: App, n: App) -> bool {
    &&& n.editor_ok()
    &&& n.same_but_line(&o)
    &&& n.input_buf == o.input_buf
    &&& n.yank_buf == o.yank_buf
    &&& o.cursor_pos >= utf8(o.input_buf@).len() ==> n.cursor_pos == o.cursor_pos
    &&& o.cursor_pos < utf8(o.input_buf@).len() ==> exists|l: Seq<char>, c: char, r: Seq<char>|
        #[trigger] char_at(o.input_buf@, o.cursor_pos as int, l, c, r)
            && n.cursor_pos == o.cursor_pos + utf8(seq![c]).len()
}

/// `n` is `o` with the cursor at the start of the word before it.
pub open spec fn moved_word_left(o: App, n: App) -> bool {
    &&& n.editor_ok()
    &&& n.same_but_line(&o)
    &&& n.input_buf == o.input_buf
    &&& n.yank_buf == o.yank_buf
    &&& word_start(utf8(o.input_buf@), o.cursor_pos as int, n.cursor_pos as int)
}

/// `n` is `o` with the cursor at the end of the word after it.
pub open spec fn moved_word_right(o: App, n: App) -> bool {
    &&& n.editor_ok()
    &&& n.same_but_line(&o)
    &&& n.input_buf == o.input_buf
    &&& n.yank_buf == o.yank_buf
    &&& word_end(utf8(o.input_buf@), o.cursor_pos as int, n.cursor_pos as int)
}

/// `n` is `o` with the cursor at the start of the line.
pub open spec fn moved_home(o: App, n: App) -> bool {
    &&& n.editor_ok()
    &&& n.same_but_line(&o)
    &&& n.input_buf == o.input_buf
    &&& n.yank_buf == o.yank_buf
    &&& n.cursor_pos == 0
}

/// `n` is `o` with the cursor at the end of the line.
pub open spec fn moved_end(o: App, n: App) -> bool {
    &&& n.editor_ok()
    &&& n.same_but_line(&o)
    &&& n.input_buf == o.input_buf
    &&& n.yank_buf == o.yank_buf
    &&& n.cursor_pos == utf8(o.input_buf@).len()
}

/// `n` is `o` with the text after the cursor cut into the cut buffer.
pub open spec fn cut_end(o: App, n: App) -> bool {
    &&& n.editor_ok()
    &&& n.same_but_line(&o)
    &&& n.cursor_pos == o.cursor_pos
    &&& utf8(n.yank_buf@) == utf8(o.input_buf@).skip(o.cursor_pos as int)
    &&& utf8(n.input_buf@) == utf8(o.input_buf@).take(o.cursor_pos as int)
}

/// `n` is `o` with the text before the cursor cut into the cut buffer and
/// the cursor at the start.
pub open spec fn cut_start(o: App, n: App) -> bool {
    &&& n.editor_ok()
    &&& n.same_but_line(&o)
    &&& n.cursor_pos == 0
    &&& utf8(n.yank_buf@) == utf8(o.input_buf@).take(o.cursor_pos as int)
    &&& utf8(n.input_buf@) == utf8(o.input_buf@).skip(o.cursor_pos as int)
}

/// `n` is `o` with the cut buffer typed at the cursor.
pub open spec fn pasted(o: App, n: App) -> bool {
    &&& n.editor_ok()
    &&& n.same_but_line(&o)
    &&& n.yank_buf == o.yank_buf
    &&& utf8(n.input_buf@) == utf8(o.input_buf@).take(o.cursor_pos as int) + utf8(o.yank_buf@)
        + utf8(o.input_buf@).skip(o.cursor_pos as int)
    &&& n.cursor_pos == o.cursor_pos + utf8(o.yank_buf@).len()
}

/// `n` is `o` showing the previous history line (the last one when not yet
/// browsing, the line being typed kept as the draft).
pub open spec fn browsed_back(o: App, n: App) -> bool {
    &&& n.editor_ok()
    &&& n.history == o.history
    &&& n.yank_buf == o.yank_buf
    &&& n.scroll_offset == o.scroll_offset
    &&& n.status_msg == o.status_msg
    &&& n.file_offer == o.file_offer
    &&& n.show_help == o.show_help
    &&& n.show_join_requests == o.show_join_requests
    &&& o.history@.len() == 0 ==> n == o
    &&& o.history@.len() > 0 ==> {
        &&& n.history_idx == Some(match o.history_idx {
            None => (o.history@.len() - 1) as usize,
            Some(i) => if i == 0 { 0usize } else { (i - 1) as usize },
        })
        &&& n.input_draft == (if o.history_idx is None {
            o.input_buf
        } else {
            o.input_draft
        })
        &&& n.input_buf == o.history@[n.history_idx->0 as int]
        &&& n.cursor_pos == utf8(n.input_buf@).len()
    }
}

/// `n` is `o` showing the next history line, or the draft after the last.
pub open spec fn browsed_forward(o: App, n: App) -> bool {
    &&& n.editor_ok()
    &&& n.history == o.history
    &&& n.input_draft == o.input_draft
    &&& n.yank_buf == o.yank_buf
    &&& n.scroll_offset == o.scroll_offset
    &&& n.status_msg == o.status_msg
    &&& n.file_offer == o.file_offer
    &&& n.show_help == o.show_help
    &&& n.show_join_requests == o.show_join_requests
    &&& o.history_idx is None ==> n == o
    &&& o.history_idx matches Some(i) ==> {
        &&& i + 1 >= o.history@.len() ==> n.history_idx is None
            && n.input_buf == o.input_draft
        &&& i + 1 < o.history@.len() ==> n.history_idx == Some((i + 1) as usize)
            && n.input_buf == o.history@[i + 1]
        &&& n.cursor_pos == utf8(n.input_buf@).len()
    }
}

/// The history once `line` is sent: unchanged when `line` repeats the last
/// line; otherwise `line` at the end, the oldest line dropped when more than
/// `HISTORY_LIMIT` would be kept.
pub open spec fn pushed_history(h: Seq<String>, line: String) -> Seq<String> {
    if h.len() > 0 && h.last()@ == line@ {
        h
    } else if h.len() + 1 > HISTORY_LIMIT {
        h.push(line).drop_first()
    } else {
        h.push(line)
    }
}

/// `m` is a notice of this node whose text is `text`.
pub open spec fn notice(m: Message, text: Seq<char>) -> bool {
    &&& m.content matches MessageContent::System(t) && t@ == text
    &&& m.status == MessageStatus::System
    &&& m.channel@ == "#general"@
}

/// `ns` is `os` once a notice with text `text` is pushed.
pub open spec fn noticed(os: AppState, ns: AppState, text: Seq<char>) -> bool {
    exists|m: Message|
        #[trigger] notice(m, text) && ns.same_but_channels(&os) && ns.active() == os.active()
            && message_pushed(os.channel_seq(), ns.channel_seq(), os.active() as int, m)
}

/// Pushes a notice of this node with text `text` into the state.
fn push_notice(state: &mut AppState, text: String)
    requires
        old(state).wf(),
    ensures
        final(state).wf(),
        noticed(*old(state), *final(state), text@),
{
    let m = Message::system(text);
    let ghost mm = m;
    state.push_message(m);
    assert(notice(mm, text@));
}

/// The nickname of the peer `id` if known, else `id` itself.
pub open spec fn nick_or_id(ps: Seq<Peer>, id: Seq<char>, nick: Seq<char>) -> bool {
    if has_peer(ps, id) {
        exists|i: int| 0 <= i < ps.len() && ps[i].id@ == id && #[trigger] ps[i].nickname@ == nick
    } else {
        nick == id
    }
}

/// `n` is `o` with only the feed scroll changed to `offset`.
pub open spec fn only_scroll(o: App, n: App, offset: usize) -> bool {
    n == App { scroll_offset: offset, ..o }
}

impl App {
    /// Takes in a report of the mesh: notices for joins and leaves, delivery
    /// ticks, the file offer popup, transfer progress and outcome, group
    /// requests and answers, and the gateway link.
    pub fn handle_net_event(&mut self, state: &mut AppState, ev: NetEvent)
        requires
            old(state).wf(),
            old(self).editor_ok(),
        ensures
            final(state).wf(),
            final(self).editor_ok(),
            net_event_handled(*old(self), *final(self), *old(state), *final(state), ev),
    {
        match ev {
            NetEvent::PeerJoined(peer) => {
                let a = addr_to_text(&peer.addr);
                let t = join_text(join_text(join_text(join_text("[+] ", peer.nickname.as_str()).as_str(), " joined  [").as_str(), a.as_str()).as_str(), "]");
                push_notice(state, t);
                self.scroll_offset = 0;
            },
            NetEvent::PeerLeft(id) => {
                let nick = match state.peer_nickname(id.as_str()) {
                    Some(n) => n,
                    None => id.clone(),
                };
                let t = join_text(join_text("[-] ", nick.as_str()).as_str(), " left");
                assert(nick_or_id(old(state).peer_seq(), id@, nick@));
                push_notice(state, t);
                assert(noticed(*old(state), *state, "[-] "@ + nick@ + " left"@));
            },
            NetEvent::MessageReceived(_) => {
                self.scroll_offset = 0;
            },
            NetEvent::MessageDelivered { msg_id } => {
                state.mark_delivered(msg_id.as_str());
            },
            NetEvent::FileOfferReceived { from_nick, filename, size, transfer_id, .. } => {
                self.file_offer = Some((filename, size, transfer_id, from_nick));
            },
            NetEvent::TransferProgress { transfer_id, bytes_done } => {
                state.update_transfer_progress(transfer_id.as_str(), bytes_done);
            },
            NetEvent::FileTransferComplete { transfer_id, dest_path } => {
                state.complete_transfer(transfer_id.as_str(), true, None);
                self.set_status(join_text("Download done → ", dest_path.as_str()), false);
            },
            NetEvent::FileTransferFailed { transfer_id, reason } => {
                state.complete_transfer(transfer_id.as_str(), false, Some(reason.clone()));
                self.set_status(join_text("Transfer failed: ", reason.as_str()), true);
            },
            NetEvent::GroupAnnounced { info } => {
                let t = join_text(join_text(join_text(join_text("Group ", info.name.as_str()).as_str(), " exists — /request ").as_str(), info.name.as_str()).as_str(), " <owner_id> to join");
                self.set_status(t, false);
            },
            NetEvent::GroupJoinRequest { group_name, requester_id, requester_nick } => {
                state.add_pending_request(group_name, requester_id, requester_nick);
                self.show_join_requests = true;
            },
            NetEvent::GroupJoinApproved { group_name } => {
                self.set_status(join_text("You were approved to join ", group_name.as_str()), false);
                push_notice(state, join_text("You joined ", group_name.as_str()));
            },
            NetEvent::GroupJoinDenied { group_name } => {
                self.set_status(join_text(join_text("Join request for ", group_name.as_str()).as_str(), " was denied"), true);
            },
            NetEvent::GatewayLinked(sub) => {
                self.set_status(join_text("Gateway linked: ", sub.as_str()), false);
                let ch = join_text(join_text("#", sub.as_str()).as_str(), "-bridge");
                state.add_channel(ch);
                let ghost mid = *state;
                push_notice(state, join_text("Gateway bridged to subnet ", sub.as_str()));
                assert(channel_added(old(state).channel_seq(), mid.channel_seq(), ("#"@ + sub@) + "-bridge"@));
            },
            NetEvent::Error(e) => {
                self.set_status(e, true);
            },
        }
    }

    /// Carries out a click on a region: channel selection, feed scrolling,
    /// closing popups, answering the file offer or a join request, opening
    /// the help.  Returns the command to send, if any.
    pub fn dispatch_click(&mut self, state: &mut AppState, action: ClickAction) -> (r: Option<UiCommand>)
        requires
            old(state).wf(),
            old(self).editor_ok(),
        ensures
            final(state).wf(),
            final(self).editor_ok(),
            click_handled(*old(self), *final(self), *old(state), *final(state), action, r),
    {
        match action {
            ClickAction::SelectChannel(idx) => {
                state.set_active_channel(idx);
                self.scroll_offset = 0;
                None
            },
            ClickAction::ScrollUp => {
                self.scroll_offset = self.scroll_offset.saturating_add(3);
                None
            },
            ClickAction::ScrollDown => {
                if self.scroll_offset > 0 {
                    self.scroll_offset = self.scroll_offset.saturating_sub(3);
                }
                None
            },
            ClickAction::ClosePopup => {
                self.show_help = false;
                self.show_join_requests = false;
                None
            },
            ClickAction::AcceptFile => {
                match self.file_offer.take() {
                    Some((fname, _, tid, _)) => {
                        self.set_status(join_text(join_text("Downloading ", fname.as_str()).as_str(), "…"), false);
                        Some(UiCommand::AcceptFile { transfer_id: tid })
                    },
                    None => None,
                }
            },
            ClickAction::RejectFile => {
                match self.file_offer.take() {
                    Some((_, _, tid, _)) => {
                        self.set_status("Transfer rejected.".to_owned(), false);
                        Some(UiCommand::RejectFile { transfer_id: tid })
                    },
                    None => None,
                }
            },
            ClickAction::ApproveJoin { group, requester_id } => {
                Some(UiCommand::ApproveJoin { group_name: group, requester_id })
            },
            ClickAction::DenyJoin { group, requester_id } => {
                Some(UiCommand::DenyJoin { group_name: group, requester_id })
            },
            ClickAction::OpenHelp => {
                self.show_help = true;
                None
            },
        }
    }

    /// Takes in a mouse event: a left click carries out the first region of
    /// the last frame that holds the cell clicked; the wheel scrolls the feed.
    pub fn handle_mouse(&mut self, state: &mut AppState, mouse: MouseEvent) -> (r: Option<UiCommand>)
        requires
            old(state).wf(),
            old(self).editor_ok(),
        ensures
            final(state).wf(),
            final(self).editor_ok(),
            match mouse.kind {
                MouseKind::LeftDown => {
                    let rs = old(self).click_regions@;
                    if exists|i: int| 0 <= i < rs.len() && holds(#[trigger] rs[i].rect, mouse.column, mouse.row) {
                        exists|i: int|
                            #![trigger rs[i]]
                            0 <= i < rs.len() && holds(rs[i].rect, mouse.column, mouse.row)
                                && (forall|k: int| 0 <= k < i ==> !holds(#[trigger] rs[k].rect, mouse.column, mouse.row))
                                && click_handled(*old(self), *final(self), *old(state), *final(state), rs[i].action, r)
                    } else {
                        *final(self) == *old(self) && *final(state) == *old(state) && r is None
                    }
                },
                MouseKind::ScrollUp => r is None && *final(state) == *old(state) && only_scroll(
                    *old(self),
                    *final(self),
                    if old(self).scroll_offset > usize::MAX - 3 { usize::MAX } else { (old(self).scroll_offset + 3) as usize },
                ),
                MouseKind::ScrollDown => r is None && *final(state) == *old(state) && only_scroll(
                    *old(self),
                    *final(self),
                    if old(self).scroll_offset > 3 { (old(self).scroll_offset - 3) as usize } else { 0 },
                ),
                MouseKind::Other => r is None && *final(state) == *old(state) && *final(self) == *old(self),
            },
    {
        match mouse.kind {
            MouseKind::LeftDown => {
                let mut i: usize = 0;
                while i < self.click_regions.len()
                    invariant
                        mouse.kind == MouseKind::LeftDown,
                        *self == *old(self),
                        *state == *old(state),
                        state.wf(),
                        self.editor_ok(),
                        i <= self.click_regions@.len(),
                        forall|k: int| 0 <= k < i ==> !holds(#[trigger] self.click_regions@[k].rect, mouse.column, mouse.row),
                    decreases self.click_regions@.len() - i,
                {
                    if rect_holds(self.click_regions[i].rect, mouse.column, mouse.row) {
                        let action = self.click_regions[i].action.clone();
                        let ghost k = i as int;
                        let r = self.dispatch_click(state, action);
                        assert(holds(old(self).click_regions@[k].rect, mouse.column, mouse.row));
                        assert(click_handled(*old(self), *self, *old(state), *state, old(self).click_regions@[k].action, r));
                        assert(forall|j: int| 0 <= j < k ==> !holds(#[trigger] old(self).click_regions@[j].rect, mouse.column, mouse.row));
                        assert(old(self).click_regions@[k] == old(self).click_regions@[k]);
                        return r;
                    }
                    i = i + 1;
                }
                None
            },
            MouseKind::ScrollUp => {
                self.scroll_offset = self.scroll_offset.saturating_add(3);
                None
            },
            MouseKind::ScrollDown => {
                if self.scroll_offset > 0 {
                    self.scroll_offset = self.scroll_offset.saturating_sub(3);
                }
                None
            },
            MouseKind::Other => None,
        }
    }
}

/// The kind of a mouse event.
#[derive(Clone, Copy, Debug, PartialEq, Eq, Structural)]
pub enum MouseKind {
    LeftDown,
    ScrollUp,
    ScrollDown,
    Other,
}

/// A mouse event at a cell.
#[derive(Clone, Copy, Debug, PartialEq, Eq, Structural)]
pub struct MouseEvent {
    pub kind: MouseKind,
    pub column: u16,
    pub row: u16,
}

/// The effect of a click carrying out `action`.
pub open spec fn click_handled(oa: App, na: App, os: AppState, ns: AppState, action: ClickAction, r: Option<UiCommand>) -> bool {
    match action {
        ClickAction::SelectChannel(idx) => {
            &&& r is None
            &&& ns.same_but_channels(&os)
            &&& (idx < os.channel_seq().len() ==> ns.active() == idx && ns.channel_seq() == os.channel_seq().update(
                idx as int,
                crate::types::Channel { unread: 0, ..os.channel_seq()[idx as int] },
            ))
            &&& (idx >= os.channel_seq().len() ==> ns.channel_seq() == os.channel_seq() && ns.active() == os.active())
            &&& only_scroll(oa, na, 0)
        },
        ClickAction::ScrollUp => r is None && ns == os && only_scroll(
            oa,
            na,
            if oa.scroll_offset > usize::MAX - 3 { usize::MAX } else { (oa.scroll_offset + 3) as usize },
        ),
        ClickAction::ScrollDown => r is None && ns == os && only_scroll(
            oa,
            na,
            if oa.scroll_offset > 3 { (oa.scroll_offset - 3) as usize } else { 0 },
        ),
        ClickAction::ClosePopup => r is None && ns == os && na == App { show_help: false, show_join_requests: false, ..oa },
        ClickAction::AcceptFile => ns == os && match oa.file_offer {
            Some((fname, _, tid, _)) => {
                &&& r == Some(UiCommand::AcceptFile { transfer_id: tid })
                &&& na.file_offer is None
                &&& na.status_msg matches Some(m) && m@ == "Downloading "@ + fname@ + "…"@
                &&& !na.status_error
                &&& na == App { file_offer: None, status_msg: na.status_msg, status_error: false, ..oa }
            },
            None => r is None && na == oa,
        },
        ClickAction::RejectFile => ns == os && match oa.file_offer {
            Some((_, _, tid, _)) => {
                &&& r == Some(UiCommand::RejectFile { transfer_id: tid })
                &&& na.status_msg matches Some(m) && m@ == "Transfer rejected."@
                &&& na == App { file_offer: None, status_msg: na.status_msg, status_error: false, ..oa }
            },
            None => r is None && na == oa,
        },
        ClickAction::ApproveJoin { group, requester_id } => ns == os && na == oa && r == Some(
            UiCommand::ApproveJoin { group_name: group, requester_id },
        ),
        ClickAction::DenyJoin { group, requester_id } => ns == os && na == oa && r == Some(
            UiCommand::DenyJoin { group_name: group, requester_id },
        ),
        ClickAction::OpenHelp => r is None && ns == os && na == App { show_help: true, ..oa },
    }
}

/// `n` is `o` with `text` in the status line (an error when `err`) and
/// nothing else changed.
pub open spec fn status_only(o: App, n: App, text: Seq<char>, err: bool) -> bool {
    &&& n.status_msg matches Some(m) && m@ == text
    &&& n == App { status_msg: n.status_msg, status_error: err, ..o }
}

/// The effect of the report `ev` of the mesh on the interface and the state.
pub open spec fn net_event_handled(oa: App, na: App, os: AppState, ns: AppState, ev: NetEvent) -> bool {
    match ev {
        NetEvent::PeerJoined(peer) => {
            &&& noticed(os, ns, "[+] "@ + peer.nickname@ + " joined  ["@ + addr_text(peer.addr) + "]"@)
            &&& only_scroll(oa, na, 0)
        },
        NetEvent::PeerLeft(id) => {
            &&& exists|nick: Seq<char>|
                #[trigger] nick_or_id(os.peer_seq(), id@, nick) && noticed(os, ns, "[-] "@ + nick + " left"@)
            &&& na == oa
        },
        NetEvent::MessageReceived(_) => ns == os && only_scroll(oa, na, 0),
        NetEvent::MessageDelivered { msg_id } => {
            &&& ns.same_but_channels(&os)
            &&& ns.active() == os.active()
            &&& restamped(os.channel_seq(), ns.channel_seq(), msg_id@, MessageStatus::Sent, MessageStatus::Delivered)
            &&& na == oa
        },
        NetEvent::FileOfferReceived { from_nick, filename, size, transfer_id, .. } => {
            &&& ns == os
            &&& na == App { file_offer: Some((filename, size, transfer_id, from_nick)), ..oa }
        },
        NetEvent::TransferProgress { transfer_id, bytes_done } => {
            &&& ns.same_but_transfers(&os)
            &&& transfer_updated(os.transfer_seq(), ns.transfer_seq(), transfer_id@, Some(bytes_done), crate::types::TransferStatus::Active)
            &&& na == oa
        },
        NetEvent::FileTransferComplete { transfer_id, dest_path } => {
            &&& ns.same_but_transfers(&os)
            &&& transfer_updated(os.transfer_seq(), ns.transfer_seq(), transfer_id@, None, crate::types::TransferStatus::Complete)
            &&& status_only(oa, na, "Download done → "@ + dest_path@, false)
        },
        NetEvent::FileTransferFailed { transfer_id, reason } => {
            &&& ns.same_but_transfers(&os)
            &&& exists|e: String|
                e@ == reason@ && #[trigger] transfer_updated(os.transfer_seq(), ns.transfer_seq(), transfer_id@, None, crate::types::TransferStatus::Failed(e))
            &&& status_only(oa, na, "Transfer failed: "@ + reason@, true)
        },
        NetEvent::GroupAnnounced { info } => {
            &&& ns == os
            &&& status_only(oa, na, "Group "@ + info.name@ + " exists — /request "@ + info.name@ + " <owner_id> to join"@, false)
        },
        NetEvent::GroupJoinRequest { group_name, requester_id, requester_nick } => {
            &&& ns.same_but_requests(&os)
            &&& crate::state::has_request(os.request_seq(), group_name@, requester_id@) ==> ns.request_seq() == os.request_seq()
            &&& !crate::state::has_request(os.request_seq(), group_name@, requester_id@) ==> ns.request_seq()
                == os.request_seq().push((group_name, requester_id, requester_nick))
            &&& na == App { show_join_requests: true, ..oa }
        },
        NetEvent::GroupJoinApproved { group_name } => {
            &&& noticed(os, ns, "You joined "@ + group_name@)
            &&& status_only(oa, na, "You were approved to join "@ + group_name@, false)
        },
        NetEvent::GroupJoinDenied { group_name } => {
            &&& ns == os
            &&& status_only(oa, na, "Join request for "@ + group_name@ + " was denied"@, true)
        },
        NetEvent::GatewayLinked(sub) => {
            &&& exists|mid: AppState|
                #[trigger] channel_added(os.channel_seq(), mid.channel_seq(), "#"@ + sub@ + "-bridge"@)
                    && mid.same_but_channels(&os) && mid.active() == os.active()
                    && noticed(mid, ns, "Gateway bridged to subnet "@ + sub@)
            &&& status_only(oa, na, "Gateway linked: "@ + sub@, false)
        },
        NetEvent::Error(e) => {
            &&& ns == os
            &&& na == App { status_msg: Some(e), status_error: true, ..oa }
        },
    }
}

/// The characters of the UTF-8 form of `s` before byte position `p` (a
/// character start) followed by those after it are `s`.
proof fn lemma_split_chars(s: Seq<char>, p: int)
    requires
        at_boundary(s, p),
    ensures
        0 <= p <= utf8(s).len(),
        decode_utf8(utf8(s).take(p)) + decode_utf8(utf8(s).skip(p)) == s,
        utf8(decode_utf8(utf8(s).take(p))) == utf8(s).take(p),
        utf8(decode_utf8(utf8(s).skip(p))) == utf8(s).skip(p),
{
    let b = utf8(s);
    encode_utf8_valid_utf8(s);
    assert(0 <= p <= b.len());
    assert(b.take(p) =~= b.subrange(0, p));
    assert(b.skip(p) =~= b.subrange(p, b.len() as int));
    valid_utf8_split(b, p);
    decode_utf8_split(b, p);
    encode_utf8_decode_utf8(s);
    decode_utf8_encode_utf8(b.take(p));
    decode_utf8_encode_utf8(b.skip(p));
}

/// Deleting the character before the cursor right after typing a
/// character gives back the line and the cursor as they were.
pub proof fn law_backspace_undoes_typing(o: App, m: App, n: App, c: char)
    requires
        o.editor_ok(),
        typed_text(o, m, seq![c]),
        backspaced(m, n),
    ensures
        n.input_buf@ == o.input_buf@,
        n.cursor_pos == o.cursor_pos,
{
    let p = o.cursor_pos as int;
    let b = utf8(o.input_buf@);
    lemma_split_chars(o.input_buf@, p);
    let pre = decode_utf8(b.take(p));
    let post = decode_utf8(b.skip(p));
    let e = utf8(seq![c]);
    encode_utf8_first_scalar(seq![c]);
    assert(e.len() >= 1);
    assert(m.cursor_pos > 0);
    let (l, c2, r) = choose|l: Seq<char>, c2: char, r: Seq<char>|
        #[trigger] char_at(m.input_buf@, m.cursor_pos - utf8(seq![c2]).len(), l, c2, r)
            && n.input_buf@ == l + r && n.cursor_pos == utf8(l).len();
    // the line after typing, two ways
    crate::text::lemma_utf8_concat(l + seq![c2], r);
    crate::text::lemma_utf8_concat(l, seq![c2]);
    crate::text::lemma_utf8_concat(pre + seq![c], post);
    crate::text::lemma_utf8_concat(pre, seq![c]);
    assert(m.input_buf@ == l + seq![c2] + r);
    assert(utf8(m.input_buf@) == utf8(l + seq![c2]) + utf8(r));
    assert(utf8(m.input_buf@) =~= utf8(pre + seq![c]) + utf8(post));
    // both prefixes end at the cursor
    assert(utf8(l + seq![c2]).len() == m.cursor_pos);
    assert(utf8(pre).len() == p);
    assert(utf8(pre + seq![c]).len() == m.cursor_pos);
    assert(utf8(l + seq![c2]) =~= utf8(m.input_buf@).take(m.cursor_pos as int));
    assert(utf8(pre + seq![c]) =~= utf8(m.input_buf@).take(m.cursor_pos as int));
    crate::text::lemma_utf8_injective(l + seq![c2], pre + seq![c]);
    assert(l == (l + seq![c2]).drop_last());
    assert(pre == (pre + seq![c]).drop_last());
    assert(l == pre);
    assert(utf8(r) =~= utf8(m.input_buf@).skip(m.cursor_pos as int));
    assert(utf8(post) =~= utf8(m.input_buf@).skip(m.cursor_pos as int));
    crate::text::lemma_utf8_injective(r, post);
}

/// A finished download completes its transfer: after the completion report
/// for `tid`, the first transfer with that id is complete (all else about it
/// kept), every other transfer is as it was, and no transfer is failed by
/// the report.
pub proof fn law_download_done_completes(oa: App, na: App, os: AppState, ns: AppState, tid: String, dest: String)
    requires
        net_event_handled(oa, na, os, ns, NetEvent::FileTransferComplete { transfer_id: tid, dest_path: dest }),
    ensures
        ns.transfer_seq().len() == os.transfer_seq().len(),
        forall|i: int|
            0 <= i < os.transfer_seq().len() && os.transfer_seq()[i].id@ == tid@
                && (forall|k: int| 0 <= k < i ==> os.transfer_seq()[k].id@ != tid@)
                ==> (#[trigger] ns.transfer_seq()[i]).status == crate::types::TransferStatus::Complete
                    && ns.transfer_seq()[i].id == os.transfer_seq()[i].id
                    && ns.transfer_seq()[i].transferred == os.transfer_seq()[i].transferred,
        forall|i: int|
            0 <= i < os.transfer_seq().len() && (#[trigger] ns.transfer_seq()[i]).status is Failed
                ==> ns.transfer_seq()[i] == os.transfer_seq()[i],
        forall|i: int|
            0 <= i < os.transfer_seq().len() && os.transfer_seq()[i].id@ != tid@
                ==> #[trigger] ns.transfer_seq()[i] == os.transfer_seq()[i],
{
    let (o, n) = (os.transfer_seq(), ns.transfer_seq());
    if exists|i: int| 0 <= i < o.len() && #[trigger] o[i].id@ == tid@ {
        let j = choose|j: int|
            #[trigger] crate::state::first_transfer(o, tid@, j) && n == o.update(
                j,
                crate::types::FileTransfer { transferred: o[j].transferred, status: crate::types::TransferStatus::Complete, ..o[j] },
            );
        assert forall|i: int|
            0 <= i < o.len() && o[i].id@ == tid@ && (forall|k: int| 0 <= k < i ==> o[k].id@ != tid@)
                implies (#[trigger] n[i]).status == crate::types::TransferStatus::Complete by {
            if i < j {
                assert(o[i].id@ != tid@);
            } else if j < i {
                assert(o[j].id@ != tid@);
            }
        }
    }
}

/// The history never holds more than `HISTORY_LIMIT` lines, and a line
/// just sent is its last line.
pub proof fn law_history_bounded(h: Seq<String>, line: String)
    requires
        h.len() <= HISTORY_LIMIT,
    ensures
        pushed_history(h, line).len() <= HISTORY_LIMIT,
        pushed_history(h, line).last()@ == line@,
{
}

} // verus!
