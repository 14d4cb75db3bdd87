//! The nickname a user picks at start-up.

use vstd::prelude::*;
use vstd::string::*;
use crate::text::{trim, trimmed, utf8};

verus! {

/// Whether a character is alphanumeric in the Unicode sense (what
/// `char::is_alphanumeric` reports).
pub uninterp spec fn is_alnum(c: char) -> bool;

/// Calls `char::is_alphanumeric`.  Claimed: the result is the named
/// predicate.
#[verifier::external_body]
fn alphanumeric(c: char) -> (r: bool)
    ensures
        r == is_alnum(c),
{
    c.is_alphanumeric()
}

/// Why a nickname was refused.
#[derive(Clone, Copy, Debug, PartialEq, Eq, Structural)]
pub enum NickError {
    /// Nothing but whitespace was typed.
    Empty,
    /// More than 24 bytes.
    TooLong,
    /// A character other than a letter, a digit, `_` or `-`.
    BadChar,
}

/// Whether `c` may appear in a nickname.
pub open spec fn nick_char(c: char) -> bool {
    is_alnum(c) || c == '_' || c == '-'
}

/// `r` is what checking the typed line `input` as a nickname gives (see
/// `validate_nickname`).
pub open spec fn nickname_checked(input: Seq<char>, r: Result<String, NickError>) -> bool {
    exists|t: Seq<char>|
        #[trigger] trimmed(input, t) && match r {
            Ok(n) => n@ == t && t.len() > 0 && utf8(t).len() <= 24 && forall|i: int| 0 <= i < t.len() ==> nick_char(#[trigger] t[i]),
            Err(NickError::Empty) => t.len() == 0,
            Err(NickError::TooLong) => t.len() > 0 && utf8(t).len() > 24,
            Err(NickError::BadChar) => t.len() > 0 && utf8(t).len() <= 24 && exists|i: int| 0 <= i < t.len() && !nick_char(#[trigger] t[i]),
        }
}

/// A nickname is accepted exactly as typed (once trimmed) when it is not
/// empty, fits in 24 bytes and is made only of letters, digits, `_` and
/// `-`; in particular a nickname holding `-` is accepted.
pub proof fn law_good_nickname_accepted(input: Seq<char>, t: Seq<char>, r: Result<String, NickError>)
    requires
        nickname_checked(input, r),
        trimmed(input, t),
        t.len() > 0,
        utf8(t).len() <= 24,
        forall|i: int| 0 <= i < t.len() ==> is_alnum(#[trigger] t[i]) || t[i] == '_' || t[i] == '-',
    ensures
        r matches Ok(n) && n@ == t,
{
    let t2 = choose|t2: Seq<char>|
        #[trigger] trimmed(input, t2) && match r {
            Ok(n) => n@ == t2 && t2.len() > 0 && utf8(t2).len() <= 24 && forall|i: int| 0 <= i < t2.len() ==> nick_char(#[trigger] t2[i]),
            Err(NickError::Empty) => t2.len() == 0,
            Err(NickError::TooLong) => t2.len() > 0 && utf8(t2).len() > 24,
            Err(NickError::BadChar) => t2.len() > 0 && utf8(t2).len() <= 24 && exists|i: int| 0 <= i < t2.len() && !nick_char(#[trigger] t2[i]),
        };
    crate::tui::input::lemma_trimmed_unique(input, t, t2);
    assert forall|i: int| 0 <= i < t.len() implies nick_char(#[trigger] t[i]) by {
        assert(is_alnum(t[i]) || t[i] == '_' || t[i] == '-');
    }
}

/// The nickname made of the typed line `input`: trimmed; refused when
/// empty, when longer than 24 bytes, or when holding a character other than
/// a letter, a digit, `_` or `-` (checked in that order).
pub fn validate_nickname(input: &str) -> (r: Result<String, NickError>)
    ensures
        nickname_checked(input@, r),
{
    let nick = trim(input);
    let n = nick.as_str().unicode_len();
    if n == 0 {
        return Err(NickError::Empty);
    }
    if nick.as_str().as_bytes().len() > 24 {
        return Err(NickError::TooLong);
    }
    let mut i: usize = 0;
    while i < n
        invariant
            n == nick@.len(),
            n > 0,
            trimmed(input@, nick@),
            utf8(nick@).len() <= 24,
            i <= n,
            forall|k: int| 0 <= k < i ==> nick_char(#[trigger] nick@[k]),
        decreases n - i,
    {
        let c = nick.as_str().get_char(i);
        if !(alphanumeric(c) || c == '_' || c == '-') {
            assert(!nick_char(nick@[i as int]));
            return Err(NickError::BadChar);
        }
        i = i + 1;
    }
    Ok(nick)
}

} // verus!
