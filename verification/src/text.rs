//! Text helpers shared by the command parser, the input line editor and the
//! display labels: decimal rendering, prefixes, trimming, splitting.

use vstd::prelude::*;
use vstd::string::*;
use vstd::utf8::*;

verus! {

/// The UTF-8 encoding of a character sequence.
pub open spec fn utf8(s: Seq<char>) -> Seq<u8> {
    encode_utf8(s)
}

/// UTF-8 encoding distributes over concatenation.
pub proof fn lemma_utf8_concat(a: Seq<char>, b: Seq<char>)
    ensures
        encode_utf8(a + b) == encode_utf8(a) + encode_utf8(b),
    decreases a.len(),
{
    if a.len() == 0 {
        assert(a + b =~= b);
        assert(encode_utf8(a) =~= Seq::<u8>::empty());
        assert(encode_utf8(a) + encode_utf8(b) =~= encode_utf8(b));
    } else {
        assert((a + b).drop_first() =~= a.drop_first() + b);
        assert((a + b)[0] == a[0]);
        lemma_utf8_concat(a.drop_first(), b);
        let e0 = encode_scalar(a[0] as u32);
        assert(e0 + (encode_utf8(a.drop_first()) + encode_utf8(b)) =~= (e0 + encode_utf8(
            a.drop_first(),
        )) + encode_utf8(b));
    }
}

/// Equal encodings come only from equal character sequences.
pub proof fn lemma_utf8_injective(a: Seq<char>, b: Seq<char>)
    requires
        encode_utf8(a) == encode_utf8(b),
    ensures
        a == b,
{
    encode_utf8_decode_utf8(a);
    encode_utf8_decode_utf8(b);
}

/// Calls `String::push`, which appends one character at the end.
#[verifier::external_body]
pub(crate) fn push_char(s: &mut String, c: char)
    ensures
        final(s)@ == old(s)@.push(c),
{
    s.push(c);
}

/// Whether a character has the Unicode `White_Space` property, which is
/// what `char::is_whitespace` reports: U+0009 to U+000D, U+0020, U+0085,
/// U+00A0, U+1680, U+2000 to U+200A, U+2028, U+2029, U+202F, U+205F and
/// U+3000.
pub open spec fn is_white_space(c: char) -> bool {
    let u = c as u32;
    ||| 0x9 <= u <= 0xD
    ||| u == 0x20
    ||| u == 0x85
    ||| u == 0xA0
    ||| u == 0x1680
    ||| 0x2000 <= u <= 0x200A
    ||| u == 0x2028
    ||| u == 0x2029
    ||| u == 0x202F
    ||| u == 0x205F
    ||| u == 0x3000
}

/// `r` is `s` without its leading and trailing whitespace.
pub open spec fn trimmed(s: Seq<char>, r: Seq<char>) -> bool {
    exists|a: int, b: int|
        #![trigger s.subrange(a, b)]
        {
            &&& 0 <= a <= b <= s.len()
            &&& r == s.subrange(a, b)
            &&& forall|i: int| 0 <= i < a ==> is_white_space(#[trigger] s[i])
            &&& forall|i: int| b <= i < s.len() ==> is_white_space(#[trigger] s[i])
            &&& a < b ==> !is_white_space(s[a]) && !is_white_space(s[b - 1])
        }
}

/// Calls `str::trim`.  Its documentation: the slice with leading and
/// trailing whitespace removed, whitespace being the Unicode `White_Space`
/// property (`char::is_whitespace`).  Claimed: exactly that, over
/// `is_white_space`.
#[verifier::external_body]
pub(crate) fn trim(s: &str) -> (r: String)
    ensures
        trimmed(s@, r@),
        r@.len() > 0 ==> !is_white_space(r@[0]) && !is_white_space(r@.last()),
{
    s.trim().to_string()
}

/// The decimal digit character for `d` (0 to 9).
pub open spec fn digit_char(d: nat) -> char {
    if d == 0 {
        '0'
    } else if d == 1 {
        '1'
    } else if d == 2 {
        '2'
    } else if d == 3 {
        '3'
    } else if d == 4 {
        '4'
    } else if d == 5 {
        '5'
    } else if d == 6 {
        '6'
    } else if d == 7 {
        '7'
    } else if d == 8 {
        '8'
    } else {
        '9'
    }
}

/// The decimal rendering of a natural number, without leading zeros.
pub open spec fn decimal(n: nat) -> Seq<char>
    decreases n,
{
    if n < 10 {
        seq![digit_char(n)]
    } else {
        decimal(n / 10).push(digit_char(n % 10))
    }
}

/// The digit character for `d`.
pub fn digit(d: u64) -> (c: char)
    requires
        d < 10,
    ensures
        c == digit_char(d as nat),
{
    if d == 0 {
        '0'
    } else if d == 1 {
        '1'
    } else if d == 2 {
        '2'
    } else if d == 3 {
        '3'
    } else if d == 4 {
        '4'
    } else if d == 5 {
        '5'
    } else if d == 6 {
        '6'
    } else if d == 7 {
        '7'
    } else if d == 8 {
        '8'
    } else {
        '9'
    }
}

/// Appends the decimal rendering of `n` to `s`.
pub fn push_decimal(s: &mut String, n: u64)
    ensures
        final(s)@ == old(s)@ + decimal(n as nat),
    decreases n,
{
    if n >= 10 {
        push_decimal(s, n / 10);
    }
    push_char(s, digit(n % 10));
    proof {
        if n < 10 {
            assert(n % 10 == n);
        }
    }
    assert(final(s)@ =~= old(s)@ + decimal(n as nat)) by {
        if n >= 10 {
            assert(decimal(n as nat) == decimal((n / 10) as nat).push(digit_char((n % 10) as nat)));
        }
    }
}

/// The decimal rendering of `n`.
pub fn u64_decimal(n: u64) -> (r: String)
    ensures
        r@ == decimal(n as nat),
{
    let mut s = String::new();
    push_decimal(&mut s, n);
    assert(s@ =~= decimal(n as nat));
    s
}

/// An owned copy of `s` followed by `t`.
pub fn join_text(s: &str, t: &str) -> (r: String)
    ensures
        r@ == s@ + t@,
{
    let mut r = s.to_owned();
    r.append(t);
    r
}

/// Whether two texts are equal.
pub fn text_eq(a: &str, b: &str) -> (r: bool)
    ensures
        r == (a@ == b@),
{
    let x = a.to_owned();
    let y = b.to_owned();
    x == y
}

/// Whether `s` begins with `p`.
pub open spec fn starts(s: Seq<char>, p: Seq<char>) -> bool {
    p.len() <= s.len() && s.take(p.len() as int) == p
}

/// Whether `s` begins with `p`.
pub fn starts_with(s: &str, p: &str) -> (r: bool)
    ensures
        r == (p@.len() <= s@.len() && s@.take(p@.len() as int) == p@),
{
    let n = p.unicode_len();
    let m = s.unicode_len();
    if n > m {
        return false;
    }
    let mut i: usize = 0;
    while i < n
        invariant
            n == p@.len(),
            m == s@.len(),
            n <= m,
            i <= n,
            forall|k: int| 0 <= k < i ==> s@[k] == p@[k],
        decreases n - i,
    {
        if s.get_char(i) != p.get_char(i) {
            assert(s@.take(p@.len() as int)[i as int] != p@[i as int]);
            return false;
        }
        i = i + 1;
    }
    assert(s@.take(p@.len() as int) =~= p@);
    true
}

/// The rest of `s` after the prefix `p`, when `s` begins with `p`.
pub fn strip_prefix(s: &str, p: &str) -> (r: Option<String>)
    ensures
        match r {
            Some(rest) => p@.len() <= s@.len() && s@.take(p@.len() as int) == p@ && rest@ == s@.skip(
                p@.len() as int,
            ),
            None => !(p@.len() <= s@.len() && s@.take(p@.len() as int) == p@),
        },
{
    if starts_with(s, p) {
        let n = p.unicode_len();
        let m = s.unicode_len();
        let rest = s.substring_char(n, m);
        assert(rest@ =~= s@.skip(p@.len() as int));
        Some(rest.to_owned())
    } else {
        None
    }
}

/// Splits `s` at its first space: the text before it and the text after it,
/// or `None` when `s` has no space.
pub fn split_at_first_space(s: &str) -> (r: Option<(String, String)>)
    ensures
        r is Some <==> s@.contains(' '),
        r matches Some((a, b)) ==> s@ == a@ + seq![' '] + b@ && !a@.contains(' '),
{
    let m = s.unicode_len();
    let mut i: usize = 0;
    while i < m
        invariant
            m == s@.len(),
            i <= m,
            forall|k: int| 0 <= k < i ==> s@[k] != ' ',
        decreases m - i,
    {
        if s.get_char(i) == ' ' {
            let a = s.substring_char(0, i);
            let b = s.substring_char(i + 1, m);
            assert(s@ =~= a@ + seq![' '] + b@);
            assert(!a@.contains(' ')) by {
                if a@.contains(' ') {
                    let k = choose|k: int| 0 <= k < a@.len() && a@[k] == ' ';
                    assert(s@[k] == ' ');
                }
            }
            return Some((a.to_owned(), b.to_owned()));
        }
        i = i + 1;
    }
    assert(!s@.contains(' ')) by {
        if s@.contains(' ') {
            let k = choose|k: int| 0 <= k < s@.len() && s@[k] == ' ';
            assert(s@[k] != ' ');
        }
    }
    None
}

/// A channel name as typed, with `#` put in front unless it starts with one.
pub open spec fn hashed(name: Seq<char>) -> Seq<char> {
    if name.len() > 0 && name[0] == '#' {
        name
    } else {
        seq!['#'] + name
    }
}

/// `name` with `#` put in front unless it starts with one.
pub fn with_hash(name: &str) -> (r: String)
    ensures
        r@ == hashed(name@),
{
    let n = name.unicode_len();
    if n > 0 && name.get_char(0) == '#' {
        name.to_owned()
    } else {
        let mut r = String::new();
        push_char(&mut r, '#');
        r.append(name);
        assert(r@ =~= seq!['#'] + name@);
        r
    }
}

/// Whether byte position `pos` of the UTF-8 form of `s` starts a character
/// (or is the end).
pub open spec fn at_boundary(s: Seq<char>, pos: int) -> bool {
    is_char_boundary(utf8(s), pos)
}

/// The position just after an ASCII byte that starts a character starts a
/// character too.
pub proof fn lemma_boundary_after_ascii(bytes: Seq<u8>, j: int)
    requires
        valid_utf8(bytes),
        0 <= j < bytes.len(),
        bytes[j] < 128,
        is_char_boundary(bytes, j),
    ensures
        is_char_boundary(bytes, j + 1),
    decreases bytes.len(),
{
    let l = length_of_first_scalar(bytes);
    let p = pop_first_scalar(bytes);
    assert(valid_first_scalar(bytes) && valid_utf8(p));
    assert(1 <= l <= bytes.len());
    assert(p.len() == bytes.len() - l);
    if j == 0 {
        assert(l == 1);
        assert(is_char_boundary(p, 0));
    } else {
        assert(is_char_boundary(p, j - l));
        assert(j - l >= 0);
        if j - l < p.len() {
            assert(p[j - l] == bytes[j]);
            lemma_boundary_after_ascii(p, j - l);
        } else {
            assert(j - l == p.len());
            assert(false);
        }
    }
}

/// An ASCII byte of valid UTF-8 starts a character, and so does the byte
/// after it.
pub proof fn lemma_ascii_boundaries(bytes: Seq<u8>, j: int)
    requires
        valid_utf8(bytes),
        0 <= j < bytes.len(),
        bytes[j] < 128,
    ensures
        is_char_boundary(bytes, j),
        is_char_boundary(bytes, j + 1),
{
    is_char_boundary_iff_not_is_continuation_byte(bytes, j);
    lemma_boundary_after_ascii(bytes, j);
}

/// Splits `s` at byte position `pos`, which starts a character.
pub fn split_text(s: &str, pos: usize) -> (r: (String, String))
    requires
        at_boundary(s@, pos as int),
    ensures
        utf8(r.0@) == utf8(s@).take(pos as int),
        utf8(r.1@) == utf8(s@).skip(pos as int),
        s@ == r.0@ + r.1@,
{
    proof {
        encode_utf8_valid_utf8(s@);
        assert(pos <= utf8(s@).len());
    }
    let (a, b) = s.split_at(pos);
    let a2 = a.to_owned();
    let b2 = b.to_owned();
    proof {
        assert(utf8(a2@) =~= utf8(s@).take(pos as int));
        assert(utf8(b2@) =~= utf8(s@).skip(pos as int));
        lemma_utf8_concat(a2@, b2@);
        assert(utf8(s@) =~= utf8(s@).take(pos as int) + utf8(s@).skip(pos as int));
        assert(utf8(s@) =~= utf8(a2@) + utf8(b2@));
        lemma_utf8_injective(s@, a2@ + b2@);
    }
    (a2, b2)
}

/// The end of the UTF-8 form of `x` starts a character of the UTF-8 form
/// of `x + y`.
pub proof fn lemma_boundary_at_concat(x: Seq<char>, y: Seq<char>)
    ensures
        is_char_boundary(utf8(x + y), utf8(x).len() as int),
    decreases x.len(),
{
    encode_utf8_valid_utf8(x + y);
    if x.len() > 0 {
        let b = utf8(x + y);
        assert((x + y)[0] == x[0]);
        assert((x + y).drop_first() =~= x.drop_first() + y);
        encode_utf8_first_scalar(x + y);
        let e = encode_scalar(x[0] as u32);
        assert(b == e + utf8(x.drop_first() + y));
        assert(pop_first_scalar(b) =~= utf8(x.drop_first() + y));
        assert(utf8(x) == e + utf8(x.drop_first()));
        assert(e.len() >= 1);
        lemma_boundary_at_concat(x.drop_first(), y);
        encode_utf8_valid_utf8(x.drop_first() + y);
    }
}

} // verus!
