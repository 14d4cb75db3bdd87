//! The hint shown at start-up about the platform the program runs on.

use vstd::prelude::*;
use vstd::string::*;

verus! {

/// The bytes of `termux`.
pub open spec fn termux_bytes() -> Seq<u8> {
    seq![116u8, 101u8, 114u8, 109u8, 117u8, 120u8]
}

/// `p` holds `termux` somewhere.
pub open spec fn mentions_termux(p: Seq<u8>) -> bool {
    exists|i: int| 0 <= i && i + 6 <= p.len() && #[trigger] p.subrange(i, i + 6) == termux_bytes()
}

/// The start-up hint: for Termux (its version variable is set, or the
/// install prefix mentions `termux`), then for Windows, else nothing.
pub open spec fn env_hint(termux: bool, windows: bool) -> Seq<char> {
    if termux {
        "Termux detected. Ensure you have: pkg install rust openssl"@
    } else if windows {
        "Windows detected. Run in Windows Terminal for best color support."@
    } else {
        ""@
    }
}

/// Whether `p` holds `termux`.
fn has_termux(p: &str) -> (r: bool)
    ensures
        r == mentions_termux(p.spec_bytes()),
{
    let b = p.as_bytes();
    let n = b.len();
    if n < 6 {
        return false;
    }
    let mut i: usize = 0;
    while i <= n - 6
        invariant
            b@ == p.spec_bytes(),
            n == b@.len(),
            6 <= n,
            i <= n - 5,
            forall|j: int| 0 <= j < i ==> #[trigger] b@.subrange(j, j + 6) != termux_bytes(),
        decreases n - i,
    {
        if b[i] == 116 && b[i + 1] == 101 && b[i + 2] == 114 && b[i + 3] == 109 && b[i + 4] == 117 && b[i + 5] == 120 {
            assert(b@.subrange(i as int, i + 6) =~= termux_bytes());
            return true;
        }
        assert(b@.subrange(i as int, i + 6)[0] == b@[i as int]);
        assert(b@.subrange(i as int, i + 6) != termux_bytes()) by {
            if b@.subrange(i as int, i + 6) == termux_bytes() {
                assert(b@.subrange(i as int, i + 6)[1] == b@[i + 1]);
                assert(b@.subrange(i as int, i + 6)[2] == b@[i + 2]);
                assert(b@.subrange(i as int, i + 6)[3] == b@[i + 3]);
                assert(b@.subrange(i as int, i + 6)[4] == b@[i + 4]);
                assert(b@.subrange(i as int, i + 6)[5] == b@[i + 5]);
            }
        }
        i = i + 1;
    }
    false
}

/// The start-up hint, from whether the Termux version variable is set, the
/// install prefix (when set), and whether this is a Windows build.
pub fn detect_env(termux_version_set: bool, prefix: Option<&str>, windows: bool) -> (r: &'static str)
    ensures
        r@ == env_hint(
            termux_version_set || (prefix matches Some(p) && mentions_termux(p.spec_bytes())),
            windows,
        ),
{
    let in_prefix = match prefix {
        Some(p) => has_termux(p),
        None => false,
    };
    if termux_version_set || in_prefix {
        return "Termux detected. Ensure you have: pkg install rust openssl";
    }
    if windows {
        return "Windows detected. Run in Windows Terminal for best color support.";
    }
    ""
}

} // verus!
