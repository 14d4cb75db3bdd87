//! Integer rounding as 64-bit floating-point arithmetic does it: a value is
//! kept to a 53-bit significand, halves going to the even neighbour.  Byte
//! sizes and transfer percentages are computed this way.

use vstd::prelude::*;
use vstd::arithmetic::div_mod::{lemma_div_denominator, lemma_div_is_ordered, lemma_div_multiples_vanish, lemma_fundamental_div_mod};

verus! {

/// `n / d` rounded to the nearest integer, halves to the even one.
pub open spec fn round_half_even(n: nat, d: nat) -> nat
    recommends
        d > 0,
{
    let q = n / d;
    let r = n % d;
    if 2 * r > d || (2 * r == d && q % 2 == 1) {
        q + 1
    } else {
        q
    }
}

/// 2^52 and 2^53: a 53-bit significand lies between them.
pub open spec fn two_52() -> nat {
    4503599627370496
}

pub open spec fn two_53() -> nat {
    9007199254740992
}

/// The power of two, from `d` upward, that brings `n` below 2^53.
pub open spec fn scale_from(n: nat, d: nat) -> nat
    decreases n - d,
    when d >= 1
{
    if n / d < two_53() || n < 2 * d {
        d
    } else {
        scale_from(n, 2 * d)
    }
}

/// The value of `n` converted to a 64-bit float: `n` rounded to a 53-bit
/// significand, halves to the even one.
pub open spec fn float_of(n: nat) -> nat {
    let d = scale_from(n, 1);
    round_half_even(n, d) * d
}

/// The power of two, from `m` upward, that brings `a * m / b` up to 2^52
/// (for `a < b`): the scale at which the quotient `a / b` has 53 bits.
pub open spec fn scale_mult(a: nat, b: nat, m: nat) -> nat
    decreases two_53() * b - a * m,
    when a >= 1 && m >= 1 && a * m < two_53() * b
{
    if a * m >= two_52() * b {
        m
    } else {
        proof {
            assert(a * (2 * m) == 2 * (a * m)) by (nonlinear_arith);
            assert(a * m >= 1) by (nonlinear_arith)
                requires
                    a >= 1,
                    m >= 1,
            {
            }
        }
        scale_mult(a, b, 2 * m)
    }
}

/// The percentage of a transfer of `t` bytes out of `s`, as 64-bit floats
/// give it: `t` and `s` are converted, divided, and the quotient times 100
/// is rounded again, capped at 100 and truncated.  An empty file is done.
pub open spec fn pct_of(t: nat, s: nat) -> nat {
    if s == 0 {
        100
    } else {
        let a = float_of(t);
        let b = float_of(s);
        if a >= b {
            100
        } else if a == 0 {
            0
        } else {
            let m = scale_mult(a, b, 1);
            let p = float_of(100 * round_half_even(a * m, b)) / m;
            if p >= 100 {
                100
            } else {
                p
            }
        }
    }
}

/// 2 to the power `k`.
pub open spec fn p2(k: nat) -> nat
    decreases k,
{
    if k == 0 {
        1
    } else {
        2 * p2((k - 1) as nat)
    }
}

proof fn lemma_p2_pos(k: nat)
    ensures
        p2(k) >= 1,
    decreases k,
{
    if k > 0 {
        lemma_p2_pos((k - 1) as nat);
    }
}

proof fn lemma_p2_add(a: nat, b: nat)
    ensures
        p2(a + b) == p2(a) * p2(b),
    decreases b,
{
    if b > 0 {
        lemma_p2_add(a, (b - 1) as nat);
        assert(p2(a + b) == 2 * p2((a + b - 1) as nat));
        assert(p2(a + (b - 1) as nat) == p2(a) * p2((b - 1) as nat));
        assert(((a + b - 1) as nat) == a + ((b - 1) as nat));
        assert(p2(b) == 2 * p2((b - 1) as nat));
        assert(2 * (p2(a) * p2((b - 1) as nat)) == p2(a) * (2 * p2((b - 1) as nat))) by (nonlinear_arith);
    } else {
        assert(a + b == a);
        assert(p2(a) * 1 == p2(a));
    }
}

/// The search for a 53-bit significand stops at `d`.
pub open spec fn stops(n: nat, d: nat) -> bool {
    n / d < two_53() || n < 2 * d
}

/// `scale_from` started at `p2(i)` lands on `p2(k)`: the first power from
/// there where the search stops.
proof fn lemma_scale(n: nat, i: nat) -> (k: nat)
    ensures
        k >= i,
        scale_from(n, p2(i)) == p2(k),
        stops(n, p2(k)),
        forall|e: nat| i <= e < k ==> !#[trigger] stops(n, p2(e)),
    decreases n - p2(i),
{
    lemma_p2_pos(i);
    if stops(n, p2(i)) {
        i
    } else {
        assert(p2(i + 1) == 2 * p2(i));
        let k = lemma_scale(n, i + 1);
        assert forall|e: nat| i <= e < k implies !#[trigger] stops(n, p2(e)) by {
            if e > i {
                assert(i + 1 <= e);
            }
        }
        k
    }
}

/// The first stop is unique.
proof fn lemma_scale_is(n: nat, k: nat)
    requires
        stops(n, p2(k)),
        forall|e: nat| e < k ==> !#[trigger] stops(n, p2(e)),
    ensures
        scale_from(n, 1) == p2(k),
{
    let k2 = lemma_scale(n, 0);
    if k2 < k {
        assert(!stops(n, p2(k2)));
    } else if k < k2 {
        assert(!stops(n, p2(k)));
    }
}

proof fn lemma_p2_lt(j: nat, k: nat)
    requires
        j < k,
    ensures
        2 * p2(j) <= p2(k),
    decreases k,
{
    if j + 1 < k {
        lemma_p2_lt(j, (k - 1) as nat);
        lemma_p2_pos((k - 1) as nat);
    }
}

/// Rounding keeps order.
proof fn lemma_rhe_mono(n1: nat, n2: nat, d: nat)
    requires
        n1 <= n2,
        d > 0,
    ensures
        round_half_even(n1, d) <= round_half_even(n2, d),
{
    lemma_div_is_ordered(n1 as int, n2 as int, d as int);
    lemma_fundamental_div_mod(n1 as int, d as int);
    lemma_fundamental_div_mod(n2 as int, d as int);
}

/// Rounding stays between the quotient and one more.
proof fn lemma_rhe_bounds(n: nat, d: nat)
    requires
        d > 0,
    ensures
        n / d <= round_half_even(n, d) <= n / d + 1,
{
}

/// The scale `float_of` rounds `n` at, and the bounds of the significand.
proof fn lemma_float_at(n: nat) -> (k: nat)
    ensures
        scale_from(n, 1) == p2(k),
        stops(n, p2(k)),
        forall|e: nat| e < k ==> !#[trigger] stops(n, p2(e)),
        float_of(n) == round_half_even(n, p2(k)) * p2(k),
        round_half_even(n, p2(k)) <= two_53(),
        k > 0 ==> round_half_even(n, p2(k)) >= two_52(),
{
    assert(p2(0) == 1);
    let k = lemma_scale(n, 0);
    let d = p2(k);
    lemma_p2_pos(k);
    lemma_rhe_bounds(n, d);
    if n / d >= two_53() {
        assert(n < 2 * d);
        assert(n / d < 2) by (nonlinear_arith)
            requires
                n < 2 * d,
                d >= 1,
        {
        }
    }
    if k > 0 {
        let h = p2((k - 1) as nat);
        assert(d == 2 * h);
        assert(!stops(n, h));
        assert(n / d >= two_52()) by (nonlinear_arith)
            requires
                n / h >= two_53(),
                d == 2 * h,
                h >= 1,
        {
            assert(n >= h * (n / h));
            assert(n >= two_53() * h);
            assert(n >= two_52() * d);
            assert((two_52() * d) / d == two_52());
        }
    }
    k
}

/// Converting to a float keeps order.
proof fn lemma_float_mono(n1: nat, n2: nat)
    requires
        n1 <= n2,
    ensures
        float_of(n1) <= float_of(n2),
{
    let k1 = lemma_float_at(n1);
    let k2 = lemma_float_at(n2);
    let (d1, d2) = (p2(k1), p2(k2));
    lemma_p2_pos(k1);
    lemma_p2_pos(k2);
    if k2 < k1 {
        assert(!stops(n1, p2(k2)));
        lemma_div_is_ordered(n1 as int, n2 as int, d2 as int);
        assert(false);
    } else if k1 == k2 {
        lemma_rhe_mono(n1, n2, d1);
        let (q1, q2) = (round_half_even(n1, d1), round_half_even(n2, d1));
        assert(q1 * d1 <= q2 * d1) by (nonlinear_arith)
            requires
                q1 <= q2,
        {
        }
    } else {
        lemma_p2_lt(k1, k2);
        let (q1, q2) = (round_half_even(n1, d1), round_half_even(n2, d2));
        assert(q1 * d1 <= q2 * d2) by (nonlinear_arith)
            requires
                q1 <= two_53(),
                q2 >= two_52(),
                2 * d1 <= d2,
                d1 >= 1,
        {
            assert(q1 * d1 <= two_53() * d1);
            assert(two_53() * d1 <= two_52() * d2);
            assert(two_52() * d2 <= q2 * d2);
        }
    }
}

/// Doubling both sides of a division keeps the quotient and doubles the
/// remainder.
proof fn lemma_div_double(x: nat, y: nat)
    requires
        y >= 1,
    ensures
        (2 * x) / (2 * y) == x / y,
        (2 * x) % (2 * y) == 2 * (x % y),
{
    lemma_fundamental_div_mod(x as int, y as int);
    let q = x / y;
    let r = x % y;
    assert(2 * x == (2 * y) * q + 2 * r) by (nonlinear_arith)
        requires
            x == y * q + r,
    {
    }
    vstd::arithmetic::div_mod::lemma_fundamental_div_mod_converse((2 * x) as int, (2 * y) as int, q as int, (2 * r) as int);
}

/// Below 2^53 a number converts exactly.
proof fn lemma_float_small(n: nat)
    requires
        n < two_53(),
    ensures
        float_of(n) == n,
{
    assert(stops(n, p2(0)));
    lemma_scale_is(n, 0);
    assert(n / 1 == n);
    assert(n % 1 == 0);
    assert(round_half_even(n, 1) == n);
    assert(n * 1 == n);
}

/// Doubling before the conversion doubles the float.
proof fn lemma_float_double(n: nat)
    ensures
        float_of(2 * n) == 2 * float_of(n),
{
    let k = lemma_float_at(n);
    let d = p2(k);
    lemma_p2_pos(k);
    if k == 0 {
        assert(n < two_53()) by {
            if n >= two_53() {
                assert(n / 1 == n);
            }
        }
        lemma_float_small(n);
        if 2 * n < two_53() {
            lemma_float_small(2 * n);
        } else {
            assert(p2(1) == 2);
            lemma_div_double(n, 1);
            assert(stops(2 * n, p2(1)));
            assert forall|e: nat| e < 1 implies !#[trigger] stops(2 * n, p2(e)) by {
                assert((2 * n) / 1 == 2 * n);
            }
            lemma_scale_is(2 * n, 1);
            assert(n % 1 == 0);
            assert(round_half_even(2 * n, 2) == n);
            assert(scale_from(2 * n, 1) == 2);
            assert(float_of(2 * n) == round_half_even(2 * n, 2) * 2);
            assert(float_of(2 * n) == 2 * n);
        }
    } else {
        assert(!stops(n, p2(0)));
        assert(p2(k + 1) == 2 * d);
        lemma_div_double(n, d);
        assert(stops(2 * n, p2(k + 1)));
        assert forall|e: nat| e < k + 1 implies !#[trigger] stops(2 * n, p2(e)) by {
            if e == 0 {
                assert((2 * n) / 1 == 2 * n);
                assert(n / 1 == n);
            } else {
                let f = (e - 1) as nat;
                assert(p2(e) == 2 * p2(f));
                assert(!stops(n, p2(f)));
                lemma_p2_pos(f);
                lemma_div_double(n, p2(f));
            }
        }
        lemma_scale_is(2 * n, k + 1);
        assert(round_half_even(2 * n, 2 * d) == round_half_even(n, d));
        let q = round_half_even(n, d);
        assert(q * (2 * d) == 2 * (q * d)) by (nonlinear_arith);
        assert(scale_from(2 * n, 1) == 2 * d);
        assert(float_of(2 * n) == round_half_even(2 * n, 2 * d) * (2 * d));
    }
}

/// Scaling by a power of two before the conversion scales the float.
proof fn lemma_float_scale(n: nat, j: nat)
    ensures
        float_of(n * p2(j)) == float_of(n) * p2(j),
    decreases j,
{
    if j == 0 {
        assert(p2(0) == 1);
        assert(n * p2(0) == n) by (nonlinear_arith)
            requires
                p2(0) == 1,
        {
        }
        assert(float_of(n) * p2(0) == float_of(n)) by (nonlinear_arith)
            requires
                p2(0) == 1,
        {
        }
    } else {
        let f = (j - 1) as nat;
        lemma_float_scale(n, f);
        assert(n * p2(j) == 2 * (n * p2(f))) by (nonlinear_arith)
            requires
                p2(j) == 2 * p2(f),
        {
        }
        lemma_float_double(n * p2(f));
        assert(2 * (float_of(n) * p2(f)) == float_of(n) * p2(j)) by (nonlinear_arith)
            requires
                p2(j) == 2 * p2(f),
        {
        }
    }
}

/// `scale_mult` started at `p2(i)` lands on `p2(k)`: the first power from
/// there that brings `a * m` up to `2^52 * b`, which keeps it below
/// `2^53 * b`.
proof fn lemma_mult(a: nat, b: nat, i: nat) -> (k: nat)
    requires
        a >= 1,
        a * p2(i) < two_53() * b,
    ensures
        k >= i,
        scale_mult(a, b, p2(i)) == p2(k),
        a * p2(k) >= two_52() * b,
        a * p2(k) < two_53() * b,
        forall|e: nat| i <= e < k ==> a * #[trigger] p2(e) < two_52() * b,
    decreases two_53() * b - a * p2(i),
{
    lemma_p2_pos(i);
    if a * p2(i) >= two_52() * b {
        i
    } else {
        assert(p2(i + 1) == 2 * p2(i));
        assert(a * p2(i + 1) == 2 * (a * p2(i))) by (nonlinear_arith)
            requires
                p2(i + 1) == 2 * p2(i),
        {
        }
        assert(a * p2(i) >= 1) by (nonlinear_arith)
            requires
                a >= 1,
                p2(i) >= 1,
        {
        }
        let k = lemma_mult(a, b, i + 1);
        assert forall|e: nat| i <= e < k implies a * #[trigger] p2(e) < two_52() * b by {
            if e > i {
                assert(i + 1 <= e);
            }
        }
        k
    }
}

/// Progress never goes back as more bytes arrive: for a fixed size, the
/// percentage shown for `t1` bytes is at most that for `t2 >= t1` bytes,
/// and it never exceeds 100.
pub proof fn law_progress_monotone(t1: nat, t2: nat, s: nat)
    requires
        t1 <= t2,
    ensures
        pct_of(t1, s) <= pct_of(t2, s),
        pct_of(t2, s) <= 100,
{
    if s == 0 {
        return;
    }
    let a1 = float_of(t1);
    let a2 = float_of(t2);
    let b = float_of(s);
    lemma_float_mono(t1, t2);
    if a2 >= b || a1 == 0 {
        return;
    }
    assert(p2(0) == 1);
    let k1 = lemma_mult(a1, b, 0);
    let k2 = lemma_mult(a2, b, 0);
    if k1 < k2 {
        assert(a2 * p2(k1) >= a1 * p2(k1)) by (nonlinear_arith)
            requires
                a2 >= a1,
        {
        }
        assert(a2 * p2(k1) < two_52() * b);
        assert(false);
    }
    let j = (k1 - k2) as nat;
    lemma_p2_add(k2, j);
    assert(k2 + j == k1);
    let (m1, m2, c) = (p2(k1), p2(k2), p2(j));
    lemma_p2_pos(k2);
    lemma_p2_pos(j);
    assert(b >= 1);
    let q1 = round_half_even(a1 * m1, b);
    let q2 = round_half_even(a2 * m2, b);
    lemma_rhe_bounds(a1 * m1, b);
    lemma_rhe_bounds(a2 * m2, b);
    if j == 0 {
        assert(m1 == m2);
        assert(a1 * m1 <= a2 * m1) by (nonlinear_arith)
            requires
                a1 <= a2,
        {
        }
        lemma_rhe_mono(a1 * m1, a2 * m2, b);
        assert(c == 1);
        assert(q2 * c == q2) by (nonlinear_arith)
            requires
                c == 1,
        {
        }
    } else {
        lemma_p2_lt(0, j);
        assert((a1 * m1) / b < two_53()) by (nonlinear_arith)
            requires
                a1 * m1 < two_53() * b,
                b >= 1,
        {
        }
        assert((a2 * m2) / b >= two_52()) by (nonlinear_arith)
            requires
                a2 * m2 >= two_52() * b,
                b >= 1,
        {
            assert((two_52() * b) / b == two_52());
            lemma_div_is_ordered((two_52() * b) as int, (a2 * m2) as int, b as int);
        }
        assert(q1 <= q2 * c) by (nonlinear_arith)
            requires
                q1 <= two_53(),
                q2 >= two_52(),
                c >= 2,
        {
            assert(q2 * c >= two_52() * 2);
        }
    }
    let x1 = 100 * q1;
    let x2 = 100 * q2;
    assert(x1 <= x2 * c) by (nonlinear_arith)
        requires
            q1 <= q2 * c,
            x1 == 100 * q1,
            x2 == 100 * q2,
    {
    }
    lemma_float_mono(x1, x2 * c);
    lemma_float_scale(x2, j);
    let f1 = float_of(x1);
    let f2 = float_of(x2);
    assert(m1 == m2 * c);
    lemma_div_is_ordered(f1 as int, (f2 * c) as int, m1 as int);
    lemma_div_denominator((c * f2) as int, c as int, m2 as int);
    lemma_div_multiples_vanish(f2 as int, c as int);
    assert(f2 * c == c * f2) by (nonlinear_arith);
    assert(c * m2 == m1) by (nonlinear_arith)
        requires
            m1 == m2 * c,
    {
    }
    assert(f1 / m1 <= f2 / m2);
}

/// `n / d` rounded to the nearest integer, halves to the even one.
pub(crate) fn div_round_half_even(n: u128, d: u128) -> (r: u128)
    requires
        d > 0,
        n / d < u128::MAX,
    ensures
        r == round_half_even(n as nat, d as nat),
{
    let q = n / d;
    let r = n % d;
    if r > d - r || (r == d - r && q % 2 == 1) {
        q + 1
    } else {
        q
    }
}

/// The value of `b` converted to a 64-bit float, as an integer.
pub(crate) fn float_value(b: u64) -> (r: u128)
    ensures
        r == float_of(b as nat),
        r <= 36893488147419103232,
{
    let n = b as u128;
    let mut d: u128 = 1;
    while !(n / d < 9007199254740992 || n < 2 * d)
        invariant
            1 <= d,
            d == 1 || d <= n,
            n == b,
            n <= 18446744073709551615,
            scale_from(n as nat, d as nat) == scale_from(n as nat, 1),
        decreases n + 1 - d,
    {
        d = 2 * d;
    }
    assert(scale_from(n as nat, d as nat) == d);
    let q = div_round_half_even(n, d);
    assert(q <= n / d + 1);
    assert(q * d <= n + d) by (nonlinear_arith)
        requires
            q <= n / d + 1,
            d >= 1,
    {
        assert((n / d) * d <= n);
    }
    if d == 1 {
        assert(q == n);
    }
    assert(q * d <= 36893488147419103232) by (nonlinear_arith)
        requires
            q * d <= n + d,
            n <= 18446744073709551615,
            d == 1 ==> q == n,
            d == 1 || d <= n,
            d >= 1,
    {
    }
    q * d
}

} // verus!
