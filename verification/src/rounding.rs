//! Binary64 arithmetic on whole numbers, as the display's scaling does it: a ratio of two
//! 32-bit numbers rounded to the nearest double, a side multiplied by it and rounded again,
//! and the product cut to a whole number.  Every value here is a normal double in a range
//! where no exponent limit is reached, so a double is `m / 2^k` with a 53-bit significand
//! `m`, and rounding is to the nearest such value, a tie to the even significand.
use vstd::prelude::*;

verus! {

/// 2^52, the least 53-bit significand.
pub const SIGNIFICAND_LOW: u128 = 4503599627370496;

/// 2^53, the bound of a 53-bit significand.
pub const SIGNIFICAND_HIGH: u128 = 9007199254740992;

/// 2 to the power `e`.
pub open spec fn two_to(e: nat) -> nat
    decreases e,
{
    if e == 0 {
        1
    } else {
        2 * two_to((e - 1) as nat)
    }
}

/// `n / d` rounded to the nearest whole number, a tie to the even one.
pub open spec fn round_even(n: nat, d: nat) -> nat {
    let q = n / d;
    let r = n % d;
    if 2 * r > d {
        q + 1
    } else if 2 * r < d {
        q
    } else if q % 2 == 0 {
        q
    } else {
        q + 1
    }
}

/// The least `k`, from `k` on, at which `n * 2^k / d` has 53 significant bits.
pub open spec fn ratio_shift(n: nat, d: nat, k: nat) -> nat
    decreases 128 - k,
{
    if k >= 128 || n * two_to(k) >= SIGNIFICAND_LOW * d {
        k
    } else {
        ratio_shift(n, d, k + 1)
    }
}

/// The double nearest `n / d`, as its significand `m` and shift `k`: the value `m / 2^k`.
pub open spec fn f64_ratio(n: nat, d: nat) -> (nat, nat) {
    let k = ratio_shift(n, d, 0);
    (round_even(n * two_to(k), d), k)
}

/// The least `t`, from `t` on, at which `p / 2^t` has no more than 53 significant bits.
pub open spec fn wide_shift(p: nat, t: nat) -> nat
    decreases 128 - t,
{
    if t >= 128 || p < SIGNIFICAND_HIGH * two_to(t) {
        t
    } else {
        wide_shift(p, t + 1)
    }
}

/// `side * s` for the double `s = m / 2^k`, rounded to the nearest double and cut to a
/// whole number, as `(side as f64 * s) as u32` does before it saturates.
pub open spec fn f64_times(side: nat, s: (nat, nat)) -> nat {
    let p = side * s.0;
    let t = wide_shift(p, 0);
    round_even(p, two_to(t)) * two_to(t) / two_to(s.1)
}

pub proof fn lemma_two_to_positive(e: nat)
    ensures
        two_to(e) >= 1,
    decreases e,
{
    if e > 0 {
        lemma_two_to_positive((e - 1) as nat);
    }
}

pub proof fn lemma_two_to_add(a: nat, b: nat)
    ensures
        two_to(a + b) == two_to(a) * two_to(b),
    decreases a,
{
    if a > 0 {
        let a1 = (a - 1) as nat;
        lemma_two_to_add(a1, b);
        assert(a + b == (a1 + b) + 1);
        assert(two_to(a + b) == 2 * two_to(a1 + b));
        assert(two_to(a) == 2 * two_to(a1));
        let x = two_to(a1);
        let y = two_to(b);
        assert(2 * (x * y) == (2 * x) * y) by (nonlinear_arith);
        assert(two_to(a + b) == two_to(a) * two_to(b));
    } else {
        assert(two_to(a) == 1);
        assert(a + b == b);
        assert(1 * two_to(b) == two_to(b));
    }
}

proof fn lemma_two_to_84()
    ensures
        two_to(84) == 19342813113834066795298816,
{
    reveal_with_fuel(two_to, 85);
}

pub proof fn lemma_two_to_mono(a: nat, b: nat)
    requires
        a <= b,
    ensures
        two_to(a) <= two_to(b),
    decreases b,
{
    if a < b {
        lemma_two_to_mono(a, (b - 1) as nat);
        lemma_two_to_positive((b - 1) as nat);
    }
}

/// A rounded quotient is within half of `d` of the quotient: `|r * d - n| <= d / 2`.
pub proof fn lemma_round_even_near(n: nat, d: nat)
    requires
        d > 0,
    ensures
        2 * round_even(n, d) * d <= 2 * n + d,
        2 * n <= 2 * round_even(n, d) * d + d,
        n % d == 0 ==> round_even(n, d) * d == n,
{
    let q = n / d;
    let r = n % d;
    vstd::arithmetic::div_mod::lemma_fundamental_div_mod(n as int, d as int);
    assert(n == d * q + r);
    assert(0 <= r < d);
    assert((q + 1) * d == q * d + d) by (nonlinear_arith);
    assert(q * d == d * q) by (nonlinear_arith);
    let qd = q * d;
    assert(qd == n - r);
    let e = round_even(n, d);
    if e == q {
        assert(e * d == qd);
        assert(2 * e * d == 2 * (e * d)) by (nonlinear_arith);
    } else {
        assert(e == q + 1);
        assert(e * d == qd + d);
        assert(2 * e * d == 2 * (e * d)) by (nonlinear_arith);
    }
}

fn round_even_exec(n: u128, d: u128) -> (r: u128)
    requires
        d > 0,
        n < 0x1_0000_0000_0000_0000_0000_0000_0000,
    ensures
        r == round_even(n as nat, d as nat),
{
    let q = n / d;
    let r = n % d;
    if r > d - r {
        q + 1
    } else if r < d - r {
        q
    } else if q % 2 == 0 {
        q
    } else {
        q + 1
    }
}

/// `ratio_shift` ends at a `k` where `n * 2^k / d` lies in `[2^52, 2^53)`, for a ratio of
/// 32-bit numbers no greater than one.
pub proof fn lemma_ratio_binade(n: nat, d: nat, j: nat)
    requires
        1 <= n,
        1 <= d <= u32::MAX,
        n * two_to(j) < SIGNIFICAND_HIGH * d,
    ensures
        SIGNIFICAND_LOW * d <= n * two_to(ratio_shift(n, d, j)) < SIGNIFICAND_HIGH * d,
    decreases 128 - j,
{
    if n * two_to(j) < SIGNIFICAND_LOW * d {
        if j >= 84 {
            lemma_two_to_mono(84, j);
            lemma_two_to_84();
            assert(n * two_to(j) >= two_to(j)) by (nonlinear_arith)
                requires
                    n >= 1,
            ;
            assert(false);
        }
        assert(two_to(j + 1) == 2 * two_to(j));
        assert(n * two_to(j + 1) == 2 * (n * two_to(j))) by (nonlinear_arith)
            requires
                two_to(j + 1) == 2 * two_to(j),
        ;
        lemma_ratio_binade(n, d, j + 1);
    }
}

/// `wide_shift` ends at a `t` where `p / 2^t` is below 2^53, and at least 2^52 once any bit
/// was shifted out.
pub proof fn lemma_wide_binade(p: nat, t: nat)
    requires
        p < SIGNIFICAND_HIGH * 19342813113834066795298816,
        t == 0 || p >= SIGNIFICAND_LOW * two_to(t),
    ensures
        p < SIGNIFICAND_HIGH * two_to(wide_shift(p, t)),
        wide_shift(p, t) == 0 || p >= SIGNIFICAND_LOW * two_to(wide_shift(p, t)),
    decreases 128 - t,
{
    if p >= SIGNIFICAND_HIGH * two_to(t) {
        if t >= 84 {
            lemma_two_to_mono(84, t);
            lemma_two_to_84();
            assert(false);
        }
        assert(two_to(t + 1) == 2 * two_to(t));
        lemma_wide_binade(p, t + 1);
    }
}

/// The double nearest `num / den`, for `1 <= num <= den`: its significand, and 2 to the power
/// of its shift.
pub fn ratio_f64(num: u64, den: u64) -> (r: (u128, u128))
    requires
        1 <= num <= den <= u32::MAX,
    ensures
        r.0 == f64_ratio(num as nat, den as nat).0,
        r.1 == two_to(f64_ratio(num as nat, den as nat).1),
        r.0 <= SIGNIFICAND_HIGH,
        r.1 >= 1,
{
    let n = num as u128;
    let d = den as u128;
    let mut pk: u128 = 1;
    let ghost mut k: nat = 0;
    while n * pk < SIGNIFICAND_LOW * d
        invariant
            1 <= n <= d <= u32::MAX,
            pk == two_to(k),
            1 <= pk,
            n * pk < SIGNIFICAND_HIGH * d,
            ratio_shift(n as nat, d as nat, 0) == ratio_shift(n as nat, d as nat, k),
        decreases SIGNIFICAND_HIGH * d - n * pk,
    {
        proof {
            if k >= 128 {
                lemma_two_to_mono(84, k);
                lemma_two_to_84();
                assert(n * pk >= pk) by (nonlinear_arith)
                    requires
                        n >= 1,
                ;
                assert(false);
            }
            assert(n * (2 * pk) == 2 * (n * pk)) by (nonlinear_arith);
            assert(pk <= n * pk) by (nonlinear_arith)
                requires
                    n >= 1,
                    pk >= 1,
            ;
            k = k + 1;
        }
        pk = pk * 2;
    }
    proof {
        assert(n * pk < SIGNIFICAND_HIGH * d);
        lemma_round_even_near((n * pk) as nat, d as nat);
    }
    let m = round_even_exec(n * pk, d);
    proof {
        assert(2 * m * d <= 2 * (n * pk) + d);
        assert(m <= SIGNIFICAND_HIGH) by (nonlinear_arith)
            requires
                2 * m * d <= 2 * (n * pk) + d,
                n * pk < SIGNIFICAND_HIGH * d,
                d >= 1,
        ;
    }
    (m, pk)
}

/// `side * m / 2^k`, rounded to the nearest double and cut to a whole number, where `pk` is
/// `2^k`.
pub fn times_f64(side: u32, m: u128, pk: u128, Ghost(k): Ghost<nat>) -> (r: u128)
    requires
        m <= SIGNIFICAND_HIGH,
        pk == two_to(k),
        pk >= 1,
    ensures
        r == f64_times(side as nat, (m as nat, k)),
{
    proof {
        assert((side as int) * (m as int) <= (u32::MAX as int) * SIGNIFICAND_HIGH) by (nonlinear_arith)
            requires
                m <= SIGNIFICAND_HIGH,
                side <= u32::MAX,
        ;
    }
    let p = side as u128 * m;
    let mut pt: u128 = 1;
    let ghost mut t: nat = 0;
    while p >= SIGNIFICAND_HIGH * pt
        invariant
            p <= (u32::MAX as int) * SIGNIFICAND_HIGH,
            pt == two_to(t),
            1 <= pt < 0x1_0000_0000 * 2,
            wide_shift(p as nat, 0) == wide_shift(p as nat, t),
        decreases 0x1_0000_0000 * 2 - pt,
    {
        proof {
            if t >= 128 {
                lemma_two_to_mono(84, t);
                lemma_two_to_84();
                assert(false);
            }
            assert(pt < 0x1_0000_0000) by (nonlinear_arith)
                requires
                    p >= SIGNIFICAND_HIGH * pt,
                    p <= (u32::MAX as int) * SIGNIFICAND_HIGH,
            ;
            t = t + 1;
        }
        pt = pt * 2;
    }
    proof {
        lemma_round_even_near(p as nat, pt as nat);
    }
    let m2 = round_even_exec(p, pt);
    proof {
        assert(m2 * pt <= p + pt) by (nonlinear_arith)
            requires
                2 * m2 * pt <= 2 * p + pt,
        ;
    }
    m2 * pt / pk
}

} // verus!
