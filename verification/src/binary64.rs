//! The text that `format!("{:.N}", p as f64 / q as f64)` produces, computed with
//! integers only. IEEE 754 binary64 rounding (to nearest, ties to even) is
//! stated over exact fractions, and the decimal rounding of the formatter
//! (to nearest, ties to even) likewise; the code is proved against both.
use vstd::prelude::*;
use vstd::arithmetic::power2::{pow2, lemma2_to64, lemma2_to64_rest, lemma_pow2_adds, lemma_pow2_pos, lemma_pow2_strictly_increases, lemma_pow2_unfold};

verus! {

// ---------------------------------------------------------------------------
// Definitions
// ---------------------------------------------------------------------------

/// `n / d` rounded to the nearest integer, ties to the even one.
pub open spec fn round_half_even(n: nat, d: nat) -> nat {
    let q = n / d;
    let r = n % d;
    if 2 * r > d {
        q + 1
    } else if 2 * r < d {
        q
    } else if q % 2 == 0 {
        q
    } else {
        q + 1
    }
}

/// `num / den * 2^s` lies in `[2^52, 2^53)`.
pub open spec fn in_binade(num: nat, den: nat, s: int) -> bool {
    if s >= 0 {
        pow2(52) * den <= num * pow2(s as nat) && num * pow2(s as nat) < pow2(53) * den
    } else {
        pow2(52) * (den * pow2((-s) as nat)) <= num && num < pow2(53) * (den * pow2((-s) as nat))
    }
}

/// The power of two that scales `num / den * 2^e` into `[2^52, 2^53)`.
pub open spec fn binade_shift(num: nat, den: nat, e: int) -> int {
    (choose|s: int| in_binade(num, den, s)) - e
}

/// The binary64 value nearest to `num / den * 2^e` (ties to an even
/// significand), as a significand in `[2^52, 2^53)` and an exponent: the value
/// is `m * 2^exp`. Stated for positive values in the normal range.
pub open spec fn nearest_double(num: nat, den: nat, e: int) -> (nat, int) {
    let k = binade_shift(num, den, e);
    let s = e + k;
    let m = if s >= 0 {
        round_half_even(num * pow2(s as nat), den)
    } else {
        round_half_even(num, den * pow2((-s) as nat))
    };
    if m == pow2(53) {
        (pow2(52), 1 - k)
    } else {
        (m, -k)
    }
}

pub open spec fn ten_pow(n: nat) -> nat
    decreases n,
{
    if n == 0 {
        1
    } else {
        10 * ten_pow((n - 1) as nat)
    }
}

/// `|p| as f64 / q as f64`, rounded to `places` decimals (ties to even) and
/// scaled by `10^places`.
pub open spec fn quotient_scaled(p_abs: nat, q: nat, places: nat) -> nat {
    let x = nearest_double(p_abs, 1, 0);
    let y = nearest_double(q, 1, 0);
    let z = nearest_double(x.0, y.0, x.1 - y.1);
    if z.1 >= 0 {
        z.0 * ten_pow(places) * pow2(z.1 as nat)
    } else {
        round_half_even(z.0 * ten_pow(places), pow2((-z.1) as nat))
    }
}

/// The decimal digits of `n`, left-padded with zeros to `width`.
pub open spec fn padded_digits(n: nat, width: nat) -> Seq<char> {
    let d = crate::numtext::digits_of(n);
    if d.len() >= width {
        d
    } else {
        Seq::new((width - d.len()) as nat, |i: int| '0') + d
    }
}

/// `r / 10^places` written with `places` decimals.
pub open spec fn fixed_point_text(r: nat, places: nat) -> Seq<char> {
    crate::numtext::digits_of(r / ten_pow(places)) + seq!['.'] + padded_digits(
        r % ten_pow(places),
        places,
    )
}

/// `format!("{:.places$}", p as f64 / q as f64)` for `q > 0`.
pub open spec fn quotient_text(p: int, q: int, places: nat) -> Seq<char> {
    if p == 0 {
        fixed_point_text(0, places)
    } else {
        let sign = if p < 0 {
            seq!['-']
        } else {
            Seq::<char>::empty()
        };
        let p_abs = if p < 0 {
            -p
        } else {
            p
        };
        sign + fixed_point_text(quotient_scaled(p_abs as nat, q as nat, places), places)
    }
}

// ---------------------------------------------------------------------------
// Facts
// ---------------------------------------------------------------------------

proof fn lemma_pow2_52_53()
    ensures
        pow2(0) == 1,
        pow2(1) == 2,
        pow2(11) == 2048,
        pow2(52) == 0x10000000000000,
        pow2(53) == 0x20000000000000,
        pow2(64) == 0x10000000000000000,
{
    lemma2_to64();
    lemma2_to64_rest();
}

proof fn lemma_pow2_ge_2(n: nat)
    requires
        n >= 1,
    ensures
        pow2(n) >= 2,
{
    lemma_pow2_52_53();
    if n > 1 {
        lemma_pow2_strictly_increases(1, n);
    }
}

/// At most one power of two scales a positive fraction into `[2^52, 2^53)`.
proof fn lemma_binade_unique(num: nat, den: nat, s1: int, s2: int)
    requires
        den > 0,
        in_binade(num, den, s1),
        in_binade(num, den, s2),
    ensures
        s1 == s2,
{
    lemma_pow2_52_53();
    if s1 != s2 {
        let (a, b) = if s1 < s2 {
            (s1, s2)
        } else {
            (s2, s1)
        };
        let j = (b - a) as nat;
        lemma_pow2_ge_2(j);
        let two52 = pow2(52);
        let two53 = pow2(53);
        if a >= 0 {
            lemma_pow2_adds(a as nat, j);
            let pa = pow2(a as nat);
            let pj = pow2(j);
            assert(num * pow2(b as nat) == num * pa * pj) by (nonlinear_arith)
                requires
                    pow2(b as nat) == pa * pj,
            ;
            assert(num * pa * pj >= two52 * den * 2) by (nonlinear_arith)
                requires
                    num * pa >= two52 * den,
                    pj >= 2,
                    two52 >= 0,
                    den >= 0,
            ;
        } else if b >= 0 {
            let pa = pow2((-a) as nat);
            lemma_pow2_ge_2((-a) as nat);
            assert(num >= two52 * (den * pa));
            assert(two52 * (den * pa) >= two53 * den) by (nonlinear_arith)
                requires
                    pa >= 2,
                    two53 == 2 * two52,
                    den >= 0,
                    two52 >= 0,
            ;
            lemma_pow2_pos(b as nat);
            assert(num * pow2(b as nat) >= num) by (nonlinear_arith)
                requires
                    pow2(b as nat) >= 1,
            ;
        } else {
            let pa = pow2((-a) as nat);
            let pb = pow2((-b) as nat);
            lemma_pow2_adds((-b) as nat, j);
            assert(pa == pb * pow2(j));
            assert(two52 * (den * pa) >= two53 * (den * pb)) by (nonlinear_arith)
                requires
                    pa == pb * pow2(j),
                    pow2(j) >= 2,
                    two53 == 2 * two52,
                    den >= 0,
                    two52 >= 0,
                    pb >= 0,
            ;
        }
    }
}

/// Naming the shift that `in_binade` accepts pins `binade_shift`.
proof fn lemma_binade_shift_is(num: nat, den: nat, e: int, k: int)
    requires
        den > 0,
        in_binade(num, den, e + k),
    ensures
        binade_shift(num, den, e) == k,
{
    let s = choose|s: int| in_binade(num, den, s);
    assert(in_binade(num, den, s));
    lemma_binade_unique(num, den, s, e + k);
}

// ---------------------------------------------------------------------------
// Exact integer steps
// ---------------------------------------------------------------------------

/// A positive binary64 value `m * 2^e` with `2^52 <= m < 2^53`.
struct Double {
    m: u64,
    e: i64,
}

fn round_half_even_u128(n: u128, d: u128) -> (r: u128)
    requires
        d > 0,
    ensures
        r == round_half_even(n as nat, d as nat),
{
    let q = n / d;
    let rem = n % d;
    let other = d - rem;
    if rem > other {
        assert(q < u128::MAX) by (nonlinear_arith)
            requires
                rem > 0,
                d > rem,
                q == n / d,
                n <= u128::MAX,
                d > 0,
                rem == n % d,
        ;
        q + 1
    } else if rem < other {
        q
    } else if q % 2 == 0 {
        q
    } else {
        assert(q < u128::MAX) by (nonlinear_arith)
            requires
                rem == d - rem,
                d > 0,
                q == n / d,
                n <= u128::MAX,
        ;
        q + 1
    }
}

/// `2^k` as an exact integer.
fn pow2_u128(k: u64) -> (r: u128)
    requires
        k < 128,
    ensures
        r == pow2(k as nat),
{
    let mut r: u128 = 1;
    let mut i: u64 = 0;
    proof {
        lemma2_to64();
    }
    while i < k
        invariant
            i <= k < 128,
            r == pow2(i as nat),
        decreases k - i,
    {
        proof {
            lemma_pow2_unfold((i + 1) as nat);
            lemma_pow2_strictly_increases((i + 1) as nat, 128);
            assert(pow2(128) == pow2(64) * pow2(64)) by {
                lemma_pow2_adds(64, 64);
            }
            lemma2_to64_rest();
        }
        r = r * 2;
        i = i + 1;
    }
    r
}

/// `p as f64` for `p >= 1`.
fn double_of_u64(p: u64) -> (d: Double)
    requires
        p >= 1,
    ensures
        (d.m as nat, d.e as int) == nearest_double(p as nat, 1, 0),
        0x10000000000000 <= d.m < 0x20000000000000,
        -52 <= d.e <= 12,
{
    proof {
        lemma_pow2_52_53();
    }
    if p < 0x20000000000000 {
        let mut m: u64 = p;
        let mut s: u64 = 0;
        while m < 0x10000000000000
            invariant
                1 <= p <= m < 0x20000000000000,
                s <= 52,
                m as nat == p as nat * pow2(s as nat),
                m >= pow2(s as nat),
            decreases 0x20000000000000 - m,
        {
            proof {
                lemma_pow2_52_53();
                lemma_pow2_unfold((s + 1) as nat);
                if s == 52 {
                    assert(m >= pow2(52));
                }
                assert(p as nat * pow2((s + 1) as nat) == 2 * (p as nat * pow2(s as nat)))
                    by (nonlinear_arith)
                    requires
                        pow2((s + 1) as nat) == 2 * pow2(s as nat),
                ;
            }
            m = m * 2;
            s = s + 1;
        }
        proof {
            assert(in_binade(p as nat, 1, 0 + s));
            lemma_binade_shift_is(p as nat, 1, 0, s as int);
            assert(round_half_even(m as nat, 1) == m) by (nonlinear_arith)
                requires
                    m >= 0,
            ;
        }
        Double { m, e: -(s as i64) }
    } else {
        let mut t: u64 = 0;
        let mut dv: u128 = 1;
        proof {
            lemma_pow2_52_53();
        }
        while (p as u128) >= 0x20000000000000 * dv
            invariant
                t <= 11,
                dv == pow2(t as nat),
                dv <= 2048,
                p as nat >= pow2(52) * pow2(t as nat),
            decreases 11 - t,
        {
            proof {
                lemma_pow2_52_53();
                lemma_pow2_unfold((t + 1) as nat);
                if t >= 11 {
                    assert(dv == 2048);
                    assert(false);
                }
                lemma2_to64();
                if t < 10 {
                    lemma_pow2_strictly_increases(t as nat, 10);
                }
                assert(pow2(52) * pow2((t + 1) as nat) == pow2(53) * pow2(t as nat))
                    by (nonlinear_arith)
                    requires
                        pow2((t + 1) as nat) == 2 * pow2(t as nat),
                        pow2(53) == 2 * pow2(52),
                ;
            }
            dv = dv * 2;
            t = t + 1;
        }
        assert(t >= 1) by {
            if t == 0 {
                assert(dv == 1);
            }
        }
        proof {
            let neg_s = t as int;
            assert(in_binade(p as nat, 1, 0 - neg_s));
            lemma_binade_shift_is(p as nat, 1, 0, -neg_s);
        }
        let m = round_half_even_u128(p as u128, dv);
        assert(0x10000000000000 <= m <= 0x20000000000000) by {
            let q = (p as nat) / (dv as nat);
            assert(q >= pow2(52)) by (nonlinear_arith)
                requires
                    p as nat >= pow2(52) * dv,
                    dv > 0,
                    q == (p as nat) / (dv as nat),
            ;
            assert(q < pow2(53)) by (nonlinear_arith)
                requires
                    (p as nat) < pow2(53) * dv,
                    dv > 0,
                    q == (p as nat) / (dv as nat),
            ;
        }
        if m == 0x20000000000000 {
            Double { m: 0x10000000000000, e: (t + 1) as i64 }
        } else {
            Double { m: m as u64, e: t as i64 }
        }
    }
}

/// `x / y` rounded to binary64.
fn divide(x: &Double, y: &Double) -> (z: Double)
    requires
        0x10000000000000 <= x.m < 0x20000000000000,
        0x10000000000000 <= y.m < 0x20000000000000,
        -52 <= x.e <= 12,
        -52 <= y.e <= 12,
    ensures
        (z.m as nat, z.e as int) == nearest_double(x.m as nat, y.m as nat, x.e - y.e),
        0x10000000000000 <= z.m < 0x20000000000000,
        -117 <= z.e <= 13,
{
    proof {
        lemma_pow2_52_53();
    }
    let k0: u64 = if x.m >= y.m {
        52
    } else {
        53
    };
    let scale = pow2_u128(k0);
    let n: u128 = (x.m as u128) * scale;
    proof {
        let e = x.e - y.e;
        assert(in_binade(x.m as nat, y.m as nat, k0 as int)) by {
            if k0 == 52 {
                assert((x.m as nat) * pow2(52) < pow2(53) * (y.m as nat)) by (nonlinear_arith)
                    requires
                        x.m < 2 * y.m,
                        pow2(53) == 2 * pow2(52),
                        pow2(52) > 0,
                ;
                assert(pow2(52) * (y.m as nat) <= (x.m as nat) * pow2(52)) by (nonlinear_arith)
                    requires
                        x.m >= y.m,
                        pow2(52) > 0,
                ;
            } else {
                assert(pow2(52) * (y.m as nat) <= (x.m as nat) * pow2(53)) by (nonlinear_arith)
                    requires
                        y.m <= 2 * x.m,
                        pow2(53) == 2 * pow2(52),
                        pow2(52) > 0,
                ;
                assert((x.m as nat) * pow2(53) < pow2(53) * (y.m as nat)) by (nonlinear_arith)
                    requires
                        x.m < y.m,
                        pow2(53) > 0,
                ;
            }
        }
        lemma_binade_shift_is(x.m as nat, y.m as nat, e as int, k0 - e);
    }
    let m = round_half_even_u128(n, y.m as u128);
    assert(0x10000000000000 <= m <= 0x20000000000000) by {
        let q = (n as nat) / (y.m as nat);
        assert(q >= pow2(52)) by (nonlinear_arith)
            requires
                n as nat >= pow2(52) * y.m,
                y.m > 0,
                q == (n as nat) / (y.m as nat),
        ;
        assert(q < pow2(53)) by (nonlinear_arith)
            requires
                (n as nat) < pow2(53) * y.m,
                y.m > 0,
                q == (n as nat) / (y.m as nat),
        ;
    }
    let e = x.e - y.e - (k0 as i64);
    if m == 0x20000000000000 {
        Double { m: 0x10000000000000, e: e + 1 }
    } else {
        Double { m: m as u64, e }
    }
}

/// `10^n` as an exact integer.
fn ten_pow_u128(n: u32) -> (r: u128)
    requires
        n <= 3,
    ensures
        r == ten_pow(n as nat),
        1 <= r <= 1000,
{
    proof {
        reveal_with_fuel(ten_pow, 4);
    }
    if n == 0 {
        1
    } else if n == 1 {
        10
    } else if n == 2 {
        100
    } else {
        1000
    }
}

/// `z` rounded to `places` decimals and scaled by `10^places`.
fn scaled_decimal(z: &Double, places: u32) -> (r: u128)
    requires
        0x10000000000000 <= z.m < 0x20000000000000,
        -117 <= z.e <= 13,
        places <= 3,
    ensures
        r == if z.e >= 0 {
            z.m as nat * ten_pow(places as nat) * pow2(z.e as nat)
        } else {
            round_half_even(z.m as nat * ten_pow(places as nat), pow2((-z.e) as nat))
        },
{
    let t = ten_pow_u128(places);
    assert((z.m as u128) * t <= 0x20000000000000 * 1000) by (nonlinear_arith)
        requires
            z.m < 0x20000000000000,
            t <= 1000,
    ;
    let base: u128 = (z.m as u128) * t;
    if z.e >= 0 {
        let f = pow2_u128(z.e as u64);
        proof {
            lemma2_to64();
            if z.e < 13 {
                lemma_pow2_strictly_increases(z.e as nat, 13);
            }
            assert(pow2(13) == 8192) by {
                lemma_pow2_unfold(13);
                lemma_pow2_unfold(12);
                lemma_pow2_unfold(11);
                lemma_pow2_unfold(10);
            }
            assert(base as nat * f as nat <= 0x20000000000000 * 1000 * 8192) by (nonlinear_arith)
                requires
                    base as nat == z.m as nat * t as nat,
                    z.m < 0x20000000000000,
                    t <= 1000,
                    f <= 8192,
            ;
        }
        base * f
    } else {
        let f = pow2_u128((-z.e) as u64);
        proof {
            lemma_pow2_pos((-z.e) as nat);
        }
        round_half_even_u128(base, f)
    }
}

/// The decimal digits of `n`, left-padded with zeros to `width`.
fn push_padded(v: &mut Vec<char>, n: u128, width: u32)
    ensures
        final(v)@ == old(v)@ + padded_digits(n as nat, width as nat),
{
    let d = crate::numtext::u128_text(n);
    let ghost start = v@;
    if d.len() < width as usize {
        let zeros = width as usize - d.len();
        let mut i: usize = 0;
        while i < zeros
            invariant
                i <= zeros,
                v@ == start + Seq::new(i as nat, |k: int| '0'),
            decreases zeros - i,
        {
            v.push('0');
            i = i + 1;
            assert(v@ =~= start + Seq::new(i as nat, |k: int| '0'));
        }
        crate::text::push_chars(v, &d);
        assert(v@ =~= start + padded_digits(n as nat, width as nat));
    } else {
        crate::text::push_chars(v, &d);
    }
}

/// `r / 10^places` with `places` decimals.
fn push_fixed_point(v: &mut Vec<char>, r: u128, places: u32)
    requires
        places <= 3,
    ensures
        final(v)@ == old(v)@ + fixed_point_text(r as nat, places as nat),
{
    let t = ten_pow_u128(places);
    let ghost start = v@;
    crate::numtext::push_u128(v, r / t);
    v.push('.');
    push_padded(v, r % t, places);
    assert(v@ =~= start + fixed_point_text(r as nat, places as nat));
}

/// `format!("{:.places$}", p as f64 / q as f64)`, computed exactly.
pub fn quotient_fixed(p: i64, q: i64, places: u32) -> (v: Vec<char>)
    requires
        q > 0,
        1 <= places <= 3,
    ensures
        v@ == quotient_text(p as int, q as int, places as nat),
{
    let mut v: Vec<char> = Vec::new();
    if p == 0 {
        push_fixed_point(&mut v, 0, places);
        assert(v@ =~= quotient_text(p as int, q as int, places as nat));
        return v;
    }
    let p_abs: u64 = if p == i64::MIN {
        9223372036854775808u64
    } else if p < 0 {
        (-p) as u64
    } else {
        p as u64
    };
    let x = double_of_u64(p_abs);
    let y = double_of_u64(q as u64);
    let z = divide(&x, &y);
    let r = scaled_decimal(&z, places);
    if p < 0 {
        v.push('-');
    }
    push_fixed_point(&mut v, r, places);
    assert(v@ =~= quotient_text(p as int, q as int, places as nat));
    v
}

} // verus!
