//! Decimal text of integers: `Display` for `u64`/`i64` and `FromStr` for
//! `i64`/`i32`, written out and proved against their definitions.
use vstd::prelude::*;

verus! {

pub open spec fn digit_char(d: int) -> char {
    (48 + d) as char
}

pub open spec fn digit_value(c: char) -> int {
    (c as u32) - 48
}

/// Decimal digits of a natural number, most significant first.
pub open spec fn digits_of(n: nat) -> Seq<char>
    decreases n,
{
    if n < 10 {
        seq![digit_char(n as int)]
    } else {
        digits_of(n / 10).push(digit_char((n % 10) as int))
    }
}

/// `Display` of an integer: an optional minus sign, then the digits.
pub open spec fn decimal_of(i: int) -> Seq<char> {
    if i < 0 {
        seq!['-'] + digits_of((-i) as nat)
    } else {
        digits_of(i as nat)
    }
}

/// Appends the decimal digits of `n`.
pub fn push_u128(v: &mut Vec<char>, n: u128)
    ensures
        final(v)@ == old(v)@ + digits_of(n as nat),
    decreases n,
{
    if n >= 10 {
        push_u128(v, n / 10);
    }
    let d = (n % 10) as u32;
    let c = crate::text::char_from_ascii(48 + d);
    v.push(c);
    proof {
        if n >= 10 {
            assert(old(v)@ + digits_of(n as nat) =~= old(v)@ + digits_of((n / 10) as nat) + seq![c]);
        } else {
            assert(digits_of(n as nat) =~= seq![c]);
        }
    }
}

/// Appends the decimal digits of `n`.
pub fn push_u64(v: &mut Vec<char>, n: u64)
    ensures
        final(v)@ == old(v)@ + digits_of(n as nat),
{
    push_u128(v, n as u128);
}

/// Appends `Display` of `x`.
pub fn push_i64(v: &mut Vec<char>, x: i64)
    ensures
        final(v)@ == old(v)@ + decimal_of(x as int),
{
    if x < 0 {
        v.push('-');
        let m: u64 = if x == i64::MIN {
            9223372036854775808u64
        } else {
            (-x) as u64
        };
        push_u64(v, m);
        assert(old(v)@ + decimal_of(x as int) =~= old(v)@ + seq!['-'] + digits_of(m as nat));
    } else {
        push_u64(v, x as u64);
    }
}

/// `Display` of a `u64`.
pub fn u64_text(n: u64) -> (v: Vec<char>)
    ensures
        v@ == digits_of(n as nat),
{
    let mut v: Vec<char> = Vec::new();
    push_u64(&mut v, n);
    assert(v@ =~= digits_of(n as nat));
    v
}

/// `Display` of a `u128`.
pub fn u128_text(n: u128) -> (v: Vec<char>)
    ensures
        v@ == digits_of(n as nat),
{
    let mut v: Vec<char> = Vec::new();
    push_u128(&mut v, n);
    assert(v@ =~= digits_of(n as nat));
    v
}

/// `Display` of an `i64`.
pub fn i64_text(x: i64) -> (v: Vec<char>)
    ensures
        v@ == decimal_of(x as int),
{
    let mut v: Vec<char> = Vec::new();
    push_i64(&mut v, x);
    assert(v@ =~= decimal_of(x as int));
    v
}

// ---------------------------------------------------------------------------
// Parsing
// ---------------------------------------------------------------------------

pub open spec fn all_digits(s: Seq<char>) -> bool {
    forall|i: int| 0 <= i < s.len() ==> crate::text::is_ascii_digit(#[trigger] s[i])
}

/// The value of a digit string.
pub open spec fn digits_value(s: Seq<char>) -> nat
    decreases s.len(),
{
    if s.len() == 0 {
        0
    } else {
        (digits_value(s.drop_last()) * 10 + digit_value(s.last())) as nat
    }
}

/// What `str::parse` for a signed integer reads, before the range check:
/// an optional `+` or `-`, then one or more ASCII digits, nothing else.
pub open spec fn signed_decimal(s: Seq<char>) -> Option<int> {
    if s.len() > 0 && (s[0] == '+' || s[0] == '-') {
        let body = s.drop_first();
        if body.len() > 0 && all_digits(body) {
            if s[0] == '-' {
                Some(-(digits_value(body) as int))
            } else {
                Some(digits_value(body) as int)
            }
        } else {
            None
        }
    } else if s.len() > 0 && all_digits(s) {
        Some(digits_value(s) as int)
    } else {
        None
    }
}

/// `<i64 as FromStr>::from_str(s).ok()`.
pub open spec fn parse_i64_spec(s: Seq<char>) -> Option<i64> {
    match signed_decimal(s) {
        Some(v) => if i64::MIN <= v <= i64::MAX {
            Some(v as i64)
        } else {
            None
        },
        None => None,
    }
}

/// `<i32 as FromStr>::from_str(s).ok()`.
pub open spec fn parse_i32_spec(s: Seq<char>) -> Option<i32> {
    match signed_decimal(s) {
        Some(v) => if i32::MIN <= v <= i32::MAX {
            Some(v as i32)
        } else {
            None
        },
        None => None,
    }
}

proof fn lemma_digits_value_prefix_grows(s: Seq<char>, k: int)
    requires
        0 <= k <= s.len(),
        all_digits(s),
    ensures
        digits_value(s.subrange(0, k)) <= digits_value(s),
    decreases s.len() - k,
{
    if k < s.len() {
        lemma_digits_value_prefix_grows(s, k + 1);
        let p = s.subrange(0, k + 1);
        assert(p.drop_last() =~= s.subrange(0, k));
        assert(crate::text::is_ascii_digit(s[k]));
    } else {
        assert(s.subrange(0, k) =~= s);
    }
}

proof fn lemma_signed_decimal_body(s: Seq<char>, start: int, negative: bool)
    requires
        s.len() > start,
        negative == (s[0] == '-'),
        start == if s[0] == '+' || s[0] == '-' { 1int } else { 0int },
    ensures
        signed_decimal(s) == if all_digits(s.subrange(start, s.len() as int)) {
            let v = digits_value(s.subrange(start, s.len() as int)) as int;
            Some(if negative { -v } else { v })
        } else {
            None::<int>
        },
{
    if start == 1 {
        assert(s.subrange(start, s.len() as int) =~= s.drop_first());
    } else {
        assert(s.subrange(start, s.len() as int) =~= s);
    }
}

/// `str::parse::<i64>().ok()`.
pub fn parse_i64(s: &str) -> (r: Option<i64>)
    ensures
        r == parse_i64_spec(s@),
{
    let v = crate::text::chars_of(s);
    let n = v.len();
    if n == 0 {
        return None;
    }
    let negative = v[0] == '-';
    let start: usize = if v[0] == '+' || v[0] == '-' {
        1
    } else {
        0
    };
    if start == n {
        return None;
    }
    let ghost body = v@.subrange(start as int, n as int);
    proof {
        if start == 1 {
            assert(body =~= v@.drop_first());
        } else {
            assert(body =~= v@);
        }
    }
    // The magnitude allowed: 2^63 for a negative number, 2^63 - 1 otherwise.
    let limit: u64 = if negative {
        9223372036854775808u64
    } else {
        9223372036854775807u64
    };
    let mut acc: u64 = 0;
    let mut i = start;
    while i < n
        invariant
            start <= i <= n == v.len(),
            start < n,
            v@ == s@,
            negative == (v@[0] == '-'),
            start == if v@[0] == '+' || v@[0] == '-' { 1usize } else { 0usize },
            body == v@.subrange(start as int, n as int),
            all_digits(v@.subrange(start as int, i as int)),
            acc as nat == digits_value(v@.subrange(start as int, i as int)),
            acc <= limit,
            limit == if negative {
                9223372036854775808u64
            } else {
                9223372036854775807u64
            },
        decreases n - i,
    {
        let c = v[i];
        if !('0' <= c && c <= '9') {
            proof {
                assert(body[i - start] == c);
                assert(!all_digits(body));
                lemma_signed_decimal_body(v@, start as int, negative);
            }
            return None;
        }
        let d = (c as u32 - 48) as u64;
        let ghost pre = v@.subrange(start as int, i as int);
        let ghost next = v@.subrange(start as int, i + 1);
        proof {
            assert(next.drop_last() =~= pre);
            assert(next.last() == c);
        }
        if acc > (limit - d) / 10 {
            proof {
                assert(digits_value(next) == acc * 10 + d);
                assert(digits_value(next) > limit) by (nonlinear_arith)
                    requires
                        acc > (limit - d) / 10,
                        d <= 9,
                        digits_value(next) == acc * 10 + d,
                ;
                if all_digits(body) {
                    assert(body.subrange(0, i + 1 - start) =~= next);
                    lemma_digits_value_prefix_grows(body, i + 1 - start);
                    assert(digits_value(body) > limit);
                }
                lemma_signed_decimal_body(v@, start as int, negative);
            }
            return None;
        }
        acc = acc * 10 + d;
        i = i + 1;
        proof {
            assert forall|k: int| 0 <= k < next.len() implies crate::text::is_ascii_digit(
                #[trigger] next[k],
            ) by {
                if k < pre.len() {
                    assert(next[k] == pre[k]);
                }
            }
        }
    }
    proof {
        assert(v@.subrange(start as int, n as int) == body);
        lemma_signed_decimal_body(v@, start as int, negative);
    }
    if negative {
        if acc == 9223372036854775808u64 {
            Some(i64::MIN)
        } else {
            Some(-(acc as i64))
        }
    } else {
        Some(acc as i64)
    }
}

/// `str::parse::<i32>().ok()`.
pub fn parse_i32(s: &str) -> (r: Option<i32>)
    ensures
        r == parse_i32_spec(s@),
{
    match parse_i64(s) {
        Some(x) => if -2147483648 <= x && x <= 2147483647 {
            Some(x as i32)
        } else {
            None
        },
        None => {
            proof {
                if let Some(v) = signed_decimal(s@) {
                    assert(!(i64::MIN <= v <= i64::MAX));
                }
            }
            None
        },
    }
}

} // verus!

verus! {

proof fn lemma_digits_of_read_back(n: nat)
    ensures
        digits_of(n).len() > 0,
        all_digits(digits_of(n)),
        digits_value(digits_of(n)) == n,
    decreases n,
{
    if n >= 10 {
        lemma_digits_of_read_back(n / 10);
        let s = digits_of(n / 10);
        let c = digit_char((n % 10) as int);
        assert(digits_of(n) == s.push(c));
        assert(s.push(c).drop_last() =~= s);
        assert(digit_value(c) == n % 10);
        assert((n / 10) * 10 + n % 10 == n) by (nonlinear_arith);
        assert(digits_value(s.push(c)) == digits_value(s) * 10 + digit_value(c));
        assert forall|i: int| 0 <= i < s.push(c).len() implies crate::text::is_ascii_digit(
            #[trigger] s.push(c)[i],
        ) by {
            if i < s.len() {
                assert(s.push(c)[i] == s[i]);
            }
        }
    } else {
        let c = digit_char(n as int);
        assert(digit_value(c) == n);
        assert(seq![c].drop_last() =~= Seq::<char>::empty());
        assert(digits_value(seq![c]) == digits_value(Seq::<char>::empty()) * 10 + digit_value(c));
    }
}

/// The decimal text of every `i64` parses back to it: what `Display`
/// writes, `FromStr` reads.
pub proof fn decimal_text_parses_back(x: i64)
    ensures
        parse_i64_spec(decimal_of(x as int)) == Some(x),
{
    if x < 0 {
        let d = digits_of((-x) as nat);
        lemma_digits_of_read_back((-x) as nat);
        let s = seq!['-'] + d;
        assert(s.drop_first() =~= d);
        assert(s[0] == '-');
        assert(signed_decimal(s) == Some(x as int));
    } else {
        let d = digits_of(x as nat);
        lemma_digits_of_read_back(x as nat);
        assert(crate::text::is_ascii_digit(d[0]));
        assert(signed_decimal(d) == Some(x as int));
    }
}

} // verus!
