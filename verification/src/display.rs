//! How the Discord bot writes numbers, durations, distances and timestamps.
use vstd::prelude::*;
use crate::binary64::{quotient_fixed, quotient_text};
use crate::numtext::{decimal_of, i64_text, push_i64};
use crate::text::string_from_chars;

verus! {

// ---------------------------------------------------------------------------
// Integer division as Rust performs it on signed values
// ---------------------------------------------------------------------------

/// `a / b` for `b > 0`, rounding toward zero.
pub open spec fn div_trunc(a: int, b: int) -> int {
    if a >= 0 {
        a / b
    } else {
        -((-a) / b)
    }
}

/// `a % b` for `b > 0`, with the sign of `a`.
pub open spec fn rem_trunc(a: int, b: int) -> int {
    a - b * div_trunc(a, b)
}

/// `a / b` on `i64` with a positive divisor.
fn div_i64(a: i64, b: i64) -> (r: i64)
    requires
        b > 0,
    ensures
        r == div_trunc(a as int, b as int),
{
    if a >= 0 {
        a / b
    } else {
        let m: u64 = if a == i64::MIN {
            9223372036854775808u64
        } else {
            (-a) as u64
        };
        let q = m / (b as u64);
        assert(q <= 9223372036854775808u64) by (nonlinear_arith)
            requires
                q == m / (b as u64),
                b >= 1,
                m <= 9223372036854775808u64,
        ;
        if q == 9223372036854775808u64 {
            i64::MIN
        } else {
            -(q as i64)
        }
    }
}

/// `a % b` on `i64` with a positive divisor.
fn rem_i64(a: i64, b: i64) -> (r: i64)
    requires
        b > 0,
    ensures
        r == rem_trunc(a as int, b as int),
{
    let q = div_i64(a, b);
    proof {
        let ai = a as int;
        let bi = b as int;
        if ai >= 0 {
            assert(0 <= ai - bi * (ai / bi) < bi) by (nonlinear_arith)
                requires
                    ai >= 0,
                    bi > 0,
            ;
            assert(0 <= bi * (ai / bi)) by (nonlinear_arith)
                requires
                    ai >= 0,
                    bi > 0,
            ;
        } else {
            let na = -ai;
            assert(0 <= na - bi * (na / bi) < bi) by (nonlinear_arith)
                requires
                    na > 0,
                    bi > 0,
            ;
            assert(0 <= bi * (na / bi)) by (nonlinear_arith)
                requires
                    na > 0,
                    bi > 0,
            ;
            assert(bi * q == -(bi * (na / bi))) by (nonlinear_arith)
                requires
                    q == -(na / bi),
            ;
        }
    }
    a - b * q
}

// ---------------------------------------------------------------------------
// Numbers
// ---------------------------------------------------------------------------

/// What `format_number` writes: millions and thousands with one decimal
/// (the `f64` quotient, formatted), smaller values as they are.
pub open spec fn number_text(value: int) -> Seq<char> {
    if value >= 1_000_000 {
        quotient_text(value, 1_000_000, 1) + seq!['M']
    } else if value >= 1_000 {
        quotient_text(value, 1_000, 1) + seq!['K']
    } else {
        decimal_of(value)
    }
}

/// Numbers below a thousand are written as they are; from a thousand on they
/// are written in thousands with one decimal and `K`, from a million on in
/// millions with one decimal and `M`.
pub proof fn number_text_scales(value: int)
    ensures
        value < 1_000 ==> number_text(value) == decimal_of(value),
        1_000 <= value < 1_000_000 ==> number_text(value) == quotient_text(value, 1_000, 1) + "K"@,
        value >= 1_000_000 ==> number_text(value) == quotient_text(value, 1_000_000, 1) + "M"@,
{
    reveal_strlit("K");
    reveal_strlit("M");
    assert(seq!['K'] =~= "K"@);
    assert(seq!['M'] =~= "M"@);
}

/// `1234` becomes `1.2K`, `2500000` becomes `2.5M`, `999` stays `999`.
pub fn format_number(value: i64) -> (s: String)
    ensures
        s@ == number_text(value as int),
{
    let v = if value >= 1_000_000 {
        let mut v = quotient_fixed(value, 1_000_000, 1);
        v.push('M');
        v
    } else if value >= 1_000 {
        let mut v = quotient_fixed(value, 1_000, 1);
        v.push('K');
        v
    } else {
        i64_text(value)
    };
    string_from_chars(&v)
}

/// What `format_time` writes for a number of game ticks (20 per second).
pub open spec fn time_text(ticks: int) -> Seq<char> {
    let hours = div_trunc(ticks, 72_000);
    let minutes = div_trunc(rem_trunc(ticks, 72_000), 1_200);
    if hours > 0 {
        decimal_of(hours) + seq!['h', ' '] + decimal_of(minutes) + seq!['m']
    } else {
        decimal_of(minutes) + seq!['m']
    }
}

/// Play time shows every whole hour of 72,000 ticks, however many, then the
/// whole minutes of 1,200 ticks left over; under an hour it shows the minutes
/// alone; a negative time shows its minutes, negated, alone.
pub proof fn time_text_counts_whole_hours(ticks: int)
    ensures
        ticks < 0 ==> time_text(ticks) == decimal_of(-(((-ticks) % 72_000) / 1_200)) + "m"@,
        ticks >= 72_000 ==> time_text(ticks) == decimal_of(ticks / 72_000) + "h "@ + decimal_of(
            (ticks % 72_000) / 1_200,
        ) + "m"@,
        0 <= ticks < 72_000 ==> time_text(ticks) == decimal_of(ticks / 1_200) + "m"@,
{
    reveal_strlit("h ");
    reveal_strlit("m");
    if ticks < 0 {
        assert(div_trunc(ticks, 72_000) <= 0);
        assert(rem_trunc(ticks, 72_000) == -((-ticks) % 72_000));
        assert(decimal_of(-(((-ticks) % 72_000) / 1_200)) + seq!['m'] =~= decimal_of(
            -(((-ticks) % 72_000) / 1_200),
        ) + "m"@);
    } else if ticks >= 72_000 {
        assert(ticks / 72_000 >= 1);
        assert(decimal_of(ticks / 72_000) + seq!['h', ' '] + decimal_of((ticks % 72_000) / 1_200)
            + seq!['m'] =~= decimal_of(ticks / 72_000) + "h "@ + decimal_of(
            (ticks % 72_000) / 1_200,
        ) + "m"@);
    } else {
        assert(ticks / 72_000 == 0);
        assert(decimal_of(ticks / 1_200) + seq!['m'] =~= decimal_of(ticks / 1_200) + "m"@);
    }
}

/// `ticks` as hours and minutes, such as `2h 15m`, or minutes alone.
pub fn format_time(ticks: i64) -> (s: String)
    ensures
        s@ == time_text(ticks as int),
{
    let hours = div_i64(ticks, 72_000);
    let minutes = div_i64(rem_i64(ticks, 72_000), 1_200);
    let mut v: Vec<char> = Vec::new();
    if hours > 0 {
        push_i64(&mut v, hours);
        v.push('h');
        v.push(' ');
        push_i64(&mut v, minutes);
        v.push('m');
    } else {
        push_i64(&mut v, minutes);
        v.push('m');
    }
    assert(v@ =~= time_text(ticks as int));
    string_from_chars(&v)
}

/// What `format_distance` writes for a distance in centimetres.
pub open spec fn distance_text(cm: int) -> Seq<char> {
    if cm >= 100_000 {
        quotient_text(cm, 100_000, 1) + seq!['k', 'm']
    } else if cm >= 100 {
        decimal_of(cm / 100) + seq!['m']
    } else {
        decimal_of(cm) + seq!['c', 'm']
    }
}

/// Distances below a metre are written in centimetres, below a kilometre in
/// whole metres (centimetres divided by 100, rounded down), from a kilometre
/// on in kilometres with one decimal.
pub proof fn distance_text_units(cm: int)
    ensures
        cm < 100 ==> distance_text(cm) == decimal_of(cm) + "cm"@,
        100 <= cm < 100_000 ==> distance_text(cm) == decimal_of(cm / 100) + "m"@,
        cm >= 100_000 ==> distance_text(cm) == quotient_text(cm, 100_000, 1) + "km"@,
{
    reveal_strlit("cm");
    reveal_strlit("m");
    reveal_strlit("km");
    assert(seq!['c', 'm'] =~= "cm"@);
    assert(seq!['m'] =~= "m"@);
    assert(seq!['k', 'm'] =~= "km"@);
}

/// Kilometres with one decimal, whole metres, or centimetres.
pub fn format_distance(cm: i64) -> (s: String)
    ensures
        s@ == distance_text(cm as int),
{
    let mut v: Vec<char>;
    if cm >= 100_000 {
        v = quotient_fixed(cm, 100_000, 1);
        v.push('k');
        v.push('m');
    } else if cm >= 100 {
        v = Vec::new();
        push_i64(&mut v, cm / 100);
        v.push('m');
    } else {
        v = Vec::new();
        push_i64(&mut v, cm);
        v.push('c');
        v.push('m');
    }
    assert(v@ =~= distance_text(cm as int));
    string_from_chars(&v)
}

/// What `format_timestamp_ms` writes: a Discord date tag, or `unknown`.
pub open spec fn timestamp_text(timestamp_ms: int) -> Seq<char> {
    if timestamp_ms <= 0 {
        seq!['u', 'n', 'k', 'n', 'o', 'w', 'n']
    } else {
        seq!['<', 't', ':'] + decimal_of(timestamp_ms / 1000) + seq![':', 'd', '>']
    }
}

/// A positive millisecond timestamp is shown as a Discord date tag of its
/// whole seconds; zero or less is `unknown`.
pub proof fn timestamp_text_tags_seconds(timestamp_ms: int)
    ensures
        timestamp_ms <= 0 ==> timestamp_text(timestamp_ms) == "unknown"@,
        timestamp_ms > 0 ==> timestamp_text(timestamp_ms) == "<t:"@ + decimal_of(timestamp_ms / 1000)
            + ":d>"@,
{
    reveal_strlit("unknown");
    reveal_strlit("<t:");
    reveal_strlit(":d>");
    assert(seq!['u', 'n', 'k', 'n', 'o', 'w', 'n'] =~= "unknown"@);
    assert(seq!['<', 't', ':'] =~= "<t:"@);
    assert(seq![':', 'd', '>'] =~= ":d>"@);
}

/// A millisecond timestamp as `<t:SECONDS:d>`; zero or less is `unknown`.
pub fn format_timestamp_ms(timestamp_ms: i64) -> (s: String)
    ensures
        s@ == timestamp_text(timestamp_ms as int),
{
    let mut v: Vec<char> = Vec::new();
    if timestamp_ms <= 0 {
        v.push('u');
        v.push('n');
        v.push('k');
        v.push('n');
        v.push('o');
        v.push('w');
        v.push('n');
    } else {
        v.push('<');
        v.push('t');
        v.push(':');
        push_i64(&mut v, timestamp_ms / 1000);
        v.push(':');
        v.push('d');
        v.push('>');
    }
    assert(v@ =~= timestamp_text(timestamp_ms as int));
    string_from_chars(&v)
}

} // verus!
