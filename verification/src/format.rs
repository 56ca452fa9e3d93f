use vstd::prelude::*;
use vstd::string::*;

verus! {

/// The decimal digit character for `d` (0 through 9).
pub open spec fn digit_char(d: int) -> char {
    if d == 0 {
        '0'
    } else if d == 1 {
        '1'
    } else if d == 2 {
        '2'
    } else if d == 3 {
        '3'
    } else if d == 4 {
        '4'
    } else if d == 5 {
        '5'
    } else if d == 6 {
        '6'
    } else if d == 7 {
        '7'
    } else if d == 8 {
        '8'
    } else {
        '9'
    }
}

/// Decimal representation of `n` without leading zeros ("0" for zero).
pub open spec fn decimal(n: nat) -> Seq<char>
    decreases n,
{
    if n < 10 {
        seq![digit_char(n as int)]
    } else {
        decimal(n / 10).push(digit_char((n % 10) as int))
    }
}

fn digit_str(d: u64) -> (res: &'static str)
    requires
        d < 10,
    ensures
        res@ == seq![digit_char(d as int)],
{
    proof {
        reveal_strlit("0");
        reveal_strlit("1");
        reveal_strlit("2");
        reveal_strlit("3");
        reveal_strlit("4");
        reveal_strlit("5");
        reveal_strlit("6");
        reveal_strlit("7");
        reveal_strlit("8");
        reveal_strlit("9");
    }
    let r = if d == 0 {
        "0"
    } else if d == 1 {
        "1"
    } else if d == 2 {
        "2"
    } else if d == 3 {
        "3"
    } else if d == 4 {
        "4"
    } else if d == 5 {
        "5"
    } else if d == 6 {
        "6"
    } else if d == 7 {
        "7"
    } else if d == 8 {
        "8"
    } else {
        "9"
    };
    assert(r@ =~= seq![digit_char(d as int)]);
    r
}

/// Appends the decimal representation of `n` to `s`.
pub fn push_decimal(s: &mut String, n: u64)
    ensures
        final(s)@ == old(s)@ + decimal(n as nat),
    decreases n,
{
    if n < 10 {
        s.append(digit_str(n));
    } else {
        push_decimal(s, n / 10);
        s.append(digit_str(n % 10));
        assert(decimal(n as nat) == decimal((n / 10) as nat).push(digit_char((n % 10) as int)));
        assert(old(s)@ + decimal(n as nat) =~= old(s)@ + decimal((n / 10) as nat) + seq![
            digit_char((n % 10) as int),
        ]);
    }
}

/// Quotient of integer division rounded toward zero, as Rust's `/` computes.
pub open spec fn tdiv(a: int, b: int) -> int {
    if a >= 0 {
        a / b
    } else {
        -((-a) / b)
    }
}

/// Remainder that goes with `tdiv`, as Rust's `%` computes (same sign as `a`).
pub open spec fn trem(a: int, b: int) -> int {
    a - b * tdiv(a, b)
}

/// `v` as `{:02}` prints it: at least two characters, zero padded, with a
/// minus sign in front of negative values.
pub open spec fn two_digits(v: int) -> Seq<char> {
    if v < 0 {
        seq!['-'] + decimal((-v) as nat)
    } else if v < 10 {
        seq!['0'] + decimal(v as nat)
    } else {
        decimal(v as nat)
    }
}

/// Seconds of a trade time: timestamps above 10^9 are taken as milliseconds.
pub open spec fn trade_seconds(time: int) -> int {
    if time > 1_000_000_000 {
        tdiv(time, 1000)
    } else {
        time
    }
}

/// `HH:MM:SS` of a number of seconds (hours modulo 24, computed with Rust's
/// truncating division and remainder).
pub open spec fn hms(secs: int) -> Seq<char> {
    two_digits(trem(tdiv(secs, 3600), 24)) + seq![':'] + two_digits(trem(tdiv(secs, 60), 60)) + seq![
        ':',
    ] + two_digits(trem(secs, 60))
}

/// `HH:MM:SS` label of a trade time.
pub open spec fn time_label(time: int) -> Seq<char> {
    hms(trade_seconds(time))
}

fn push_two_digits(s: &mut String, negative: bool, mag: u64)
    requires
        mag < 100,
    ensures
        final(s)@ == old(s)@ + two_digits(if negative { -(mag as int) } else { mag as int }),
{
    proof {
        reveal_strlit("-");
        reveal_strlit("0");
    }
    if negative && mag > 0 {
        s.append("-");
        push_decimal(s, mag);
        assert(final(s)@ =~= old(s)@ + two_digits(-(mag as int)));
    } else if mag < 10 {
        s.append("0");
        push_decimal(s, mag);
        assert(final(s)@ =~= old(s)@ + two_digits(if negative { -(mag as int) } else { mag as int }));
    } else {
        push_decimal(s, mag);
    }
}

fn magnitude(v: i64) -> (res: u64)
    ensures
        res as int == if v < 0 { -(v as int) } else { v as int },
{
    if v < 0 {
        if v == i64::MIN {
            9_223_372_036_854_775_808u64
        } else {
            (-v) as u64
        }
    } else {
        v as u64
    }
}

fn hms_of_magnitude(negative: bool, secs_mag: u64) -> (res: String)
    ensures
        res@ == hms(if negative { -(secs_mag as int) } else { secs_mag as int }),
{
    proof {
        reveal_strlit(":");
    }
    let ghost secs = if negative { -(secs_mag as int) } else { secs_mag as int };
    let h = (secs_mag / 3600) % 24;
    let m = (secs_mag / 60) % 60;
    let sec = secs_mag % 60;
    assert(trem(tdiv(secs, 3600), 24) == if negative { -(h as int) } else { h as int });
    assert(trem(tdiv(secs, 60), 60) == if negative { -(m as int) } else { m as int });
    assert(trem(secs, 60) == if negative { -(sec as int) } else { sec as int });
    let mut s = String::new();
    push_two_digits(&mut s, negative, h);
    s.append(":");
    push_two_digits(&mut s, negative, m);
    s.append(":");
    push_two_digits(&mut s, negative, sec);
    assert(s@ =~= hms(secs));
    s
}

/// Formats a number of seconds as `HH:MM:SS`.
pub fn seconds_label(secs: i64) -> (res: String)
    ensures
        res@ == hms(secs as int),
{
    hms_of_magnitude(secs < 0, magnitude(secs))
}

/// Formats a millisecond timestamp as `HH:MM:SS`.
pub fn millis_label(timestamp: i64) -> (res: String)
    ensures
        res@ == hms(tdiv(timestamp as int, 1000)),
{
    hms_of_magnitude(timestamp < 0, magnitude(timestamp) / 1000)
}

/// Formats a trade time as `HH:MM:SS`; times above 10^9 are taken as
/// milliseconds.
pub fn tick_time_label(time: i64) -> (res: String)
    ensures
        res@ == time_label(time as int),
{
    let mag = magnitude(time);
    let secs_mag: u64 = if time > 1_000_000_000 { mag / 1000 } else { mag };
    hms_of_magnitude(time < 0, secs_mag)
}

/// Spacing of the `f64` values around `b`: 1 below 2^53, doubling with every
/// further bit.
pub open spec fn f64_unit(b: nat) -> nat
    decreases b,
{
    if b < 0x20_0000_0000_0000 {
        1
    } else {
        2 * f64_unit(b / 2)
    }
}

/// `n / d` rounded to the nearest integer, ties to the even one.
pub open spec fn div_round_half_even(n: nat, d: nat) -> nat {
    let q = n / d;
    let r = n % d;
    if 2 * r > d || (2 * r == d && q % 2 == 1) {
        q + 1
    } else {
        q
    }
}

/// The integer that `b as f64` holds: `b` rounded to a multiple of the
/// spacing of `f64` values there, ties to even.
pub open spec fn f64_of(b: nat) -> nat {
    div_round_half_even(b, f64_unit(b)) * f64_unit(b)
}

/// `t` tenths shown with one decimal place.
pub open spec fn one_decimal(t: nat) -> Seq<char> {
    decimal(t / 10) + seq!['.'] + decimal(t % 10)
}

pub open spec fn kib() -> nat {
    1024
}

pub open spec fn mib() -> nat {
    1024 * 1024
}

pub open spec fn gib() -> nat {
    1024 * 1024 * 1024
}

/// Human-readable byte count: one decimal place in GB, MB or KB (units of
/// 1024), whole bytes below 1 KB. The shown value is the `f64` quotient
/// rounded to tenths, ties to even.
pub open spec fn bytes_label(b: nat) -> Seq<char> {
    if b >= gib() {
        one_decimal(div_round_half_even(f64_of(b) * 10, gib())) + " GB"@
    } else if b >= mib() {
        one_decimal(div_round_half_even(b * 10, mib())) + " MB"@
    } else if b >= kib() {
        one_decimal(div_round_half_even(b * 10, kib())) + " KB"@
    } else {
        decimal(b) + " B"@
    }
}

fn round_half_even(n: u128, d: u128) -> (res: u128)
    requires
        d > 0,
        n / d < u128::MAX,
    ensures
        res == div_round_half_even(n as nat, d as nat),
{
    let q = n / d;
    let r = n % d;
    if r > d - r || (r == d - r && q % 2 == 1) {
        q + 1
    } else {
        q
    }
}

fn f64_integer(b: u64) -> (res: u128)
    ensures
        res == f64_of(b as nat),
        res <= 0x1_0000_0000_0000_1000u128,
{
    let mut unit: u64 = 1;
    let mut x: u64 = b;
    while x >= 0x20_0000_0000_0000
        invariant
            unit >= 1,
            unit < 4096,
            x as nat == b as nat / unit as nat,
            f64_unit(b as nat) == unit * f64_unit(x as nat),
        decreases x,
    {
        assert(f64_unit(x as nat) == 2 * f64_unit((x / 2) as nat));
        proof {
            vstd::arithmetic::div_mod::lemma_fundamental_div_mod(b as int, unit as int);
            vstd::arithmetic::div_mod::lemma_div_denominator(b as int, unit as int, 2);
        }
        assert(unit < 2048) by (nonlinear_arith)
            requires
                x >= 0x20_0000_0000_0000,
                b as int == unit as int * x as int + (b as int % unit as int),
                b as int % unit as int >= 0,
                b < 0x1_0000_0000_0000_0000,
                unit >= 1,
        ;
        let ghost old_unit = unit;
        let ghost old_x = x;
        unit = unit * 2;
        x = x / 2;
        assert(f64_unit(b as nat) == unit * f64_unit(x as nat)) by (nonlinear_arith)
            requires
                f64_unit(b as nat) == old_unit * f64_unit(old_x as nat),
                f64_unit(old_x as nat) == 2 * f64_unit(x as nat),
                unit == old_unit * 2,
        ;
    }
    assert(f64_unit(x as nat) == 1);
    assert(f64_unit(b as nat) == unit) by (nonlinear_arith)
        requires
            f64_unit(b as nat) == unit * f64_unit(x as nat),
            f64_unit(x as nat) == 1,
    ;
    let u = unit as u128;
    let bb = b as u128;
    assert(bb / u < u128::MAX);
    let q = round_half_even(bb, u);
    assert(q <= bb / u + 1);
    assert(bb / u * u <= bb) by (nonlinear_arith)
        requires
            u > 0,
    ;
    assert(q * u <= bb + u) by (nonlinear_arith)
        requires
            q <= bb / u + 1,
            bb / u * u <= bb,
    ;
    q * u
}

fn push_one_decimal(s: &mut String, t: u64)
    ensures
        final(s)@ == old(s)@ + one_decimal(t as nat),
{
    proof {
        reveal_strlit(".");
    }
    push_decimal(s, t / 10);
    s.append(".");
    push_decimal(s, t % 10);
    assert(final(s)@ =~= old(s)@ + one_decimal(t as nat));
}

/// Formats a byte count for display, e.g. "1.5 KB" or "512 B".
pub fn format_bytes(bytes: u64) -> (res: String)
    ensures
        res@ == bytes_label(bytes as nat),
{
    proof {
        reveal_strlit(" GB");
        reveal_strlit(" MB");
        reveal_strlit(" KB");
        reveal_strlit(" B");
    }
    let mut s = String::new();
    if bytes >= 1024 * 1024 * 1024 {
        let f = f64_integer(bytes);
        proof {
            vstd::arithmetic::div_mod::lemma_div_is_ordered(
                (f * 10) as int,
                0x1_0000_0000_0000_1000int * 10,
                0x4000_0000,
            );
        }
        assert(0x1_0000_0000_0000_1000int * 10 / 0x4000_0000 <= 0x40_0000_0000);
        let t = round_half_even(f * 10, 1024 * 1024 * 1024);
        push_one_decimal(&mut s, t as u64);
        s.append(" GB");
    } else if bytes >= 1024 * 1024 {
        assert(bytes as u128 * 10 / 0x10_0000 <= 0x10_0000) by (nonlinear_arith)
            requires
                bytes < 0x4000_0000,
        ;
        let t = round_half_even(bytes as u128 * 10, 1024 * 1024);
        push_one_decimal(&mut s, t as u64);
        s.append(" MB");
    } else if bytes >= 1024 {
        assert(bytes as u128 * 10 / 0x400 <= 0x10_0000) by (nonlinear_arith)
            requires
                bytes < 0x10_0000,
        ;
        let t = round_half_even(bytes as u128 * 10, 1024);
        push_one_decimal(&mut s, t as u64);
        s.append(" KB");
    } else {
        push_decimal(&mut s, bytes);
        s.append(" B");
    }
    s
}

} // verus!
