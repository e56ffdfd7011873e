//! A byte count as text: plain below 1024 bytes, and above that in units of
//! 1024 bytes, of 1024 times that, or of 1024 times that again, with two
//! places after the point.
//!
//! The number with two places is the one that dividing in double precision
//! and rounding to two places gives. A double holds 53 bits: a count of up to
//! 2^53 is exact in it, a larger one becomes the nearest multiple of a power
//! of two, the even one of two that are equally near. Dividing by a power of
//! 1024 is exact, and rounding to hundredths again takes the nearest, and the
//! even one of two that are equally near. All of it is stated and computed
//! here in integers.

use vstd::prelude::*;

verus! {

/// 1024 bytes.
pub const KIB: u64 = 1024;

/// 1024 times 1024 bytes.
pub const MIB: u64 = 1024 * 1024;

/// 1024 times 1024 times 1024 bytes.
pub const GIB: u64 = 1024 * 1024 * 1024;

/// The first whole number that a double cannot tell from its successor: 2^53.
pub const DOUBLE_EXACT: u64 = 0x20_0000_0000_0000;

/// The character of a digit from 0 to 9.
pub open spec fn digit(d: int) -> char {
    seq!['0', '1', '2', '3', '4', '5', '6', '7', '8', '9'][d]
}

/// The digits of `n` in base ten, without leading zeros.
pub open spec fn decimal(n: nat) -> Seq<char>
    decreases n,
{
    if n < 10 {
        seq![digit(n as int)]
    } else {
        decimal(n / 10).push(digit((n % 10) as int))
    }
}

/// The digits of `n` in base ten, after a minus sign where `n` is negative.
pub open spec fn signed_decimal(n: int) -> Seq<char> {
    if n < 0 {
        seq!['-'] + decimal((-n) as nat)
    } else {
        decimal(n as nat)
    }
}

/// The whole number nearest to `num / den`, and the even one of two that are
/// equally near.
pub open spec fn round_half_even(num: nat, den: nat) -> nat
    recommends
        den > 0,
{
    let q = num / den;
    let r = num % den;
    if 2 * r < den || (2 * r == den && q % 2 == 0) {
        q
    } else {
        q + 1
    }
}

/// The distance between neighbouring doubles at `n`: 1 below 2^53, and twice
/// as much each time `n` doubles from there.
pub open spec fn spacing(n: nat) -> nat
    decreases n,
{
    if n < DOUBLE_EXACT {
        1
    } else {
        2 * spacing(n / 2)
    }
}

/// The whole number that a double holds for `n`.
pub open spec fn nearest_double(n: nat) -> nat {
    round_half_even(n, spacing(n)) * spacing(n)
}

/// The hundredths of `unit` in `size`, as dividing in double precision and
/// rounding to two places gives them.
pub open spec fn hundredths(size: nat, unit: nat) -> nat {
    round_half_even(100 * nearest_double(size), unit)
}

/// `size` in units of `unit` with two places after the point.
pub open spec fn two_places(size: nat, unit: nat) -> Seq<char> {
    let h = hundredths(size, unit);
    decimal(h / 100) + seq!['.', digit((h / 10 % 10) as int), digit((h % 10) as int)]
}

/// The text for a count of `size` bytes.
pub open spec fn size_text(size: int) -> Seq<char> {
    if size < KIB {
        signed_decimal(size) + " bytes"@
    } else if size < MIB {
        two_places(size as nat, KIB as nat) + " KB"@
    } else if size < GIB {
        two_places(size as nat, MIB as nat) + " MB"@
    } else {
        two_places(size as nat, GIB as nat) + " GB"@
    }
}

/// The digit `d` as a string.
fn digit_str(d: u64) -> (s: &'static str)
    requires
        d < 10,
    ensures
        s@ == seq![digit(d as int)],
{
    proof {
        reveal_strlit("0");
        reveal_strlit("1");
        reveal_strlit("2");
        reveal_strlit("3");
        reveal_strlit("4");
        reveal_strlit("5");
        reveal_strlit("6");
        reveal_strlit("7");
        reveal_strlit("8");
        reveal_strlit("9");
    }
    let s = if d == 0 {
        "0"
    } else if d == 1 {
        "1"
    } else if d == 2 {
        "2"
    } else if d == 3 {
        "3"
    } else if d == 4 {
        "4"
    } else if d == 5 {
        "5"
    } else if d == 6 {
        "6"
    } else if d == 7 {
        "7"
    } else if d == 8 {
        "8"
    } else {
        "9"
    };
    assert(s@ =~= seq![digit(d as int)]);
    s
}

/// Appends the digits of `n` to `text`.
fn push_decimal(text: &mut String, n: u64)
    ensures
        final(text)@ == old(text)@ + decimal(n as nat),
    decreases n,
{
    if n >= 10 {
        push_decimal(text, n / 10);
    }
    text.append(digit_str(n % 10));
    proof {
        if n >= 10 {
            assert(text@ =~= old(text)@ + decimal((n / 10) as nat).push(digit((n % 10) as int)));
        } else {
            assert(text@ =~= old(text)@ + seq![digit(n as int)]);
        }
    }
}

/// The distance between neighbouring doubles at `n`.
fn spacing_of(n: u64) -> (step: u64)
    ensures
        step == spacing(n as nat),
        1 <= step <= 4096,
        n / step < DOUBLE_EXACT,
{
    let mut step: u64 = 1;
    let mut m: u64 = n;
    while m >= DOUBLE_EXACT
        invariant
            1 <= step <= 4096,
            m as int == (n as int) / (step as int),
            step * m <= n,
            spacing(n as nat) == step * spacing(m as nat),
        decreases m,
    {
        proof {
            let (n0, s0, m0) = (n as int, step as int, m as int);
            assert(s0 <= 2047) by (nonlinear_arith)
                requires
                    s0 * m0 <= n0,
                    n0 <= u64::MAX,
                    m0 >= DOUBLE_EXACT,
            ;
            assert(n0 / s0 / 2 == n0 / (s0 * 2)) by (nonlinear_arith)
                requires
                    s0 >= 1,
                    n0 >= 0,
            ;
            assert((s0 * 2) * (m0 / 2) <= s0 * m0) by (nonlinear_arith)
                requires
                    s0 >= 1,
                    m0 >= 0,
            ;
            assert(s0 * (2 * spacing((m0 / 2) as nat)) == (s0 * 2) * spacing((m0 / 2) as nat))
                by (nonlinear_arith);
        }
        m = m / 2;
        step = step * 2;
    }
    assert(spacing(m as nat) == 1);
    assert(step * spacing(m as nat) == step) by (nonlinear_arith)
        requires
            spacing(m as nat) == 1,
    ;
    step
}

/// The total of the file sizes counted so far, after one more file of `len`
/// bytes; `None` where that total is more than an `i64` holds.
pub fn add_file_size(total: i64, len: u64) -> (sum: Option<i64>)
    ensures
        total + len <= i64::MAX ==> sum == Some((total + len) as i64),
        total + len > i64::MAX ==> sum is None,
{
    let wide: i128 = total as i128 + len as i128;
    if wide <= i64::MAX as i128 {
        Some(wide as i64)
    } else {
        None
    }
}

/// The whole number nearest to `num / den`, the even one of two.
fn rounded(num: u128, den: u64) -> (q: u128)
    requires
        den > 0,
        num < u128::MAX,
    ensures
        q == round_half_even(num as nat, den as nat),
{
    let q = num / (den as u128);
    let r = num % (den as u128);
    if 2 * r < den as u128 || (2 * r == den as u128 && q % 2 == 0) {
        q
    } else {
        q + 1
    }
}

/// The whole number that a double holds for `n`.
fn nearest_double_of(n: u64) -> (d: u128)
    ensures
        d == nearest_double(n as nat),
        d <= n + 4096,
{
    let step = spacing_of(n);
    let q = rounded(n as u128, step);
    assert(q * step <= n + step) by (nonlinear_arith)
        requires
            q <= n as int / step as int + 1,
            step >= 1,
            n >= 0,
    ;
    q * (step as u128)
}

/// Appends `size` in units of `unit` with two places after the point.
fn push_two_places(text: &mut String, size: u64, unit: u64)
    requires
        unit >= 1024,
    ensures
        final(text)@ == old(text)@ + two_places(size as nat, unit as nat),
{
    let d = nearest_double_of(size);
    let h = rounded(100 * d, unit);
    assert(h <= 0xffff_ffff_ffff_ffff) by (nonlinear_arith)
        requires
            h <= (100 * d) / (unit as int) + 1,
            d <= 0xffff_ffff_ffff_ffff + 4096,
            unit >= 1024,
    ;
    let h = h as u64;
    push_decimal(text, h / 100);
    text.append(".");
    text.append(digit_str(h / 10 % 10));
    text.append(digit_str(h % 10));
    proof {
        reveal_strlit(".");
        assert(text@ =~= old(text)@ + two_places(size as nat, unit as nat));
    }
}

/// The text for a count of `size` bytes: the count itself and the word
/// `bytes` below 1024, else the count in the largest of the units KB, MB and
/// GB that it reaches, with two places after the point.
pub fn format_size(size: i64) -> (text: String)
    ensures
        text@ == size_text(size as int),
{
    let mut text = String::new();
    if size < 1024 {
        if size < 0 {
            text.append("-");
            push_decimal(&mut text, (-(size as i128)) as u64);
            proof {
                reveal_strlit("-");
                assert(text@ =~= signed_decimal(size as int));
            }
        } else {
            push_decimal(&mut text, size as u64);
            assert(text@ =~= signed_decimal(size as int));
        }
        text.append(" bytes");
    } else if size < 1024 * 1024 {
        push_two_places(&mut text, size as u64, KIB);
        text.append(" KB");
        assert(text@ =~= two_places(size as nat, KIB as nat) + " KB"@);
    } else if size < 1024 * 1024 * 1024 {
        push_two_places(&mut text, size as u64, MIB);
        text.append(" MB");
        assert(text@ =~= two_places(size as nat, MIB as nat) + " MB"@);
    } else {
        push_two_places(&mut text, size as u64, GIB);
        text.append(" GB");
        assert(text@ =~= two_places(size as nat, GIB as nat) + " GB"@);
    }
    text
}

} // verus!
