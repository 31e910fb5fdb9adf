//! Rendering of numbers as text: decimal numerals, hexadecimal bytes and
//! opacities with three decimals.

use vstd::prelude::*;

verus! {

/// `String::push` appends the one character to the end of the string.
pub assume_specification[ String::push ](s: &mut String, c: char)
    ensures
        final(s)@ == old(s)@.push(c),
;

/// The character that stands for a digit below sixteen: `0` to `9`, then `A` to `F`.
pub open spec fn digit_char(d: int) -> char {
    if d < 10 {
        (48 + d) as char
    } else {
        (55 + d) as char
    }
}

/// The digit that a character `0` to `9` stands for.
pub open spec fn digit_value(c: char) -> int {
    c as int - 48
}

/// The decimal numeral of `n`: most significant digit first, no leading zero,
/// and the single digit `0` for zero.
pub open spec fn decimal(n: nat) -> Seq<char>
    decreases n,
{
    if n < 10 {
        seq![digit_char(n as int)]
    } else {
        decimal(n / 10).push(digit_char((n % 10) as int))
    }
}

/// A byte as two upper-case hexadecimal digits.
pub open spec fn hex_byte(b: u8) -> Seq<char> {
    seq![digit_char(b as int / 16), digit_char(b as int % 16)]
}

/// The number of thousandths nearest to `alpha / 255`.
pub open spec fn opacity_millis(alpha: u8) -> nat {
    ((2000 * alpha + 255) / 510) as nat
}

/// `alpha / 255` written with exactly three decimals: one digit, a point,
/// three digits.
pub open spec fn opacity_text(alpha: u8) -> Seq<char> {
    let m = opacity_millis(alpha) as int;
    seq![
        digit_char(m / 1000),
        '.',
        digit_char(m / 100 % 10),
        digit_char(m / 10 % 10),
        digit_char(m % 10),
    ]
}

/// Of all counts of thousandths, `opacity_millis(alpha)` is the one nearest to
/// `alpha / 255`: it is off by less than half a thousandth, and never by
/// exactly half, so rounding has no tie to break.
pub proof fn lemma_opacity_millis_nearest(alpha: u8)
    ensures
        opacity_millis(alpha) <= 1000,
        -255 < 2 * (255 * opacity_millis(alpha) - 1000 * alpha) < 255,
        opacity_millis(alpha) == 1000 <==> alpha == 255,
        opacity_millis(alpha) == 0 <==> alpha == 0,
{
}

/// Every other count of thousandths lies farther from `alpha / 255`.
pub proof fn lemma_opacity_millis_unique(alpha: u8, m: int)
    requires
        -255 <= 2 * (255 * m - 1000 * alpha) <= 255,
    ensures
        m == opacity_millis(alpha),
{
}

/// The digit that `digit_char` writes stands for the number it was given.
pub proof fn lemma_digit_value(d: int)
    requires
        0 <= d < 10,
    ensures
        digit_value(digit_char(d)) == d,
{
}

/// A number up to 1000 is made of its thousands, hundreds, tens and units.
proof fn lemma_four_digits(m: int)
    requires
        0 <= m <= 1000,
    ensures
        0 <= m / 1000 < 10,
        m == 1000 * (m / 1000) + 100 * (m / 100 % 10) + 10 * (m / 10 % 10) + m % 10,
{
}

/// The text of an opacity has one digit before the point and three after it,
/// and the four digits spell the thousandths nearest to `alpha / 255`.
pub proof fn lemma_opacity_text_value(alpha: u8)
    ensures
        opacity_text(alpha).len() == 5,
        opacity_text(alpha)[1] == '.',
        opacity_millis(alpha) == 1000 * digit_value(opacity_text(alpha)[0]) + 100 * digit_value(
            opacity_text(alpha)[2],
        ) + 10 * digit_value(opacity_text(alpha)[3]) + digit_value(opacity_text(alpha)[4]),
{
    let m = opacity_millis(alpha) as int;
    let text = opacity_text(alpha);
    lemma_four_digits(m);
    lemma_digit_value(m / 1000);
    lemma_digit_value(m / 100 % 10);
    lemma_digit_value(m / 10 % 10);
    lemma_digit_value(m % 10);
    assert(text[0] == digit_char(m / 1000));
    assert(text[2] == digit_char(m / 100 % 10));
    assert(text[3] == digit_char(m / 10 % 10));
    assert(text[4] == digit_char(m % 10));
}

/// The character of one digit.
pub fn digit(d: u8) -> (c: char)
    requires
        d < 16,
    ensures
        c == digit_char(d as int),
{
    if d < 10 {
        (48 + d) as char
    } else {
        (55 + d) as char
    }
}

/// Appends the decimal numeral of `n`.
pub fn push_decimal(out: &mut String, n: u64)
    ensures
        final(out)@ == old(out)@ + decimal(n as nat),
    decreases n,
{
    if n >= 10 {
        push_decimal(out, n / 10);
    }
    out.push(digit((n % 10) as u8));
    assert(out@ =~= old(out)@ + decimal(n as nat));
}

/// Appends a byte as two upper-case hexadecimal digits.
pub fn push_hex_byte(out: &mut String, b: u8)
    ensures
        final(out)@ == old(out)@ + hex_byte(b),
{
    out.push(digit(b / 16));
    out.push(digit(b % 16));
    assert(out@ =~= old(out)@ + hex_byte(b));
}

/// Appends `alpha / 255` with exactly three decimals.
pub fn push_opacity(out: &mut String, alpha: u8)
    ensures
        final(out)@ == old(out)@ + opacity_text(alpha),
{
    let m: u32 = (2000 * (alpha as u32) + 255) / 510;
    out.push(digit((m / 1000) as u8));
    out.push('.');
    out.push(digit((m / 100 % 10) as u8));
    out.push(digit((m / 10 % 10) as u8));
    out.push(digit((m % 10) as u8));
    assert(out@ =~= old(out)@ + opacity_text(alpha));
}

} // verus!
