//! Numbers as text: decimal and hexadecimal digits, and fixed-point
//! fractions, as the report and the status lines show them.

use vstd::prelude::*;
use vstd::string::StringExecFns;
use vstd::arithmetic::div_mod::{lemma_fundamental_div_mod, lemma_mod_bound};

verus! {

/// The character of the digit `d`, in lower case from ten on.
pub open spec fn digit_char(d: nat) -> char
    recommends
        d < 16,
{
    if d == 0 {
        '0'
    } else if d == 1 {
        '1'
    } else if d == 2 {
        '2'
    } else if d == 3 {
        '3'
    } else if d == 4 {
        '4'
    } else if d == 5 {
        '5'
    } else if d == 6 {
        '6'
    } else if d == 7 {
        '7'
    } else if d == 8 {
        '8'
    } else if d == 9 {
        '9'
    } else if d == 10 {
        'a'
    } else if d == 11 {
        'b'
    } else if d == 12 {
        'c'
    } else if d == 13 {
        'd'
    } else if d == 14 {
        'e'
    } else {
        'f'
    }
}

/// `n` in decimal, without leading zeros.
pub open spec fn dec_text(n: nat) -> Seq<char>
    decreases n,
{
    if n < 10 {
        seq![digit_char(n)]
    } else {
        dec_text(n / 10).push(digit_char(n % 10))
    }
}

/// The number that a decimal digit stands for.
pub open spec fn digit_value(c: char) -> nat {
    if c == '1' {
        1
    } else if c == '2' {
        2
    } else if c == '3' {
        3
    } else if c == '4' {
        4
    } else if c == '5' {
        5
    } else if c == '6' {
        6
    } else if c == '7' {
        7
    } else if c == '8' {
        8
    } else if c == '9' {
        9
    } else {
        0
    }
}

/// The number that a text of decimal digits stands for.
pub open spec fn dec_value(text: Seq<char>) -> nat
    decreases text.len(),
{
    if text.len() == 0 {
        0
    } else {
        dec_value(text.drop_last()) * 10 + digit_value(text.last())
    }
}

/// The decimal text of a number reads back as the number. It has at least
/// one digit, and no leading zero unless the number is zero.
pub proof fn law_dec_text_reads_back(n: nat)
    ensures
        dec_value(dec_text(n)) == n,
        dec_text(n).len() >= 1,
        dec_text(n)[0] == '0' <==> n == 0,
        forall|i: int| 0 <= i < dec_text(n).len() ==> digit_char(digit_value(dec_text(n)[i]))
            == dec_text(n)[i],
    decreases n,
{
    if n < 10 {
        assert(dec_text(n).drop_last().len() == 0);
        assert(dec_value(dec_text(n).drop_last()) == 0);
    } else {
        law_dec_text_reads_back(n / 10);
        assert(dec_text(n).drop_last() == dec_text(n / 10));
        assert(dec_text(n)[0] == dec_text(n / 10)[0]);
    }
}

/// The `i`-th hexadecimal digit of `d`, counted from the most significant
/// of its sixteen: four bits of the number.
pub open spec fn hex_digit(d: u64, i: nat) -> nat
    recommends
        i < 16,
{
    ((d >> ((60 - 4 * i) as u64)) & 0xf) as nat
}

/// `d` as sixteen hexadecimal digits in lower case, padded with zeros.
pub open spec fn hex16_text(d: u64) -> Seq<char> {
    Seq::new(16, |i: int| digit_char(hex_digit(d, i as nat)))
}

/// `n` as three decimal digits, padded with zeros.
pub open spec fn pad3_text(n: nat) -> Seq<char>
    recommends
        n < 1000,
{
    seq![digit_char(n / 100), digit_char((n / 10) % 10), digit_char(n % 10)]
}

/// `thousandths / 1000` with three decimal places.
pub open spec fn fixed3_text(thousandths: nat) -> Seq<char> {
    dec_text(thousandths / 1000) + seq!['.'] + pad3_text(thousandths % 1000)
}

/// `tenths / 10` with one decimal place.
pub open spec fn fixed1_text(tenths: nat) -> Seq<char> {
    dec_text(tenths / 10) + seq!['.', digit_char(tenths % 10)]
}

/// `numerator / denominator` rounded to the nearest whole number, halves
/// rounded up.
pub open spec fn div_round(numerator: nat, denominator: nat) -> nat
    recommends
        denominator > 0,
{
    (2 * numerator + denominator) / (2 * denominator)
}

/// The rounded quotient is the whole number nearest to the quotient: it is
/// off by at most a half, and by a half only upwards.
pub proof fn law_div_round_is_nearest(numerator: nat, denominator: nat)
    requires
        denominator > 0,
    ensures
        2 * numerator - denominator < 2 * denominator * div_round(numerator, denominator),
        2 * denominator * div_round(numerator, denominator) <= 2 * numerator + denominator,
{
    let x = (2 * numerator + denominator) as int;
    let d = (2 * denominator) as int;
    lemma_fundamental_div_mod(x, d);
    lemma_mod_bound(x, d);
    assert(d * (x / d) == 2 * denominator * div_round(numerator, denominator)) by (nonlinear_arith)
        requires
            d == 2 * denominator,
            x / d == div_round(numerator, denominator),
    ;
}

/// The digit `d` as a string of one character.
pub fn digit_str(d: u8) -> (s: &'static str)
    requires
        d < 16,
    ensures
        s@ == seq![digit_char(d as nat)],
{
    proof {
        reveal_strlit("0");
        reveal_strlit("1");
        reveal_strlit("2");
        reveal_strlit("3");
        reveal_strlit("4");
        reveal_strlit("5");
        reveal_strlit("6");
        reveal_strlit("7");
        reveal_strlit("8");
        reveal_strlit("9");
        reveal_strlit("a");
        reveal_strlit("b");
        reveal_strlit("c");
        reveal_strlit("d");
        reveal_strlit("e");
        reveal_strlit("f");
    }
    let s = match d {
        0 => "0",
        1 => "1",
        2 => "2",
        3 => "3",
        4 => "4",
        5 => "5",
        6 => "6",
        7 => "7",
        8 => "8",
        9 => "9",
        10 => "a",
        11 => "b",
        12 => "c",
        13 => "d",
        14 => "e",
        _ => "f",
    };
    s
}

/// Appends `n` in decimal.
pub fn push_dec(out: &mut String, n: u128)
    ensures
        final(out)@ == old(out)@ + dec_text(n as nat),
    decreases n,
{
    if n >= 10 {
        push_dec(out, n / 10);
    }
    out.append(digit_str((n % 10) as u8));
}

/// Appends `d` as sixteen hexadecimal digits in lower case.
pub fn push_hex16(out: &mut String, d: u64)
    ensures
        final(out)@ == old(out)@ + hex16_text(d),
{
    let mut i: u32 = 0;
    while i < 16
        invariant
            i <= 16,
            out@ == old(out)@ + hex16_text(d).take(i as int),
        decreases 16 - i,
    {
        let shift: u32 = 60 - 4 * i;
        let nibble: u64 = (d >> shift) & 0xf;
        proof {
            lemma_nibble(d, i);
            assert(hex16_text(d).take(i + 1) == hex16_text(d).take(i as int).push(
                hex16_text(d)[i as int],
            ));
        }
        out.append(digit_str(nibble as u8));
        i = i + 1;
    }
}

/// A hexadecimal digit is less than sixteen.
proof fn lemma_nibble(d: u64, i: u32)
    requires
        i < 16,
    ensures
        (d >> ((60 - 4 * i) as u32)) & 0xf == hex_digit(d, i as nat),
        hex_digit(d, i as nat) < 16,
{
    let shift: u64 = (60 - 4 * i) as u64;
    let shift32: u32 = (60 - 4 * i) as u32;
    assert((d >> shift) & 0xf < 16) by (bit_vector);
    assert(shift == shift32 ==> (d >> shift) == (d >> shift32)) by (bit_vector);
}

/// The sixteen hexadecimal digits of a number, put side by side, are the
/// number.
pub proof fn law_hex_digits_make_number(d: u64)
    ensures
        d == (((d >> 60u64) & 0xf) << 60u64) | (((d >> 56u64) & 0xf) << 56u64) | (((d >> 52u64)
            & 0xf) << 52u64) | (((d >> 48u64) & 0xf) << 48u64) | (((d >> 44u64) & 0xf) << 44u64)
            | (((d >> 40u64) & 0xf) << 40u64) | (((d >> 36u64) & 0xf) << 36u64) | (((d >> 32u64)
            & 0xf) << 32u64) | (((d >> 28u64) & 0xf) << 28u64) | (((d >> 24u64) & 0xf) << 24u64)
            | (((d >> 20u64) & 0xf) << 20u64) | (((d >> 16u64) & 0xf) << 16u64) | (((d >> 12u64)
            & 0xf) << 12u64) | (((d >> 8u64) & 0xf) << 8u64) | (((d >> 4u64) & 0xf) << 4u64) | ((d
            >> 0u64) & 0xf),
{
    assert(d == (((d >> 60u64) & 0xf) << 60u64) | (((d >> 56u64) & 0xf) << 56u64) | (((d >> 52u64)
        & 0xf) << 52u64) | (((d >> 48u64) & 0xf) << 48u64) | (((d >> 44u64) & 0xf) << 44u64) | (((d
        >> 40u64) & 0xf) << 40u64) | (((d >> 36u64) & 0xf) << 36u64) | (((d >> 32u64) & 0xf)
        << 32u64) | (((d >> 28u64) & 0xf) << 28u64) | (((d >> 24u64) & 0xf) << 24u64) | (((d
        >> 20u64) & 0xf) << 20u64) | (((d >> 16u64) & 0xf) << 16u64) | (((d >> 12u64) & 0xf)
        << 12u64) | (((d >> 8u64) & 0xf) << 8u64) | (((d >> 4u64) & 0xf) << 4u64) | ((d >> 0u64)
        & 0xf)) by (bit_vector);
}

/// Appends `n` as three decimal digits, padded with zeros.
pub fn push_pad3(out: &mut String, n: u16)
    requires
        n < 1000,
    ensures
        final(out)@ == old(out)@ + pad3_text(n as nat),
{
    out.append(digit_str((n / 100) as u8));
    out.append(digit_str(((n / 10) % 10) as u8));
    out.append(digit_str((n % 10) as u8));
}

/// Appends `thousandths / 1000` with three decimal places.
pub fn push_fixed3(out: &mut String, thousandths: u128)
    ensures
        final(out)@ == old(out)@ + fixed3_text(thousandths as nat),
{
    proof {
        reveal_strlit(".");
    }
    push_dec(out, thousandths / 1000);
    out.append(".");
    push_pad3(out, (thousandths % 1000) as u16);
}

/// Appends `tenths / 10` with one decimal place.
pub fn push_fixed1(out: &mut String, tenths: u128)
    ensures
        final(out)@ == old(out)@ + fixed1_text(tenths as nat),
{
    proof {
        reveal_strlit(".");
    }
    push_dec(out, tenths / 10);
    out.append(".");
    out.append(digit_str((tenths % 10) as u8));
}

} // verus!
