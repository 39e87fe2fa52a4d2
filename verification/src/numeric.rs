//! Numbers written as digit strings: their values, decoding with overflow
//! detection, and rendering.

use vstd::prelude::*;
use crate::chars::{all_of, is_dec_digit, is_hex_digit, is_token, CharClass};

verus! {

/// The value of one digit: `0`..`9` for decimal digits, `10`..`15` for the
/// letters `a`..`f`, and `0` for any other character.
pub open spec fn digit_value(c: char) -> nat {
    if '0' <= c && c <= '9' {
        (c as int - '0' as int) as nat
    } else if 'a' <= c && c <= 'f' {
        (c as int - 'a' as int + 10) as nat
    } else {
        0
    }
}

/// The number that `digits` denotes in positional notation with the given
/// radix, most significant digit first.
pub open spec fn number_value(digits: Seq<char>, radix: nat) -> nat
    decreases digits.len(),
{
    if digits.len() == 0 {
        0
    } else {
        number_value(digits.drop_last(), radix) * radix + digit_value(digits.last())
    }
}

/// The value of a hexadecimal token.
pub open spec fn hex_value(digits: Seq<char>) -> nat {
    number_value(digits, 16)
}

/// The value of a decimal token.
pub open spec fn dec_value(digits: Seq<char>) -> nat {
    number_value(digits, 10)
}

/// The value of a prefix never exceeds the value of the whole token.
pub proof fn lemma_prefix_value(digits: Seq<char>, n: int, radix: nat)
    requires
        0 <= n <= digits.len(),
        radix >= 1,
    ensures
        number_value(digits.take(n), radix) <= number_value(digits, radix),
    decreases digits.len(),
{
    if n == digits.len() {
        assert(digits.take(n) == digits);
    } else {
        let shorter = digits.drop_last();
        assert(digits.take(n) == shorter.take(n));
        lemma_prefix_value(shorter, n, radix);
        assert(number_value(shorter, radix) * radix >= number_value(shorter, radix))
            by (nonlinear_arith)
            requires
                radix >= 1,
        ;
    }
}

/// The value of the digit `c`.
pub fn digit_of(c: char) -> (d: u64)
    ensures
        d == digit_value(c),
        d < 16,
{
    if '0' <= c && c <= '9' {
        (c as u32 - '0' as u32) as u64
    } else if 'a' <= c && c <= 'f' {
        (c as u32 - 'a' as u32 + 10) as u64
    } else {
        0
    }
}

/// What a hexadecimal token decodes to: its value, where the token is one
/// or more lowercase hexadecimal digits and the value fits in 64 bits.
pub open spec fn hex_decoded(token: Seq<char>) -> Option<u64> {
    if is_token(token, CharClass::Hex) && hex_value(token) <= u64::MAX {
        Some(hex_value(token) as u64)
    } else {
        None
    }
}

/// What a decimal token decodes to: its value, where the token is one or
/// more decimal digits and the value fits in 64 bits.
pub open spec fn dec_decoded(token: Seq<char>) -> Option<u64> {
    if is_token(token, CharClass::Dec) && dec_value(token) <= u64::MAX {
        Some(dec_value(token) as u64)
    } else {
        None
    }
}

/// Decodes `token` as digits of `class` in the given radix. Gives `None`
/// where the token is empty, holds a character outside the class, or
/// denotes a value that does not fit in 64 bits.
fn decode_number(token: &[char], class: CharClass, radix: u64) -> (r: Option<u64>)
    requires
        1 <= radix <= 16,
    ensures
        r == (if is_token(token@, class) && number_value(token@, radix as nat) <= u64::MAX {
            Some(number_value(token@, radix as nat) as u64)
        } else {
            None
        }),
{
    if token.len() == 0 {
        return None;
    }
    let mut acc: u64 = 0;
    let mut i: usize = 0;
    while i < token.len()
        invariant
            i <= token.len(),
            1 <= radix <= 16,
            all_of(token@.take(i as int), class),
            acc == number_value(token@.take(i as int), radix as nat),
        decreases token.len() - i,
    {
        if !class.contains(token[i]) {
            return None;
        }
        let d = digit_of(token[i]);
        proof {
            let next = token@.take(i + 1);
            assert(next.drop_last() == token@.take(i as int));
            assert(next.last() == token@[i as int]);
            assert forall|k: int| 0 <= k < next.len() implies class.holds(#[trigger] next[k]) by {
                if k < i {
                    assert(next[k] == token@.take(i as int)[k]);
                }
            }
            lemma_prefix_value(token@, i + 1, radix as nat);
        }
        let scaled = match acc.checked_mul(radix) {
            Some(x) => x,
            None => {
                return None;
            },
        };
        acc = match scaled.checked_add(d) {
            Some(x) => x,
            None => {
                return None;
            },
        };
        i = i + 1;
    }
    assert(token@.take(i as int) == token@);
    Some(acc)
}

/// Decodes a hexadecimal token. Gives its value where the token is one or
/// more lowercase hexadecimal digits that denote a number of 64 bits, and
/// `None` for any other token.
pub fn decode_hex(token: &[char]) -> (r: Option<u64>)
    ensures
        r == hex_decoded(token@),
{
    decode_number(token, CharClass::Hex, 16)
}

/// Decodes a decimal token. Gives its value where the token is one or more
/// decimal digits that denote a number of 64 bits, and `None` for any other
/// token.
pub fn decode_dec(token: &[char]) -> (r: Option<u64>)
    ensures
        r == dec_decoded(token@),
{
    decode_number(token, CharClass::Dec, 10)
}

/// The lowercase hexadecimal digit of value `d`.
pub open spec fn digit_char(d: nat) -> char {
    if d < 10 {
        ('0' as int + d) as char
    } else {
        ('a' as int + d - 10) as char
    }
}

/// `v` written in the given radix with the digits `0`..`9` and `a`..`f`,
/// most significant digit first and without leading zeros (`0` is `"0"`).
pub open spec fn number_text(v: nat, radix: nat) -> Seq<char>
    decreases v,
    when radix >= 2
    via number_text_decreases
{
    if v < radix {
        seq![digit_char(v)]
    } else {
        number_text(v / radix, radix).push(digit_char(v % radix))
    }
}

#[via_fn]
proof fn number_text_decreases(v: nat, radix: nat) {
    if v >= radix {
        assert(v / radix < v) by (nonlinear_arith)
            requires
                v >= radix,
                radix >= 2,
        ;
    }
}

/// `v` in lowercase hexadecimal, without leading zeros.
pub open spec fn hex_text(v: nat) -> Seq<char> {
    number_text(v, 16)
}

/// `v` in decimal, without leading zeros.
pub open spec fn dec_text(v: nat) -> Seq<char> {
    number_text(v, 10)
}

/// `v` in lowercase hexadecimal, padded with one zero where it has a single
/// digit.
pub open spec fn hex_text_padded(v: nat) -> Seq<char> {
    if v < 16 {
        seq!['0', digit_char(v)]
    } else {
        hex_text(v)
    }
}

/// Writing a number in a radix gives one or more digits of that radix, and
/// they denote the number.
pub proof fn lemma_number_text_value(v: nat, radix: nat)
    requires
        2 <= radix <= 16,
    ensures
        number_text(v, radix).len() >= 1,
        forall|i: int|
            0 <= i < number_text(v, radix).len() ==> is_hex_digit(
                #[trigger] number_text(v, radix)[i],
            ) && digit_value(number_text(v, radix)[i]) < radix,
        number_value(number_text(v, radix), radix) == v,
    decreases v,
{
    let t = number_text(v, radix);
    let head = number_value(t.drop_last(), radix);
    if v < radix {
        assert(t.drop_last().len() == 0);
        assert(t.last() == digit_char(v));
        assert(head * radix == 0) by (nonlinear_arith)
            requires
                head == 0,
        ;
    } else {
        assert(v / radix < v && v == (v / radix) * radix + v % radix && v % radix < radix)
            by (nonlinear_arith)
            requires
                v >= radix,
                radix >= 2,
        ;
        lemma_number_text_value(v / radix, radix);
        assert(t.drop_last() == number_text(v / radix, radix));
        assert(t.last() == digit_char(v % radix));
    }
}

/// Rendering a number in hexadecimal gives a token of hexadecimal digits
/// that decodes to the same number.
pub proof fn lemma_hex_text_value(v: nat)
    ensures
        hex_text(v).len() >= 1,
        forall|i: int| 0 <= i < hex_text(v).len() ==> is_hex_digit(#[trigger] hex_text(v)[i]),
        hex_value(hex_text(v)) == v,
{
    lemma_number_text_value(v, 16);
}

/// Rendering a number in decimal gives a token of decimal digits that
/// decodes to the same number.
pub proof fn lemma_dec_text_value(v: nat)
    ensures
        dec_text(v).len() >= 1,
        forall|i: int| 0 <= i < dec_text(v).len() ==> is_dec_digit(#[trigger] dec_text(v)[i]),
        dec_value(dec_text(v)) == v,
{
    lemma_number_text_value(v, 10);
    assert forall|i: int| 0 <= i < dec_text(v).len() implies is_dec_digit(
        #[trigger] dec_text(v)[i],
    ) by {
        let c = dec_text(v)[i];
        assert(is_hex_digit(c) && digit_value(c) < 10);
    }
}

/// The padded rendering is a token of hexadecimal digits with the same
/// value; the padding zero does not change it.
pub proof fn lemma_hex_text_padded_value(v: nat)
    ensures
        hex_text_padded(v).len() >= 2,
        forall|i: int|
            0 <= i < hex_text_padded(v).len() ==> is_hex_digit(#[trigger] hex_text_padded(v)[i]),
        hex_value(hex_text_padded(v)) == v,
{
    lemma_hex_text_value(v);
    if v < 16 {
        let t = hex_text_padded(v);
        let head = t.drop_last();
        assert(head.drop_last().len() == 0);
        assert(number_value(head.drop_last(), 16) == 0);
        assert(head.last() == '0');
        assert(number_value(head, 16) == 0);
        assert(t.last() == digit_char(v));
    } else {
        lemma_hex_text_value(v / 16);
    }
}

/// The character of the digit `d`.
fn char_of_digit(d: u64) -> (c: char)
    requires
        d < 16,
    ensures
        c == digit_char(d as nat),
{
    if d < 10 {
        (0x30u8 + d as u8) as char
    } else {
        (0x61u8 + (d - 10) as u8) as char
    }
}

/// Appends `v`, written in the given radix without leading zeros, to `out`.
fn push_number(out: &mut String, v: u64, radix: u64)
    requires
        2 <= radix <= 16,
    ensures
        final(out)@ == old(out)@ + number_text(v as nat, radix as nat),
    decreases v,
{
    if v >= radix {
        assert(v / radix < v) by (nonlinear_arith)
            requires
                v >= radix,
                radix >= 2,
        ;
        push_number(out, v / radix, radix);
    } else {
        assert(v % radix == v) by (nonlinear_arith)
            requires
                v < radix,
        ;
    }
    assert(v % radix < radix) by (nonlinear_arith)
        requires
            radix >= 2,
    ;
    out.push(char_of_digit(v % radix));
    assert(out@ == old(out)@ + number_text(v as nat, radix as nat));
}

/// Appends `v` in lowercase hexadecimal, without leading zeros, to `out`.
pub fn push_hex(out: &mut String, v: u64)
    ensures
        final(out)@ == old(out)@ + hex_text(v as nat),
{
    push_number(out, v, 16)
}

/// Appends `v` in decimal, without leading zeros, to `out`.
pub fn push_dec(out: &mut String, v: u64)
    ensures
        final(out)@ == old(out)@ + dec_text(v as nat),
{
    push_number(out, v, 10)
}

} // verus!
