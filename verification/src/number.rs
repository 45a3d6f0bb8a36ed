//! Numbers as text: reading hexadecimal and decimal digits, and writing
//! them.

use vstd::prelude::*;
use crate::text::push_char;

verus! {

/// The value of a digit in a radix of at most sixteen; letters count in
/// either case. `None` for any other character.
pub open spec fn digit_value(c: char, radix: nat) -> Option<nat> {
    let v: nat = if '0' <= c <= '9' {
        (c as u32 - '0' as u32) as nat
    } else if 'a' <= c <= 'f' {
        (c as u32 - 'a' as u32 + 10) as nat
    } else if 'A' <= c <= 'F' {
        (c as u32 - 'A' as u32 + 10) as nat
    } else {
        16
    };
    if v < radix {
        Some(v)
    } else {
        None
    }
}

/// Whether a text is made of digits of the radix only.
pub open spec fn all_digits(text: Seq<char>, radix: nat) -> bool {
    forall|i: int| 0 <= i < text.len() ==> (#[trigger] digit_value(text[i], radix)) is Some
}

/// The number that the digits of a text spell in a radix, the first digit
/// weighing most. A character that is no digit counts as zero.
pub open spec fn digits_value(text: Seq<char>, radix: nat) -> nat
    decreases text.len(),
{
    if text.len() == 0 {
        0
    } else {
        digits_value(text.drop_last(), radix) * radix + match digit_value(text.last(), radix) {
            Some(v) => v,
            None => 0,
        }
    }
}

/// What a text reads as in a radix: the number its digits spell, where it
/// is made of one or more digits and the number fits in 64 bits, and zero
/// otherwise.
pub open spec fn number_or_zero(text: Seq<char>, radix: nat) -> u64 {
    if text.len() > 0 && all_digits(text, radix) && digits_value(text, radix) <= u64::MAX {
        digits_value(text, radix) as u64
    } else {
        0
    }
}

/// What an address or size reads as when it is written with the prefix
/// `0x`: the hexadecimal number after the prefix, and zero where the
/// prefix is missing.
pub open spec fn prefixed_hex_or_zero(text: Seq<char>) -> u64 {
    if text.len() >= 2 && text[0] == '0' && text[1] == 'x' {
        number_or_zero(text.skip(2), 16)
    } else {
        0
    }
}

/// What a size reads as: hexadecimal after the prefix `0x`, decimal
/// without it.
pub open spec fn size_or_zero(text: Seq<char>) -> u64 {
    if text.len() >= 2 && text[0] == '0' && text[1] == 'x' {
        number_or_zero(text.skip(2), 16)
    } else {
        number_or_zero(text, 10)
    }
}

/// The number that a longer text spells is no smaller than what a prefix
/// of it spells.
proof fn lemma_value_grows(text: Seq<char>, radix: nat, k: int)
    requires
        0 <= k <= text.len(),
        radix >= 1,
    ensures
        digits_value(text.take(k), radix) <= digits_value(text, radix),
    decreases text.len() - k,
{
    if k < text.len() {
        lemma_value_grows(text, radix, k + 1);
        assert(text.take(k + 1).drop_last() =~= text.take(k));
        let v = digits_value(text.take(k), radix);
        assert(v <= v * radix) by (nonlinear_arith)
            requires
                radix >= 1,
                v >= 0,
        ;
    } else {
        assert(text.take(k) =~= text);
    }
}

/// The value of one character as a digit of the radix.
fn digit_of(c: char, radix: u64) -> (value: Option<u64>)
    requires
        radix <= 16,
    ensures
        match digit_value(c, radix as nat) {
            Some(v) => value == Some(v as u64),
            None => value is None,
        },
{
    let code: u32 = c as u32;
    let v: u64 = if '0' as u32 <= code && code <= '9' as u32 {
        (code - '0' as u32) as u64
    } else if 'a' as u32 <= code && code <= 'f' as u32 {
        (code - 'a' as u32 + 10) as u64
    } else if 'A' as u32 <= code && code <= 'F' as u32 {
        (code - 'A' as u32 + 10) as u64
    } else {
        16
    };
    if v < radix {
        Some(v)
    } else {
        None
    }
}

/// Reads what follows the first `skip` characters of a text as a number in
/// the radix.
fn parse_digits(text: &str, skip: usize, radix: u64) -> (value: u64)
    requires
        1 <= radix <= 16,
        skip <= text@.len(),
    ensures
        value == number_or_zero(text@.skip(skip as int), radix as nat),
{
    let ghost digits = text@.skip(skip as int);
    let mut value: u64 = 0;
    let mut to_skip: usize = skip;
    for c in it: text.chars()
        invariant
            it.seq() == text@,
            digits == text@.skip(skip as int),
            1 <= radix <= 16,
            skip <= text@.len(),
            to_skip == if it.index() <= skip { skip - it.index() } else { 0 },
            it.index() >= skip ==> all_digits(digits.take(it.index() - skip), radix as nat),
            it.index() >= skip ==> value == digits_value(
                digits.take(it.index() - skip),
                radix as nat,
            ),
            it.index() < skip ==> value == 0,
    {
        if to_skip > 0 {
            to_skip = to_skip - 1;
            proof {
                assert(digits.take(0) =~= Seq::<char>::empty());
            }
        } else {
            let ghost count = it.index() - skip;
            proof {
                assert(digits.take(0) =~= Seq::<char>::empty());
                assert(digits.take(count + 1).drop_last() =~= digits.take(count));
                assert(digits.take(count + 1).last() == c);
                lemma_value_grows(digits, radix as nat, count + 1);
            }
            match digit_of(c, radix) {
                Some(d) => {
                    match value.checked_mul(radix) {
                        Some(shifted) => {
                            match shifted.checked_add(d) {
                                Some(sum) => {
                                    value = sum;
                                },
                                None => {
                                    return 0;
                                },
                            }
                        },
                        None => {
                            proof {
                                assert(value * radix <= value * radix + d);
                            }
                            return 0;
                        },
                    }
                },
                None => {
                    proof {
                        assert(digit_value(digits[count], radix as nat) is None);
                    }
                    return 0;
                },
            }
        }
    }
    proof {
        assert(digits.take(text@.len() - skip) =~= digits);
        assert(digits.take(0) =~= Seq::<char>::empty());
    }
    value
}

/// Reads a text of hexadecimal digits, without prefix. Zero where the text
/// is empty, holds another character, or spells more than 64 bits hold.
pub fn parse_hex(text: &str) -> (value: u64)
    ensures
        value == number_or_zero(text@, 16),
{
    proof {
        assert(text@.skip(0) =~= text@);
    }
    parse_digits(text, 0, 16)
}

/// Reads a text of decimal digits. Zero where the text is empty, holds
/// another character, or spells more than 64 bits hold.
pub fn parse_decimal(text: &str) -> (value: u64)
    ensures
        value == number_or_zero(text@, 10),
{
    proof {
        assert(text@.skip(0) =~= text@);
    }
    parse_digits(text, 0, 10)
}

/// Whether a text begins with `0x`.
fn has_hex_prefix(text: &str) -> (prefixed: bool)
    ensures
        prefixed == (text@.len() >= 2 && text@[0] == '0' && text@[1] == 'x'),
{
    let mut chars = text.chars();
    let first = chars.next();
    let second = chars.next();
    first == Some('0') && second == Some('x')
}

/// Reads a hexadecimal number written with the prefix `0x`; zero where the
/// prefix is missing or the digits do not read as a number.
pub fn parse_prefixed_hex(text: &str) -> (value: u64)
    ensures
        value == prefixed_hex_or_zero(text@),
{
    if has_hex_prefix(text) {
        parse_digits(text, 2, 16)
    } else {
        0
    }
}

/// Reads a size: hexadecimal after the prefix `0x`, decimal without it;
/// zero where the digits do not read as a number.
pub fn parse_size(text: &str) -> (value: u64)
    ensures
        value == size_or_zero(text@),
{
    if has_hex_prefix(text) {
        parse_digits(text, 2, 16)
    } else {
        parse_decimal(text)
    }
}

/// The character of a digit: `0` to `9`, then `A` to `F`.
pub open spec fn digit_char(d: nat) -> char {
    if d == 0 {
        '0'
    } else if d == 1 {
        '1'
    } else if d == 2 {
        '2'
    } else if d == 3 {
        '3'
    } else if d == 4 {
        '4'
    } else if d == 5 {
        '5'
    } else if d == 6 {
        '6'
    } else if d == 7 {
        '7'
    } else if d == 8 {
        '8'
    } else if d == 9 {
        '9'
    } else if d == 10 {
        'A'
    } else if d == 11 {
        'B'
    } else if d == 12 {
        'C'
    } else if d == 13 {
        'D'
    } else if d == 14 {
        'E'
    } else {
        'F'
    }
}

/// The digits of a number in a radix, the weightiest first, without
/// leading zeros; zero is the one digit `0`.
pub open spec fn digits_text(n: nat, radix: nat) -> Seq<char>
    decreases n,
    via digits_text_shrinks
{
    if radix < 2 || n < radix {
        seq![digit_char(n)]
    } else {
        digits_text(n / radix, radix).push(digit_char(n % radix))
    }
}

#[via_fn]
proof fn digits_text_shrinks(n: nat, radix: nat) {
    if !(radix < 2 || n < radix) {
        lemma_quotient_smaller(n, radix);
    }
}

/// A number of at least two digits loses one when divided by the radix.
proof fn lemma_quotient_smaller(n: nat, radix: nat)
    requires
        radix >= 2,
        n >= radix,
    ensures
        n / radix < n,
{
    assert(n / radix < n) by (nonlinear_arith)
        requires
            radix >= 2,
            n >= radix,
    ;
}

/// An address as reports show it: `0x`, then upper-case hexadecimal digits.
pub open spec fn address_text(n: u64) -> Seq<char> {
    seq!['0', 'x'] + digits_text(n as nat, 16)
}

/// A number in decimal digits.
pub open spec fn decimal_text(n: u64) -> Seq<char> {
    digits_text(n as nat, 10)
}

/// The character of a digit below sixteen.
fn digit_to_char(d: u64) -> (c: char)
    requires
        d < 16,
    ensures
        c == digit_char(d as nat),
{
    if d == 0 {
        '0'
    } else if d == 1 {
        '1'
    } else if d == 2 {
        '2'
    } else if d == 3 {
        '3'
    } else if d == 4 {
        '4'
    } else if d == 5 {
        '5'
    } else if d == 6 {
        '6'
    } else if d == 7 {
        '7'
    } else if d == 8 {
        '8'
    } else if d == 9 {
        '9'
    } else if d == 10 {
        'A'
    } else if d == 11 {
        'B'
    } else if d == 12 {
        'C'
    } else if d == 13 {
        'D'
    } else if d == 14 {
        'E'
    } else {
        'F'
    }
}

/// Appends the digits of a number in a radix.
fn push_digits(out: &mut String, n: u64, radix: u64)
    requires
        2 <= radix <= 16,
    ensures
        final(out)@ == old(out)@ + digits_text(n as nat, radix as nat),
    decreases n,
{
    if n >= radix {
        proof {
            lemma_quotient_smaller(n as nat, radix as nat);
        }
        push_digits(out, n / radix, radix);
    }
    push_char(out, digit_to_char(n % radix));
    proof {
        let front = digits_text((n / radix) as nat, radix as nat);
        let last = digit_char((n % radix) as nat);
        if n >= radix {
            assert(digits_text(n as nat, radix as nat) == front.push(last));
            assert(out@ =~= old(out)@ + front.push(last));
            assert(out@ == old(out)@ + digits_text(n as nat, radix as nat));
        } else {
            assert(n % radix == n) by (nonlinear_arith)
                requires
                    n < radix,
            ;
            assert(digits_text(n as nat, radix as nat) == seq![last]);
            assert(out@ =~= old(out)@ + seq![last]);
        }
    }
}

/// Writes an address as reports show it: `0x`, then upper-case
/// hexadecimal digits without leading zeros.
pub fn format_address(n: u64) -> (text: String)
    ensures
        text@ == address_text(n),
{
    let mut text: String = String::new();
    push_char(&mut text, '0');
    push_char(&mut text, 'x');
    push_digits(&mut text, n, 16);
    proof {
        assert(text@ =~= address_text(n));
    }
    text
}

/// Writes a number in decimal digits.
pub fn format_decimal(n: u64) -> (text: String)
    ensures
        text@ == decimal_text(n),
{
    let mut text: String = String::new();
    push_digits(&mut text, n, 10);
    proof {
        assert(text@ =~= decimal_text(n));
    }
    text
}

/// The digits that a number is written with read back as that number.
pub proof fn lemma_digits_read_back(n: nat, radix: nat)
    requires
        2 <= radix <= 16,
    ensures
        digits_text(n, radix).len() > 0,
        all_digits(digits_text(n, radix), radix),
        digits_value(digits_text(n, radix), radix) == n,
    decreases n,
{
    let text = digits_text(n, radix);
    if n < radix {
        assert(digit_value(digit_char(n), radix) == Some(n));
        assert(text.drop_last() =~= Seq::<char>::empty());
        assert(digits_value(text.drop_last(), radix) == 0);
        assert(0 * radix == 0);
    } else {
        let front = digits_text(n / radix, radix);
        lemma_digits_read_back(n / radix, radix);
        assert(text.drop_last() =~= front);
        assert(n % radix < radix) by (nonlinear_arith)
            requires
                radix >= 2,
        ;
        assert(digit_value(digit_char(n % radix), radix) == Some(n % radix));
        assert((n / radix) * radix + n % radix == n) by (nonlinear_arith)
            requires
                radix >= 2,
        ;
        assert forall|i: int| 0 <= i < text.len() implies (#[trigger] digit_value(
            text[i],
            radix,
        )) is Some by {
            if i < front.len() {
                assert(text[i] == front[i]);
            }
        }
    }
}

/// An address written by [`format_address`] and a number written by
/// [`format_decimal`] read back, through [`parse_prefixed_hex`] and
/// [`parse_size`], as the number that was written.
pub proof fn lemma_written_numbers_read_back(n: u64)
    ensures
        prefixed_hex_or_zero(address_text(n)) == n,
        size_or_zero(address_text(n)) == n,
        number_or_zero(decimal_text(n), 10) == n,
        size_or_zero(decimal_text(n)) == n,
{
    lemma_digits_read_back(n as nat, 16);
    lemma_digits_read_back(n as nat, 10);
    assert(address_text(n).skip(2) =~= digits_text(n as nat, 16));
    let d = decimal_text(n);
    if d.len() >= 2 && d[0] == '0' && d[1] == 'x' {
        assert(digit_value(d[1], 10) is Some);
    }
}

} // verus!
