//! PCR masks: which Platform Configuration Registers a quote covers.
//!
//! A mask is a 32-bit set of PCR indices: bit `i` is set when PCR `i` is
//! included. As text a mask is either a decimal number (`"1"`, `"1025"`) or a
//! hexadecimal number behind `0x` (`"0x10001"`); masks are written back in the
//! hexadecimal form.

use vstd::prelude::*;
use vstd::arithmetic::power2::pow2;
use vstd::bits::lemma_u32_shr_is_div;
use crate::text::{
    all_digits, digit_value, hex_text, lemma_hex_round_trip, numeral_value, push_hex, read_digit,
};

verus! {

/// The mask used when the caller names none: PCR 0 alone.
pub const EMPTYMASK: &'static str = "1";

/// Why a text is not a mask.
#[derive(Clone, Copy, Debug, PartialEq, Eq, Structural)]
pub enum MaskError {
    /// There are no digits: the text is empty, or `0x` alone.
    NoDigits,
    /// A character is not a digit of the text's base.
    InvalidDigit,
    /// The number does not fit in 32 bits.
    TooLarge,
}

/// Whether bit `index` of `mask` is set.
pub open spec fn bit_is_set(mask: u32, index: nat) -> bool {
    index < 32 && (mask >> (index as u32)) & 1u32 == 1u32
}

/// `mask` with bit `index` set as well.
pub open spec fn with_bit(mask: u32, index: u32) -> u32 {
    mask | (1u32 << index)
}

/// The text starts with `0x` or `0X`.
pub open spec fn has_hex_prefix(text: Seq<char>) -> bool {
    text.len() >= 2 && text[0] == '0' && (text[1] == 'x' || text[1] == 'X')
}

/// The base a mask text is written in.
pub open spec fn mask_radix(text: Seq<char>) -> nat {
    if has_hex_prefix(text) {
        16
    } else {
        10
    }
}

/// The digits of a mask text: what follows the `0x`, or all of it.
pub open spec fn mask_digits(text: Seq<char>) -> Seq<char> {
    if has_hex_prefix(text) {
        text.skip(2)
    } else {
        text
    }
}

/// The mask that `text` stands for, or why it stands for none.
pub open spec fn mask_value(text: Seq<char>) -> Result<u32, MaskError> {
    let digits = mask_digits(text);
    let radix = mask_radix(text);
    if digits.len() == 0 {
        Err(MaskError::NoDigits)
    } else if !all_digits(digits, radix) {
        Err(MaskError::InvalidDigit)
    } else if numeral_value(digits, radix) > u32::MAX {
        Err(MaskError::TooLarge)
    } else {
        Ok(numeral_value(digits, radix) as u32)
    }
}

/// A mask as text: `0x` and its hexadecimal digits.
pub open spec fn mask_text(mask: u32) -> Seq<char> {
    seq!['0', 'x'] + hex_text(mask as nat)
}

/// The text of the mask that `text` stands for with bit `index` added.
pub open spec fn mask_text_with_bit(text: Seq<char>, index: u32) -> Result<Seq<char>, MaskError> {
    match mask_value(text) {
        Ok(mask) => Ok(mask_text(with_bit(mask, index))),
        Err(e) => Err(e),
    }
}

/// A longer numeral is no smaller than the part before its last digit.
proof fn lemma_numeral_grows(digits: Seq<char>, radix: nat)
    requires
        radix == 10 || radix == 16,
        digits.len() > 0,
    ensures
        numeral_value(digits, radix) >= numeral_value(digits.drop_last(), radix),
{
    let head = numeral_value(digits.drop_last(), radix);
    assert(head * radix >= head) by (nonlinear_arith)
        requires
            radix >= 1,
            head >= 0,
    ;
}

/// Reads a mask from its text.
pub fn parse_mask(text: &str) -> (parsed: Result<u32, MaskError>)
    ensures
        parsed == mask_value(text@),
{
    let len = text.unicode_len();
    let hex = len >= 2 && text.get_char(0) == '0' && (text.get_char(1) == 'x' || text.get_char(1)
        == 'X');
    let start: usize = if hex {
        2
    } else {
        0
    };
    let radix: u32 = if hex {
        16
    } else {
        10
    };
    if start == len {
        return Err(MaskError::NoDigits);
    }
    let ghost digits = mask_digits(text@);
    let mut value: u64 = 0;
    let mut too_large = false;
    let mut i: usize = start;
    while i < len
        invariant
            start <= i <= len,
            len == text@.len(),
            radix == mask_radix(text@),
            radix == 10 || radix == 16,
            digits == mask_digits(text@),
            digits.len() == len - start,
            forall|k: int| 0 <= k < digits.len() ==> digits[k] == text@[k + start],
            all_digits(digits.take(i - start), radix as nat),
            value <= u32::MAX,
            !too_large ==> value == numeral_value(digits.take(i - start), radix as nat),
            too_large ==> numeral_value(digits.take(i - start), radix as nat) > u32::MAX,
        decreases len - i,
    {
        let c = text.get_char(i);
        let ghost before = digits.take(i - start);
        let ghost after = digits.take(i + 1 - start);
        proof {
            assert(after.drop_last() =~= before);
            assert(after.last() == c);
        }
        match read_digit(c, radix) {
            None => {
                proof {
                    assert(digit_value(digits[i - start], radix as nat) is None);
                }
                return Err(MaskError::InvalidDigit);
            },
            Some(d) => {
                proof {
                    assert forall|k: int| 0 <= k < after.len() implies (#[trigger] digit_value(
                        after[k],
                        radix as nat,
                    )) is Some by {
                        if k < before.len() {
                            assert(after[k] == before[k]);
                        }
                    }
                    lemma_numeral_grows(after, radix as nat);
                }
                if !too_large {
                    let next: u64 = value * (radix as u64) + (d as u64);
                    if next > u32::MAX as u64 {
                        too_large = true;
                    } else {
                        value = next;
                    }
                }
            },
        }
        i += 1;
    }
    proof {
        assert(digits.take(len - start) =~= digits);
    }
    if too_large {
        Err(MaskError::TooLarge)
    } else {
        Ok(value as u32)
    }
}

/// Writes a mask as text, in the hexadecimal form.
pub fn format_mask(mask: u32) -> (text: String)
    ensures
        text@ == mask_text(mask),
{
    proof {
        reveal_strlit("0x");
    }
    let mut text = String::new();
    text.append("0x");
    assert(text@ =~= seq!['0', 'x']);
    push_hex(&mut text, mask as u64);
    text
}

/// Tests one bit of a mask.
pub fn has_bit(mask: u32, index: usize) -> (set: bool)
    ensures
        set == bit_is_set(mask, index as nat),
{
    if index >= 32 {
        return false;
    }
    let shift: u32 = index as u32;
    (mask >> shift) & 1u32 == 1u32
}

/// Adds one PCR to a mask.
pub fn add_bit(mask: u32, index: u32) -> (out: u32)
    requires
        index < 32,
    ensures
        out == with_bit(mask, index),
{
    mask | (1u32 << index)
}

/// Whether the mask written in `ima_mask` includes PCR `ima_pcr`. An empty
/// text includes nothing and is not read as a number.
pub fn check_mask(ima_mask: String, ima_pcr: usize) -> (included: bool)
    requires
        ima_mask@.len() == 0 || mask_value(ima_mask@) is Ok,
    ensures
        included == (ima_mask@.len() > 0 && bit_is_set(
            mask_value(ima_mask@).unwrap(),
            ima_pcr as nat,
        )),
{
    if ima_mask.as_str().is_empty() {
        return false;
    }
    match parse_mask(ima_mask.as_str()) {
        Ok(mask) => has_bit(mask, ima_pcr),
        Err(_) => false,
    }
}

/// Adds PCR `index` to the mask written in `text` and writes the result in
/// the hexadecimal form.
pub fn add_pcr_to_mask(text: &str, index: u32) -> (out: Result<String, MaskError>)
    requires
        index < 32,
    ensures
        match out {
            Ok(s) => mask_text_with_bit(text@, index) == Ok::<Seq<char>, MaskError>(s@),
            Err(e) => mask_text_with_bit(text@, index) == Err::<Seq<char>, MaskError>(e),
        },
{
    match parse_mask(text) {
        Ok(mask) => Ok(format_mask(add_bit(mask, index))),
        Err(e) => Err(e),
    }
}

/// The text of a mask reads back as that mask.
pub proof fn lemma_mask_text_round_trip(mask: u32)
    ensures
        mask_value(mask_text(mask)) == Ok::<u32, MaskError>(mask),
{
    let text = mask_text(mask);
    lemma_hex_round_trip(mask as nat);
    assert(has_hex_prefix(text));
    assert(text.skip(2) =~= hex_text(mask as nat));
}

/// Bit `index` of a mask is the digit of weight two to the `index` in the
/// mask written in base two.
pub proof fn lemma_bit_is_binary_digit(mask: u32, index: nat)
    requires
        index < 32,
    ensures
        bit_is_set(mask, index) == ((mask as nat / pow2(index)) % 2 == 1),
{
    let shifted = mask >> (index as u32);
    lemma_u32_shr_is_div(mask, index as u32);
    assert(shifted & 1u32 == shifted % 2) by (bit_vector);
}

/// Adding a PCR sets its bit and changes no other.
pub proof fn lemma_with_bit_sets_only_that_bit(mask: u32, index: u32, other: nat)
    requires
        index < 32,
    ensures
        bit_is_set(with_bit(mask, index), other) == (other == index || bit_is_set(mask, other)),
{
    if other < 32 {
        let o: u32 = other as u32;
        assert(((mask | (1u32 << index)) >> o) & 1u32 == 1u32 <==> (o == index || (mask >> o)
            & 1u32 == 1u32)) by (bit_vector)
            requires
                index < 32,
                o < 32,
        ;
    }
}

/// Adding a PCR that a mask already has changes nothing: adding it twice
/// gives what adding it once gives.
pub proof fn lemma_with_bit_idempotent(mask: u32, index: u32)
    requires
        index < 32,
    ensures
        with_bit(with_bit(mask, index), index) == with_bit(mask, index),
{
    assert((mask | (1u32 << index)) | (1u32 << index) == mask | (1u32 << index)) by (bit_vector);
}

/// The same for masks as text: for any text that is a mask, adding a PCR to
/// the result of adding it gives that result again.
pub proof fn lemma_mask_text_with_bit_idempotent(text: Seq<char>, index: u32)
    requires
        index < 32,
        mask_value(text) is Ok,
    ensures
        mask_text_with_bit(text, index) is Ok,
        mask_text_with_bit(mask_text_with_bit(text, index).unwrap(), index) == mask_text_with_bit(
            text,
            index,
        ),
{
    let mask = mask_value(text).unwrap();
    lemma_mask_text_round_trip(with_bit(mask, index));
    lemma_with_bit_idempotent(mask, index);
}

} // verus!
