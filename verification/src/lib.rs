//! Core mechanics of a classical polyalphabetic (Vigenere-family) substitution
//! cipher: a repeating-keyword key stream generator and a wrapped shift
//! transform that combines a plaintext character with a key character by
//! modular arithmetic over the 26-letter Latin alphabet.
//!
//! This code is for study and entertainment only; it offers no cryptographic
//! security whatsoever.

use vstd::prelude::*;

mod keygen;

pub use keygen::InvalidKeyword;
pub use keygen::KeyGenerator;
pub use keygen::key_char_at;
pub use keygen::key_stream;
pub use keygen::lemma_key_stream_cyclic;

verus! {

/// Code point of 'A': the restoration offset for uppercase letters.
pub const UPPERCASE_OFFSET: u32 = 65;

/// Code point of 'a': the restoration offset for lowercase letters.
pub const LOWERCASE_OFFSET: u32 = 97;

/// Number of letters in each of the two alphabets (A-Z, a-z).
pub const ALPHABET_SIZE: u32 = 26;

/// The character is an uppercase Latin letter (code points 65..=90).
pub open spec fn is_uppercase_letter(c: char) -> bool {
    65 <= c as u32 && c as u32 <= 90
}

/// The character is a lowercase Latin letter (code points 97..=122).
pub open spec fn is_lowercase_letter(c: char) -> bool {
    97 <= c as u32 && c as u32 <= 122
}

/// The character belongs to one of the two 26-letter alphabets; every other
/// character passes through the transform unchanged.
pub open spec fn is_shiftable_letter(c: char) -> bool {
    is_uppercase_letter(c) || is_lowercase_letter(c)
}

/// A letter's zero-based position within its alphabet (A=0..Z=25, a=0..z=25).
pub open spec fn letter_value(c: char) -> int
    recommends
        is_shiftable_letter(c),
{
    if is_uppercase_letter(c) {
        c as u32 - 65
    } else {
        c as u32 - 97
    }
}

/// The code-point value added back after modular arithmetic to re-encode a
/// normalized value into the letter's own case range.
pub open spec fn restoration_offset(c: char) -> int
    recommends
        is_shiftable_letter(c),
{
    if is_uppercase_letter(c) {
        65
    } else {
        97
    }
}

/// The letter at zero-based position `value` of the alphabet that starts at
/// code point `offset`.
pub open spec fn letter_from(value: int, offset: int) -> char
    recommends
        0 <= value < 26,
        offset == 65 || offset == 97,
{
    ((value + offset) as u8) as char
}

/// The encrypting transform: if both characters are letters, the plaintext
/// letter is shifted by the key letter's value, wrapping within the plaintext
/// letter's own alphabet; otherwise the plaintext character is unchanged.
pub open spec fn shift_char(p: char, k: char) -> char {
    if is_shiftable_letter(p) && is_shiftable_letter(k) {
        letter_from((letter_value(p) + letter_value(k)) % 26, restoration_offset(p))
    } else {
        p
    }
}

/// The decrypting transform, inverse to [`shift_char`]: the key letter's value
/// is subtracted instead of added, with non-negative wrap-around.
pub open spec fn unshift_char(p: char, k: char) -> char {
    if is_shiftable_letter(p) && is_shiftable_letter(k) {
        letter_from((letter_value(p) - letter_value(k) + 26) % 26, restoration_offset(p))
    } else {
        p
    }
}

/// The lowercase rendering of a character: an uppercase Latin letter moves to
/// its lowercase counterpart, every other character is unchanged.
pub open spec fn lowercase_char(c: char) -> char {
    if is_uppercase_letter(c) {
        ((c as u32 + 32) as u8) as char
    } else {
        c
    }
}

/// Computes [`lowercase_char`] on a concrete character.
pub(crate) fn to_lowercase_char(c: char) -> (r: char)
    ensures
        r == lowercase_char(c),
{
    let code_point = c as u32;
    if UPPERCASE_OFFSET <= code_point && code_point < UPPERCASE_OFFSET + ALPHABET_SIZE {
        ((code_point + 32) as u8) as char
    } else {
        c
    }
}

/// Classifies a character: for a letter, its normalized value and its
/// restoration offset; for any other character, `None`.
fn normalize_char_codepoint(start: char) -> (r: Option<(u32, u32)>)
    ensures
        is_shiftable_letter(start) ==> r == Some(
            (letter_value(start) as u32, restoration_offset(start) as u32),
        ),
        !is_shiftable_letter(start) ==> r is None,
{
    let start_code_point = start as u32;
    if UPPERCASE_OFFSET <= start_code_point && start_code_point < UPPERCASE_OFFSET + ALPHABET_SIZE {
        Some(((start_code_point - UPPERCASE_OFFSET) % ALPHABET_SIZE, UPPERCASE_OFFSET))
    } else if LOWERCASE_OFFSET <= start_code_point && start_code_point < LOWERCASE_OFFSET
        + ALPHABET_SIZE {
        Some(((start_code_point - LOWERCASE_OFFSET) % ALPHABET_SIZE, LOWERCASE_OFFSET))
    } else {
        None
    }
}

/// Shifts `to_shift` forward by the alphabet position of `key_char`, wrapping
/// back to the start of the alphabet past 'z' (or 'Z'). If either character is
/// not a Latin letter, `to_shift` is returned unchanged.
pub fn wrapped_shift_letters(to_shift: char, key_char: char) -> (r: char)
    ensures
        r == shift_char(to_shift, key_char),
{
    let normalized_start = normalize_char_codepoint(to_shift);
    let normalized_shift = normalize_char_codepoint(key_char);
    match (normalized_start, normalized_shift) {
        (Some((start, offset)), Some((shift_by, _))) => {
            let transformed: u32 = (start + shift_by) % ALPHABET_SIZE + offset;
            (transformed as u8) as char
        },
        _ => to_shift,
    }
}

/// Undoes [`wrapped_shift_letters`]: shifts `to_shift` backward by the
/// alphabet position of `key_char`, wrapping past 'a' (or 'A'). If either
/// character is not a Latin letter, `to_shift` is returned unchanged.
pub fn wrapped_unshift_letters(to_shift: char, key_char: char) -> (r: char)
    ensures
        r == unshift_char(to_shift, key_char),
{
    let normalized_start = normalize_char_codepoint(to_shift);
    let normalized_shift = normalize_char_codepoint(key_char);
    match (normalized_start, normalized_shift) {
        (Some((start, offset)), Some((shift_by, _))) => {
            let transformed: u32 = (start + ALPHABET_SIZE - shift_by) % ALPHABET_SIZE + offset;
            (transformed as u8) as char
        },
        _ => to_shift,
    }
}

/// Law: a non-alphabetic plaintext character is never altered, whatever the
/// key character is, in either direction of the transform.
pub proof fn lemma_shift_ignores_nonletter_plain(p: char, k: char)
    requires
        !is_shiftable_letter(p),
    ensures
        shift_char(p, k) == p,
        unshift_char(p, k) == p,
{
}

/// Law: a non-alphabetic key character forces pass-through: the plaintext
/// character is returned unchanged, in either direction of the transform.
pub proof fn lemma_shift_ignores_nonletter_key(p: char, k: char)
    requires
        !is_shiftable_letter(k),
    ensures
        shift_char(p, k) == p,
        unshift_char(p, k) == p,
{
}

/// Law: when the alphabetic shift applies, the result stays in the plaintext
/// letter's own case range: uppercase stays uppercase, lowercase stays
/// lowercase.
pub proof fn lemma_shift_preserves_case(p: char, k: char)
    requires
        is_shiftable_letter(p),
        is_shiftable_letter(k),
    ensures
        is_uppercase_letter(p) ==> is_uppercase_letter(shift_char(p, k)),
        is_lowercase_letter(p) ==> is_lowercase_letter(shift_char(p, k)),
        is_uppercase_letter(p) ==> is_uppercase_letter(unshift_char(p, k)),
        is_lowercase_letter(p) ==> is_lowercase_letter(unshift_char(p, k)),
{
}

/// Law: decryption undoes encryption. For alphabetic plaintext and key
/// letters, unshifting the shifted letter with the same key restores the
/// original plaintext letter.
pub proof fn lemma_unshift_round_trip(p: char, k: char)
    requires
        is_shiftable_letter(p),
        is_shiftable_letter(k),
    ensures
        unshift_char(shift_char(p, k), k) == p,
{
    lemma_shift_preserves_case(p, k);
}

} // verus!
