use vigenere::KeyGenerator;
use vigenere::wrapped_shift_letters;
use vigenere::wrapped_unshift_letters;

#[test]
fn shifts_correct_amount() {
    let mut keygen = KeyGenerator::new(String::from("queen"), false).unwrap();
    let key = keygen.advance();
    println!("key to shift by: {:?}", key);

    let shifted = wrapped_shift_letters('a', key);
    assert_eq!(shifted, 'q');
}

#[test]
fn shift_by_identity_key() {
    assert_eq!(wrapped_shift_letters('A', 'a'), 'A');
    assert_eq!(wrapped_shift_letters('m', 'A'), 'm');
}

#[test]
fn shift_exact_values() {
    assert_eq!(wrapped_shift_letters('a', 'q'), 'q');
    assert_eq!(wrapped_shift_letters('m', 'K'), 'w');
    assert_eq!(wrapped_shift_letters('B', 'c'), 'D');
}

#[test]
fn shift_wraps_past_alphabet_end() {
    assert_eq!(wrapped_shift_letters('z', 'b'), 'a');
    assert_eq!(wrapped_shift_letters('Z', 'z'), 'Y');
    assert_eq!(wrapped_shift_letters('y', 'z'), 'x');
}

#[test]
fn nonalphabetic_plaintext_passes_through() {
    assert_eq!(wrapped_shift_letters('!', 'k'), '!');
    assert_eq!(wrapped_shift_letters('3', 'Z'), '3');
    assert_eq!(wrapped_shift_letters(' ', 'a'), ' ');
    assert_eq!(wrapped_unshift_letters('?', 'm'), '?');
}

#[test]
fn nonalphabetic_key_passes_through() {
    assert_eq!(wrapped_shift_letters('a', '!'), 'a');
    assert_eq!(wrapped_shift_letters('Q', '9'), 'Q');
    assert_eq!(wrapped_unshift_letters('q', ' '), 'q');
}

#[test]
fn shift_preserves_case() {
    let upper = wrapped_shift_letters('A', 'z');
    assert_eq!(upper, 'Z');
    assert!(upper.is_ascii_uppercase());

    let lower = wrapped_shift_letters('a', 'Z');
    assert_eq!(lower, 'z');
    assert!(lower.is_ascii_lowercase());
}

#[test]
fn unshift_exact_values() {
    assert_eq!(wrapped_unshift_letters('q', 'q'), 'a');
    assert_eq!(wrapped_unshift_letters('a', 'b'), 'z');
    assert_eq!(wrapped_unshift_letters('D', 'c'), 'B');
}

#[test]
fn unshift_undoes_shift_for_all_letter_pairs() {
    for p in ('a'..='z').chain('A'..='Z') {
        for k in ('a'..='z').chain('A'..='Z') {
            let c = wrapped_shift_letters(p, k);
            assert_eq!(wrapped_unshift_letters(c, k), p);
        }
    }
}
