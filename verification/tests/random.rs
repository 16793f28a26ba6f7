use secure_token::random::generate_secure_alphanumeric_string;
use secure_token::random::symbol;
use secure_token::random::ALPHABET_SIZE;
use std::collections::HashSet;

#[test]
fn symbols_are_letters_then_capitals_then_digits() {
    assert_eq!(symbol(0), "a");
    assert_eq!(symbol(1), "b");
    assert_eq!(symbol(25), "z");
    assert_eq!(symbol(26), "A");
    assert_eq!(symbol(51), "Z");
    assert_eq!(symbol(52), "0");
    assert_eq!(symbol(61), "9");
}

#[test]
fn symbols_spell_the_alphabet() {
    let spelled: String = (0..ALPHABET_SIZE).map(symbol).collect();
    assert_eq!(
        spelled,
        "abcdefghijklmnopqrstuvwxyzABCDEFGHIJKLMNOPQRSTUVWXYZ0123456789"
    );
}

#[test]
fn symbols_are_sixty_two_distinct_alphanumerics() {
    assert_eq!(ALPHABET_SIZE, 62);
    let all: HashSet<&str> = (0..ALPHABET_SIZE).map(symbol).collect();
    assert_eq!(all.len(), 62);
    for text in all {
        assert_eq!(text.len(), 1);
        assert!(text.chars().all(|c| c.is_ascii_alphanumeric()));
    }
}

#[test]
fn random_text_has_the_length_asked_for() {
    for len in [0, 1, 2, 31, 32, 33, 100] {
        let text = generate_secure_alphanumeric_string(len);
        assert_eq!(text.len(), len);
        assert_eq!(text.chars().count(), len);
        assert!(text.chars().all(|c| c.is_ascii_alphanumeric()));
    }
}

#[test]
fn random_text_uses_the_whole_alphabet() {
    let text = generate_secure_alphanumeric_string(20000);
    let seen: HashSet<char> = text.chars().collect();
    assert_eq!(seen.len(), 62);
}

#[test]
fn random_texts_differ() {
    let first = generate_secure_alphanumeric_string(32);
    let second = generate_secure_alphanumeric_string(32);
    assert_ne!(first, second);
}
