use server_test_csharp::text::{decimal_string, generate_password, generate_unique_slug, slugify};

#[test]
fn slugify_removes_punctuation_and_lowercases() {
    assert_eq!(slugify("Hello World!"), "hello-world");
}

#[test]
fn slugify_trims_surrounding_whitespace() {
    assert_eq!(slugify("   Rust Verus \t"), "rust-verus");
}

#[test]
fn slugify_collapses_pairs_of_hyphens_once() {
    assert_eq!(slugify("Rust -- Verus"), "rust--verus");
    assert_eq!(slugify("a---b"), "a--b");
    assert_eq!(slugify("a--b"), "a-b");
}

#[test]
fn slugify_drops_symbols_between_words() {
    assert_eq!(slugify("C++ & Rust"), "c-rust");
}

#[test]
fn slugify_keeps_unicode_letters() {
    assert_eq!(slugify("Ünïcode Straße"), "ünïcode-straße");
}

#[test]
fn slugify_keeps_underscores_and_digits() {
    assert_eq!(slugify("Mix_3 of 4"), "mix_3-of-4");
}

#[test]
fn slugify_of_only_symbols_is_empty() {
    assert_eq!(slugify("!!!"), "");
    assert_eq!(slugify(""), "");
}

#[test]
fn slug_never_holds_a_space() {
    for text in [" a b c ", "one  two", "x -  y", "\tA B\n"] {
        assert!(!slugify(text).contains(' '), "{text:?}");
    }
}

#[test]
fn password_has_requested_length_and_alphabet() {
    let p = generate_password(12);
    assert_eq!(p.chars().count(), 12);
    assert!(p.chars().all(|c| c.is_ascii_alphanumeric()));
    assert_eq!(generate_password(0), "");
}

#[test]
fn unique_slug_is_slug_hyphen_and_six_lowercase_characters() {
    let s = generate_unique_slug("Mechanical Keyboard");
    assert!(s.starts_with("mechanical-keyboard-"));
    assert_eq!(s.chars().count(), "mechanical-keyboard".len() + 7);
    let suffix: String = s.chars().skip(20).collect();
    assert_eq!(suffix.len(), 6);
    assert!(suffix.chars().all(|c| c.is_ascii_digit() || c.is_ascii_lowercase()));
}

#[test]
fn decimal_rendering() {
    assert_eq!(decimal_string(0), "0");
    assert_eq!(decimal_string(7), "7");
    assert_eq!(decimal_string(1234567890), "1234567890");
    assert_eq!(decimal_string(u64::MAX), "18446744073709551615");
}
