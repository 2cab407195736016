//! The similarity scorer, the edit distance and the small helpers.

use got_ya_id::cosine::cosine_similarity;
use got_ya_id::errors::ResError;
use got_ya_id::levenshtein::levenshtn;
use got_ya_id::models::{validate_alpha_regex, validate_location_name, validate_str_len};
use got_ya_id::utils::{get_url, str_eq};

#[test]
fn similarity_of_a_string_with_itself_is_one() {
    assert!(cosine_similarity("Jane Doe", "Jane Doe").is_one());
    assert!(cosine_similarity("a", "a").is_one());
    // case folded: the bags of characters are the same
    assert!(cosine_similarity("JANE DOE", "jane doe").is_one());
    // an anagram holds the same bag of characters, so it also scores 1
    assert!(cosine_similarity("listen", "silent").is_one());
}

#[test]
fn similarity_with_empty_input_is_zero() {
    assert!(cosine_similarity("anything at all", "").is_zero());
    assert!(cosine_similarity("", "anything at all").is_zero());
    assert!(cosine_similarity("", "").is_zero());
    // punctuation only carries no counted characters either
    assert!(cosine_similarity("abc", "!!! ???").is_zero());
}

#[test]
fn similarity_of_disjoint_strings_is_zero() {
    assert!(cosine_similarity("abc", "xyz").is_zero());
    assert!(!cosine_similarity("abc", "cde").is_zero());
}

#[test]
fn similarity_is_symmetric() {
    let s1 = cosine_similarity("Jane Doe", "John Doe");
    let s2 = cosine_similarity("John Doe", "Jane Doe");
    assert_eq!(s1.dot, s2.dot);
    assert_eq!(s1.qa, s2.qb);
    assert_eq!(s1.qb, s2.qa);
}

#[test]
fn similarity_exact_ingredients() {
    // "janedoe": j1 a1 n1 e2 d1 o1; "johndoe": j1 o2 h1 n1 d1 e1
    // dot = 1 + 1 + 2 + 1 + 2 = 7; both squared norms are 9
    let s = cosine_similarity("Jane Doe", "John Doe");
    assert_eq!(s.dot, 7);
    assert_eq!(s.qa, 9);
    assert_eq!(s.qb, 9);
    // the value is 7/9, checked against floating point
    let value = s.dot as f64 / ((s.qa as f64).sqrt() * (s.qb as f64).sqrt());
    assert!((value - 7.0 / 9.0).abs() < 1e-12);
}

#[test]
fn levenshtein_known_distances() {
    assert_eq!(levenshtn("kitten", "sitting"), 3);
    assert_eq!(levenshtn("flaw", "lawn"), 2);
    assert_eq!(levenshtn("abc", "abc"), 0);
    assert_eq!(levenshtn("", "abc"), 3);
    assert_eq!(levenshtn("abc", ""), 3);
    assert_eq!(levenshtn("", ""), 0);
    assert_eq!(levenshtn("a", "b"), 1);
}

#[test]
fn alpha_validation_accepts_letters_and_spaces_only() {
    assert!(validate_alpha_regex("Jane Doe"));
    assert!(!validate_alpha_regex("Jane Doe 2"));
    assert!(!validate_alpha_regex(""));
    assert!(!validate_alpha_regex("name!"));
}

#[test]
fn location_validation_accepts_digits_and_punctuation_range() {
    assert!(validate_location_name("Main B-2"));
    assert!(validate_location_name("block_4"));
    assert!(!validate_location_name(""));
    assert!(!validate_location_name("caf\u{e9}"));
}

#[test]
fn str_len_validation_bounds() {
    assert!(!validate_str_len("ab"));
    assert!(validate_str_len("abc"));
    let long = "a".repeat(255);
    assert!(validate_str_len(&long));
    let too_long = "a".repeat(256);
    assert!(!validate_str_len(&too_long));
}

#[test]
fn error_constructors_carry_their_status() {
    let e = ResError::new(String::from("boom"), 409);
    assert_eq!(e.status, 409);
    assert_eq!(e.msg, "boom");
    assert_eq!(ResError::unauthorized().status, 401);
    assert_eq!(ResError::not_found().status, 404);
}

#[test]
fn url_builder_joins_and_strips_quotes() {
    assert_eq!(get_url("example.com", "api/user", "5"), "http://example.com/api/user/5");
    assert_eq!(get_url("\"example.com\"", "p", "1"), "http://example.com/p/1");
}

#[test]
fn string_equality_helper() {
    assert!(str_eq("abc", "abc"));
    assert!(!str_eq("abc", "abd"));
    assert!(!str_eq("abc", "ab"));
}
