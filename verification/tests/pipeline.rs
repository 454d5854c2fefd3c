//! The correction pipeline, rule by rule and end to end.

use phonemizer::vocab::apply_vocab_filter;
use phonemizer::{Phonemizer, Vocabulary};

/// A vocabulary wide enough to let every symbol of these tests through.
fn wide_vocab() -> Vocabulary {
    Vocabulary::new("abcdefghijklmnopqrstuvwxyz .ˈˌːəɹɪʊʌɔ".chars().collect())
}

fn for_lang(tag: &str) -> Phonemizer {
    Phonemizer::new(tag, wide_vocab()).unwrap()
}

#[test]
fn empty_raw_string_yields_empty_output() {
    let p = for_lang("a");
    assert_eq!(p.correct(""), "");
}

#[test]
fn product_name_fixup_end_to_end() {
    // The first known mis-rendering, as the backend writes it.
    let p = for_lang("a");
    assert_eq!(p.correct("kəkˈoːɹoʊ"), "kˈoʊkəɹoʊ");
}

#[test]
fn product_name_fixup_second_spelling() {
    let p = for_lang("b");
    assert_eq!(p.correct("kəkˈɔːɹəʊ"), "kˈəʊkəɹəʊ");
}

#[test]
fn fixup_replaces_every_occurrence_and_nothing_else() {
    let p = for_lang("a");
    assert_eq!(
        p.correct("abc kəkˈoːɹoʊ def kəkˈoːɹoʊ"),
        "abc kˈoʊkəɹoʊ def kˈoʊkəɹoʊ"
    );
}

#[test]
fn symbol_normalization_substitutes_one_for_one() {
    let p = for_lang("a");
    assert_eq!(p.correct("rʲxɬ"), "ɹjkl");
}

#[test]
fn separating_space_restored_before_fused_word() {
    let p = for_lang("a");
    assert_eq!(p.correct("wʌnhˈʌndɹɪd"), "wʌn hˈʌndɹɪd");
}

#[test]
fn no_space_inserted_without_preceding_context() {
    let p = for_lang("a");
    assert_eq!(p.correct("hˈʌndɹɪd"), "hˈʌndɹɪd");
}

#[test]
fn trailing_fricative_collapses_at_end_of_string() {
    let p = for_lang("a");
    assert_eq!(p.correct("dog z"), "dogz");
}

#[test]
fn trailing_fricative_collapses_before_punctuation() {
    let p = for_lang("a");
    assert_eq!(p.correct("dog z."), "dogz.");
}

#[test]
fn fricative_before_letter_left_untouched() {
    let p = for_lang("a");
    assert_eq!(p.correct("dog za"), "dog za");
}

#[test]
fn numeral_suffix_rewritten_for_designated_language() {
    let p = for_lang("a");
    assert_eq!(p.correct("nˈaɪnti"), "nˈaɪndi");
}

#[test]
fn numeral_suffix_kept_for_other_language() {
    let p = for_lang("b");
    assert_eq!(p.correct("nˈaɪnti"), "nˈaɪnti");
}

#[test]
fn numeral_suffix_kept_before_length_mark() {
    let p = for_lang("a");
    assert_eq!(p.correct("nˈaɪntiː"), "nˈaɪntiː");
}

#[test]
fn vocabulary_filter_drops_foreign_symbols() {
    let p = for_lang("a");
    assert_eq!(p.correct("a#b$c%"), "abc");
}

#[test]
fn string_entirely_outside_vocabulary_yields_empty() {
    let p = for_lang("e");
    assert_eq!(p.correct("XYZ#"), "");
}

#[test]
fn output_is_trimmed() {
    let p = for_lang("a");
    assert_eq!(p.correct("  abc  "), "abc");
}

#[test]
fn vocabulary_membership() {
    let v = Vocabulary::new("abz".chars().collect());
    assert!(v.contains('a'));
    assert!(v.contains('z'));
    assert!(!v.contains('c'));
    assert!(!v.contains(' '));
}

#[test]
fn vocabulary_filtering_is_idempotent() {
    let v = Vocabulary::new("ab".chars().collect());
    let raw: Vec<char> = "abcab!ba".chars().collect();
    let once = apply_vocab_filter(&v, &raw);
    let twice = apply_vocab_filter(&v, &once);
    assert_eq!(once, "ababba".chars().collect::<Vec<char>>());
    assert_eq!(twice, once);
}

#[test]
fn absent_backend_phonemizes_to_empty_string() {
    let p = for_lang("a");
    assert_eq!(p.phonemize("hello world", true), "");
    assert_eq!(p.phonemize("hello world", false), "");
}
