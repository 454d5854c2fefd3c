//! Language resolution and construction-time failures.

use phonemizer::{BackendError, Phonemizer, Vocabulary};

fn vocab_of(symbols: &str) -> Vocabulary {
    Vocabulary::new(symbols.chars().collect())
}

#[test]
fn resolves_every_supported_tag() {
    assert_eq!(Phonemizer::lang_code("a"), Some("en-us"));
    assert_eq!(Phonemizer::lang_code("b"), Some("en-gb"));
    assert_eq!(Phonemizer::lang_code("e"), Some("es"));
    assert_eq!(Phonemizer::lang_code("f"), Some("fr-fr"));
    assert_eq!(Phonemizer::lang_code("h"), Some("hi"));
    assert_eq!(Phonemizer::lang_code("i"), Some("it"));
    assert_eq!(Phonemizer::lang_code("p"), Some("pt-br"));
}

#[test]
fn rejects_tags_outside_the_fixed_set() {
    assert_eq!(Phonemizer::lang_code("c"), None);
    assert_eq!(Phonemizer::lang_code("en"), None);
    assert_eq!(Phonemizer::lang_code("en-us"), None);
    assert_eq!(Phonemizer::lang_code(""), None);
    assert_eq!(Phonemizer::lang_code("A"), None);
}

#[test]
fn construction_succeeds_for_supported_tags() {
    for tag in ["a", "b", "e", "f", "h", "i", "p"] {
        assert!(Phonemizer::new(tag, vocab_of("ab")).is_ok());
    }
}

#[test]
fn construction_fails_with_unsupported_language() {
    let r = Phonemizer::new("zz", vocab_of("ab"));
    match r {
        Err(BackendError::UnsupportedLanguage(tag)) => assert_eq!(tag, "zz"),
        _ => panic!("expected UnsupportedLanguage"),
    }
}

#[test]
fn error_messages_name_the_failure() {
    let unsupported = BackendError::UnsupportedLanguage(String::from("q"));
    assert_eq!(unsupported.message(), "Unsupported language: q");
    let no_espeak = BackendError::NoEspeakForLanguage(String::from("z"));
    assert_eq!(
        no_espeak.message(),
        "Espeak backend not used for language: z (Chinese/Japanese)"
    );
    let init = BackendError::EspeakInitFailed;
    assert_eq!(init.message(), "Failed to initialize Espeak backend");
}
