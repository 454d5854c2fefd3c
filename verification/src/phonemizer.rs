//! The phonemizer: language resolution, the backend adapter, and the
//! orchestration of one phonemize call.
//!
//! Construction resolves a short language tag to the canonical backend
//! locale identifier and fixes language and vocabulary for the lifetime
//! of the instance. The grapheme-to-phoneme backend itself is an external
//! collaborator: the adapter here only carries its batch-in, batch-out
//! contract and its failure mode — absence of a result, never a panic.

use vstd::prelude::*;
use vstd::string::StringExecFns;
use crate::pipeline::{corrected, lemma_corrected_empty, run};
use crate::text::{chars_string, str_chars, str_eq};
use crate::vocab::Vocabulary;

verus! {

/// A construction-time failure of the phonemizer.
#[derive(Debug, PartialEq)]
pub enum BackendError {
    /// The requested language tag is not in the known set.
    UnsupportedLanguage(String),
    /// Reserved for languages whose phonemization must bypass the espeak
    /// backend entirely.
    NoEspeakForLanguage(String),
    /// The espeak backend could not be started.
    EspeakInitFailed,
}

impl BackendError {
    /// A human-readable description of the failure.
    pub fn message(&self) -> (m: String)
        ensures
            self matches BackendError::UnsupportedLanguage(l) ==> m@ == "Unsupported language: "@
                + l@,
            self matches BackendError::NoEspeakForLanguage(l) ==> m@
                == "Espeak backend not used for language: "@ + l@ + " (Chinese/Japanese)"@,
            self is EspeakInitFailed ==> m@ == "Failed to initialize Espeak backend"@,
    {
        match self {
            BackendError::UnsupportedLanguage(l) => {
                let mut m = String::from_str("Unsupported language: ");
                m.append(l.as_str());
                m
            },
            BackendError::NoEspeakForLanguage(l) => {
                let mut m = String::from_str("Espeak backend not used for language: ");
                m.append(l.as_str());
                m.append(" (Chinese/Japanese)");
                m
            },
            BackendError::EspeakInitFailed => String::from_str(
                "Failed to initialize Espeak backend",
            ),
        }
    }
}

/// The canonical locale identifier for a supported short language tag.
pub open spec fn spec_lang_code(lang: Seq<char>) -> Option<Seq<char>> {
    if lang == "a"@ {
        Some("en-us"@)
    } else if lang == "b"@ {
        Some("en-gb"@)
    } else if lang == "e"@ {
        Some("es"@)
    } else if lang == "f"@ {
        Some("fr-fr"@)
    } else if lang == "h"@ {
        Some("hi"@)
    } else if lang == "i"@ {
        Some("it"@)
    } else if lang == "p"@ {
        Some("pt-br"@)
    } else {
        None
    }
}

/// The adapter around the external espeak engine. It keeps the locale and
/// the options the backend would be started with.
struct EspeakBackend {
    language: String,
    preserve_punctuation: bool,
    with_stress: bool,
}

impl EspeakBackend {
    fn new(language: &str, preserve_punctuation: bool, with_stress: bool) -> (b: EspeakBackend)
        ensures
            b.language@ == language@,
            b.preserve_punctuation == preserve_punctuation,
            b.with_stress == with_stress,
    {
        EspeakBackend { language: language.to_owned(), preserve_punctuation, with_stress }
    }

    /// One raw phoneme string per input text, in order — or no result as
    /// a whole when the engine cannot process the batch. The engine is an
    /// external collaborator and no binding to it is linked here, so this
    /// adapter always reports absence; the caller must absorb that as an
    /// empty phoneme string.
    fn phonemize(&self, text: &Vec<String>) -> (r: Option<Vec<String>>)
        ensures
            r is None,
            r matches Some(phonemes) ==> phonemes@.len() == text@.len(),
    {
        None
    }
}

/// The orchestrator: a resolved language, its backend adapter, and the
/// symbol vocabulary, all fixed at construction.
pub struct Phonemizer {
    lang: String,
    backend: EspeakBackend,
    vocab: Vocabulary,
}

impl Phonemizer {
    /// The language tag the phonemizer was built for.
    pub closed spec fn spec_lang(&self) -> Seq<char> {
        self.lang@
    }

    /// The canonical locale identifier handed to the backend.
    pub closed spec fn spec_locale(&self) -> Seq<char> {
        self.backend.language@
    }

    /// The symbols the pipeline may let through.
    pub closed spec fn spec_vocab(&self) -> Set<char> {
        self.vocab@
    }

    /// Resolves the language tag: the canonical locale identifier for a
    /// supported tag, nothing for any other string.
    pub fn lang_code(lang: &str) -> (r: Option<&'static str>)
        ensures
            match r {
                Some(code) => spec_lang_code(lang@) == Some(code@),
                None => spec_lang_code(lang@) is None,
            },
    {
        if str_eq(lang, "a") {
            Some("en-us")
        } else if str_eq(lang, "b") {
            Some("en-gb")
        } else if str_eq(lang, "e") {
            Some("es")
        } else if str_eq(lang, "f") {
            Some("fr-fr")
        } else if str_eq(lang, "h") {
            Some("hi")
        } else if str_eq(lang, "i") {
            Some("it")
        } else if str_eq(lang, "p") {
            Some("pt-br")
        } else {
            None
        }
    }

    fn build_backend(lang: &str) -> (r: Result<EspeakBackend, BackendError>)
        ensures
            spec_lang_code(lang@) is Some <==> r is Ok,
            r matches Ok(b) ==> Some(b.language@) == spec_lang_code(lang@)
                && b.preserve_punctuation && b.with_stress,
            r matches Err(e) ==> e matches BackendError::UnsupportedLanguage(t) && t@ == lang@,
    {
        match Self::lang_code(lang) {
            Some(code) => Ok(EspeakBackend::new(code, true, true)),
            None => Err(BackendError::UnsupportedLanguage(lang.to_owned())),
        }
    }

    /// Builds a phonemizer for the tag, or fails with
    /// `UnsupportedLanguage` exactly when the tag is not a known code.
    pub fn new(lang: &str, vocab: Vocabulary) -> (r: Result<Phonemizer, BackendError>)
        ensures
            spec_lang_code(lang@) is Some <==> r is Ok,
            r matches Ok(p) ==> p.spec_lang() == lang@ && Some(p.spec_locale()) == spec_lang_code(
                lang@,
            ) && p.spec_vocab() == vocab@,
            r matches Err(e) ==> e matches BackendError::UnsupportedLanguage(t) && t@ == lang@,
    {
        let backend = match Self::build_backend(lang) {
            Ok(b) => b,
            Err(e) => {
                return Err(e);
            },
        };
        Ok(Phonemizer { lang: lang.to_owned(), backend, vocab })
    }

    /// Runs the correction pipeline over one raw phoneme string from the
    /// backend, for this phonemizer's language and vocabulary.
    pub fn correct(&self, raw: &str) -> (r: String)
        ensures
            r@ == corrected(self.spec_lang(), self.spec_vocab(), raw@),
    {
        let chars = str_chars(raw);
        let out = run(self.lang.as_str(), &self.vocab, &chars);
        chars_string(&out)
    }

    /// Phonemizes one text: the backend turns the (externally normalized,
    /// when asked for) text into a raw phoneme string — an absent backend
    /// result counts as an empty one — and the correction pipeline cleans
    /// it. Text normalization belongs to an external collaborator; absent
    /// that collaborator the text reaches the backend as given.
    #[allow(unused_variables)]
    pub fn phonemize(&self, text: &str, normalize: bool) -> (r: String)
        ensures
            r@ == corrected(self.spec_lang(), self.spec_vocab(), Seq::<char>::empty()),
            r@ == Seq::<char>::empty(),
    {
        let mut batch: Vec<String> = Vec::new();
        batch.push(text.to_owned());
        let raw = match self.backend.phonemize(&batch) {
            Some(phonemes) => {
                proof {
                    assert(false);
                }
                phonemes[0].clone()
            },
            None => String::new(),
        };
        let r = self.correct(raw.as_str());
        proof {
            lemma_corrected_empty(self.spec_lang(), self.spec_vocab());
        }
        r
    }
}

} // verus!
