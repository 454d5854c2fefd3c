//! A language-aware phoneme post-processing library.
//!
//! Raw phoneme strings produced by an external grapheme-to-phoneme backend
//! carry systematic errors and symbols outside the vocabulary that the
//! downstream synthesis model accepts. This crate resolves short language
//! tags to backend locale identifiers, and runs a deterministic correction
//! pipeline over one raw phoneme string: literal lexical fix-ups, symbol
//! normalization, context-sensitive pattern rules, vocabulary filtering,
//! and a final trim.

pub mod phonemizer;
pub mod pipeline;
pub mod rewrite;
pub mod rules;
pub mod text;
pub mod vocab;

pub use crate::phonemizer::BackendError;
pub use crate::phonemizer::Phonemizer;
pub use crate::vocab::Vocabulary;
