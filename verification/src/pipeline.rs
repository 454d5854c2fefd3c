//! The correction pipeline.
//!
//! One raw phoneme string passes, in this exact order, through the literal
//! lexical fix-ups, the symbol normalization, the three context-sensitive
//! pattern rules, the vocabulary filter, and the final trim. The order is
//! part of the contract: later rules see the rewrites of earlier ones.

use vstd::prelude::*;
use crate::rewrite::{replace_all, replace_all_chars};
use crate::rules::{
    apply_ninety_rule, apply_space_rule, apply_symbol_map, apply_trim, apply_z_rule,
    lemma_trim_back_is_prefix, lemma_trim_front_is_suffix, map_symbols, ninety_fix, space_fix,
    trim, trim_back, trim_front, z_fix,
};
use crate::text::{str_chars, str_eq};
use crate::vocab::{apply_vocab_filter, lemma_vocab_filter_members, vocab_filter, Vocabulary};

verus! {

/// A known mis-rendering of the product name, and its canonical phonetic
/// spelling.
pub open spec fn misrender_one() -> Seq<char> {
    "kəkˈoːɹoʊ"@
}

/// The canonical spelling that replaces the first mis-rendering.
pub open spec fn canonical_one() -> Seq<char> {
    "kˈoʊkəɹoʊ"@
}

/// The second known mis-rendering of the product name.
pub open spec fn misrender_two() -> Seq<char> {
    "kəkˈɔːɹəʊ"@
}

/// The canonical spelling that replaces the second mis-rendering.
pub open spec fn canonical_two() -> Seq<char> {
    "kˈəʊkəɹəʊ"@
}

/// The one language tag for which the numeral-suffix rule is active.
pub open spec fn numeral_lang() -> Seq<char> {
    "a"@
}

/// Both literal whole-span fix-ups, first spelling first.
pub open spec fn lexical_fixups(s: Seq<char>) -> Seq<char> {
    replace_all(
        replace_all(s, misrender_one(), canonical_one()),
        misrender_two(),
        canonical_two(),
    )
}

/// The full pipeline: lexical fix-ups, symbol normalization, the
/// separating-space rule, the trailing-fricative rule, the numeral-suffix
/// rule when the language is the designated one, vocabulary filtering,
/// and the trim.
pub open spec fn corrected(lang: Seq<char>, vocab: Set<char>, raw: Seq<char>) -> Seq<char> {
    let fixed = lexical_fixups(raw);
    let mapped = map_symbols(fixed);
    let spaced = space_fix(mapped);
    let collapsed = z_fix(spaced);
    let gated = if lang == numeral_lang() {
        ninety_fix(collapsed)
    } else {
        collapsed
    };
    trim(vocab_filter(vocab, gated))
}

/// Applies both literal fix-ups.
pub fn apply_lexical_fixups(s: &Vec<char>) -> (r: Vec<char>)
    ensures
        r@ == lexical_fixups(s@),
{
    proof {
        reveal_strlit("kəkˈoːɹoʊ");
        reveal_strlit("kəkˈɔːɹəʊ");
    }
    let pat_one = str_chars("kəkˈoːɹoʊ");
    let rep_one = str_chars("kˈoʊkəɹoʊ");
    let pat_two = str_chars("kəkˈɔːɹəʊ");
    let rep_two = str_chars("kˈəʊkəɹəʊ");
    let once = replace_all_chars(s, &pat_one, &rep_one);
    replace_all_chars(&once, &pat_two, &rep_two)
}

/// Runs the whole pipeline for the given resolved language tag.
pub fn run(lang: &str, vocab: &Vocabulary, raw: &Vec<char>) -> (r: Vec<char>)
    ensures
        r@ == corrected(lang@, vocab@, raw@),
{
    let fixed = apply_lexical_fixups(raw);
    let mapped = apply_symbol_map(&fixed);
    let spaced = apply_space_rule(&mapped);
    let collapsed = apply_z_rule(&spaced);
    let gated = if str_eq(lang, "a") {
        apply_ninety_rule(&collapsed)
    } else {
        collapsed
    };
    let kept = apply_vocab_filter(vocab, &gated);
    apply_trim(&kept)
}

/// The pipeline applied to an empty raw phoneme string returns an empty
/// string: every stage carries emptiness through.
pub proof fn lemma_corrected_empty(lang: Seq<char>, vocab: Set<char>)
    ensures
        corrected(lang, vocab, Seq::<char>::empty()) == Seq::<char>::empty(),
{
    let e = Seq::<char>::empty();
    assert(lexical_fixups(e) == e);
    assert(map_symbols(e) =~= e);
    assert(space_fix(e) =~= e);
    assert(z_fix(e) =~= e);
    assert(ninety_fix(e) =~= e);
    assert(vocab_filter(vocab, e) == e);
    assert(trim(e) == e);
}

/// The hard invariant of the pipeline: whatever the language and the raw
/// backend output, every symbol of the final string is in the vocabulary.
pub proof fn lemma_corrected_in_vocabulary(lang: Seq<char>, vocab: Set<char>, raw: Seq<char>)
    ensures
        forall|i: int|
            0 <= i < corrected(lang, vocab, raw).len() ==> vocab.contains(
                #[trigger] corrected(lang, vocab, raw)[i],
            ),
{
    let gated = if lang == numeral_lang() {
        ninety_fix(z_fix(space_fix(map_symbols(lexical_fixups(raw)))))
    } else {
        z_fix(space_fix(map_symbols(lexical_fixups(raw))))
    };
    let kept = vocab_filter(vocab, gated);
    lemma_vocab_filter_members(vocab, gated);
    lemma_trim_front_is_suffix(kept);
    let k1 = choose|k: int| 0 <= k <= kept.len() && trim_front(kept) == kept.skip(k);
    lemma_trim_back_is_prefix(kept.skip(k1));
    let k2 = choose|k: int|
        0 <= k <= kept.skip(k1).len() && trim_back(kept.skip(k1)) == kept.skip(k1).take(k);
    assert forall|i: int| 0 <= i < corrected(lang, vocab, raw).len() implies vocab.contains(
        #[trigger] corrected(lang, vocab, raw)[i],
    ) by {
        assert(corrected(lang, vocab, raw)[i] == kept[k1 + i]);
    }
}

/// The numeral-suffix rule is gated on the one designated language code:
/// for any two languages other than that code, the pipeline rewrites any
/// raw string identically — in particular the suffix is never rewritten.
pub proof fn lemma_numeral_rule_gated(
    lang_one: Seq<char>,
    lang_two: Seq<char>,
    vocab: Set<char>,
    raw: Seq<char>,
)
    requires
        lang_one != numeral_lang(),
        lang_two != numeral_lang(),
    ensures
        corrected(lang_one, vocab, raw) == corrected(lang_two, vocab, raw),
{
}

} // verus!
