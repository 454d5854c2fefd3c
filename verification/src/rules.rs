//! The individual correction rules of the pipeline.
//!
//! Each rule comes as a specification over `Seq<char>` together with an
//! executable form proved against it: the one-to-one symbol normalization,
//! the three context-sensitive pattern rules (matcher and rewriter pairs
//! with zero-width lookaround conditions), and the final trim.
//! Lookaround conditions are decided on the original string: earlier
//! rewrites of the same rule never feed a later match of that rule.

use vstd::prelude::*;
use crate::rewrite::{find_match, matches_at};
use crate::text::str_chars;

verus! {

// ----------------------------------------------------------------------
// Symbol normalization: one-to-one character substitutions.
// ----------------------------------------------------------------------
/// Backend-specific symbol choices rewritten to the target symbol set:
/// palatalization mark to plain glide, approximant letterform to the
/// target rhotic, `x` to `k`, lateral fricative to plain lateral.
pub open spec fn normalize_symbol(c: char) -> char {
    if c == 'ʲ' {
        'j'
    } else if c == 'r' {
        'ɹ'
    } else if c == 'x' {
        'k'
    } else if c == 'ɬ' {
        'l'
    } else {
        c
    }
}

/// The whole string under the symbol substitutions.
pub open spec fn map_symbols(s: Seq<char>) -> Seq<char> {
    s.map_values(|c: char| normalize_symbol(c))
}

/// Applies the symbol substitutions to every character.
pub fn apply_symbol_map(s: &Vec<char>) -> (r: Vec<char>)
    ensures
        r@ == map_symbols(s@),
{
    let mut res: Vec<char> = Vec::new();
    let mut i: usize = 0;
    proof {
        assert(res@ =~= map_symbols(s@.take(0)));
    }
    while i < s.len()
        invariant
            i <= s@.len(),
            res@ == map_symbols(s@.take(i as int)),
        decreases s@.len() - i,
    {
        let c = s[i];
        let m = if c == 'ʲ' {
            'j'
        } else if c == 'r' {
            'ɹ'
        } else if c == 'x' {
            'k'
        } else if c == 'ɬ' {
            'l'
        } else {
            c
        };
        res.push(m);
        proof {
            assert(map_symbols(s@.take(i as int + 1)) =~= map_symbols(s@.take(i as int)).push(
                normalize_symbol(s@[i as int]),
            ));
        }
        i = i + 1;
    }
    proof {
        assert(s@.take(s@.len() as int) =~= s@);
    }
    res
}

// ----------------------------------------------------------------------
// Separating-space rule: two words fused by the backend.
// ----------------------------------------------------------------------
/// The multi-symbol sequence that loses its separating space.
pub open spec fn hundred() -> Seq<char> {
    "hˈʌndɹɪd"@
}

/// The letter classes allowed to precede the insertion point.
pub open spec fn fuse_left(c: char) -> bool {
    ('a' <= c && c <= 'z') || c == 'ɹ' || c == 'ː'
}

/// A separating space belongs at position `i`: the preceding character is
/// in the allowed class and the fused sequence follows, both zero-width
/// conditions on the surrounding text.
pub open spec fn space_cond(s: Seq<char>, i: int) -> bool {
    0 < i < s.len() && fuse_left(s[i - 1]) && matches_at(s, i, hundred())
}

/// The string from position `i` on, with a space inserted before every
/// later position that satisfies `space_cond`.
pub open spec fn space_fix_from(s: Seq<char>, i: int) -> Seq<char>
    decreases s.len() - i,
{
    if i < 0 || i >= s.len() {
        Seq::empty()
    } else if space_cond(s, i) {
        seq![' ', s[i]] + space_fix_from(s, i + 1)
    } else {
        seq![s[i]] + space_fix_from(s, i + 1)
    }
}

/// The whole string under the separating-space rule.
pub open spec fn space_fix(s: Seq<char>) -> Seq<char> {
    space_fix_from(s, 0)
}

/// Decides the preceding-letter class.
fn fuse_left_exec(c: char) -> (r: bool)
    ensures
        r == fuse_left(c),
{
    ('a' <= c && c <= 'z') || c == 'ɹ' || c == 'ː'
}

/// Inserts a separating space wherever the rule demands one.
pub fn apply_space_rule(s: &Vec<char>) -> (r: Vec<char>)
    ensures
        r@ == space_fix(s@),
{
    let pat = str_chars("hˈʌndɹɪd");
    let mut res: Vec<char> = Vec::new();
    let mut i: usize = 0;
    proof {
        assert(res@ + space_fix_from(s@, 0) =~= space_fix_from(s@, 0));
    }
    while i < s.len()
        invariant
            i <= s@.len(),
            pat@ == hundred(),
            res@ + space_fix_from(s@, i as int) == space_fix(s@),
        decreases s@.len() - i,
    {
        let ghost pre = res@;
        if i > 0 && fuse_left_exec(s[i - 1]) && find_match(s, i, &pat) {
            res.push(' ');
            res.push(s[i]);
            proof {
                assert(pre + (seq![' ', s@[i as int]] + space_fix_from(s@, i as int + 1)) =~= (
                pre.push(' ').push(s@[i as int])) + space_fix_from(s@, i as int + 1));
            }
        } else {
            res.push(s[i]);
            proof {
                assert(pre + (seq![s@[i as int]] + space_fix_from(s@, i as int + 1)) =~= pre.push(
                    s@[i as int],
                ) + space_fix_from(s@, i as int + 1));
            }
        }
        i = i + 1;
    }
    proof {
        assert(res@ + space_fix_from(s@, s@.len() as int) =~= res@);
    }
    res
}

// ----------------------------------------------------------------------
// Trailing-fricative rule: a spacing artifact around a plural or
// possessive marker collapses into the unmarked spelling.
// ----------------------------------------------------------------------
/// The punctuation symbols (or a space) recognized after the marker.
pub open spec fn pause_char(c: char) -> bool {
    c == ';' || c == ':' || c == ',' || c == '.' || c == '!' || c == '?' || c == '¡' || c == '¿'
        || c == '—' || c == '…' || c == '"' || c == '«' || c == '»' || c == ' '
}

/// The marked voiced fricative stands at position `i`: a space, then `z`,
/// followed by a recognized punctuation symbol or the end of the string.
pub open spec fn z_cond(s: Seq<char>, i: int) -> bool {
    0 <= i && i + 2 <= s.len() && s[i] == ' ' && s[i + 1] == 'z' && (i + 2 == s.len() || pause_char(
        s[i + 2],
    ))
}

/// The string from position `i` on, each marked span ` z` collapsed to `z`.
pub open spec fn z_fix_from(s: Seq<char>, i: int) -> Seq<char>
    decreases s.len() - i,
{
    if i < 0 || i >= s.len() {
        Seq::empty()
    } else if z_cond(s, i) {
        seq!['z'] + z_fix_from(s, i + 2)
    } else {
        seq![s[i]] + z_fix_from(s, i + 1)
    }
}

/// The whole string under the trailing-fricative rule.
pub open spec fn z_fix(s: Seq<char>) -> Seq<char> {
    z_fix_from(s, 0)
}

/// Decides the recognized punctuation class.
fn pause_char_exec(c: char) -> (r: bool)
    ensures
        r == pause_char(c),
{
    c == ';' || c == ':' || c == ',' || c == '.' || c == '!' || c == '?' || c == '¡' || c == '¿'
        || c == '—' || c == '…' || c == '"' || c == '«' || c == '»' || c == ' '
}

/// Collapses every marked span ` z` before punctuation or end of string.
pub fn apply_z_rule(s: &Vec<char>) -> (r: Vec<char>)
    ensures
        r@ == z_fix(s@),
{
    let n = s.len();
    let mut res: Vec<char> = Vec::new();
    let mut i: usize = 0;
    proof {
        assert(res@ + z_fix_from(s@, 0) =~= z_fix_from(s@, 0));
    }
    while i < n
        invariant
            n == s@.len(),
            i <= n,
            res@ + z_fix_from(s@, i as int) == z_fix(s@),
        decreases n - i,
    {
        let ghost pre = res@;
        if i + 1 < n && s[i] == ' ' && s[i + 1] == 'z' && (i + 2 == n || pause_char_exec(
            s[i + 2],
        )) {
            res.push('z');
            proof {
                assert(pre + (seq!['z'] + z_fix_from(s@, i as int + 2)) =~= pre.push('z')
                    + z_fix_from(s@, i as int + 2));
            }
            i = i + 2;
        } else {
            res.push(s[i]);
            proof {
                assert(!z_cond(s@, i as int));
                assert(pre + (seq![s@[i as int]] + z_fix_from(s@, i as int + 1)) =~= pre.push(
                    s@[i as int],
                ) + z_fix_from(s@, i as int + 1));
            }
            i = i + 1;
        }
    }
    proof {
        assert(res@ + z_fix_from(s@, n as int) =~= res@);
    }
    res
}

proof fn lemma_z_fix_from_tail(s: Seq<char>, i: int)
    requires
        s.len() >= 2,
        s[s.len() - 2] == ' ',
        s[s.len() - 1] == 'z',
        0 <= i <= s.len() - 2,
    ensures
        z_fix_from(s, i) == z_fix_from(s.take(s.len() - 2), i) + seq!['z'],
    decreases s.len() - i,
{
    let n = s.len() as int;
    let p = s.take(n - 2);
    if i == n - 2 {
        assert(z_cond(s, i));
        assert(z_fix_from(s, n) =~= Seq::<char>::empty());
        assert(z_fix_from(p, i) =~= Seq::<char>::empty());
        assert(seq!['z'] + Seq::<char>::empty() =~= Seq::<char>::empty() + seq!['z']);
    } else if i == n - 3 {
        assert(!z_cond(s, i));
        assert(!z_cond(p, i));
        lemma_z_fix_from_tail(s, i + 1);
        assert(seq![s[i]] + (z_fix_from(p, i + 1) + seq!['z']) =~= (seq![p[i]] + z_fix_from(
            p,
            i + 1,
        )) + seq!['z']);
    } else {
        assert(z_cond(s, i) == z_cond(p, i)) by {
            if i + 2 == n - 2 {
                assert(pause_char(s[n - 2]));
            }
        }
        if z_cond(s, i) {
            lemma_z_fix_from_tail(s, i + 2);
            assert(seq!['z'] + (z_fix_from(p, i + 2) + seq!['z']) =~= (seq!['z'] + z_fix_from(
                p,
                i + 2,
            )) + seq!['z']);
        } else {
            lemma_z_fix_from_tail(s, i + 1);
            assert(seq![s[i]] + (z_fix_from(p, i + 1) + seq!['z']) =~= (seq![p[i]] + z_fix_from(
                p,
                i + 1,
            )) + seq!['z']);
        }
    }
}

/// A string ending in the marked voiced fricative ` z` at the end of the
/// string has exactly that final marker collapsed into the unmarked
/// spelling `z`; what precedes it is rewritten as it would be on its own.
pub proof fn lemma_z_fix_trailing(s: Seq<char>)
    requires
        s.len() >= 2,
        s[s.len() - 2] == ' ',
        s[s.len() - 1] == 'z',
    ensures
        z_fix(s) == z_fix(s.take(s.len() - 2)) + seq!['z'],
{
    lemma_z_fix_from_tail(s, 0);
}

proof fn lemma_z_fix_from_tail_punct(s: Seq<char>, i: int)
    requires
        s.len() >= 3,
        s[s.len() - 3] == ' ',
        s[s.len() - 2] == 'z',
        pause_char(s[s.len() - 1]),
        0 <= i <= s.len() - 3,
    ensures
        z_fix_from(s, i) == z_fix_from(s.take(s.len() - 3), i) + seq!['z', s[s.len() - 1]],
    decreases s.len() - i,
{
    let n = s.len() as int;
    let p = s.take(n - 3);
    if i == n - 3 {
        assert(z_cond(s, i));
        assert(!z_cond(s, n - 1));
        assert(z_fix_from(s, n) =~= Seq::<char>::empty());
        assert(z_fix_from(s, n - 1) == seq![s[n - 1]] + z_fix_from(s, n));
        assert(z_fix_from(s, n - 1) =~= seq![s[n - 1]]);
        assert(z_fix_from(s, i) == seq!['z'] + z_fix_from(s, n - 1));
        assert(z_fix_from(s, i) =~= seq!['z', s[n - 1]]);
        assert(z_fix_from(p, i) =~= Seq::<char>::empty());
        assert(Seq::<char>::empty() + seq!['z', s[n - 1]] =~= seq!['z', s[n - 1]]);
    } else if i == n - 4 {
        assert(!z_cond(s, i));
        assert(!z_cond(p, i));
        lemma_z_fix_from_tail_punct(s, i + 1);
        assert(seq![s[i]] + (z_fix_from(p, i + 1) + seq!['z', s[n - 1]]) =~= (seq![p[i]]
            + z_fix_from(p, i + 1)) + seq!['z', s[n - 1]]);
    } else {
        assert(z_cond(s, i) == z_cond(p, i)) by {
            if i + 2 == n - 3 {
                assert(pause_char(s[n - 3]));
            }
        }
        if z_cond(s, i) {
            lemma_z_fix_from_tail_punct(s, i + 2);
            assert(seq!['z'] + (z_fix_from(p, i + 2) + seq!['z', s[n - 1]]) =~= (seq!['z']
                + z_fix_from(p, i + 2)) + seq!['z', s[n - 1]]);
        } else {
            lemma_z_fix_from_tail_punct(s, i + 1);
            assert(seq![s[i]] + (z_fix_from(p, i + 1) + seq!['z', s[n - 1]]) =~= (seq![p[i]]
                + z_fix_from(p, i + 1)) + seq!['z', s[n - 1]]);
        }
    }
}

/// A string ending in the marked voiced fricative ` z` followed by one
/// recognized punctuation symbol has that marker collapsed into the
/// unmarked spelling `z`, the punctuation kept; what precedes it is
/// rewritten as it would be on its own.
pub proof fn lemma_z_fix_trailing_punct(s: Seq<char>)
    requires
        s.len() >= 3,
        s[s.len() - 3] == ' ',
        s[s.len() - 2] == 'z',
        pause_char(s[s.len() - 1]),
    ensures
        z_fix(s) == z_fix(s.take(s.len() - 3)) + seq!['z', s[s.len() - 1]],
{
    lemma_z_fix_from_tail_punct(s, 0);
}

proof fn lemma_z_fix_from_id(s: Seq<char>, i: int)
    requires
        0 <= i <= s.len(),
        forall|j: int| !z_cond(s, j),
    ensures
        z_fix_from(s, i) == s.skip(i),
    decreases s.len() - i,
{
    if i >= s.len() {
        assert(s.skip(i) =~= Seq::<char>::empty());
    } else {
        lemma_z_fix_from_id(s, i + 1);
        assert(seq![s[i]] + s.skip(i + 1) =~= s.skip(i));
    }
}

/// A string in which no position satisfies the rule's conditions — for
/// one, a voiced fricative mid-string followed by a letter — is left
/// untouched by the trailing-fricative rule.
pub proof fn lemma_z_fix_untouched(s: Seq<char>)
    requires
        forall|j: int| !z_cond(s, j),
    ensures
        z_fix(s) == s,
{
    lemma_z_fix_from_id(s, 0);
    assert(s.skip(0) =~= s);
}

// ----------------------------------------------------------------------
// Numeral-suffix rule: a `-ty` ending after a specific preceding phoneme,
// active for one designated language only.
// ----------------------------------------------------------------------
/// The phoneme sequence that must immediately precede the suffix.
pub open spec fn ninety_left() -> Seq<char> {
    "nˈaɪn"@
}

/// The mispronounced suffix `ti` stands at position `i`: the preceding
/// five symbols spell the trigger phoneme, and no length mark follows.
pub open spec fn ninety_cond(s: Seq<char>, i: int) -> bool {
    5 <= i && i + 2 <= s.len() && matches_at(s, i - 5, ninety_left()) && s[i] == 't' && s[i + 1]
        == 'i' && (i + 2 == s.len() || s[i + 2] != 'ː')
}

/// The string from position `i` on, each mispronounced suffix rewritten
/// to `di`. The lookbehind reads the original string, as lookaround
/// conditions do.
pub open spec fn ninety_fix_from(s: Seq<char>, i: int) -> Seq<char>
    decreases s.len() - i,
{
    if i < 0 || i >= s.len() {
        Seq::empty()
    } else if ninety_cond(s, i) {
        seq!['d', 'i'] + ninety_fix_from(s, i + 2)
    } else {
        seq![s[i]] + ninety_fix_from(s, i + 1)
    }
}

/// The whole string under the numeral-suffix rule.
pub open spec fn ninety_fix(s: Seq<char>) -> Seq<char> {
    ninety_fix_from(s, 0)
}

/// Rewrites every mispronounced numeral suffix.
pub fn apply_ninety_rule(s: &Vec<char>) -> (r: Vec<char>)
    ensures
        r@ == ninety_fix(s@),
{
    let pat = str_chars("nˈaɪn");
    let n = s.len();
    let mut res: Vec<char> = Vec::new();
    let mut i: usize = 0;
    proof {
        assert(res@ + ninety_fix_from(s@, 0) =~= ninety_fix_from(s@, 0));
    }
    while i < n
        invariant
            n == s@.len(),
            i <= n,
            pat@ == ninety_left(),
            res@ + ninety_fix_from(s@, i as int) == ninety_fix(s@),
        decreases n - i,
    {
        let ghost pre = res@;
        if i >= 5 && i + 1 < n && s[i] == 't' && s[i + 1] == 'i' && (i + 2 == n || s[i + 2]
            != 'ː') && find_match(s, i - 5, &pat) {
            res.push('d');
            res.push('i');
            proof {
                assert(pre + (seq!['d', 'i'] + ninety_fix_from(s@, i as int + 2)) =~= pre.push(
                    'd',
                ).push('i') + ninety_fix_from(s@, i as int + 2));
            }
            i = i + 2;
        } else {
            res.push(s[i]);
            proof {
                assert(!ninety_cond(s@, i as int));
                assert(pre + (seq![s@[i as int]] + ninety_fix_from(s@, i as int + 1)) =~= pre.push(
                    s@[i as int],
                ) + ninety_fix_from(s@, i as int + 1));
            }
            i = i + 1;
        }
    }
    proof {
        assert(res@ + ninety_fix_from(s@, n as int) =~= res@);
    }
    res
}

proof fn lemma_ninety_fix_from_id(s: Seq<char>, i: int)
    requires
        0 <= i <= s.len(),
        forall|j: int| !ninety_cond(s, j),
    ensures
        ninety_fix_from(s, i) == s.skip(i),
    decreases s.len() - i,
{
    if i >= s.len() {
        assert(s.skip(i) =~= Seq::<char>::empty());
    } else {
        lemma_ninety_fix_from_id(s, i + 1);
        assert(seq![s[i]] + s.skip(i + 1) =~= s.skip(i));
    }
}

/// A string in which no position carries the mispronounced suffix after
/// the trigger phoneme is left untouched by the numeral-suffix rule.
pub proof fn lemma_ninety_fix_untouched(s: Seq<char>)
    requires
        forall|j: int| !ninety_cond(s, j),
    ensures
        ninety_fix(s) == s,
{
    lemma_ninety_fix_from_id(s, 0);
    assert(s.skip(0) =~= s);
}

// ----------------------------------------------------------------------
// Trim: leading and trailing whitespace removed.
// ----------------------------------------------------------------------
/// A whitespace character.
pub open spec fn blank(c: char) -> bool {
    c == '\u{9}' || c == '\u{a}' || c == '\u{b}' || c == '\u{c}' || c == '\u{d}' || c == ' '
        || c == '\u{85}' || c == '\u{a0}' || c == '\u{1680}' || ('\u{2000}' <= c && c
        <= '\u{200a}') || c == '\u{2028}' || c == '\u{2029}' || c == '\u{202f}' || c == '\u{205f}'
        || c == '\u{3000}'
}

/// The string without its leading whitespace.
pub open spec fn trim_front(s: Seq<char>) -> Seq<char>
    decreases s.len(),
{
    if s.len() > 0 && blank(s[0]) {
        trim_front(s.skip(1))
    } else {
        s
    }
}

/// The string without its trailing whitespace.
pub open spec fn trim_back(s: Seq<char>) -> Seq<char>
    decreases s.len(),
{
    if s.len() > 0 && blank(s.last()) {
        trim_back(s.drop_last())
    } else {
        s
    }
}

/// The string without leading and trailing whitespace.
pub open spec fn trim(s: Seq<char>) -> Seq<char> {
    trim_back(trim_front(s))
}

/// Trimming the front only removes a prefix: the result is a suffix of
/// the string.
pub proof fn lemma_trim_front_is_suffix(s: Seq<char>)
    ensures
        exists|k: int| 0 <= k <= s.len() && trim_front(s) == s.skip(k),
    decreases s.len(),
{
    if s.len() > 0 && blank(s[0]) {
        lemma_trim_front_is_suffix(s.skip(1));
        let k = choose|k: int| 0 <= k <= s.skip(1).len() && trim_front(s.skip(1)) == s.skip(
            1,
        ).skip(k);
        assert(s.skip(1).skip(k) =~= s.skip(k + 1));
        assert(trim_front(s) == s.skip(k + 1));
    } else {
        assert(s.skip(0) =~= s);
        assert(trim_front(s) == s.skip(0));
    }
}

/// Trimming the back only removes a suffix: the result is a prefix of
/// the string.
pub proof fn lemma_trim_back_is_prefix(s: Seq<char>)
    ensures
        exists|k: int| 0 <= k <= s.len() && trim_back(s) == s.take(k),
    decreases s.len(),
{
    if s.len() > 0 && blank(s.last()) {
        lemma_trim_back_is_prefix(s.drop_last());
        let k = choose|k: int| 0 <= k <= s.drop_last().len() && trim_back(s.drop_last()) == s
            .drop_last().take(k);
        assert(s.drop_last().take(k) =~= s.take(k));
        assert(trim_back(s) == s.take(k));
    } else {
        assert(s.take(s.len() as int) =~= s);
        assert(trim_back(s) == s.take(s.len() as int));
    }
}

/// Decides whitespace.
fn blank_exec(c: char) -> (r: bool)
    ensures
        r == blank(c),
{
    c == '\u{9}' || c == '\u{a}' || c == '\u{b}' || c == '\u{c}' || c == '\u{d}' || c == ' '
        || c == '\u{85}' || c == '\u{a0}' || c == '\u{1680}' || ('\u{2000}' <= c && c
        <= '\u{200a}') || c == '\u{2028}' || c == '\u{2029}' || c == '\u{202f}' || c == '\u{205f}'
        || c == '\u{3000}'
}

/// Removes leading and trailing whitespace.
pub fn apply_trim(s: &Vec<char>) -> (r: Vec<char>)
    ensures
        r@ == trim(s@),
{
    let n = s.len();
    let mut start: usize = 0;
    proof {
        assert(s@.skip(0) =~= s@);
    }
    while start < n && blank_exec(s[start])
        invariant
            n == s@.len(),
            start <= n,
            trim_front(s@.skip(start as int)) == trim_front(s@),
        decreases n - start,
    {
        proof {
            assert(s@.skip(start as int).skip(1) =~= s@.skip(start as int + 1));
        }
        start = start + 1;
    }
    proof {
        assert(trim_front(s@) == s@.skip(start as int));
    }
    let mut end: usize = n;
    proof {
        assert(s@.subrange(start as int, n as int) =~= s@.skip(start as int));
    }
    while end > start && blank_exec(s[end - 1])
        invariant
            n == s@.len(),
            start <= end <= n,
            trim_back(s@.subrange(start as int, end as int)) == trim_back(trim_front(s@)),
        decreases end,
    {
        proof {
            assert(s@.subrange(start as int, end as int).drop_last() =~= s@.subrange(
                start as int,
                end as int - 1,
            ));
        }
        end = end - 1;
    }
    proof {
        assert(trim(s@) == s@.subrange(start as int, end as int));
    }
    let mut res: Vec<char> = Vec::new();
    let mut k: usize = start;
    while k < end
        invariant
            start <= k <= end <= s@.len(),
            res@ == s@.subrange(start as int, k as int),
        decreases end - k,
    {
        res.push(s[k]);
        proof {
            assert(s@.subrange(start as int, k as int + 1) =~= s@.subrange(
                start as int,
                k as int,
            ).push(s@[k as int]));
        }
        k = k + 1;
    }
    res
}

} // verus!
