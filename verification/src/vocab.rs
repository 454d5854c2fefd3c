//! The symbol vocabulary of the downstream model.
//!
//! An immutable table of accepted symbols, built once from a fixed,
//! externally defined symbol list; membership is the sole operation the
//! correction pipeline needs from it.

use vstd::prelude::*;

verus! {

/// The set of symbols the downstream synthesis model accepts. The symbol
/// list gives each symbol its integer id, the position it stands at.
pub struct Vocabulary {
    symbols: Vec<char>,
}

impl View for Vocabulary {
    type V = Set<char>;

    closed spec fn view(&self) -> Set<char> {
        self.symbols@.to_set()
    }
}

impl Vocabulary {
    /// Builds the table from the accepted symbol list.
    pub fn new(symbols: Vec<char>) -> (v: Vocabulary)
        ensures
            v@ == symbols@.to_set(),
    {
        Vocabulary { symbols }
    }

    /// Membership of one symbol.
    pub fn contains(&self, c: char) -> (r: bool)
        ensures
            r == self@.contains(c),
    {
        let mut i: usize = 0;
        while i < self.symbols.len()
            invariant
                i <= self.symbols@.len(),
                forall|k: int| 0 <= k < i ==> self.symbols@[k] != c,
            decreases self.symbols@.len() - i,
        {
            if self.symbols[i] == c {
                proof {
                    assert(self.symbols@.contains(c));
                }
                return true;
            }
            i = i + 1;
        }
        proof {
            assert(!self.symbols@.contains(c));
        }
        false
    }
}

/// The string restricted to symbols of the vocabulary, in order.
pub open spec fn vocab_filter(vocab: Set<char>, s: Seq<char>) -> Seq<char>
    decreases s.len(),
{
    if s.len() == 0 {
        s
    } else if vocab.contains(s[0]) {
        seq![s[0]] + vocab_filter(vocab, s.skip(1))
    } else {
        vocab_filter(vocab, s.skip(1))
    }
}

/// Drops every symbol that is not in the vocabulary.
pub fn apply_vocab_filter(vocab: &Vocabulary, s: &Vec<char>) -> (r: Vec<char>)
    ensures
        r@ == vocab_filter(vocab@, s@),
{
    let n = s.len();
    let mut res: Vec<char> = Vec::new();
    let mut i: usize = 0;
    proof {
        assert(res@ + vocab_filter(vocab@, s@) =~= vocab_filter(vocab@, s@));
        assert(s@.skip(0) =~= s@);
    }
    while i < n
        invariant
            n == s@.len(),
            i <= n,
            res@ + vocab_filter(vocab@, s@.skip(i as int)) == vocab_filter(vocab@, s@),
        decreases n - i,
    {
        let ghost pre = res@;
        let ghost tail = s@.skip(i as int);
        proof {
            assert(tail[0] == s@[i as int]);
            assert(tail.skip(1) =~= s@.skip(i as int + 1));
        }
        if vocab.contains(s[i]) {
            res.push(s[i]);
            proof {
                assert(pre + (seq![tail[0]] + vocab_filter(vocab@, s@.skip(i as int + 1))) =~= pre
                    .push(s@[i as int]) + vocab_filter(vocab@, s@.skip(i as int + 1)));
            }
        }
        i = i + 1;
    }
    proof {
        assert(s@.skip(n as int) =~= Seq::<char>::empty());
        assert(res@ + vocab_filter(vocab@, Seq::<char>::empty()) =~= res@);
    }
    res
}

/// Vocabulary filtering is idempotent: a string already restricted to the
/// vocabulary is left exactly as it is.
pub proof fn lemma_vocab_filter_idempotent(vocab: Set<char>, s: Seq<char>)
    ensures
        vocab_filter(vocab, vocab_filter(vocab, s)) == vocab_filter(vocab, s),
    decreases s.len(),
{
    if s.len() == 0 {
    } else {
        lemma_vocab_filter_idempotent(vocab, s.skip(1));
        if vocab.contains(s[0]) {
            let rest = vocab_filter(vocab, s.skip(1));
            assert((seq![s[0]] + rest)[0] == s[0]);
            assert((seq![s[0]] + rest).skip(1) =~= rest);
        }
    }
}

/// Every symbol of a filtered string is in the vocabulary.
pub proof fn lemma_vocab_filter_members(vocab: Set<char>, s: Seq<char>)
    ensures
        forall|i: int|
            0 <= i < vocab_filter(vocab, s).len() ==> vocab.contains(
                #[trigger] vocab_filter(vocab, s)[i],
            ),
    decreases s.len(),
{
    if s.len() == 0 {
    } else {
        lemma_vocab_filter_members(vocab, s.skip(1));
        assert forall|i: int| 0 <= i < vocab_filter(vocab, s).len() implies vocab.contains(
            #[trigger] vocab_filter(vocab, s)[i],
        ) by {
            if vocab.contains(s[0]) {
                if i > 0 {
                    assert(vocab_filter(vocab, s)[i] == vocab_filter(vocab, s.skip(1))[i - 1]);
                }
            } else {
                assert(vocab_filter(vocab, s)[i] == vocab_filter(vocab, s.skip(1))[i]);
            }
        }
    }
}

} // verus!
