//! Literal find-and-replace over character sequences.
//!
//! `replace_all` rewrites every occurrence of a fixed pattern, scanning left
//! to right without overlap, exactly as a literal substitution rule of the
//! correction pipeline demands.

use vstd::prelude::*;

verus! {

/// The pattern occurs at position `i` of `s`, as a whole span.
pub open spec fn matches_at(s: Seq<char>, i: int, pat: Seq<char>) -> bool {
    0 <= i && i + pat.len() <= s.len() && s.subrange(i, i + pat.len() as int) == pat
}

/// The pattern occurs somewhere in `s`.
pub open spec fn occurs(s: Seq<char>, pat: Seq<char>) -> bool {
    exists|i: int| matches_at(s, i, pat)
}

/// Every occurrence of `pat` in `s` replaced by `rep`, scanning left to
/// right; a replaced span is not rescanned.
pub open spec fn replace_all(s: Seq<char>, pat: Seq<char>, rep: Seq<char>) -> Seq<char>
    decreases s.len(),
{
    if pat.len() == 0 || s.len() < pat.len() {
        s
    } else if s.subrange(0, pat.len() as int) == pat {
        rep + replace_all(s.skip(pat.len() as int), pat, rep)
    } else {
        seq![s[0]] + replace_all(s.skip(1), pat, rep)
    }
}

/// Decides whether the pattern occurs at position `i`.
pub fn find_match(s: &Vec<char>, i: usize, pat: &Vec<char>) -> (r: bool)
    requires
        i <= s@.len(),
    ensures
        r == matches_at(s@, i as int, pat@),
{
    let n = s.len();
    if pat.len() > n - i {
        return false;
    }
    let mut j: usize = 0;
    while j < pat.len()
        invariant
            n == s@.len(),
            i + pat@.len() <= s@.len(),
            j <= pat@.len(),
            forall|k: int| 0 <= k < j ==> s@[i + k] == pat@[k],
        decreases pat@.len() - j,
    {
        if s[i + j] != pat[j] {
            proof {
                if matches_at(s@, i as int, pat@) {
                    assert(s@.subrange(i as int, i + pat@.len() as int)[j as int] == s@[i + j]);
                }
            }
            return false;
        }
        j = j + 1;
    }
    proof {
        assert(s@.subrange(i as int, i + pat@.len() as int) =~= pat@);
    }
    true
}

/// Appends all characters of `src` at the end of `dst`.
pub fn append_all(dst: &mut Vec<char>, src: &Vec<char>)
    ensures
        final(dst)@ == old(dst)@ + src@,
{
    let mut j: usize = 0;
    while j < src.len()
        invariant
            j <= src@.len(),
            dst@ == old(dst)@ + src@.take(j as int),
        decreases src@.len() - j,
    {
        dst.push(src[j]);
        proof {
            assert(old(dst)@ + src@.take(j as int + 1) =~= (old(dst)@ + src@.take(
                j as int,
            )).push(src@[j as int]));
        }
        j = j + 1;
    }
    proof {
        assert(old(dst)@ + src@.take(src@.len() as int) =~= old(dst)@ + src@);
    }
}

/// Replaces every occurrence of `pat` in `s` by `rep`.
pub fn replace_all_chars(s: &Vec<char>, pat: &Vec<char>, rep: &Vec<char>) -> (r: Vec<char>)
    requires
        pat@.len() > 0,
    ensures
        r@ == replace_all(s@, pat@, rep@),
{
    let mut res: Vec<char> = Vec::new();
    let mut i: usize = 0;
    proof {
        assert(s@.skip(0) =~= s@);
        assert(Seq::<char>::empty() + replace_all(s@, pat@, rep@) =~= replace_all(s@, pat@, rep@));
    }
    while i < s.len()
        invariant
            i <= s@.len(),
            pat@.len() > 0,
            res@ + replace_all(s@.skip(i as int), pat@, rep@) == replace_all(s@, pat@, rep@),
        decreases s@.len() - i,
    {
        let ghost pre = res@;
        let ghost tail = s@.skip(i as int);
        if find_match(s, i, pat) {
            append_all(&mut res, rep);
            proof {
                assert(tail.subrange(0, pat@.len() as int) =~= s@.subrange(
                    i as int,
                    i + pat@.len() as int,
                ));
                assert(tail.skip(pat@.len() as int) =~= s@.skip(i + pat@.len() as int));
                assert(replace_all(tail, pat@, rep@) == rep@ + replace_all(
                    s@.skip(i + pat@.len() as int),
                    pat@,
                    rep@,
                ));
                assert(pre + (rep@ + replace_all(s@.skip(i + pat@.len() as int), pat@, rep@))
                    =~= (pre + rep@) + replace_all(s@.skip(i + pat@.len() as int), pat@, rep@));
            }
            i = i + pat.len();
        } else {
            res.push(s[i]);
            proof {
                if tail.len() >= pat@.len() {
                    assert(tail.subrange(0, pat@.len() as int) =~= s@.subrange(
                        i as int,
                        i + pat@.len() as int,
                    ));
                    assert(tail.subrange(0, pat@.len() as int) != pat@);
                }
                assert(tail.skip(1) =~= s@.skip(i as int + 1));
                assert(seq![tail[0]] + replace_all(s@.skip(i as int + 1), pat@, rep@)
                    == replace_all(tail, pat@, rep@));
                assert(pre + (seq![tail[0]] + replace_all(s@.skip(i as int + 1), pat@, rep@))
                    =~= pre.push(s@[i as int]) + replace_all(s@.skip(i as int + 1), pat@, rep@));
            }
            i = i + 1;
        }
    }
    proof {
        assert(s@.skip(s@.len() as int) =~= Seq::<char>::empty());
        assert(res@ + Seq::<char>::empty() =~= res@);
    }
    res
}

/// A string without any occurrence of the pattern is left unchanged by the
/// literal rule: replacement touches matching spans only.
pub proof fn lemma_replace_all_absent(s: Seq<char>, pat: Seq<char>, rep: Seq<char>)
    requires
        pat.len() > 0,
        !occurs(s, pat),
    ensures
        replace_all(s, pat, rep) == s,
    decreases s.len(),
{
    if s.len() < pat.len() {
    } else if s.subrange(0, pat.len() as int) == pat {
        assert(matches_at(s, 0, pat));
        assert(false);
    } else {
        assert forall|i: int| !matches_at(s.skip(1), i, pat) by {
            if matches_at(s.skip(1), i, pat) {
                assert(s.subrange(i + 1, i + 1 + pat.len() as int) =~= s.skip(1).subrange(
                    i,
                    i + pat.len() as int,
                ));
                assert(matches_at(s, i + 1, pat));
            }
        }
        lemma_replace_all_absent(s.skip(1), pat, rep);
        assert(seq![s[0]] + s.skip(1) =~= s);
    }
}

/// The literal rule is exact-match and whole-span: up to the first
/// occurrence of the pattern the string is untouched, that occurrence is
/// replaced as one whole span, and the rule continues behind it.
pub proof fn lemma_replace_all_at_first(s: Seq<char>, pat: Seq<char>, rep: Seq<char>, i: int)
    requires
        pat.len() > 0,
        matches_at(s, i, pat),
        forall|j: int| 0 <= j < i ==> !matches_at(s, j, pat),
    ensures
        replace_all(s, pat, rep) == s.take(i) + rep + replace_all(
            s.skip(i + pat.len()),
            pat,
            rep,
        ),
    decreases i,
{
    let m = pat.len() as int;
    if i == 0 {
        assert(s.take(0) =~= Seq::<char>::empty());
        assert(s.take(0) + rep + replace_all(s.skip(m), pat, rep) =~= rep + replace_all(
            s.skip(m),
            pat,
            rep,
        ));
    } else {
        assert(!matches_at(s, 0, pat));
        assert(s.subrange(0, m) != pat);
        let t = s.skip(1);
        assert(matches_at(t, i - 1, pat)) by {
            assert(t.subrange(i - 1, i - 1 + m) =~= s.subrange(i, i + m));
        }
        assert forall|j: int| 0 <= j < i - 1 implies !matches_at(t, j, pat) by {
            if matches_at(t, j, pat) {
                assert(s.subrange(j + 1, j + 1 + m) =~= t.subrange(j, j + m));
                assert(matches_at(s, j + 1, pat));
            }
        }
        lemma_replace_all_at_first(t, pat, rep, i - 1);
        assert(t.skip(i - 1 + m) =~= s.skip(i + m));
        assert(seq![s[0]] + (t.take(i - 1) + rep + replace_all(s.skip(i + m), pat, rep)) =~= s.take(
            i,
        ) + rep + replace_all(s.skip(i + m), pat, rep));
    }
}

} // verus!
