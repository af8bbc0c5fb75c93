use vstd::prelude::*;

use vstd::set_lib::lemma_len_subset;

use crate::random::random_below;
use crate::syllables::syl_tok;
use crate::vocab::{is_syllable_token, is_word_token, syllable_list, word_list};
use crate::words::word_tok;

verus! {

/// The views of a list of tokens: each token as its character sequence.
pub open spec fn token_views(v: Seq<String>) -> Seq<Seq<char>> {
    v.map_values(|t: String| t@)
}

/// A token request is capped at a hard maximum of 256, whatever was asked.
pub open spec fn spec_capped(count: usize) -> int {
    if count > 256 {
        256int
    } else {
        count as int
    }
}

fn capped(count: usize) -> (c: usize)
    ensures
        c == spec_capped(count),
{
    if count > 256 {
        256
    } else {
        count
    }
}

/// Whether some token of `v` has exactly the characters of `t`
/// (case-sensitive exact match).
pub fn contains_token(v: &Vec<String>, t: &String) -> (r: bool)
    ensures
        r == token_views(v@).contains(t@),
{
    let mut i: usize = 0;
    while i < v.len()
        invariant
            i <= v@.len(),
            forall|j: int| 0 <= j < i ==> token_views(v@)[j] != t@,
        decreases v@.len() - i,
    {
        if v[i].eq(t) {
            proof {
                assert(token_views(v@)[i as int] == t@);
            }
            return true;
        }
        i += 1;
    }
    proof {
        if token_views(v@).contains(t@) {
            let j = choose|j: int| 0 <= j < token_views(v@).len() && token_views(v@)[j] == t@;
            assert(false);
        }
    }
    false
}

/// A distinct list stays distinct when a token not yet present is appended.
pub(crate) proof fn lemma_push_distinct(s: Seq<Seq<char>>, x: Seq<char>)
    requires
        s.no_duplicates(),
        !s.contains(x),
    ensures
        s.push(x).no_duplicates(),
{
    assert forall|i: int, j: int|
        0 <= i < s.push(x).len() && 0 <= j < s.push(x).len() && i != j implies s.push(x)[i]
        != s.push(x)[j] by {
        if j == s.len() {
            if s[i] == x {
                assert(s.contains(x));
            }
        } else if i == s.len() {
            if s[j] == x {
                assert(s.contains(x));
            }
        }
    }
}

/// Draw distinct tokens from `vocab` without replacement, stopping at the
/// requested count, the hard cap of 256, or the exhaustion of the
/// vocabulary, whichever comes first: the result holds exactly
/// min(min(count, 256), number of distinct tokens) entries, pairwise
/// distinct, every one of them a token of `vocab`.
pub fn sample(count: usize, vocab: &Vec<String>) -> (r: Vec<String>)
    ensures
        token_views(r@).no_duplicates(),
        forall|i: int|
            0 <= i < r@.len() ==> token_views(vocab@).contains(#[trigger] token_views(r@)[i]),
        r@.len() == (if spec_capped(count) <= token_views(vocab@).to_set().len() {
            spec_capped(count)
        } else {
            token_views(vocab@).to_set().len() as int
        }),
        token_views(vocab@).no_duplicates() && vocab@.len() >= spec_capped(count) ==> r@.len()
            == spec_capped(count),
{
    broadcast use vstd::seq_lib::seq_to_set_is_finite;

    let cap = capped(count);
    let ghost vset = token_views(vocab@).to_set();
    let mut cands: Vec<String> = Vec::new();
    let mut i: usize = 0;
    while i < vocab.len()
        invariant
            i <= vocab@.len(),
            cands@.len() == i,
            forall|j: int|
                0 <= j < i ==> #[trigger] token_views(cands@)[j] == token_views(vocab@)[j],
        decreases vocab@.len() - i,
    {
        let t = vocab[i].clone();
        let ghost old_cands = cands@;
        cands.push(t);
        proof {
            assert(token_views(cands@) =~= token_views(old_cands).push(vocab@[i as int]@));
            assert forall|j: int| 0 <= j < i + 1 implies #[trigger] token_views(cands@)[j]
                == token_views(vocab@)[j] by {
                if j < i {
                    assert(token_views(old_cands)[j] == token_views(vocab@)[j]);
                }
            }
        }
        i += 1;
    }
    proof {
        assert(token_views(cands@) =~= token_views(vocab@));
        assert(token_views(cands@).to_set() =~= vset);
        assert(token_views(Seq::<String>::empty()).to_set().union(token_views(cands@).to_set())
            =~= vset);
    }
    let mut out: Vec<String> = Vec::new();
    while out.len() < cap && cands.len() > 0
        invariant
            out@.len() <= cap,
            cap == spec_capped(count),
            vset == token_views(vocab@).to_set(),
            token_views(out@).no_duplicates(),
            forall|j: int| 0 <= j < out@.len() ==> vset.contains(#[trigger] token_views(out@)[j]),
            forall|j: int|
                0 <= j < cands@.len() ==> vset.contains(#[trigger] token_views(cands@)[j]),
            token_views(out@).to_set().union(token_views(cands@).to_set()) == vset,
        decreases cands@.len(),
    {
        let k = random_below(cands.len());
        let ghost old_out = out@;
        let ghost old_cands = cands@;
        let tok = cands.remove(k);
        proof {
            assert(token_views(cands@) =~= token_views(old_cands).remove(k as int));
            assert(token_views(old_cands)[k as int] == tok@);
        }
        let dup = contains_token(&out, &tok);
        if !dup {
            proof {
                lemma_push_distinct(token_views(out@), tok@);
            }
            out.push(tok);
            proof {
                assert(token_views(out@) =~= token_views(old_out).push(tok@));
            }
        }
        proof {
            let no = token_views(out@);
            let nc = token_views(cands@);
            let oo = token_views(old_out);
            let oc = token_views(old_cands);
            assert forall|t: Seq<char>| vset.contains(t) implies no.to_set().union(
                nc.to_set(),
            ).contains(t) by {
                if oo.contains(t) {
                    if dup {
                        assert(no.contains(t));
                    } else {
                        let j = choose|j: int| 0 <= j < oo.len() && oo[j] == t;
                        assert(no[j] == t);
                        assert(no.contains(t));
                    }
                } else {
                    assert(oc.contains(t));
                    let j = choose|j: int| 0 <= j < oc.len() && oc[j] == t;
                    if j < k {
                        assert(nc[j] == t);
                        assert(nc.contains(t));
                    } else if j > k {
                        assert(nc[j - 1] == t);
                        assert(nc.contains(t));
                    } else {
                        if dup {
                            assert(oo.contains(tok@));
                            assert(no.contains(t));
                        } else {
                            assert(no[no.len() - 1] == t);
                            assert(no.contains(t));
                        }
                    }
                }
            }
            assert forall|t: Seq<char>| no.to_set().union(nc.to_set()).contains(t) implies
                vset.contains(t) by {
                if no.contains(t) {
                    let j = choose|j: int| 0 <= j < no.len() && no[j] == t;
                    assert(vset.contains(no[j]));
                } else {
                    let j = choose|j: int| 0 <= j < nc.len() && nc[j] == t;
                    assert(vset.contains(nc[j]));
                }
            }
            assert(no.to_set().union(nc.to_set()) =~= vset);
        }
    }
    proof {
        let os = token_views(out@).to_set();
        token_views(out@).unique_seq_to_set();
        if cands.len() == 0 {
            assert(token_views(cands@).to_set() =~= Set::<Seq<char>>::empty());
            assert(os =~= vset);
        } else {
            assert(out@.len() == cap);
            assert(os.subset_of(vset)) by {
                assert forall|t: Seq<char>| os.contains(t) implies vset.contains(t) by {
                    let j = choose|j: int|
                        0 <= j < token_views(out@).len() && token_views(out@)[j] == t;
                    assert(vset.contains(token_views(out@)[j]));
                }
            }
            lemma_len_subset(os, vset);
        }
        if token_views(vocab@).no_duplicates() {
            token_views(vocab@).unique_seq_to_set();
        }
    }
    out
}

/// Draw `length` distinct tokens for a passphrase, capped at 256: whole
/// words when `full_words` is set, syllables otherwise. Both vocabularies
/// hold more than 256 tokens, so the count is always met, and every token
/// belongs to the chosen vocabulary.
pub fn gen_words(length: usize, full_words: bool) -> (r: Vec<String>)
    ensures
        token_views(r@).no_duplicates(),
        r@.len() == spec_capped(length),
        full_words ==> forall|i: int|
            0 <= i < r@.len() ==> is_word_token(#[trigger] token_views(r@)[i]),
        !full_words ==> forall|i: int|
            0 <= i < r@.len() ==> is_syllable_token(#[trigger] token_views(r@)[i]),
{
    let vocab = if full_words {
        word_list()
    } else {
        syllable_list()
    };
    let r = sample(length, &vocab);
    proof {
        if full_words {
            assert forall|i: int| 0 <= i < r@.len() implies is_word_token(
                #[trigger] token_views(r@)[i],
            ) by {
                let m = choose|m: int|
                    0 <= m < token_views(vocab@).len() && token_views(vocab@)[m] == token_views(
                        r@,
                    )[i];
                assert(vocab@[m]@ == word_tok(m));
            }
        } else {
            assert forall|i: int| 0 <= i < r@.len() implies is_syllable_token(
                #[trigger] token_views(r@)[i],
            ) by {
                let m = choose|m: int|
                    0 <= m < token_views(vocab@).len() && token_views(vocab@)[m] == token_views(
                        r@,
                    )[i];
                assert(vocab@[m]@ == syl_tok(m));
            }
        }
    }
    r
}

} // verus!
