use vstd::prelude::*;

use vstd::arithmetic::div_mod::lemma_fundamental_div_mod_converse;

use crate::sampler::token_views;
use crate::strutil::chars_to_string;

verus! {

/// The consonants and vowels the syllable vocabulary is built from.
pub open spec fn spec_consonants() -> Seq<char> {
    seq![
        'b',
        'c',
        'd',
        'f',
        'g',
        'h',
        'j',
        'k',
        'l',
        'm',
        'n',
        'p',
        'r',
        's',
        't',
        'v',
        'w',
        'y',
        'z',
    ]
}

pub open spec fn spec_vowels() -> Seq<char> {
    seq!['a', 'e', 'i', 'o', 'u']
}

/// The syllable with index `m`: a consonant-vowel pair, optionally closed
/// by 'n' or 's'. Three forms per pair, five vowels per consonant.
pub open spec fn syl_tok(m: int) -> Seq<char> {
    let ci = m / 15;
    let vi = (m % 15) / 3;
    let k = m % 3;
    let base = seq![spec_consonants()[ci], spec_vowels()[vi]];
    if k == 0 {
        base
    } else if k == 1 {
        base.push('n')
    } else {
        base.push('s')
    }
}

/// How a combined index decodes back into its consonant, vowel and form.
proof fn lemma_decode(ci: int, vi: int, k: int)
    requires
        0 <= ci < 19,
        0 <= vi < 5,
        0 <= k < 3,
    ensures
        (ci * 15 + vi * 3 + k) / 15 == ci,
        ((ci * 15 + vi * 3 + k) % 15) == vi * 3 + k,
        (vi * 3 + k) / 3 == vi,
        (vi * 3 + k) % 3 == k,
        (ci * 15 + vi * 3 + k) % 3 == k,
{
    let m = ci * 15 + vi * 3 + k;
    lemma_fundamental_div_mod_converse(m, 15, ci, vi * 3 + k);
    lemma_fundamental_div_mod_converse(vi * 3 + k, 3, vi, k);
    lemma_fundamental_div_mod_converse(m, 3, ci * 5 + vi, k);
}

/// Distinct indices give distinct syllables: the forms differ in length or
/// final letter, and within one form the consonant or the vowel differs.
proof fn lemma_syl_tok_injective(m1: int, m2: int)
    requires
        0 <= m1 < 285,
        0 <= m2 < 285,
        m1 != m2,
    ensures
        syl_tok(m1) != syl_tok(m2),
{
    let c1 = m1 / 15;
    let v1 = (m1 % 15) / 3;
    let k1 = m1 % 3;
    let c2 = m2 / 15;
    let v2 = (m2 % 15) / 3;
    let k2 = m2 % 3;
    lemma_decode(c1, v1, k1);
    lemma_decode(c2, v2, k2);
    if c1 == c2 && v1 == v2 && k1 == k2 {
        assert(m1 == m2);
    } else if k1 != k2 {
        if k1 == 0 || k2 == 0 {
            assert(syl_tok(m1).len() != syl_tok(m2).len());
        } else {
            assert(syl_tok(m1)[2] != syl_tok(m2)[2]);
        }
    } else if c1 != c2 {
        assert(syl_tok(m1)[0] != syl_tok(m2)[0]);
    } else {
        assert(syl_tok(m1)[1] != syl_tok(m2)[1]);
    }
}

fn consonants() -> (v: Vec<char>)
    ensures
        v@ == spec_consonants(),
{
    let mut v: Vec<char> = Vec::new();
    v.push('b');
    v.push('c');
    v.push('d');
    v.push('f');
    v.push('g');
    v.push('h');
    v.push('j');
    v.push('k');
    v.push('l');
    v.push('m');
    v.push('n');
    v.push('p');
    v.push('r');
    v.push('s');
    v.push('t');
    v.push('v');
    v.push('w');
    v.push('y');
    v.push('z');
    proof {
        assert(v@ =~= spec_consonants());
    }
    v
}

fn vowels() -> (v: Vec<char>)
    ensures
        v@ == spec_vowels(),
{
    let mut v: Vec<char> = Vec::new();
    v.push('a');
    v.push('e');
    v.push('i');
    v.push('o');
    v.push('u');
    proof {
        assert(v@ =~= spec_vowels());
    }
    v
}

/// Build one syllable.
fn make_syllable(c: char, w: char, k: usize) -> (t: String)
    requires
        k < 3,
    ensures
        k == 0 ==> t@ == seq![c, w],
        k == 1 ==> t@ == seq![c, w].push('n'),
        k == 2 ==> t@ == seq![c, w].push('s'),
{
    let mut cs: Vec<char> = Vec::new();
    cs.push(c);
    cs.push(w);
    if k == 1 {
        cs.push('n');
    } else if k == 2 {
        cs.push('s');
    }
    proof {
        if k == 0 {
            assert(cs@ =~= seq![c, w]);
        } else if k == 1 {
            assert(cs@ =~= seq![c, w].push('n'));
        } else {
            assert(cs@ =~= seq![c, w].push('s'));
        }
    }
    chars_to_string(&cs)
}

/// The full syllable vocabulary: every consonant-vowel pair in its three
/// forms, 285 tokens, pairwise distinct.
pub fn syllable_tokens() -> (v: Vec<String>)
    ensures
        v@.len() == 285,
        forall|m: int| 0 <= m < 285 ==> #[trigger] v@[m]@ == syl_tok(m),
        token_views(v@).no_duplicates(),
{
    let cons = consonants();
    let vows = vowels();
    let mut v: Vec<String> = Vec::new();
    let mut ci: usize = 0;
    while ci < 19
        invariant
            ci <= 19,
            cons@ == spec_consonants(),
            vows@ == spec_vowels(),
            v@.len() == ci * 15,
            forall|m: int| 0 <= m < v@.len() ==> #[trigger] v@[m]@ == syl_tok(m),
        decreases 19 - ci,
    {
        let mut vi: usize = 0;
        while vi < 5
            invariant
                ci < 19,
                vi <= 5,
                cons@ == spec_consonants(),
                vows@ == spec_vowels(),
                v@.len() == ci * 15 + vi * 3,
                forall|m: int| 0 <= m < v@.len() ==> #[trigger] v@[m]@ == syl_tok(m),
            decreases 5 - vi,
        {
            let c = cons[ci];
            let w = vows[vi];
            let mut k: usize = 0;
            while k < 3
                invariant
                    ci < 19,
                    vi < 5,
                    k <= 3,
                    cons@ == spec_consonants(),
                    vows@ == spec_vowels(),
                    c == spec_consonants()[ci as int],
                    w == spec_vowels()[vi as int],
                    v@.len() == ci * 15 + vi * 3 + k,
                    forall|m: int| 0 <= m < v@.len() ==> #[trigger] v@[m]@ == syl_tok(m),
                decreases 3 - k,
            {
                let t = make_syllable(c, w, k);
                proof {
                    lemma_decode(ci as int, vi as int, k as int);
                    assert(t@ == syl_tok(ci * 15 + vi * 3 + k));
                }
                v.push(t);
                k += 1;
            }
            vi += 1;
        }
        ci += 1;
    }
    proof {
        assert forall|i: int, j: int|
            0 <= i < v@.len() && 0 <= j < v@.len() && i != j implies token_views(v@)[i]
            != token_views(v@)[j] by {
            lemma_syl_tok_injective(i, j);
        }
    }
    v
}

} // verus!
