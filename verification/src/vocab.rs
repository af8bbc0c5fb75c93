use vstd::prelude::*;

use crate::sampler::token_views;
use crate::syllables::{syl_tok, syllable_tokens};
use crate::words::{lemma_word_len, word_tok, word_tokens};

verus! {

/// Whether a token is one of the whole-word vocabulary's words.
pub open spec fn is_word_token(t: Seq<char>) -> bool {
    exists|m: int| 0 <= m < 272 && t == #[trigger] word_tok(m)
}

/// Whether a token is one of the syllable vocabulary's syllables.
pub open spec fn is_syllable_token(t: Seq<char>) -> bool {
    exists|m: int| 0 <= m < 285 && t == #[trigger] syl_tok(m)
}

/// The two vocabularies are disjoint: every whole word has eight letters,
/// every syllable two or three, so no token belongs to both.
pub proof fn lemma_vocabularies_disjoint(t: Seq<char>)
    ensures
        !(is_word_token(t) && is_syllable_token(t)),
{
    if is_word_token(t) && is_syllable_token(t) {
        let m1 = choose|m: int| 0 <= m < 272 && t == word_tok(m);
        lemma_word_len(m1);
        let m2 = choose|m: int| 0 <= m < 285 && t == syl_tok(m);
        assert(syl_tok(m2).len() <= 3);
    }
}

/// The fixed whole-word vocabulary, loaded once per call site and never
/// mutated: 272 pairwise-distinct words, the token at each index known.
pub fn word_list() -> (v: Vec<String>)
    ensures
        v@.len() == 272,
        forall|m: int| 0 <= m < 272 ==> #[trigger] v@[m]@ == word_tok(m),
        token_views(v@).no_duplicates(),
{
    word_tokens()
}

/// The fixed syllable vocabulary, disjoint from the whole-word list: 285
/// pairwise-distinct syllables, the token at each index known.
pub fn syllable_list() -> (v: Vec<String>)
    ensures
        v@.len() == 285,
        forall|m: int| 0 <= m < 285 ==> #[trigger] v@[m]@ == syl_tok(m),
        token_views(v@).no_duplicates(),
{
    syllable_tokens()
}

} // verus!
