use vstd::prelude::*;

use vstd::arithmetic::div_mod::lemma_fundamental_div_mod_converse;

use crate::sampler::token_views;

verus! {

/// The four-letter stems and tails the whole-word vocabulary is built
/// from; within each list the initial letters are pairwise distinct.
pub open spec fn spec_stems() -> Seq<Seq<char>> {
    seq![
        "acre"@,
        "bark"@,
        "cove"@,
        "dune"@,
        "echo"@,
        "fern"@,
        "gale"@,
        "hive"@,
        "iris"@,
        "jade"@,
        "kelp"@,
        "lake"@,
        "moss"@,
        "nook"@,
        "opal"@,
        "pine"@,
        "quay"@
    ]
}

pub open spec fn spec_tails() -> Seq<Seq<char>> {
    seq![
        "arch"@,
        "beam"@,
        "clay"@,
        "dust"@,
        "edge"@,
        "fall"@,
        "gate"@,
        "hill"@,
        "knot"@,
        "leaf"@,
        "mist"@,
        "path"@,
        "ring"@,
        "song"@,
        "turf"@,
        "wood"@
    ]
}

/// The initial letter of each stem and of each tail.
pub open spec fn stem_initial(i: int) -> char {
    if i == 0 {
        'a'
    } else if i == 1 {
        'b'
    } else if i == 2 {
        'c'
    } else if i == 3 {
        'd'
    } else if i == 4 {
        'e'
    } else if i == 5 {
        'f'
    } else if i == 6 {
        'g'
    } else if i == 7 {
        'h'
    } else if i == 8 {
        'i'
    } else if i == 9 {
        'j'
    } else if i == 10 {
        'k'
    } else if i == 11 {
        'l'
    } else if i == 12 {
        'm'
    } else if i == 13 {
        'n'
    } else if i == 14 {
        'o'
    } else if i == 15 {
        'p'
    } else {
        'q'
    }
}

pub open spec fn tail_initial(i: int) -> char {
    if i == 0 {
        'a'
    } else if i == 1 {
        'b'
    } else if i == 2 {
        'c'
    } else if i == 3 {
        'd'
    } else if i == 4 {
        'e'
    } else if i == 5 {
        'f'
    } else if i == 6 {
        'g'
    } else if i == 7 {
        'h'
    } else if i == 8 {
        'k'
    } else if i == 9 {
        'l'
    } else if i == 10 {
        'm'
    } else if i == 11 {
        'p'
    } else if i == 12 {
        'r'
    } else if i == 13 {
        's'
    } else if i == 14 {
        't'
    } else {
        'w'
    }
}

/// The whole word with index `m`: one stem joined to one tail, sixteen
/// tails per stem.
pub open spec fn word_tok(m: int) -> Seq<char> {
    spec_stems()[m / 16] + spec_tails()[m % 16]
}

/// Every stem and tail has four letters, starting with its fixed initial.
proof fn lemma_word_shape()
    ensures
        forall|i: int|
            0 <= i < 17 ==> (#[trigger] spec_stems()[i]).len() == 4 && spec_stems()[i][0]
                == stem_initial(i),
        forall|i: int|
            0 <= i < 16 ==> (#[trigger] spec_tails()[i]).len() == 4 && spec_tails()[i][0]
                == tail_initial(i),
{
        reveal_strlit("acre");
        reveal_strlit("bark");
        reveal_strlit("cove");
        reveal_strlit("dune");
        reveal_strlit("echo");
        reveal_strlit("fern");
        reveal_strlit("gale");
        reveal_strlit("hive");
        reveal_strlit("iris");
        reveal_strlit("jade");
        reveal_strlit("kelp");
        reveal_strlit("lake");
        reveal_strlit("moss");
        reveal_strlit("nook");
        reveal_strlit("opal");
        reveal_strlit("pine");
        reveal_strlit("quay");
        reveal_strlit("arch");
        reveal_strlit("beam");
        reveal_strlit("clay");
        reveal_strlit("dust");
        reveal_strlit("edge");
        reveal_strlit("fall");
        reveal_strlit("gate");
        reveal_strlit("hill");
        reveal_strlit("knot");
        reveal_strlit("leaf");
        reveal_strlit("mist");
        reveal_strlit("path");
        reveal_strlit("ring");
        reveal_strlit("song");
        reveal_strlit("turf");
        reveal_strlit("wood");
        assert(spec_stems()[0].len() == 4 && spec_stems()[0][0] == 'a');
        assert(spec_stems()[1].len() == 4 && spec_stems()[1][0] == 'b');
        assert(spec_stems()[2].len() == 4 && spec_stems()[2][0] == 'c');
        assert(spec_stems()[3].len() == 4 && spec_stems()[3][0] == 'd');
        assert(spec_stems()[4].len() == 4 && spec_stems()[4][0] == 'e');
        assert(spec_stems()[5].len() == 4 && spec_stems()[5][0] == 'f');
        assert(spec_stems()[6].len() == 4 && spec_stems()[6][0] == 'g');
        assert(spec_stems()[7].len() == 4 && spec_stems()[7][0] == 'h');
        assert(spec_stems()[8].len() == 4 && spec_stems()[8][0] == 'i');
        assert(spec_stems()[9].len() == 4 && spec_stems()[9][0] == 'j');
        assert(spec_stems()[10].len() == 4 && spec_stems()[10][0] == 'k');
        assert(spec_stems()[11].len() == 4 && spec_stems()[11][0] == 'l');
        assert(spec_stems()[12].len() == 4 && spec_stems()[12][0] == 'm');
        assert(spec_stems()[13].len() == 4 && spec_stems()[13][0] == 'n');
        assert(spec_stems()[14].len() == 4 && spec_stems()[14][0] == 'o');
        assert(spec_stems()[15].len() == 4 && spec_stems()[15][0] == 'p');
        assert(spec_stems()[16].len() == 4 && spec_stems()[16][0] == 'q');
        assert(spec_tails()[0].len() == 4 && spec_tails()[0][0] == 'a');
        assert(spec_tails()[1].len() == 4 && spec_tails()[1][0] == 'b');
        assert(spec_tails()[2].len() == 4 && spec_tails()[2][0] == 'c');
        assert(spec_tails()[3].len() == 4 && spec_tails()[3][0] == 'd');
        assert(spec_tails()[4].len() == 4 && spec_tails()[4][0] == 'e');
        assert(spec_tails()[5].len() == 4 && spec_tails()[5][0] == 'f');
        assert(spec_tails()[6].len() == 4 && spec_tails()[6][0] == 'g');
        assert(spec_tails()[7].len() == 4 && spec_tails()[7][0] == 'h');
        assert(spec_tails()[8].len() == 4 && spec_tails()[8][0] == 'k');
        assert(spec_tails()[9].len() == 4 && spec_tails()[9][0] == 'l');
        assert(spec_tails()[10].len() == 4 && spec_tails()[10][0] == 'm');
        assert(spec_tails()[11].len() == 4 && spec_tails()[11][0] == 'p');
        assert(spec_tails()[12].len() == 4 && spec_tails()[12][0] == 'r');
        assert(spec_tails()[13].len() == 4 && spec_tails()[13][0] == 's');
        assert(spec_tails()[14].len() == 4 && spec_tails()[14][0] == 't');
        assert(spec_tails()[15].len() == 4 && spec_tails()[15][0] == 'w');
}

/// Every whole word has exactly eight letters.
pub proof fn lemma_word_len(m: int)
    requires
        0 <= m < 272,
    ensures
        word_tok(m).len() == 8,
{
    lemma_word_shape();
    lemma_fundamental_div_mod_converse(m, 16, m / 16, m % 16);
}

/// Distinct indices give distinct words: a different stem changes the
/// first letter, a different tail the fifth.
proof fn lemma_word_tok_injective(m1: int, m2: int)
    requires
        0 <= m1 < 272,
        0 <= m2 < 272,
        m1 != m2,
    ensures
        word_tok(m1) != word_tok(m2),
{
    lemma_word_shape();
    let i1 = m1 / 16;
    let j1 = m1 % 16;
    let i2 = m2 / 16;
    let j2 = m2 % 16;
    lemma_fundamental_div_mod_converse(m1, 16, i1, j1);
    lemma_fundamental_div_mod_converse(m2, 16, i2, j2);
    if i1 == i2 && j1 == j2 {
        assert(m1 == m2);
    } else if i1 != i2 {
        assert(word_tok(m1)[0] == stem_initial(i1));
        assert(word_tok(m2)[0] == stem_initial(i2));
        assert(stem_initial(i1) != stem_initial(i2));
    } else {
        assert(word_tok(m1)[4] == tail_initial(j1));
        assert(word_tok(m2)[4] == tail_initial(j2));
        assert(tail_initial(j1) != tail_initial(j2));
    }
}

fn stem_at(i: usize) -> (r: &'static str)
    requires
        i < 17,
    ensures
        r@ == spec_stems()[i as int],
{
    if i == 0 {
        "acre"
    } else if i == 1 {
        "bark"

    } else if i == 2 {
        "cove"

    } else if i == 3 {
        "dune"

    } else if i == 4 {
        "echo"

    } else if i == 5 {
        "fern"

    } else if i == 6 {
        "gale"

    } else if i == 7 {
        "hive"

    } else if i == 8 {
        "iris"

    } else if i == 9 {
        "jade"

    } else if i == 10 {
        "kelp"

    } else if i == 11 {
        "lake"

    } else if i == 12 {
        "moss"

    } else if i == 13 {
        "nook"

    } else if i == 14 {
        "opal"

    } else if i == 15 {
        "pine"
    } else {
        "quay"
    }
}

fn tail_at(i: usize) -> (r: &'static str)
    requires
        i < 16,
    ensures
        r@ == spec_tails()[i as int],
{
    if i == 0 {
        "arch"
    } else if i == 1 {
        "beam"

    } else if i == 2 {
        "clay"

    } else if i == 3 {
        "dust"

    } else if i == 4 {
        "edge"

    } else if i == 5 {
        "fall"

    } else if i == 6 {
        "gate"

    } else if i == 7 {
        "hill"

    } else if i == 8 {
        "knot"

    } else if i == 9 {
        "leaf"

    } else if i == 10 {
        "mist"

    } else if i == 11 {
        "path"

    } else if i == 12 {
        "ring"

    } else if i == 13 {
        "song"

    } else if i == 14 {
        "turf"
    } else {
        "wood"
    }
}

/// The full whole-word vocabulary: every stem joined to every tail, 272
/// words, pairwise distinct.
pub fn word_tokens() -> (v: Vec<String>)
    ensures
        v@.len() == 272,
        forall|m: int| 0 <= m < 272 ==> #[trigger] v@[m]@ == word_tok(m),
        token_views(v@).no_duplicates(),
{
    let mut v: Vec<String> = Vec::new();
    let mut i: usize = 0;
    while i < 17
        invariant
            i <= 17,
            v@.len() == i * 16,
            forall|m: int| 0 <= m < v@.len() ==> #[trigger] v@[m]@ == word_tok(m),
        decreases 17 - i,
    {
        let mut j: usize = 0;
        while j < 16
            invariant
                i < 17,
                j <= 16,
                v@.len() == i * 16 + j,
                forall|m: int| 0 <= m < v@.len() ==> #[trigger] v@[m]@ == word_tok(m),
            decreases 16 - j,
        {
            let mut t = String::from_str(stem_at(i));
            t.append(tail_at(j));
            proof {
                lemma_fundamental_div_mod_converse(i * 16 + j, 16, i as int, j as int);
                assert(t@ == word_tok(i * 16 + j));
            }
            v.push(t);
            j += 1;
        }
        i += 1;
    }
    proof {
        assert forall|a: int, b: int|
            0 <= a < v@.len() && 0 <= b < v@.len() && a != b implies token_views(v@)[a]
            != token_views(v@)[b] by {
            lemma_word_tok_injective(a, b);
        }
    }
    v
}

} // verus!
