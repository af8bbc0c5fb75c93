use vstd::prelude::*;

use crate::analyzer::{analyze, filtered, is_common_of, AnalyzedResult};
use crate::analyzer::{cls_upto, consec_upto, nc_upto, other_upto, prog_upto};
use crate::chars::CharClass;

verus! {

/// min over ints, for the score formula.
pub open spec fn min_i(a: int, b: int) -> int {
    if a <= b {
        a
    } else {
        b
    }
}

/// The composite strength score, on a 0 to 100 scale: length is rewarded
/// (two points per character up to fifty characters), class diversity and
/// unusual characters earn a bonus, adjacent repeats, ordinal runs and
/// non-adjacent repeats are penalized, and a common password is cut to a
/// fifth of its score. Every count is saturated before weighting so the
/// formula stays within machine range.
pub open spec fn score_formula(
    length: int,
    spaces: int,
    numbers: int,
    lower: int,
    upper: int,
    symbols: int,
    other: int,
    consecutive: int,
    non_consecutive: int,
    progressive: int,
    is_common: bool,
) -> int {
    let base = 2 * min_i(length, 50);
    let bonus = (if numbers >= 1 {
        5int
    } else {
        0int
    }) + (if lower >= 1 {
        5int
    } else {
        0int
    }) + (if upper >= 1 {
        5int
    } else {
        0int
    }) + (if symbols >= 1 {
        5int
    } else {
        0int
    }) + (if spaces >= 1 {
        5int
    } else {
        0int
    }) + 2 * min_i(other, 10);
    let pen = 3 * min_i(consecutive, 200) + 3 * min_i(progressive, 200) + 2 * min_i(
        non_consecutive,
        200,
    );
    let raw = if pen >= base + bonus {
        0int
    } else {
        base + bonus - pen
    };
    let capped = min_i(raw, 100);
    if is_common {
        capped / 5
    } else {
        capped
    }
}

/// The score of one analysis result.
pub open spec fn spec_score(a: AnalyzedResult) -> int {
    score_formula(
        a.length as int,
        a.spaces_count as int,
        a.numbers_count as int,
        a.lowercase_letters_count as int,
        a.uppercase_letters_count as int,
        a.symbols_count as int,
        a.other_characters_count as int,
        a.consecutive_count as int,
        a.non_consecutive_count as int,
        a.progressive_count as int,
        a.is_common,
    )
}

/// The score a password string receives: the formula applied to the
/// structural facts of its control-filtered characters.
pub open spec fn spec_score_of(s: Seq<char>) -> int {
    let f = filtered(s);
    score_formula(
        f.len() as int,
        cls_upto(f, CharClass::Space, f.len() as int),
        cls_upto(f, CharClass::Digit, f.len() as int),
        cls_upto(f, CharClass::Lower, f.len() as int),
        cls_upto(f, CharClass::Upper, f.len() as int),
        cls_upto(f, CharClass::Symbol, f.len() as int),
        other_upto(f, f.len() as int),
        consec_upto(f, f.len() as int),
        nc_upto(f, f.len() as int),
        prog_upto(f, f.len() as int),
        is_common_of(f),
    )
}

fn min_usize(a: usize, b: usize) -> (r: usize)
    ensures
        r == min_i(a as int, b as int),
{
    if a <= b {
        a
    } else {
        b
    }
}

/// Score an analysis result; a pure, deterministic function of the facts,
/// always between 0 and 100.
pub fn score_facts(a: &AnalyzedResult) -> (r: usize)
    ensures
        r == spec_score(*a),
        0 <= r <= 100,
{
    let base = 2 * min_usize(a.length, 50);
    let mut bonus: usize = 0;
    if a.numbers_count >= 1 {
        bonus += 5;
    }
    if a.lowercase_letters_count >= 1 {
        bonus += 5;
    }
    if a.uppercase_letters_count >= 1 {
        bonus += 5;
    }
    if a.symbols_count >= 1 {
        bonus += 5;
    }
    if a.spaces_count >= 1 {
        bonus += 5;
    }
    bonus += 2 * min_usize(a.other_characters_count, 10);
    let pen = 3 * min_usize(a.consecutive_count, 200) + 3 * min_usize(a.progressive_count, 200) + 2
        * min_usize(a.non_consecutive_count, 200);
    let raw = if pen >= base + bonus {
        0
    } else {
        base + bonus - pen
    };
    let capped = min_usize(raw, 100);
    if a.is_common {
        capped / 5
    } else {
        capped
    }
}

/// Analyze a password and score the result.
pub fn score(password: &str) -> (r: usize)
    ensures
        r == spec_score_of(password@),
        0 <= r <= 100,
        is_common_of(filtered(password@)) ==> r <= 20,
{
    let a = analyze(password);
    score_facts(&a)
}

/// A password whose analyzed form is in the common-password list scores at
/// most twenty, whatever its composition.
pub proof fn lemma_common_scores_low_of(s: Seq<char>)
    requires
        is_common_of(filtered(s)),
    ensures
        spec_score_of(s) <= 20,
{
}

/// All else held constant, a longer password never scores lower.
pub proof fn lemma_score_monotone_in_length(a: AnalyzedResult, b: AnalyzedResult)
    requires
        a.length <= b.length,
        a.spaces_count == b.spaces_count,
        a.numbers_count == b.numbers_count,
        a.lowercase_letters_count == b.lowercase_letters_count,
        a.uppercase_letters_count == b.uppercase_letters_count,
        a.symbols_count == b.symbols_count,
        a.other_characters_count == b.other_characters_count,
        a.consecutive_count == b.consecutive_count,
        a.non_consecutive_count == b.non_consecutive_count,
        a.progressive_count == b.progressive_count,
        a.is_common == b.is_common,
    ensures
        spec_score(a) <= spec_score(b),
{
}

/// All else held constant, adding adjacent repeats, ordinal runs or
/// non-adjacent repeats never raises the score.
pub proof fn lemma_score_penalties_monotone(a: AnalyzedResult, b: AnalyzedResult)
    requires
        a.length == b.length,
        a.spaces_count == b.spaces_count,
        a.numbers_count == b.numbers_count,
        a.lowercase_letters_count == b.lowercase_letters_count,
        a.uppercase_letters_count == b.uppercase_letters_count,
        a.symbols_count == b.symbols_count,
        a.other_characters_count == b.other_characters_count,
        a.consecutive_count <= b.consecutive_count,
        a.non_consecutive_count <= b.non_consecutive_count,
        a.progressive_count <= b.progressive_count,
        a.is_common == b.is_common,
    ensures
        spec_score(b) <= spec_score(a),
{
}

/// A common password scores at most twenty, whatever its composition.
pub proof fn lemma_common_scores_low(a: AnalyzedResult)
    requires
        a.is_common,
    ensures
        spec_score(a) <= 20,
{
}

} // verus!
