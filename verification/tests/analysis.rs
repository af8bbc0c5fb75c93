use passcore::analyzer::{analyze, is_common_password, AnalyzedResult};
use passcore::scorer::{score, score_facts};

fn facts(
    length: usize,
    consecutive: usize,
    non_consecutive: usize,
    progressive: usize,
    is_common: bool,
) -> AnalyzedResult {
    AnalyzedResult {
        password: String::new(),
        length,
        spaces_count: 0,
        numbers_count: 1,
        lowercase_letters_count: length,
        uppercase_letters_count: 0,
        symbols_count: 0,
        other_characters_count: 0,
        consecutive_count: consecutive,
        non_consecutive_count: non_consecutive,
        progressive_count: progressive,
        is_common,
    }
}

#[test]
fn empty_password_analysis() {
    let r = analyze("");
    assert_eq!(r.password, "");
    assert_eq!(r.length, 0);
    assert_eq!(r.spaces_count, 0);
    assert_eq!(r.numbers_count, 0);
    assert_eq!(r.lowercase_letters_count, 0);
    assert_eq!(r.uppercase_letters_count, 0);
    assert_eq!(r.symbols_count, 0);
    assert_eq!(r.other_characters_count, 0);
    assert_eq!(r.consecutive_count, 0);
    assert_eq!(r.non_consecutive_count, 0);
    assert_eq!(r.progressive_count, 0);
    assert!(!r.is_common);
}

#[test]
fn quadruple_a_analysis() {
    let r = analyze("aaaa");
    assert_eq!(r.consecutive_count, 3);
    assert_eq!(r.lowercase_letters_count, 4);
    assert_eq!(r.numbers_count, 0);
    assert_eq!(r.length, 4);
    assert_eq!(r.non_consecutive_count, 0);
    assert_eq!(r.progressive_count, 0);
}

#[test]
fn mixed_password_analysis() {
    let r = analyze("aA1! x");
    assert_eq!(r.length, 6);
    assert_eq!(r.lowercase_letters_count, 2);
    assert_eq!(r.uppercase_letters_count, 1);
    assert_eq!(r.numbers_count, 1);
    assert_eq!(r.symbols_count, 1);
    assert_eq!(r.spaces_count, 1);
    assert_eq!(r.other_characters_count, 0);
}

#[test]
fn progressive_runs_are_counted() {
    let r = analyze("abc");
    assert_eq!(r.progressive_count, 2);
    let r = analyze("cba121");
    // pairs: cb, ba, a1, 12, 21 -> cb, ba, 12, 21 are one-step
    assert_eq!(r.progressive_count, 4);
}

#[test]
fn non_adjacent_repeats_are_counted() {
    let r = analyze("aba");
    assert_eq!(r.consecutive_count, 0);
    assert_eq!(r.non_consecutive_count, 2);
    let r = analyze("aabaa");
    assert_eq!(r.non_consecutive_count, 0);
    assert_eq!(r.consecutive_count, 2);
    let r = analyze("abcxabc");
    // every letter repeats at distance four, never adjacently
    assert_eq!(r.non_consecutive_count, 6);
}

#[test]
fn control_characters_are_dropped() {
    let r = analyze("a\u{1}b\u{7f}");
    assert_eq!(r.password, "ab");
    assert_eq!(r.length, 2);
    assert_eq!(r.lowercase_letters_count, 2);
}

#[test]
fn common_password_membership() {
    assert!(is_common_password("password"));
    assert!(!is_common_password("qzvwxkjhpT4$wq9#mmx"));
    assert!(analyze("password").is_common);
}

#[test]
fn common_password_scores_near_minimum() {
    assert!(score("password") <= 20);
}

#[test]
fn score_rises_with_length() {
    let short = facts(6, 0, 0, 0, false);
    let long = facts(14, 0, 0, 0, false);
    assert!(score_facts(&short) <= score_facts(&long));
}

#[test]
fn score_falls_with_penalties() {
    let clean = facts(14, 0, 0, 0, false);
    let repetitive = facts(14, 5, 3, 4, false);
    assert!(score_facts(&repetitive) <= score_facts(&clean));
}

#[test]
fn score_of_empty_is_zero() {
    assert_eq!(score(""), 0);
}

#[test]
fn score_is_bounded() {
    let s = score("Tr0ub4dour&3 horse battery staple");
    assert!(s <= 100);
    let strong = facts(40, 0, 0, 0, false);
    assert!(score_facts(&strong) <= 100);
}
