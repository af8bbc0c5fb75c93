use passcore::chars::GenerationSpec;
use passcore::errors::PassError;
use passcore::generator::{gen_password, gen_pin, generate};
use passcore::sampler::{gen_words, sample};
use passcore::vocab::{syllable_list, word_list};

const SIMILAR: &str = "iI1loO0\"'`|";

fn distinct(tokens: &[String]) -> bool {
    for i in 0..tokens.len() {
        for j in 0..i {
            if tokens[i] == tokens[j] {
                return false;
            }
        }
    }
    true
}

#[test]
fn test_gen_words() {
    let words = gen_words(15, true);
    println!("{:?}", words);
    let words = gen_words(8, false);
    println!("{:?}", words);
}

#[test]
fn gen_words_counts_and_distinctness() {
    let words = gen_words(15, true);
    assert_eq!(words.len(), 15);
    assert!(distinct(&words));
    let syl = gen_words(8, false);
    assert_eq!(syl.len(), 8);
    assert!(distinct(&syl));
    assert_eq!(gen_words(0, true).len(), 0);
}

#[test]
fn gen_words_caps_at_256() {
    let words = gen_words(300, true);
    assert_eq!(words.len(), 256);
    assert!(distinct(&words));
    let syl = gen_words(5000, false);
    assert_eq!(syl.len(), 256);
    assert!(distinct(&syl));
}

#[test]
fn sample_degrades_on_small_vocabulary() {
    let vocab = vec![
        String::from("alpha"),
        String::from("beta"),
        String::from("alpha"),
    ];
    let picked = sample(3, &vocab);
    assert_eq!(picked.len(), 2);
    assert!(distinct(&picked));
    for t in &picked {
        assert!(vocab.contains(t));
    }
}

#[test]
fn sample_draws_only_vocabulary_tokens() {
    let vocab = word_list();
    let picked = sample(40, &vocab);
    assert_eq!(picked.len(), 40);
    assert!(distinct(&picked));
    for t in &picked {
        assert!(vocab.contains(t));
    }
}

#[test]
fn vocabularies_are_large_and_distinct() {
    let words = word_list();
    let syl = syllable_list();
    assert!(words.len() > 256);
    assert!(syl.len() > 256);
    assert!(distinct(&words));
    assert!(distinct(&syl));
}

#[test]
fn password_has_requested_length_and_classes() {
    let s = gen_password(12, true, true, true, false).unwrap();
    assert_eq!(s.chars().count(), 12);
    assert!(s.chars().any(|c| c.is_ascii_digit()));
    assert!(s.chars().any(|c| c.is_ascii_lowercase()));
    assert!(s.chars().any(|c| c.is_ascii_uppercase()));
    assert!(s.chars().any(|c| c.is_ascii_punctuation()));
}

#[test]
fn password_excludes_similar_characters() {
    for _ in 0..50 {
        let s = gen_password(20, true, true, true, true).unwrap();
        assert_eq!(s.chars().count(), 20);
        for c in s.chars() {
            assert!(!SIMILAR.contains(c), "similar character {:?} in {:?}", c, s);
        }
    }
}

#[test]
fn password_rejects_bad_requests() {
    assert_eq!(
        gen_password(0, true, false, false, false),
        Err(PassError::ZeroLength)
    );
    assert_eq!(
        gen_password(2, true, true, true, false),
        Err(PassError::LengthTooShort)
    );
    assert!(gen_password(4, true, true, true, false).is_ok());
}

#[test]
fn generate_requires_an_enabled_class() {
    let cfg = GenerationSpec {
        length: 8,
        numbers: false,
        lowercase_letters: false,
        uppercase_letters: false,
        symbols: false,
        spaces: false,
        exclude_similar_characters: false,
        strict: false,
    };
    assert_eq!(generate(&cfg), Err(PassError::NoClassEnabled));
}

#[test]
fn strict_generation_covers_spaces() {
    let cfg = GenerationSpec {
        length: 10,
        numbers: true,
        lowercase_letters: true,
        uppercase_letters: false,
        symbols: false,
        spaces: true,
        exclude_similar_characters: false,
        strict: true,
    };
    let s = generate(&cfg).unwrap();
    assert_eq!(s.chars().count(), 10);
    assert!(s.chars().any(|c| c == ' '));
    assert!(s.chars().any(|c| c.is_ascii_digit()));
    assert!(s.chars().any(|c| c.is_ascii_lowercase()));
}

#[test]
fn pin_round_trip() {
    let s = gen_pin(6).unwrap();
    assert_eq!(s.chars().count(), 6);
    assert!(s.chars().all(|c| c.is_ascii_digit()));
    let one = gen_pin(1).unwrap();
    assert_eq!(one.chars().count(), 1);
    assert_eq!(gen_pin(0), Err(PassError::ZeroLength));
}
