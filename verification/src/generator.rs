use vstd::prelude::*;

use crate::chars::{class_pool, in_class, is_similar, CharClass, GenerationSpec};
use crate::errors::PassError;
use crate::random::random_below;
use crate::strutil::chars_to_string;

verus! {

/// Some position of `s` holds a character of class `k`.
pub open spec fn covered(s: Seq<char>, k: CharClass) -> bool {
    exists|i: int| 0 <= i < s.len() && in_class(#[trigger] s[i], k)
}

/// What the generator promises of a produced secret: exactly the requested
/// length, every character drawn from the union pool, and, under strict
/// rules, every enabled class represented at least once.
pub open spec fn satisfies(cfg: GenerationSpec, s: Seq<char>) -> bool {
    &&& s.len() == cfg.length
    &&& forall|i: int| 0 <= i < s.len() ==> cfg.admits(#[trigger] s[i])
    &&& (cfg.strict ==> forall|k: CharClass| cfg.enabled(k) ==> covered(s, k))
}

/// Appending a character keeps every class that was already represented.
proof fn lemma_push_keeps_covered(s: Seq<char>, c: char)
    ensures
        forall|k: CharClass| covered(s, k) ==> #[trigger] covered(s.push(c), k),
{
    assert forall|k: CharClass| covered(s, k) implies #[trigger] covered(s.push(c), k) by {
        let i = choose|i: int| 0 <= i < s.len() && in_class(s[i], k);
        assert(s.push(c)[i] == s[i]);
    }
}

/// Appending a character of class `k` makes `k` represented.
proof fn lemma_push_covers(s: Seq<char>, c: char, k: CharClass)
    requires
        in_class(c, k),
    ensures
        covered(s.push(c), k),
{
    assert(s.push(c)[s.len() as int] == c);
}

/// How many classes the request enables.
fn count_enabled(cfg: &GenerationSpec) -> (n: usize)
    ensures
        n == cfg.enabled_count(),
        n <= 5,
{
    let mut n: usize = 0;
    if cfg.numbers {
        n = n + 1;
    }
    if cfg.lowercase_letters {
        n = n + 1;
    }
    if cfg.uppercase_letters {
        n = n + 1;
    }
    if cfg.symbols {
        n = n + 1;
    }
    if cfg.spaces {
        n = n + 1;
    }
    n
}

/// Reject a structurally unsatisfiable request before any generation work,
/// naming the first violated rule.
pub fn validate(cfg: &GenerationSpec) -> (r: Result<(), PassError>)
    ensures
        r is Ok <==> cfg.valid(),
        cfg.length == 0 ==> r === Err(PassError::ZeroLength),
        cfg.length >= 1 && !cfg.any_enabled() ==> r === Err(PassError::NoClassEnabled),
        cfg.length >= 1 && cfg.any_enabled() && !(cfg.strict ==> cfg.enabled_count()
            <= cfg.length) ==> r === Err(PassError::LengthTooShort),
{
    if cfg.length == 0 {
        return Err(PassError::ZeroLength);
    }
    let classes = count_enabled(cfg);
    if classes == 0 {
        return Err(PassError::NoClassEnabled);
    }
    if cfg.strict && cfg.length < classes {
        return Err(PassError::LengthTooShort);
    }
    Ok(())
}

/// Joining two pools keeps exactly the characters of both.
proof fn lemma_concat_contains(a: Seq<char>, b: Seq<char>)
    ensures
        forall|c: char| #[trigger] (a + b).contains(c) <==> a.contains(c) || b.contains(c),
{
    assert forall|c: char| #[trigger] (a + b).contains(c) implies a.contains(c) || b.contains(
        c,
    ) by {
        let i = choose|i: int| 0 <= i < (a + b).len() && (a + b)[i] == c;
        if i < a.len() {
            assert(a[i] == c);
        } else {
            assert(b[i - a.len()] == c);
        }
    }
    assert forall|c: char| a.contains(c) || b.contains(c) implies #[trigger] (a + b).contains(
        c,
    ) by {
        if a.contains(c) {
            let i = choose|i: int| 0 <= i < a.len() && a[i] == c;
            assert((a + b)[i] == c);
        } else {
            let i = choose|i: int| 0 <= i < b.len() && b[i] == c;
            assert((a + b)[a.len() + i] == c);
        }
    }
}

/// The union pool of exactly the characters the request admits; non-empty
/// whenever some class is enabled.
pub fn build_pool(cfg: &GenerationSpec) -> (v: Vec<char>)
    ensures
        forall|i: int| 0 <= i < v@.len() ==> cfg.admits(#[trigger] v@[i]),
        forall|c: char| #[trigger] cfg.admits(c) ==> v@.contains(c),
        cfg.any_enabled() ==> v@.len() >= 1,
{
    let mut v: Vec<char> = Vec::new();
    if cfg.numbers {
        let mut p = class_pool(CharClass::Digit, cfg.exclude_similar_characters);
        let ghost before = v@;
        let ghost pv = p@;
        v.append(&mut p);
        proof {
            lemma_concat_contains(before, pv);
        }
    }
    if cfg.lowercase_letters {
        let mut p = class_pool(CharClass::Lower, cfg.exclude_similar_characters);
        let ghost before = v@;
        let ghost pv = p@;
        v.append(&mut p);
        proof {
            lemma_concat_contains(before, pv);
        }
    }
    if cfg.uppercase_letters {
        let mut p = class_pool(CharClass::Upper, cfg.exclude_similar_characters);
        let ghost before = v@;
        let ghost pv = p@;
        v.append(&mut p);
        proof {
            lemma_concat_contains(before, pv);
        }
    }
    if cfg.symbols {
        let mut p = class_pool(CharClass::Symbol, cfg.exclude_similar_characters);
        let ghost before = v@;
        let ghost pv = p@;
        v.append(&mut p);
        proof {
            lemma_concat_contains(before, pv);
        }
    }
    if cfg.spaces {
        let mut p = class_pool(CharClass::Space, cfg.exclude_similar_characters);
        let ghost before = v@;
        let ghost pv = p@;
        v.append(&mut p);
        proof {
            lemma_concat_contains(before, pv);
        }
    }
    proof {
        assert forall|c: char| #[trigger] cfg.admits(c) implies v@.contains(c) by {
            if cfg.numbers && in_class(c, CharClass::Digit) {
                assert(in_class(c, CharClass::Digit));
            } else if cfg.lowercase_letters && in_class(c, CharClass::Lower) {
                assert(in_class(c, CharClass::Lower));
            } else if cfg.uppercase_letters && in_class(c, CharClass::Upper) {
                assert(in_class(c, CharClass::Upper));
            } else if cfg.symbols && in_class(c, CharClass::Symbol) {
                assert(in_class(c, CharClass::Symbol));
            } else {
                assert(in_class(c, CharClass::Space));
            }
        }
    }
    v
}

/// Exchanging two positions leaves the multiset of characters unchanged.
proof fn lemma_swap_multiset(s: Seq<char>, i: int, j: int)
    requires
        0 <= i < s.len(),
        0 <= j < s.len(),
    ensures
        s.update(i, s[j]).update(j, s[i]).to_multiset() == s.to_multiset(),
{
    broadcast use vstd::seq_lib::group_to_multiset_ensures;
    broadcast use vstd::multiset::group_multiset_axioms;

    if i == j {
        assert(s.update(i, s[j]).update(j, s[i]) =~= s);
    } else {
        let s1 = s.update(i, s[j]);
        assert(s1.to_multiset() == s.to_multiset().insert(s[j]).remove(s[i]));
        assert(s1.update(j, s[i]).to_multiset() == s1.to_multiset().insert(s[i]).remove(s1[j]));
        assert(s.contains(s[i]));
        assert(s.contains(s[j]));
        assert(s.to_multiset().insert(s[j]).remove(s[i]).insert(s[i]).remove(s[j])
            =~= s.to_multiset());
    }
}

/// Exchanging two positions never adds or removes a character value.
proof fn lemma_swap_contains(s: Seq<char>, i: int, j: int)
    requires
        0 <= i < s.len(),
        0 <= j < s.len(),
    ensures
        forall|c: char| s.update(i, s[j]).update(j, s[i]).contains(c) <==> s.contains(c),
{
    let t = s.update(i, s[j]).update(j, s[i]);
    assert forall|c: char| t.contains(c) implies s.contains(c) by {
        let k = choose|k: int| 0 <= k < t.len() && t[k] == c;
        if k == j {
            assert(s[i] == c);
        } else if k == i {
            assert(s[j] == c);
        } else {
            assert(s[k] == c);
        }
    }
    assert forall|c: char| s.contains(c) implies t.contains(c) by {
        let k = choose|k: int| 0 <= k < s.len() && s[k] == c;
        if k == i {
            assert(t[j] == c);
        } else if k == j {
            if i != j {
                assert(t[i] == c);
            } else {
                assert(t[j] == c);
            }
        } else {
            assert(t[k] == c);
        }
    }
}

/// A uniform in-place shuffle; the characters of the sequence are exactly
/// those it held before, in some order.
fn shuffle(v: &mut Vec<char>)
    ensures
        final(v)@.len() == old(v)@.len(),
        final(v)@.to_multiset() == old(v)@.to_multiset(),
        forall|c: char| final(v)@.contains(c) <==> old(v)@.contains(c),
{
    let ghost orig = v@;
    let mut i: usize = v.len();
    while i > 1
        invariant
            i <= v@.len(),
            v@.len() == orig.len(),
            v@.to_multiset() == orig.to_multiset(),
            forall|c: char| v@.contains(c) <==> orig.contains(c),
        decreases i,
    {
        let j = random_below(i);
        i = i - 1;
        let ghost before = v@;
        let a = v[i];
        let b = v[j];
        v.set(i, b);
        v.set(j, a);
        proof {
            lemma_swap_contains(before, i as int, j as int);
            lemma_swap_multiset(before, i as int, j as int);
        }
    }
}

/// Draw one character uniformly from a non-empty pool.
fn pick_from(pool: &Vec<char>) -> (c: char)
    requires
        pool@.len() >= 1,
    ensures
        pool@.contains(c),
{
    let i = random_below(pool.len());
    let c = pool[i];
    assert(pool@[i as int] == c);
    c
}

/// Generate one secret for a validated request: place one character from
/// each enabled class's sub-pool first when strict, fill the remaining
/// positions from the union pool, then shuffle all positions. Fails exactly
/// on the structurally unsatisfiable requests.
pub fn generate(cfg: &GenerationSpec) -> (r: Result<String, PassError>)
    ensures
        r is Ok <==> cfg.valid(),
        cfg.length == 0 ==> r === Err(PassError::ZeroLength),
        cfg.length >= 1 && !cfg.any_enabled() ==> r === Err(PassError::NoClassEnabled),
        cfg.length >= 1 && cfg.any_enabled() && !(cfg.strict ==> cfg.enabled_count()
            <= cfg.length) ==> r === Err(PassError::LengthTooShort),
        r matches Ok(s) ==> satisfies(*cfg, s@),
        r matches Ok(s) ==> (cfg.exclude_similar_characters ==> forall|i: int|
            0 <= i < s@.len() ==> !is_similar(#[trigger] s@[i])),
{
    match validate(cfg) {
        Err(e) => {
            return Err(e);
        },
        Ok(()) => {},
    }
    let mut out: Vec<char> = Vec::new();
    if cfg.strict {
        if cfg.numbers {
            let p = class_pool(CharClass::Digit, cfg.exclude_similar_characters);
            let c = pick_from(&p);
            proof {
                let w = choose|w: int| 0 <= w < p@.len() && p@[w] == c;
                assert(cfg.admits(c));
                lemma_push_keeps_covered(out@, c);
                lemma_push_covers(out@, c, CharClass::Digit);
            }
            out.push(c);
        }
        if cfg.lowercase_letters {
            let p = class_pool(CharClass::Lower, cfg.exclude_similar_characters);
            let c = pick_from(&p);
            proof {
                let w = choose|w: int| 0 <= w < p@.len() && p@[w] == c;
                assert(cfg.admits(c));
                lemma_push_keeps_covered(out@, c);
                lemma_push_covers(out@, c, CharClass::Lower);
            }
            out.push(c);
        }
        if cfg.uppercase_letters {
            let p = class_pool(CharClass::Upper, cfg.exclude_similar_characters);
            let c = pick_from(&p);
            proof {
                let w = choose|w: int| 0 <= w < p@.len() && p@[w] == c;
                assert(cfg.admits(c));
                lemma_push_keeps_covered(out@, c);
                lemma_push_covers(out@, c, CharClass::Upper);
            }
            out.push(c);
        }
        if cfg.symbols {
            let p = class_pool(CharClass::Symbol, cfg.exclude_similar_characters);
            let c = pick_from(&p);
            proof {
                let w = choose|w: int| 0 <= w < p@.len() && p@[w] == c;
                assert(cfg.admits(c));
                lemma_push_keeps_covered(out@, c);
                lemma_push_covers(out@, c, CharClass::Symbol);
            }
            out.push(c);
        }
        if cfg.spaces {
            let p = class_pool(CharClass::Space, cfg.exclude_similar_characters);
            let c = pick_from(&p);
            proof {
                let w = choose|w: int| 0 <= w < p@.len() && p@[w] == c;
                assert(cfg.admits(c));
                lemma_push_keeps_covered(out@, c);
                lemma_push_covers(out@, c, CharClass::Space);
            }
            out.push(c);
        }
        proof {
            assert forall|k: CharClass| cfg.enabled(k) implies covered(out@, k) by {
                if k == CharClass::Digit {
                    assert(covered(out@, CharClass::Digit));
                } else if k == CharClass::Lower {
                    assert(covered(out@, CharClass::Lower));
                } else if k == CharClass::Upper {
                    assert(covered(out@, CharClass::Upper));
                } else if k == CharClass::Symbol {
                    assert(covered(out@, CharClass::Symbol));
                } else {
                    assert(covered(out@, CharClass::Space));
                }
            }
        }
    }
    let pool = build_pool(cfg);
    while out.len() < cfg.length
        invariant
            out@.len() <= cfg.length,
            forall|i: int| 0 <= i < out@.len() ==> cfg.admits(#[trigger] out@[i]),
            cfg.strict ==> forall|k: CharClass| cfg.enabled(k) ==> covered(out@, k),
            forall|i: int| 0 <= i < pool@.len() ==> cfg.admits(#[trigger] pool@[i]),
            cfg.any_enabled() ==> pool@.len() >= 1,
            cfg.any_enabled(),
        decreases cfg.length - out@.len(),
    {
        let c = pick_from(&pool);
        proof {
            let w = choose|w: int| 0 <= w < pool@.len() && pool@[w] == c;
            assert(cfg.admits(c));
            lemma_push_keeps_covered(out@, c);
        }
        out.push(c);
    }
    let ghost pre = out@;
    shuffle(&mut out);
    proof {
        assert forall|i: int| 0 <= i < out@.len() implies cfg.admits(#[trigger] out@[i]) by {
            assert(out@.contains(out@[i]));
            assert(pre.contains(out@[i]));
            let k = choose|k: int| 0 <= k < pre.len() && pre[k] == out@[i];
            assert(cfg.admits(pre[k]));
        }
        if cfg.strict {
            assert forall|k: CharClass| cfg.enabled(k) implies covered(out@, k) by {
                let wi = choose|wi: int| 0 <= wi < pre.len() && in_class(pre[wi], k);
                assert(pre.contains(pre[wi]));
                assert(out@.contains(pre[wi]));
                let ni = choose|ni: int| 0 <= ni < out@.len() && out@[ni] == pre[wi];
                assert(in_class(out@[ni], k));
            }
        }
    }
    let s = chars_to_string(&out);
    Ok(s)
}

/// The request that one password call stands for: lowercase always enabled,
/// spaces never, strict rules always on.
pub open spec fn password_request(
    length: usize,
    numbers: bool,
    symbols: bool,
    uppercase: bool,
    exclude_similar_characters: bool,
) -> GenerationSpec {
    GenerationSpec {
        length,
        numbers,
        lowercase_letters: true,
        uppercase_letters: uppercase,
        symbols,
        spaces: false,
        exclude_similar_characters,
        strict: true,
    }
}

/// The request that one PIN call stands for: digits only, strict.
pub open spec fn pin_request(length: usize) -> GenerationSpec {
    GenerationSpec {
        length,
        numbers: true,
        lowercase_letters: false,
        uppercase_letters: false,
        symbols: false,
        spaces: false,
        exclude_similar_characters: false,
        strict: true,
    }
}

/// Generate a password with lowercase letters always enabled and strict
/// class coverage, as the generation front door does.
pub fn gen_password(
    length: usize,
    numbers: bool,
    symbols: bool,
    uppercase: bool,
    exclude_similar_characters: bool,
) -> (r: Result<String, PassError>)
    ensures
        r is Ok <==> password_request(
            length,
            numbers,
            symbols,
            uppercase,
            exclude_similar_characters,
        ).valid(),
        length == 0 ==> r === Err(PassError::ZeroLength),
        length >= 1 && !(password_request(
            length,
            numbers,
            symbols,
            uppercase,
            exclude_similar_characters,
        ).enabled_count() <= length) ==> r === Err(PassError::LengthTooShort),
        r matches Ok(s) ==> satisfies(
            password_request(length, numbers, symbols, uppercase, exclude_similar_characters),
            s@,
        ),
        r matches Ok(s) ==> (exclude_similar_characters ==> forall|i: int|
            0 <= i < s@.len() ==> !is_similar(#[trigger] s@[i])),
{
    let cfg = GenerationSpec {
        length,
        numbers,
        lowercase_letters: true,
        uppercase_letters: uppercase,
        symbols,
        spaces: false,
        exclude_similar_characters,
        strict: true,
    };
    generate(&cfg)
}

/// Generate a numeric PIN: digits only, strict; succeeds exactly when the
/// requested length is at least one, and every character is a digit.
pub fn gen_pin(length: usize) -> (r: Result<String, PassError>)
    ensures
        r is Ok <==> length >= 1,
        length == 0 ==> r === Err(PassError::ZeroLength),
        r matches Ok(s) ==> s@.len() == length,
        r matches Ok(s) ==> forall|i: int|
            0 <= i < s@.len() ==> in_class(#[trigger] s@[i], CharClass::Digit),
{
    let cfg = GenerationSpec {
        length,
        numbers: true,
        lowercase_letters: false,
        uppercase_letters: false,
        symbols: false,
        spaces: false,
        exclude_similar_characters: false,
        strict: true,
    };
    let r = generate(&cfg);
    proof {
        if r is Ok {
            let s = r->Ok_0;
            assert forall|i: int| 0 <= i < s@.len() implies in_class(
                #[trigger] s@[i],
                CharClass::Digit,
            ) by {
                assert(cfg.admits(s@[i]));
            }
        }
    }
    r
}

} // verus!
