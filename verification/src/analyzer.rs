use vstd::prelude::*;

use crate::chars::{in_class, CharClass};
use crate::strutil::chars_to_string;

verus! {

/// Control characters are dropped before analysis; everything else is kept.
pub open spec fn keep_char(c: char) -> bool {
    !(c as u32 <= 0x1F || c as u32 == 0x7F)
}

/// The kept characters among the first `n` of `s`, in order.
pub open spec fn filt_upto(s: Seq<char>, n: int) -> Seq<char>
    decreases n,
{
    if n <= 0 {
        Seq::empty()
    } else {
        if keep_char(s[n - 1]) {
            filt_upto(s, n - 1).push(s[n - 1])
        } else {
            filt_upto(s, n - 1)
        }
    }
}

/// The analyzed form of a password: its characters with controls removed.
pub open spec fn filtered(s: Seq<char>) -> Seq<char> {
    filt_upto(s, s.len() as int)
}

/// How many of the first `n` characters belong to class `k`.
pub open spec fn cls_upto(s: Seq<char>, k: CharClass, n: int) -> int
    decreases n,
{
    if n <= 0 {
        0
    } else {
        cls_upto(s, k, n - 1) + (if in_class(s[n - 1], k) {
            1int
        } else {
            0int
        })
    }
}

/// A character outside all five classes counts as "other".
pub open spec fn is_other_char(c: char) -> bool {
    &&& !in_class(c, CharClass::Digit)
    &&& !in_class(c, CharClass::Lower)
    &&& !in_class(c, CharClass::Upper)
    &&& !in_class(c, CharClass::Symbol)
    &&& !in_class(c, CharClass::Space)
}

/// How many of the first `n` characters are outside all five classes.
pub open spec fn other_upto(s: Seq<char>, n: int) -> int
    decreases n,
{
    if n <= 0 {
        0
    } else {
        other_upto(s, n - 1) + (if is_other_char(s[n - 1]) {
            1int
        } else {
            0int
        })
    }
}

/// Adjacent pairs of identical characters among the first `n` characters.
pub open spec fn consec_upto(s: Seq<char>, n: int) -> int
    decreases n,
{
    if n <= 1 {
        0
    } else {
        consec_upto(s, n - 1) + (if s[n - 1] == s[n - 2] {
            1int
        } else {
            0int
        })
    }
}

/// Two characters one code point apart, ascending or descending.
pub open spec fn step_one(a: char, b: char) -> bool {
    a as u32 + 1 == b as u32 || b as u32 + 1 == a as u32
}

/// Adjacent pairs forming an ascending or descending ordinal step among the
/// first `n` characters.
pub open spec fn prog_upto(s: Seq<char>, n: int) -> int
    decreases n,
{
    if n <= 1 {
        0
    } else {
        prog_upto(s, n - 1) + (if step_one(s[n - 2], s[n - 1]) {
            1int
        } else {
            0int
        })
    }
}

/// Position `i` holds a repeated character that is not part of an adjacent
/// repeat: the same character occurs elsewhere, but not right next to it.
pub open spec fn nc_at(s: Seq<char>, i: int) -> bool {
    &&& (exists|j: int| 0 <= j < s.len() && j != i && s[j] == s[i])
    &&& !(i > 0 && s[i - 1] == s[i])
    &&& !(i + 1 < s.len() && s[i + 1] == s[i])
}

/// How many of the first `n` positions hold a non-adjacent repeat.
pub open spec fn nc_upto(s: Seq<char>, n: int) -> int
    decreases n,
{
    if n <= 0 {
        0
    } else {
        nc_upto(s, n - 1) + (if nc_at(s, n - 1) {
            1int
        } else {
            0int
        })
    }
}

/// Relies on `passwords::analyzer::is_common_password`: membership of the
/// string in that crate's fixed common-password list, a function of the
/// characters alone; the list contains no empty string and none of its
/// entries holds a control character.
#[verifier::external_body]
fn is_common_raw(s: &str) -> (r: bool)
    ensures
        r == is_common_of(s@),
        s@.len() == 0 ==> r == false,
        r ==> forall|i: int| 0 <= i < s@.len() ==> keep_char(#[trigger] s@[i]),
{
    passwords::analyzer::is_common_password(s)
}

/// Whether a string is in the fixed common-password list.
pub uninterp spec fn is_common_of(s: Seq<char>) -> bool;

/// The structural facts of one analyzed password. `password` holds the
/// analyzed characters (controls removed) and every count speaks of them.
pub struct AnalyzedResult {
    pub password: String,
    pub length: usize,
    pub spaces_count: usize,
    pub numbers_count: usize,
    pub lowercase_letters_count: usize,
    pub uppercase_letters_count: usize,
    pub symbols_count: usize,
    pub other_characters_count: usize,
    pub consecutive_count: usize,
    pub non_consecutive_count: usize,
    pub progressive_count: usize,
    pub is_common: bool,
}

/// What analysis promises: every field is the corresponding structural
/// count of the control-filtered password.
pub open spec fn analysis_matches(r: AnalyzedResult, s: Seq<char>) -> bool {
    let f = filtered(s);
    &&& r.password@ == f
    &&& r.length == f.len()
    &&& r.spaces_count == cls_upto(f, CharClass::Space, f.len() as int)
    &&& r.numbers_count == cls_upto(f, CharClass::Digit, f.len() as int)
    &&& r.lowercase_letters_count == cls_upto(f, CharClass::Lower, f.len() as int)
    &&& r.uppercase_letters_count == cls_upto(f, CharClass::Upper, f.len() as int)
    &&& r.symbols_count == cls_upto(f, CharClass::Symbol, f.len() as int)
    &&& r.other_characters_count == other_upto(f, f.len() as int)
    &&& r.consecutive_count == consec_upto(f, f.len() as int)
    &&& r.non_consecutive_count == nc_upto(f, f.len() as int)
    &&& r.progressive_count == prog_upto(f, f.len() as int)
    &&& r.is_common == is_common_of(f)
}

/// Drop control characters, keeping everything else in order.
fn filter_controls(s: &str) -> (v: Vec<char>)
    ensures
        v@ == filtered(s@),
{
    let n = s.unicode_len();
    let mut v: Vec<char> = Vec::new();
    let mut i: usize = 0;
    while i < n
        invariant
            i <= n,
            n == s@.len(),
            v@ == filt_upto(s@, i as int),
        decreases n - i,
    {
        let c = s.get_char(i);
        if !(c as u32 <= 0x1F || c as u32 == 0x7F) {
            v.push(c);
        }
        i += 1;
    }
    v
}

/// Count the characters of `v` in class `k`.
fn count_class(v: &Vec<char>, k: CharClass) -> (n: usize)
    ensures
        n == cls_upto(v@, k, v@.len() as int),
{
    let mut n: usize = 0;
    let mut i: usize = 0;
    while i < v.len()
        invariant
            i <= v@.len(),
            n <= i,
            n == cls_upto(v@, k, i as int),
        decreases v@.len() - i,
    {
        let c = v[i];
        let code = c as u32;
        let hit = match k {
            CharClass::Digit => 48 <= code && code <= 57,
            CharClass::Lower => 97 <= code && code <= 122,
            CharClass::Upper => 65 <= code && code <= 90,
            CharClass::Symbol => (33 <= code && code <= 47) || (58 <= code && code <= 64) || (91
                <= code && code <= 96) || (123 <= code && code <= 126),
            CharClass::Space => code == 32,
        };
        if hit {
            n += 1;
        }
        i += 1;
    }
    n
}

/// Count the characters of `v` outside all five classes.
fn count_other(v: &Vec<char>) -> (n: usize)
    ensures
        n == other_upto(v@, v@.len() as int),
{
    let mut n: usize = 0;
    let mut i: usize = 0;
    while i < v.len()
        invariant
            i <= v@.len(),
            n <= i,
            n == other_upto(v@, i as int),
        decreases v@.len() - i,
    {
        let code = v[i] as u32;
        let in_any = (48 <= code && code <= 57) || (97 <= code && code <= 122) || (65 <= code
            && code <= 90) || (33 <= code && code <= 47) || (58 <= code && code <= 64) || (91
            <= code && code <= 96) || (123 <= code && code <= 126) || code == 32;
        if !in_any {
            n += 1;
        }
        i += 1;
    }
    n
}

/// Count adjacent identical pairs.
fn count_consecutive(v: &Vec<char>) -> (n: usize)
    ensures
        n == consec_upto(v@, v@.len() as int),
{
    let mut n: usize = 0;
    let mut i: usize = 0;
    while i < v.len()
        invariant
            i <= v@.len(),
            n <= i,
            n == consec_upto(v@, i as int),
        decreases v@.len() - i,
    {
        if i >= 1 && v[i] == v[i - 1] {
            n += 1;
        }
        i += 1;
    }
    n
}

/// Count adjacent one-step ascending or descending pairs.
fn count_progressive(v: &Vec<char>) -> (n: usize)
    ensures
        n == prog_upto(v@, v@.len() as int),
{
    let mut n: usize = 0;
    let mut i: usize = 0;
    while i < v.len()
        invariant
            i <= v@.len(),
            n <= i,
            n == prog_upto(v@, i as int),
        decreases v@.len() - i,
    {
        if i >= 1 {
            let a = v[i - 1] as u32;
            let b = v[i] as u32;
            let one_step = if a < b {
                b - a == 1
            } else {
                a - b == 1
            };
            if one_step {
                n += 1;
            }
        }
        i += 1;
    }
    n
}

/// Whether the character at `i` occurs somewhere else in `v`.
fn occurs_elsewhere(v: &Vec<char>, i: usize) -> (r: bool)
    requires
        i < v@.len(),
    ensures
        r == exists|j: int| 0 <= j < v@.len() && j != i && v@[j] == v@[i as int],
{
    let mut j: usize = 0;
    while j < v.len()
        invariant
            i < v@.len(),
            j <= v@.len(),
            forall|m: int| 0 <= m < j && m != i ==> v@[m] != v@[i as int],
        decreases v@.len() - j,
    {
        if j != i && v[j] == v[i] {
            return true;
        }
        j += 1;
    }
    false
}

/// Count positions holding a repeated character with no identical
/// neighbour.
fn count_non_consecutive(v: &Vec<char>) -> (n: usize)
    ensures
        n == nc_upto(v@, v@.len() as int),
{
    let mut n: usize = 0;
    let mut i: usize = 0;
    while i < v.len()
        invariant
            i <= v@.len(),
            n <= i,
            n == nc_upto(v@, i as int),
        decreases v@.len() - i,
    {
        let repeated = occurs_elsewhere(v, i);
        let left = i >= 1 && v[i - 1] == v[i];
        let right = i + 1 < v.len() && v[i + 1] == v[i];
        if repeated && !left && !right {
            n += 1;
        }
        i += 1;
    }
    n
}

/// Analyze a password in one pass over its characters: drop control
/// characters, classify every kept character into exactly one class, count
/// adjacent repeats, one-step runs and non-adjacent repeats, and test the
/// result against the common-password list.
pub fn analyze(password: &str) -> (r: AnalyzedResult)
    ensures
        analysis_matches(r, password@),
        filtered(password@).len() == 0 ==> !r.is_common,
{
    let fc = filter_controls(password);
    let text = chars_to_string(&fc);
    let common = is_common_raw(text.as_str());
    AnalyzedResult {
        length: fc.len(),
        spaces_count: count_class(&fc, CharClass::Space),
        numbers_count: count_class(&fc, CharClass::Digit),
        lowercase_letters_count: count_class(&fc, CharClass::Lower),
        uppercase_letters_count: count_class(&fc, CharClass::Upper),
        symbols_count: count_class(&fc, CharClass::Symbol),
        other_characters_count: count_other(&fc),
        consecutive_count: count_consecutive(&fc),
        non_consecutive_count: count_non_consecutive(&fc),
        progressive_count: count_progressive(&fc),
        is_common: common,
        password: text,
    }
}

/// Whether the given string, exactly as handed in, is in the fixed
/// common-password list.
pub fn is_common_password(password: &str) -> (r: bool)
    ensures
        r == is_common_of(password@),
        password@.len() == 0 ==> !r,
        r ==> forall|i: int| 0 <= i < password@.len() ==> keep_char(#[trigger] password@[i]),
{
    is_common_raw(password)
}

/// A password without control characters is its own analyzed form: the
/// filter keeps every character.
pub proof fn lemma_filtered_identity(s: Seq<char>)
    requires
        forall|i: int| 0 <= i < s.len() ==> keep_char(#[trigger] s[i]),
    ensures
        filtered(s) == s,
{
    lemma_filt_upto_identity(s, s.len() as int);
    assert(s.subrange(0, s.len() as int) =~= s);
}

proof fn lemma_filt_upto_identity(s: Seq<char>, n: int)
    requires
        0 <= n <= s.len(),
        forall|i: int| 0 <= i < s.len() ==> keep_char(#[trigger] s[i]),
    ensures
        filt_upto(s, n) == s.subrange(0, n),
    decreases n,
{
    if n > 0 {
        lemma_filt_upto_identity(s, n - 1);
        assert(filt_upto(s, n) =~= s.subrange(0, n));
    } else {
        assert(filt_upto(s, n) =~= s.subrange(0, n));
    }
}

} // verus!
