use vstd::prelude::*;

verus! {

/// The five character classes that constrain generation and classify
/// analysis: digits, lowercase letters, uppercase letters, ASCII symbols,
/// and the space character.
#[derive(Clone, Copy, Debug, PartialEq, Eq, Structural)]
pub enum CharClass {
    Digit,
    Lower,
    Upper,
    Symbol,
    Space,
}

/// Class membership, by character code. Every character belongs to at most
/// one class; codes outside all five classes are "other" characters.
pub open spec fn in_class(c: char, k: CharClass) -> bool {
    match k {
        CharClass::Digit => 48 <= c as u32 <= 57,
        CharClass::Lower => 97 <= c as u32 <= 122,
        CharClass::Upper => 65 <= c as u32 <= 90,
        CharClass::Symbol => (33 <= c as u32 <= 47) || (58 <= c as u32 <= 64) || (91 <= c as u32
            <= 96) || (123 <= c as u32 <= 126),
        CharClass::Space => c as u32 == 32,
    }
}

/// The fixed confusable set removed by "exclude similar characters".
pub open spec fn is_similar(c: char) -> bool {
    c == 'i' || c == 'I' || c == '1' || c == 'l' || c == 'o' || c == 'O' || c == '0' || c == '"'
        || c == '\'' || c == '`' || c == '|'
}

/// A validated request for constrained generation: the target length, the
/// enabled character classes, whether confusable characters are excluded,
/// and whether every enabled class must be represented in the output.
#[derive(Clone, Copy, Debug)]
pub struct GenerationSpec {
    pub length: usize,
    pub numbers: bool,
    pub lowercase_letters: bool,
    pub uppercase_letters: bool,
    pub symbols: bool,
    pub spaces: bool,
    pub exclude_similar_characters: bool,
    pub strict: bool,
}

impl GenerationSpec {
    /// Whether class `k` is enabled by this request.
    pub open spec fn enabled(self, k: CharClass) -> bool {
        match k {
            CharClass::Digit => self.numbers,
            CharClass::Lower => self.lowercase_letters,
            CharClass::Upper => self.uppercase_letters,
            CharClass::Symbol => self.symbols,
            CharClass::Space => self.spaces,
        }
    }

    /// How many classes are enabled.
    pub open spec fn enabled_count(self) -> int {
        (if self.numbers {
            1int
        } else {
            0int
        }) + (if self.lowercase_letters {
            1int
        } else {
            0int
        }) + (if self.uppercase_letters {
            1int
        } else {
            0int
        }) + (if self.symbols {
            1int
        } else {
            0int
        }) + (if self.spaces {
            1int
        } else {
            0int
        })
    }

    /// At least one class is enabled.
    pub open spec fn any_enabled(self) -> bool {
        self.numbers || self.lowercase_letters || self.uppercase_letters || self.symbols
            || self.spaces
    }

    /// A request is structurally satisfiable when the length is positive,
    /// some class is enabled, and under strict rules the length leaves room
    /// for one character from every enabled class.
    pub open spec fn valid(self) -> bool {
        &&& self.length >= 1
        &&& self.any_enabled()
        &&& (self.strict ==> self.enabled_count() <= self.length)
    }

    /// The union pool: a character is allowed when some enabled class
    /// contains it, and, under exclusion, it is not a confusable character.
    pub open spec fn admits(self, c: char) -> bool {
        &&& {
            ||| (self.numbers && in_class(c, CharClass::Digit))
            ||| (self.lowercase_letters && in_class(c, CharClass::Lower))
            ||| (self.uppercase_letters && in_class(c, CharClass::Upper))
            ||| (self.symbols && in_class(c, CharClass::Symbol))
            ||| (self.spaces && in_class(c, CharClass::Space))
        }
        &&& (self.exclude_similar_characters ==> !is_similar(c))
    }
}

/// Two characters with the same code are the same character.
proof fn lemma_char_of_code(c: char, x: char)
    requires
        c as u32 == x as u32,
    ensures
        c == x,
{
}

#[verifier::rlimit(60)]
fn digit_pool(exclude_similar: bool) -> (v: Vec<char>)
    ensures
        v@.len() >= 1,
        forall|i: int|
            0 <= i < v@.len() ==> in_class(#[trigger] v@[i], CharClass::Digit) && (exclude_similar
                ==> !is_similar(v@[i])),
        forall|c: char|
            #[trigger] in_class(c, CharClass::Digit) && (exclude_similar ==> !is_similar(c))
                ==> v@.contains(c),
{
    let mut v: Vec<char> = Vec::new();
    if exclude_similar {
        v.push('2');
        v.push('3');
        v.push('4');
        v.push('5');
        v.push('6');
        v.push('7');
        v.push('8');
        v.push('9');
        proof {
            assert forall|c: char|
                in_class(c, CharClass::Digit) && !is_similar(c) implies v@.contains(c) by {
                let u = c as u32;
                if u == 50 {
                    lemma_char_of_code(c, '2');
                    assert(v@[0int] == c);
                    assert(v@.contains(c));
                } else if u == 51 {
                    lemma_char_of_code(c, '3');
                    assert(v@[1int] == c);
                    assert(v@.contains(c));
                } else if u == 52 {
                    lemma_char_of_code(c, '4');
                    assert(v@[2int] == c);
                    assert(v@.contains(c));
                } else if u == 53 {
                    lemma_char_of_code(c, '5');
                    assert(v@[3int] == c);
                    assert(v@.contains(c));
                } else if u == 54 {
                    lemma_char_of_code(c, '6');
                    assert(v@[4int] == c);
                    assert(v@.contains(c));
                } else if u == 55 {
                    lemma_char_of_code(c, '7');
                    assert(v@[5int] == c);
                    assert(v@.contains(c));
                } else if u == 56 {
                    lemma_char_of_code(c, '8');
                    assert(v@[6int] == c);
                    assert(v@.contains(c));
                } else if u == 57 {
                    lemma_char_of_code(c, '9');
                    assert(v@[7int] == c);
                    assert(v@.contains(c));
                } else if u == 48 {
                    lemma_char_of_code(c, '0');
                } else if u == 49 {
                    lemma_char_of_code(c, '1');
                }
            }
        }
    } else {
        v.push('0');
        v.push('1');
        v.push('2');
        v.push('3');
        v.push('4');
        v.push('5');
        v.push('6');
        v.push('7');
        v.push('8');
        v.push('9');
        proof {
            assert forall|c: char| in_class(c, CharClass::Digit) implies v@.contains(c) by {
                let u = c as u32;
                if u == 48 {
                    lemma_char_of_code(c, '0');
                    assert(v@[0int] == c);
                    assert(v@.contains(c));
                } else if u == 49 {
                    lemma_char_of_code(c, '1');
                    assert(v@[1int] == c);
                    assert(v@.contains(c));
                } else if u == 50 {
                    lemma_char_of_code(c, '2');
                    assert(v@[2int] == c);
                    assert(v@.contains(c));
                } else if u == 51 {
                    lemma_char_of_code(c, '3');
                    assert(v@[3int] == c);
                    assert(v@.contains(c));
                } else if u == 52 {
                    lemma_char_of_code(c, '4');
                    assert(v@[4int] == c);
                    assert(v@.contains(c));
                } else if u == 53 {
                    lemma_char_of_code(c, '5');
                    assert(v@[5int] == c);
                    assert(v@.contains(c));
                } else if u == 54 {
                    lemma_char_of_code(c, '6');
                    assert(v@[6int] == c);
                    assert(v@.contains(c));
                } else if u == 55 {
                    lemma_char_of_code(c, '7');
                    assert(v@[7int] == c);
                    assert(v@.contains(c));
                } else if u == 56 {
                    lemma_char_of_code(c, '8');
                    assert(v@[8int] == c);
                    assert(v@.contains(c));
                } else if u == 57 {
                    lemma_char_of_code(c, '9');
                    assert(v@[9int] == c);
                    assert(v@.contains(c));
                }
            }
        }
    }
    v
}

#[verifier::rlimit(60)]
fn lower_pool(exclude_similar: bool) -> (v: Vec<char>)
    ensures
        v@.len() >= 1,
        forall|i: int|
            0 <= i < v@.len() ==> in_class(#[trigger] v@[i], CharClass::Lower) && (exclude_similar
                ==> !is_similar(v@[i])),
        forall|c: char|
            #[trigger] in_class(c, CharClass::Lower) && (exclude_similar ==> !is_similar(c))
                ==> v@.contains(c),
{
    let mut v: Vec<char> = Vec::new();
    if exclude_similar {
        v.push('a');
        v.push('b');
        v.push('c');
        v.push('d');
        v.push('e');
        v.push('f');
        v.push('g');
        v.push('h');
        v.push('j');
        v.push('k');
        v.push('m');
        v.push('n');
        v.push('p');
        v.push('q');
        v.push('r');
        v.push('s');
        v.push('t');
        v.push('u');
        v.push('v');
        v.push('w');
        v.push('x');
        v.push('y');
        v.push('z');
        proof {
            assert forall|c: char|
                in_class(c, CharClass::Lower) && !is_similar(c) implies v@.contains(c) by {
                let u = c as u32;
                if u == 97 {
                    lemma_char_of_code(c, 'a');
                    assert(v@[0int] == c);
                    assert(v@.contains(c));
                } else if u == 98 {
                    lemma_char_of_code(c, 'b');
                    assert(v@[1int] == c);
                    assert(v@.contains(c));
                } else if u == 99 {
                    lemma_char_of_code(c, 'c');
                    assert(v@[2int] == c);
                    assert(v@.contains(c));
                } else if u == 100 {
                    lemma_char_of_code(c, 'd');
                    assert(v@[3int] == c);
                    assert(v@.contains(c));
                } else if u == 101 {
                    lemma_char_of_code(c, 'e');
                    assert(v@[4int] == c);
                    assert(v@.contains(c));
                } else if u == 102 {
                    lemma_char_of_code(c, 'f');
                    assert(v@[5int] == c);
                    assert(v@.contains(c));
                } else if u == 103 {
                    lemma_char_of_code(c, 'g');
                    assert(v@[6int] == c);
                    assert(v@.contains(c));
                } else if u == 104 {
                    lemma_char_of_code(c, 'h');
                    assert(v@[7int] == c);
                    assert(v@.contains(c));
                } else if u == 106 {
                    lemma_char_of_code(c, 'j');
                    assert(v@[8int] == c);
                    assert(v@.contains(c));
                } else if u == 107 {
                    lemma_char_of_code(c, 'k');
                    assert(v@[9int] == c);
                    assert(v@.contains(c));
                } else if u == 109 {
                    lemma_char_of_code(c, 'm');
                    assert(v@[10int] == c);
                    assert(v@.contains(c));
                } else if u == 110 {
                    lemma_char_of_code(c, 'n');
                    assert(v@[11int] == c);
                    assert(v@.contains(c));
                } else if u == 112 {
                    lemma_char_of_code(c, 'p');
                    assert(v@[12int] == c);
                    assert(v@.contains(c));
                } else if u == 113 {
                    lemma_char_of_code(c, 'q');
                    assert(v@[13int] == c);
                    assert(v@.contains(c));
                } else if u == 114 {
                    lemma_char_of_code(c, 'r');
                    assert(v@[14int] == c);
                    assert(v@.contains(c));
                } else if u == 115 {
                    lemma_char_of_code(c, 's');
                    assert(v@[15int] == c);
                    assert(v@.contains(c));
                } else if u == 116 {
                    lemma_char_of_code(c, 't');
                    assert(v@[16int] == c);
                    assert(v@.contains(c));
                } else if u == 117 {
                    lemma_char_of_code(c, 'u');
                    assert(v@[17int] == c);
                    assert(v@.contains(c));
                } else if u == 118 {
                    lemma_char_of_code(c, 'v');
                    assert(v@[18int] == c);
                    assert(v@.contains(c));
                } else if u == 119 {
                    lemma_char_of_code(c, 'w');
                    assert(v@[19int] == c);
                    assert(v@.contains(c));
                } else if u == 120 {
                    lemma_char_of_code(c, 'x');
                    assert(v@[20int] == c);
                    assert(v@.contains(c));
                } else if u == 121 {
                    lemma_char_of_code(c, 'y');
                    assert(v@[21int] == c);
                    assert(v@.contains(c));
                } else if u == 122 {
                    lemma_char_of_code(c, 'z');
                    assert(v@[22int] == c);
                    assert(v@.contains(c));
                } else if u == 105 {
                    lemma_char_of_code(c, 'i');
                } else if u == 108 {
                    lemma_char_of_code(c, 'l');
                } else if u == 111 {
                    lemma_char_of_code(c, 'o');
                }
            }
        }
    } else {
        v.push('a');
        v.push('b');
        v.push('c');
        v.push('d');
        v.push('e');
        v.push('f');
        v.push('g');
        v.push('h');
        v.push('i');
        v.push('j');
        v.push('k');
        v.push('l');
        v.push('m');
        v.push('n');
        v.push('o');
        v.push('p');
        v.push('q');
        v.push('r');
        v.push('s');
        v.push('t');
        v.push('u');
        v.push('v');
        v.push('w');
        v.push('x');
        v.push('y');
        v.push('z');
        proof {
            assert forall|c: char| in_class(c, CharClass::Lower) implies v@.contains(c) by {
                let u = c as u32;
                if u == 97 {
                    lemma_char_of_code(c, 'a');
                    assert(v@[0int] == c);
                    assert(v@.contains(c));
                } else if u == 98 {
                    lemma_char_of_code(c, 'b');
                    assert(v@[1int] == c);
                    assert(v@.contains(c));
                } else if u == 99 {
                    lemma_char_of_code(c, 'c');
                    assert(v@[2int] == c);
                    assert(v@.contains(c));
                } else if u == 100 {
                    lemma_char_of_code(c, 'd');
                    assert(v@[3int] == c);
                    assert(v@.contains(c));
                } else if u == 101 {
                    lemma_char_of_code(c, 'e');
                    assert(v@[4int] == c);
                    assert(v@.contains(c));
                } else if u == 102 {
                    lemma_char_of_code(c, 'f');
                    assert(v@[5int] == c);
                    assert(v@.contains(c));
                } else if u == 103 {
                    lemma_char_of_code(c, 'g');
                    assert(v@[6int] == c);
                    assert(v@.contains(c));
                } else if u == 104 {
                    lemma_char_of_code(c, 'h');
                    assert(v@[7int] == c);
                    assert(v@.contains(c));
                } else if u == 105 {
                    lemma_char_of_code(c, 'i');
                    assert(v@[8int] == c);
                    assert(v@.contains(c));
                } else if u == 106 {
                    lemma_char_of_code(c, 'j');
                    assert(v@[9int] == c);
                    assert(v@.contains(c));
                } else if u == 107 {
                    lemma_char_of_code(c, 'k');
                    assert(v@[10int] == c);
                    assert(v@.contains(c));
                } else if u == 108 {
                    lemma_char_of_code(c, 'l');
                    assert(v@[11int] == c);
                    assert(v@.contains(c));
                } else if u == 109 {
                    lemma_char_of_code(c, 'm');
                    assert(v@[12int] == c);
                    assert(v@.contains(c));
                } else if u == 110 {
                    lemma_char_of_code(c, 'n');
                    assert(v@[13int] == c);
                    assert(v@.contains(c));
                } else if u == 111 {
                    lemma_char_of_code(c, 'o');
                    assert(v@[14int] == c);
                    assert(v@.contains(c));
                } else if u == 112 {
                    lemma_char_of_code(c, 'p');
                    assert(v@[15int] == c);
                    assert(v@.contains(c));
                } else if u == 113 {
                    lemma_char_of_code(c, 'q');
                    assert(v@[16int] == c);
                    assert(v@.contains(c));
                } else if u == 114 {
                    lemma_char_of_code(c, 'r');
                    assert(v@[17int] == c);
                    assert(v@.contains(c));
                } else if u == 115 {
                    lemma_char_of_code(c, 's');
                    assert(v@[18int] == c);
                    assert(v@.contains(c));
                } else if u == 116 {
                    lemma_char_of_code(c, 't');
                    assert(v@[19int] == c);
                    assert(v@.contains(c));
                } else if u == 117 {
                    lemma_char_of_code(c, 'u');
                    assert(v@[20int] == c);
                    assert(v@.contains(c));
                } else if u == 118 {
                    lemma_char_of_code(c, 'v');
                    assert(v@[21int] == c);
                    assert(v@.contains(c));
                } else if u == 119 {
                    lemma_char_of_code(c, 'w');
                    assert(v@[22int] == c);
                    assert(v@.contains(c));
                } else if u == 120 {
                    lemma_char_of_code(c, 'x');
                    assert(v@[23int] == c);
                    assert(v@.contains(c));
                } else if u == 121 {
                    lemma_char_of_code(c, 'y');
                    assert(v@[24int] == c);
                    assert(v@.contains(c));
                } else if u == 122 {
                    lemma_char_of_code(c, 'z');
                    assert(v@[25int] == c);
                    assert(v@.contains(c));
                }
            }
        }
    }
    v
}

#[verifier::rlimit(60)]
fn upper_pool(exclude_similar: bool) -> (v: Vec<char>)
    ensures
        v@.len() >= 1,
        forall|i: int|
            0 <= i < v@.len() ==> in_class(#[trigger] v@[i], CharClass::Upper) && (exclude_similar
                ==> !is_similar(v@[i])),
        forall|c: char|
            #[trigger] in_class(c, CharClass::Upper) && (exclude_similar ==> !is_similar(c))
                ==> v@.contains(c),
{
    let mut v: Vec<char> = Vec::new();
    if exclude_similar {
        v.push('A');
        v.push('B');
        v.push('C');
        v.push('D');
        v.push('E');
        v.push('F');
        v.push('G');
        v.push('H');
        v.push('J');
        v.push('K');
        v.push('L');
        v.push('M');
        v.push('N');
        v.push('P');
        v.push('Q');
        v.push('R');
        v.push('S');
        v.push('T');
        v.push('U');
        v.push('V');
        v.push('W');
        v.push('X');
        v.push('Y');
        v.push('Z');
        proof {
            assert forall|c: char|
                in_class(c, CharClass::Upper) && !is_similar(c) implies v@.contains(c) by {
                let u = c as u32;
                if u == 65 {
                    lemma_char_of_code(c, 'A');
                    assert(v@[0int] == c);
                    assert(v@.contains(c));
                } else if u == 66 {
                    lemma_char_of_code(c, 'B');
                    assert(v@[1int] == c);
                    assert(v@.contains(c));
                } else if u == 67 {
                    lemma_char_of_code(c, 'C');
                    assert(v@[2int] == c);
                    assert(v@.contains(c));
                } else if u == 68 {
                    lemma_char_of_code(c, 'D');
                    assert(v@[3int] == c);
                    assert(v@.contains(c));
                } else if u == 69 {
                    lemma_char_of_code(c, 'E');
                    assert(v@[4int] == c);
                    assert(v@.contains(c));
                } else if u == 70 {
                    lemma_char_of_code(c, 'F');
                    assert(v@[5int] == c);
                    assert(v@.contains(c));
                } else if u == 71 {
                    lemma_char_of_code(c, 'G');
                    assert(v@[6int] == c);
                    assert(v@.contains(c));
                } else if u == 72 {
                    lemma_char_of_code(c, 'H');
                    assert(v@[7int] == c);
                    assert(v@.contains(c));
                } else if u == 74 {
                    lemma_char_of_code(c, 'J');
                    assert(v@[8int] == c);
                    assert(v@.contains(c));
                } else if u == 75 {
                    lemma_char_of_code(c, 'K');
                    assert(v@[9int] == c);
                    assert(v@.contains(c));
                } else if u == 76 {
                    lemma_char_of_code(c, 'L');
                    assert(v@[10int] == c);
                    assert(v@.contains(c));
                } else if u == 77 {
                    lemma_char_of_code(c, 'M');
                    assert(v@[11int] == c);
                    assert(v@.contains(c));
                } else if u == 78 {
                    lemma_char_of_code(c, 'N');
                    assert(v@[12int] == c);
                    assert(v@.contains(c));
                } else if u == 80 {
                    lemma_char_of_code(c, 'P');
                    assert(v@[13int] == c);
                    assert(v@.contains(c));
                } else if u == 81 {
                    lemma_char_of_code(c, 'Q');
                    assert(v@[14int] == c);
                    assert(v@.contains(c));
                } else if u == 82 {
                    lemma_char_of_code(c, 'R');
                    assert(v@[15int] == c);
                    assert(v@.contains(c));
                } else if u == 83 {
                    lemma_char_of_code(c, 'S');
                    assert(v@[16int] == c);
                    assert(v@.contains(c));
                } else if u == 84 {
                    lemma_char_of_code(c, 'T');
                    assert(v@[17int] == c);
                    assert(v@.contains(c));
                } else if u == 85 {
                    lemma_char_of_code(c, 'U');
                    assert(v@[18int] == c);
                    assert(v@.contains(c));
                } else if u == 86 {
                    lemma_char_of_code(c, 'V');
                    assert(v@[19int] == c);
                    assert(v@.contains(c));
                } else if u == 87 {
                    lemma_char_of_code(c, 'W');
                    assert(v@[20int] == c);
                    assert(v@.contains(c));
                } else if u == 88 {
                    lemma_char_of_code(c, 'X');
                    assert(v@[21int] == c);
                    assert(v@.contains(c));
                } else if u == 89 {
                    lemma_char_of_code(c, 'Y');
                    assert(v@[22int] == c);
                    assert(v@.contains(c));
                } else if u == 90 {
                    lemma_char_of_code(c, 'Z');
                    assert(v@[23int] == c);
                    assert(v@.contains(c));
                } else if u == 73 {
                    lemma_char_of_code(c, 'I');
                } else if u == 79 {
                    lemma_char_of_code(c, 'O');
                }
            }
        }
    } else {
        v.push('A');
        v.push('B');
        v.push('C');
        v.push('D');
        v.push('E');
        v.push('F');
        v.push('G');
        v.push('H');
        v.push('I');
        v.push('J');
        v.push('K');
        v.push('L');
        v.push('M');
        v.push('N');
        v.push('O');
        v.push('P');
        v.push('Q');
        v.push('R');
        v.push('S');
        v.push('T');
        v.push('U');
        v.push('V');
        v.push('W');
        v.push('X');
        v.push('Y');
        v.push('Z');
        proof {
            assert forall|c: char| in_class(c, CharClass::Upper) implies v@.contains(c) by {
                let u = c as u32;
                if u == 65 {
                    lemma_char_of_code(c, 'A');
                    assert(v@[0int] == c);
                    assert(v@.contains(c));
                } else if u == 66 {
                    lemma_char_of_code(c, 'B');
                    assert(v@[1int] == c);
                    assert(v@.contains(c));
                } else if u == 67 {
                    lemma_char_of_code(c, 'C');
                    assert(v@[2int] == c);
                    assert(v@.contains(c));
                } else if u == 68 {
                    lemma_char_of_code(c, 'D');
                    assert(v@[3int] == c);
                    assert(v@.contains(c));
                } else if u == 69 {
                    lemma_char_of_code(c, 'E');
                    assert(v@[4int] == c);
                    assert(v@.contains(c));
                } else if u == 70 {
                    lemma_char_of_code(c, 'F');
                    assert(v@[5int] == c);
                    assert(v@.contains(c));
                } else if u == 71 {
                    lemma_char_of_code(c, 'G');
                    assert(v@[6int] == c);
                    assert(v@.contains(c));
                } else if u == 72 {
                    lemma_char_of_code(c, 'H');
                    assert(v@[7int] == c);
                    assert(v@.contains(c));
                } else if u == 73 {
                    lemma_char_of_code(c, 'I');
                    assert(v@[8int] == c);
                    assert(v@.contains(c));
                } else if u == 74 {
                    lemma_char_of_code(c, 'J');
                    assert(v@[9int] == c);
                    assert(v@.contains(c));
                } else if u == 75 {
                    lemma_char_of_code(c, 'K');
                    assert(v@[10int] == c);
                    assert(v@.contains(c));
                } else if u == 76 {
                    lemma_char_of_code(c, 'L');
                    assert(v@[11int] == c);
                    assert(v@.contains(c));
                } else if u == 77 {
                    lemma_char_of_code(c, 'M');
                    assert(v@[12int] == c);
                    assert(v@.contains(c));
                } else if u == 78 {
                    lemma_char_of_code(c, 'N');
                    assert(v@[13int] == c);
                    assert(v@.contains(c));
                } else if u == 79 {
                    lemma_char_of_code(c, 'O');
                    assert(v@[14int] == c);
                    assert(v@.contains(c));
                } else if u == 80 {
                    lemma_char_of_code(c, 'P');
                    assert(v@[15int] == c);
                    assert(v@.contains(c));
                } else if u == 81 {
                    lemma_char_of_code(c, 'Q');
                    assert(v@[16int] == c);
                    assert(v@.contains(c));
                } else if u == 82 {
                    lemma_char_of_code(c, 'R');
                    assert(v@[17int] == c);
                    assert(v@.contains(c));
                } else if u == 83 {
                    lemma_char_of_code(c, 'S');
                    assert(v@[18int] == c);
                    assert(v@.contains(c));
                } else if u == 84 {
                    lemma_char_of_code(c, 'T');
                    assert(v@[19int] == c);
                    assert(v@.contains(c));
                } else if u == 85 {
                    lemma_char_of_code(c, 'U');
                    assert(v@[20int] == c);
                    assert(v@.contains(c));
                } else if u == 86 {
                    lemma_char_of_code(c, 'V');
                    assert(v@[21int] == c);
                    assert(v@.contains(c));
                } else if u == 87 {
                    lemma_char_of_code(c, 'W');
                    assert(v@[22int] == c);
                    assert(v@.contains(c));
                } else if u == 88 {
                    lemma_char_of_code(c, 'X');
                    assert(v@[23int] == c);
                    assert(v@.contains(c));
                } else if u == 89 {
                    lemma_char_of_code(c, 'Y');
                    assert(v@[24int] == c);
                    assert(v@.contains(c));
                } else if u == 90 {
                    lemma_char_of_code(c, 'Z');
                    assert(v@[25int] == c);
                    assert(v@.contains(c));
                }
            }
        }
    }
    v
}

#[verifier::rlimit(60)]
fn symbol_pool(exclude_similar: bool) -> (v: Vec<char>)
    ensures
        v@.len() >= 1,
        forall|i: int|
            0 <= i < v@.len() ==> in_class(#[trigger] v@[i], CharClass::Symbol) && (exclude_similar
                ==> !is_similar(v@[i])),
        forall|c: char|
            #[trigger] in_class(c, CharClass::Symbol) && (exclude_similar ==> !is_similar(c))
                ==> v@.contains(c),
{
    let mut v: Vec<char> = Vec::new();
    if exclude_similar {
        v.push('!');
        v.push('#');
        v.push('$');
        v.push('%');
        v.push('&');
        v.push('(');
        v.push(')');
        v.push('*');
        v.push('+');
        v.push(',');
        v.push('-');
        v.push('.');
        v.push('/');
        v.push(':');
        v.push(';');
        v.push('<');
        v.push('=');
        v.push('>');
        v.push('?');
        v.push('@');
        v.push('[');
        v.push('\\');
        v.push(']');
        v.push('^');
        v.push('_');
        v.push('{');
        v.push('}');
        v.push('~');
        proof {
            assert forall|c: char|
                in_class(c, CharClass::Symbol) && !is_similar(c) implies v@.contains(c) by {
                let u = c as u32;
                if u == 33 {
                    lemma_char_of_code(c, '!');
                    assert(v@[0int] == c);
                    assert(v@.contains(c));
                } else if u == 35 {
                    lemma_char_of_code(c, '#');
                    assert(v@[1int] == c);
                    assert(v@.contains(c));
                } else if u == 36 {
                    lemma_char_of_code(c, '$');
                    assert(v@[2int] == c);
                    assert(v@.contains(c));
                } else if u == 37 {
                    lemma_char_of_code(c, '%');
                    assert(v@[3int] == c);
                    assert(v@.contains(c));
                } else if u == 38 {
                    lemma_char_of_code(c, '&');
                    assert(v@[4int] == c);
                    assert(v@.contains(c));
                } else if u == 40 {
                    lemma_char_of_code(c, '(');
                    assert(v@[5int] == c);
                    assert(v@.contains(c));
                } else if u == 41 {
                    lemma_char_of_code(c, ')');
                    assert(v@[6int] == c);
                    assert(v@.contains(c));
                } else if u == 42 {
                    lemma_char_of_code(c, '*');
                    assert(v@[7int] == c);
                    assert(v@.contains(c));
                } else if u == 43 {
                    lemma_char_of_code(c, '+');
                    assert(v@[8int] == c);
                    assert(v@.contains(c));
                } else if u == 44 {
                    lemma_char_of_code(c, ',');
                    assert(v@[9int] == c);
                    assert(v@.contains(c));
                } else if u == 45 {
                    lemma_char_of_code(c, '-');
                    assert(v@[10int] == c);
                    assert(v@.contains(c));
                } else if u == 46 {
                    lemma_char_of_code(c, '.');
                    assert(v@[11int] == c);
                    assert(v@.contains(c));
                } else if u == 47 {
                    lemma_char_of_code(c, '/');
                    assert(v@[12int] == c);
                    assert(v@.contains(c));
                } else if u == 58 {
                    lemma_char_of_code(c, ':');
                    assert(v@[13int] == c);
                    assert(v@.contains(c));
                } else if u == 59 {
                    lemma_char_of_code(c, ';');
                    assert(v@[14int] == c);
                    assert(v@.contains(c));
                } else if u == 60 {
                    lemma_char_of_code(c, '<');
                    assert(v@[15int] == c);
                    assert(v@.contains(c));
                } else if u == 61 {
                    lemma_char_of_code(c, '=');
                    assert(v@[16int] == c);
                    assert(v@.contains(c));
                } else if u == 62 {
                    lemma_char_of_code(c, '>');
                    assert(v@[17int] == c);
                    assert(v@.contains(c));
                } else if u == 63 {
                    lemma_char_of_code(c, '?');
                    assert(v@[18int] == c);
                    assert(v@.contains(c));
                } else if u == 64 {
                    lemma_char_of_code(c, '@');
                    assert(v@[19int] == c);
                    assert(v@.contains(c));
                } else if u == 91 {
                    lemma_char_of_code(c, '[');
                    assert(v@[20int] == c);
                    assert(v@.contains(c));
                } else if u == 92 {
                    lemma_char_of_code(c, '\\');
                    assert(v@[21int] == c);
                    assert(v@.contains(c));
                } else if u == 93 {
                    lemma_char_of_code(c, ']');
                    assert(v@[22int] == c);
                    assert(v@.contains(c));
                } else if u == 94 {
                    lemma_char_of_code(c, '^');
                    assert(v@[23int] == c);
                    assert(v@.contains(c));
                } else if u == 95 {
                    lemma_char_of_code(c, '_');
                    assert(v@[24int] == c);
                    assert(v@.contains(c));
                } else if u == 123 {
                    lemma_char_of_code(c, '{');
                    assert(v@[25int] == c);
                    assert(v@.contains(c));
                } else if u == 125 {
                    lemma_char_of_code(c, '}');
                    assert(v@[26int] == c);
                    assert(v@.contains(c));
                } else if u == 126 {
                    lemma_char_of_code(c, '~');
                    assert(v@[27int] == c);
                    assert(v@.contains(c));
                } else if u == 34 {
                    lemma_char_of_code(c, '"');
                } else if u == 39 {
                    lemma_char_of_code(c, '\'');
                } else if u == 96 {
                    lemma_char_of_code(c, '`');
                } else if u == 124 {
                    lemma_char_of_code(c, '|');
                }
            }
        }
    } else {
        v.push('!');
        v.push('"');
        v.push('#');
        v.push('$');
        v.push('%');
        v.push('&');
        v.push('\'');
        v.push('(');
        v.push(')');
        v.push('*');
        v.push('+');
        v.push(',');
        v.push('-');
        v.push('.');
        v.push('/');
        v.push(':');
        v.push(';');
        v.push('<');
        v.push('=');
        v.push('>');
        v.push('?');
        v.push('@');
        v.push('[');
        v.push('\\');
        v.push(']');
        v.push('^');
        v.push('_');
        v.push('`');
        v.push('{');
        v.push('|');
        v.push('}');
        v.push('~');
        proof {
            assert forall|c: char| in_class(c, CharClass::Symbol) implies v@.contains(c) by {
                let u = c as u32;
                if u == 33 {
                    lemma_char_of_code(c, '!');
                    assert(v@[0int] == c);
                    assert(v@.contains(c));
                } else if u == 34 {
                    lemma_char_of_code(c, '"');
                    assert(v@[1int] == c);
                    assert(v@.contains(c));
                } else if u == 35 {
                    lemma_char_of_code(c, '#');
                    assert(v@[2int] == c);
                    assert(v@.contains(c));
                } else if u == 36 {
                    lemma_char_of_code(c, '$');
                    assert(v@[3int] == c);
                    assert(v@.contains(c));
                } else if u == 37 {
                    lemma_char_of_code(c, '%');
                    assert(v@[4int] == c);
                    assert(v@.contains(c));
                } else if u == 38 {
                    lemma_char_of_code(c, '&');
                    assert(v@[5int] == c);
                    assert(v@.contains(c));
                } else if u == 39 {
                    lemma_char_of_code(c, '\'');
                    assert(v@[6int] == c);
                    assert(v@.contains(c));
                } else if u == 40 {
                    lemma_char_of_code(c, '(');
                    assert(v@[7int] == c);
                    assert(v@.contains(c));
                } else if u == 41 {
                    lemma_char_of_code(c, ')');
                    assert(v@[8int] == c);
                    assert(v@.contains(c));
                } else if u == 42 {
                    lemma_char_of_code(c, '*');
                    assert(v@[9int] == c);
                    assert(v@.contains(c));
                } else if u == 43 {
                    lemma_char_of_code(c, '+');
                    assert(v@[10int] == c);
                    assert(v@.contains(c));
                } else if u == 44 {
                    lemma_char_of_code(c, ',');
                    assert(v@[11int] == c);
                    assert(v@.contains(c));
                } else if u == 45 {
                    lemma_char_of_code(c, '-');
                    assert(v@[12int] == c);
                    assert(v@.contains(c));
                } else if u == 46 {
                    lemma_char_of_code(c, '.');
                    assert(v@[13int] == c);
                    assert(v@.contains(c));
                } else if u == 47 {
                    lemma_char_of_code(c, '/');
                    assert(v@[14int] == c);
                    assert(v@.contains(c));
                } else if u == 58 {
                    lemma_char_of_code(c, ':');
                    assert(v@[15int] == c);
                    assert(v@.contains(c));
                } else if u == 59 {
                    lemma_char_of_code(c, ';');
                    assert(v@[16int] == c);
                    assert(v@.contains(c));
                } else if u == 60 {
                    lemma_char_of_code(c, '<');
                    assert(v@[17int] == c);
                    assert(v@.contains(c));
                } else if u == 61 {
                    lemma_char_of_code(c, '=');
                    assert(v@[18int] == c);
                    assert(v@.contains(c));
                } else if u == 62 {
                    lemma_char_of_code(c, '>');
                    assert(v@[19int] == c);
                    assert(v@.contains(c));
                } else if u == 63 {
                    lemma_char_of_code(c, '?');
                    assert(v@[20int] == c);
                    assert(v@.contains(c));
                } else if u == 64 {
                    lemma_char_of_code(c, '@');
                    assert(v@[21int] == c);
                    assert(v@.contains(c));
                } else if u == 91 {
                    lemma_char_of_code(c, '[');
                    assert(v@[22int] == c);
                    assert(v@.contains(c));
                } else if u == 92 {
                    lemma_char_of_code(c, '\\');
                    assert(v@[23int] == c);
                    assert(v@.contains(c));
                } else if u == 93 {
                    lemma_char_of_code(c, ']');
                    assert(v@[24int] == c);
                    assert(v@.contains(c));
                } else if u == 94 {
                    lemma_char_of_code(c, '^');
                    assert(v@[25int] == c);
                    assert(v@.contains(c));
                } else if u == 95 {
                    lemma_char_of_code(c, '_');
                    assert(v@[26int] == c);
                    assert(v@.contains(c));
                } else if u == 96 {
                    lemma_char_of_code(c, '`');
                    assert(v@[27int] == c);
                    assert(v@.contains(c));
                } else if u == 123 {
                    lemma_char_of_code(c, '{');
                    assert(v@[28int] == c);
                    assert(v@.contains(c));
                } else if u == 124 {
                    lemma_char_of_code(c, '|');
                    assert(v@[29int] == c);
                    assert(v@.contains(c));
                } else if u == 125 {
                    lemma_char_of_code(c, '}');
                    assert(v@[30int] == c);
                    assert(v@.contains(c));
                } else if u == 126 {
                    lemma_char_of_code(c, '~');
                    assert(v@[31int] == c);
                    assert(v@.contains(c));
                }
            }
        }
    }
    v
}

#[verifier::rlimit(60)]
fn space_pool(exclude_similar: bool) -> (v: Vec<char>)
    ensures
        v@.len() >= 1,
        forall|i: int|
            0 <= i < v@.len() ==> in_class(#[trigger] v@[i], CharClass::Space) && (exclude_similar
                ==> !is_similar(v@[i])),
        forall|c: char|
            #[trigger] in_class(c, CharClass::Space) && (exclude_similar ==> !is_similar(c))
                ==> v@.contains(c),
{
    let mut v: Vec<char> = Vec::new();
    v.push(' ');
    proof {
        assert forall|c: char| in_class(c, CharClass::Space) implies v@.contains(c) by {
            lemma_char_of_code(c, ' ');
            assert(v@[0int] == c);
        }
    }
    v
}

/// The canonical sub-pool for one class: exactly the characters of the
/// class, with the confusable characters absent when exclusion is
/// requested; never empty.
pub fn class_pool(k: CharClass, exclude_similar: bool) -> (v: Vec<char>)
    ensures
        v@.len() >= 1,
        forall|i: int|
            0 <= i < v@.len() ==> in_class(#[trigger] v@[i], k) && (exclude_similar ==> !is_similar(
                v@[i],
            )),
        forall|c: char|
            #[trigger] in_class(c, k) && (exclude_similar ==> !is_similar(c)) ==> v@.contains(c),
{
    let v = match k {
        CharClass::Digit => digit_pool(exclude_similar),
        CharClass::Lower => lower_pool(exclude_similar),
        CharClass::Upper => upper_pool(exclude_similar),
        CharClass::Symbol => symbol_pool(exclude_similar),
        CharClass::Space => space_pool(exclude_similar),
    };
    proof {
        assert forall|c: char|
            #[trigger] in_class(c, k) && (exclude_similar ==> !is_similar(c)) implies v@.contains(
            c,
        ) by {
            match k {
                CharClass::Digit => assert(in_class(c, CharClass::Digit)),
                CharClass::Lower => assert(in_class(c, CharClass::Lower)),
                CharClass::Upper => assert(in_class(c, CharClass::Upper)),
                CharClass::Symbol => assert(in_class(c, CharClass::Symbol)),
                CharClass::Space => assert(in_class(c, CharClass::Space)),
            }
        }
    }
    v
}


} // verus!
