use vstd::prelude::*;

use vstd::string::StringSliceAdditionalSpecFns;

use crate::errors::PassError;
use crate::estimator::digit_char;

verus! {

/// One lowercase hexadecimal digit.
pub open spec fn hex_digit(n: int) -> char {
    if n == 0 {
        '0'
    } else if n == 1 {
        '1'
    } else if n == 2 {
        '2'
    } else if n == 3 {
        '3'
    } else if n == 4 {
        '4'
    } else if n == 5 {
        '5'
    } else if n == 6 {
        '6'
    } else if n == 7 {
        '7'
    } else if n == 8 {
        '8'
    } else if n == 9 {
        '9'
    } else if n == 10 {
        'a'
    } else if n == 11 {
        'b'
    } else if n == 12 {
        'c'
    } else if n == 13 {
        'd'
    } else if n == 14 {
        'e'
    } else {
        'f'
    }
}

/// Lowercase hexadecimal text: two digits per byte, high nibble first.
pub open spec fn hex_of(b: Seq<u8>) -> Seq<char>
    decreases b.len(),
{
    if b.len() == 0 {
        Seq::empty()
    } else {
        hex_of(b.drop_last()) + seq![
            hex_digit(b.last() as int / 16),
            hex_digit(b.last() as int % 16),
        ]
    }
}

/// Hexadecimal text is exactly twice as long as the bytes it encodes.
pub proof fn lemma_hex_len(b: Seq<u8>)
    ensures
        hex_of(b).len() == 2 * b.len(),
    decreases b.len(),
{
    if b.len() > 0 {
        lemma_hex_len(b.drop_last());
    }
}

/// What the MD5 digest of a byte string is.
pub uninterp spec fn md5_of(b: Seq<u8>) -> Seq<u8>;

/// What the SHA-1 digest of a byte string is.
pub uninterp spec fn sha1_of(b: Seq<u8>) -> Seq<u8>;

/// What the SHA-224 digest of a byte string is.
pub uninterp spec fn sha224_of(b: Seq<u8>) -> Seq<u8>;

/// What the SHA-256 digest of a byte string is.
pub uninterp spec fn sha256_of(b: Seq<u8>) -> Seq<u8>;

/// What the SHA-384 digest of a byte string is.
pub uninterp spec fn sha384_of(b: Seq<u8>) -> Seq<u8>;

/// What the SHA-512 digest of a byte string is.
pub uninterp spec fn sha512_of(b: Seq<u8>) -> Seq<u8>;

/// One character of the standard base64 alphabet.
pub open spec fn b64_char(n: int) -> char {
    if n == 0 {
        'A'
    } else if n == 1 {
        'B'
    } else if n == 2 {
        'C'
    } else if n == 3 {
        'D'
    } else if n == 4 {
        'E'
    } else if n == 5 {
        'F'
    } else if n == 6 {
        'G'
    } else if n == 7 {
        'H'
    } else if n == 8 {
        'I'
    } else if n == 9 {
        'J'
    } else if n == 10 {
        'K'
    } else if n == 11 {
        'L'
    } else if n == 12 {
        'M'
    } else if n == 13 {
        'N'
    } else if n == 14 {
        'O'
    } else if n == 15 {
        'P'
    } else if n == 16 {
        'Q'
    } else if n == 17 {
        'R'
    } else if n == 18 {
        'S'
    } else if n == 19 {
        'T'
    } else if n == 20 {
        'U'
    } else if n == 21 {
        'V'
    } else if n == 22 {
        'W'
    } else if n == 23 {
        'X'
    } else if n == 24 {
        'Y'
    } else if n == 25 {
        'Z'
    } else if n == 26 {
        'a'
    } else if n == 27 {
        'b'
    } else if n == 28 {
        'c'
    } else if n == 29 {
        'd'
    } else if n == 30 {
        'e'
    } else if n == 31 {
        'f'
    } else if n == 32 {
        'g'
    } else if n == 33 {
        'h'
    } else if n == 34 {
        'i'
    } else if n == 35 {
        'j'
    } else if n == 36 {
        'k'
    } else if n == 37 {
        'l'
    } else if n == 38 {
        'm'
    } else if n == 39 {
        'n'
    } else if n == 40 {
        'o'
    } else if n == 41 {
        'p'
    } else if n == 42 {
        'q'
    } else if n == 43 {
        'r'
    } else if n == 44 {
        's'
    } else if n == 45 {
        't'
    } else if n == 46 {
        'u'
    } else if n == 47 {
        'v'
    } else if n == 48 {
        'w'
    } else if n == 49 {
        'x'
    } else if n == 50 {
        'y'
    } else if n == 51 {
        'z'
    } else if n == 52 {
        '0'
    } else if n == 53 {
        '1'
    } else if n == 54 {
        '2'
    } else if n == 55 {
        '3'
    } else if n == 56 {
        '4'
    } else if n == 57 {
        '5'
    } else if n == 58 {
        '6'
    } else if n == 59 {
        '7'
    } else if n == 60 {
        '8'
    } else if n == 61 {
        '9'
    } else if n == 62 {
        '+'
    } else {
        '/'
    }
}

/// Standard (RFC 4648) base64 with padding: each full group of three bytes
/// becomes four alphabet characters; a trailing byte or pair is encoded
/// with its low bits zeroed and padded with '=' to a group of four.
pub open spec fn base64_of(b: Seq<u8>) -> Seq<char>
    decreases b.len(),
{
    if b.len() == 0 {
        Seq::empty()
    } else if b.len() == 1 {
        seq![b64_char(b[0] as int / 4), b64_char((b[0] as int % 4) * 16), '=', '=']
    } else if b.len() == 2 {
        seq![
            b64_char(b[0] as int / 4),
            b64_char((b[0] as int % 4) * 16 + b[1] as int / 16),
            b64_char((b[1] as int % 16) * 4),
            '=',
        ]
    } else {
        seq![
            b64_char(b[0] as int / 4),
            b64_char((b[0] as int % 4) * 16 + b[1] as int / 16),
            b64_char((b[1] as int % 16) * 4 + b[2] as int / 64),
            b64_char(b[2] as int % 64),
        ] + base64_of(b.skip(3))
    }
}

/// Padded base64 text holds four characters for every started group of
/// three bytes.
pub proof fn lemma_base64_len(b: Seq<u8>)
    ensures
        base64_of(b).len() == 4 * ((b.len() + 2) / 3),
    decreases b.len(),
{
    if b.len() >= 3 {
        lemma_base64_len(b.skip(3));
        let x = b.len() - 1;
        vstd::arithmetic::div_mod::lemma_fundamental_div_mod(x, 3);
        vstd::arithmetic::div_mod::lemma_mod_bound(x, 3);
        vstd::arithmetic::div_mod::lemma_fundamental_div_mod_converse(x + 3, 3, x / 3 + 1, x % 3);
    }
}

/// Relies on `hex::encode`: lowercase hexadecimal, two digits per byte,
/// high nibble first.
#[verifier::external_body]
fn hex_encode(b: &Vec<u8>) -> (r: String)
    ensures
        r@ == hex_of(b@),
{
    hex::encode(b)
}

/// Relies on `md5::compute`: the 16-byte MD5 digest, a function of the
/// input bytes alone.
#[verifier::external_body]
fn md5_digest(s: &str) -> (r: Vec<u8>)
    ensures
        r@ == md5_of(s.spec_bytes()),
        r@.len() == 16,
{
    md5::compute(s.as_bytes()).0.to_vec()
}

/// Relies on `sha1::Sha1::digest`: the 20-byte SHA-1 digest, a function of
/// the input bytes alone.
#[verifier::external_body]
fn sha1_digest(s: &str) -> (r: Vec<u8>)
    ensures
        r@ == sha1_of(s.spec_bytes()),
        r@.len() == 20,
{
    <sha1::Sha1 as sha1::Digest>::digest(s.as_bytes()).to_vec()
}

/// Relies on `sha2::Sha224::digest`: the 28-byte SHA-224 digest, a function
/// of the input bytes alone.
#[verifier::external_body]
fn sha224_digest(s: &str) -> (r: Vec<u8>)
    ensures
        r@ == sha224_of(s.spec_bytes()),
        r@.len() == 28,
{
    <sha2::Sha224 as sha2::Digest>::digest(s.as_bytes()).to_vec()
}

/// Relies on `sha2::Sha256::digest`: the 32-byte SHA-256 digest, a function
/// of the input bytes alone.
#[verifier::external_body]
fn sha256_digest(s: &str) -> (r: Vec<u8>)
    ensures
        r@ == sha256_of(s.spec_bytes()),
        r@.len() == 32,
{
    <sha2::Sha256 as sha2::Digest>::digest(s.as_bytes()).to_vec()
}

/// Relies on `sha2::Sha384::digest`: the 48-byte SHA-384 digest, a function
/// of the input bytes alone.
#[verifier::external_body]
fn sha384_digest(s: &str) -> (r: Vec<u8>)
    ensures
        r@ == sha384_of(s.spec_bytes()),
        r@.len() == 48,
{
    <sha2::Sha384 as sha2::Digest>::digest(s.as_bytes()).to_vec()
}

/// Relies on `sha2::Sha512::digest`: the 64-byte SHA-512 digest, a function
/// of the input bytes alone.
#[verifier::external_body]
fn sha512_digest(s: &str) -> (r: Vec<u8>)
    ensures
        r@ == sha512_of(s.spec_bytes()),
        r@.len() == 64,
{
    <sha2::Sha512 as sha2::Digest>::digest(s.as_bytes()).to_vec()
}

/// Relies on base64's STANDARD engine: RFC 4648 with padding, exactly the
/// text that `base64_of` describes.
#[verifier::external_body]
fn base64_encode(s: &str) -> (r: String)
    ensures
        r@ == base64_of(s.spec_bytes()),
{
    base64::Engine::encode(&base64::prelude::BASE64_STANDARD, s.as_bytes())
}

/// The bcrypt error type, opaque to the library; any value of it is mapped
/// to one of the library's own errors.
#[verifier::external_type_specification]
#[verifier::external_body]
pub struct ExBcryptError(bcrypt::BcryptError);

/// Relies on `bcrypt::hash`: it rejects a work factor outside 4..=31, and
/// on success returns the 60-character self-describing encoded hash,
/// opening with "$2b$", the zero-padded two-digit cost, and "$". The salt
/// is drawn from the operating system, so nothing more is promised of the
/// text, and success is not promised even for a valid work factor.
#[verifier::external_body]
fn bcrypt_hash_raw(password: &str, cost: u32) -> (r: Result<String, bcrypt::BcryptError>)
    ensures
        !(4 <= cost <= 31) ==> r is Err,
        r matches Ok(s) ==> 4 <= cost <= 31 && s@.len() == 60,
        r matches Ok(s) ==> s@[0] == '$' && s@[1] == '2' && s@[2] == 'b' && s@[3] == '$' && s@[4]
            == digit_char(cost as int / 10) && s@[5] == digit_char(cost as int % 10) && s@[6]
            == '$',
{
    bcrypt::hash(password, cost)
}

/// The lowercase hex MD5 digest of a password: 32 hex digits.
pub fn md5(password: &str) -> (r: String)
    ensures
        r@ == hex_of(md5_of(password.spec_bytes())),
        r@.len() == 32,
{
    let d = md5_digest(password);
    proof {
        lemma_hex_len(d@);
    }
    hex_encode(&d)
}

/// The lowercase hex SHA-1 digest of a password: 40 hex digits.
pub fn sha1(password: &str) -> (r: String)
    ensures
        r@ == hex_of(sha1_of(password.spec_bytes())),
        r@.len() == 40,
{
    let d = sha1_digest(password);
    proof {
        lemma_hex_len(d@);
    }
    hex_encode(&d)
}

/// The lowercase hex SHA-224 digest of a password: 56 hex digits.
pub fn sha224(password: &str) -> (r: String)
    ensures
        r@ == hex_of(sha224_of(password.spec_bytes())),
        r@.len() == 56,
{
    let d = sha224_digest(password);
    proof {
        lemma_hex_len(d@);
    }
    hex_encode(&d)
}

/// The lowercase hex SHA-256 digest of a password: 64 hex digits.
pub fn sha256(password: &str) -> (r: String)
    ensures
        r@ == hex_of(sha256_of(password.spec_bytes())),
        r@.len() == 64,
{
    let d = sha256_digest(password);
    proof {
        lemma_hex_len(d@);
    }
    hex_encode(&d)
}

/// The lowercase hex SHA-384 digest of a password: 96 hex digits.
pub fn sha384(password: &str) -> (r: String)
    ensures
        r@ == hex_of(sha384_of(password.spec_bytes())),
        r@.len() == 96,
{
    let d = sha384_digest(password);
    proof {
        lemma_hex_len(d@);
    }
    hex_encode(&d)
}

/// The lowercase hex SHA-512 digest of a password: 128 hex digits.
pub fn sha512(password: &str) -> (r: String)
    ensures
        r@ == hex_of(sha512_of(password.spec_bytes())),
        r@.len() == 128,
{
    let d = sha512_digest(password);
    proof {
        lemma_hex_len(d@);
    }
    hex_encode(&d)
}

/// The standard base64 encoding of a password's bytes, with padding.
pub fn base64(password: &str) -> (r: String)
    ensures
        r@ == base64_of(password.spec_bytes()),
        r@.len() == 4 * ((password.spec_bytes().len() + 2) / 3),
{
    proof {
        lemma_base64_len(password.spec_bytes());
    }
    base64_encode(password)
}

/// A salted bcrypt hash of the password under the given work factor.
/// Fails with `CostNotAllowed` exactly when the work factor is outside
/// 4..=31, and with `HashingFailed` only when the hasher itself fails; a
/// successful hash is the 60-character self-describing encoded form,
/// opening with "$2b$", the two-digit cost and "$".
pub fn bcrypt(password: &str, rounds: u32) -> (r: Result<String, PassError>)
    ensures
        !(4 <= rounds <= 31) <==> r === Err(PassError::CostNotAllowed),
        r matches Ok(s) ==> s@.len() == 60,
        r matches Ok(s) ==> s@[0] == '$' && s@[1] == '2' && s@[2] == 'b' && s@[3] == '$' && s@[4]
            == digit_char(rounds as int / 10) && s@[5] == digit_char(rounds as int % 10) && s@[6]
            == '$',
        r is Err ==> (r === Err(PassError::CostNotAllowed) || r === Err(PassError::HashingFailed)),
{
    if rounds < 4 || rounds > 31 {
        return Err(PassError::CostNotAllowed);
    }
    match bcrypt_hash_raw(password, rounds) {
        Ok(s) => Ok(s),
        Err(_) => Err(PassError::HashingFailed),
    }
}

} // verus!
