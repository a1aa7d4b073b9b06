//! The trusted boundary: the few places where the library reaches an outside
//! crate or an unspecified part of std.  Each item carries the contract that
//! the rest of the crate is verified against.

use sha2::Digest;
use vstd::prelude::*;

verus! {

/// Relies on `<str as PartialEq>::eq`: two string slices compare equal
/// exactly when they hold the same characters.
#[verifier::external_body]
pub fn str_eq(a: &str, b: &str) -> (r: bool)
    ensures
        r == (a@ == b@),
{
    a == b
}

/// Relies on `chrono::Utc::now`: the current Unix time in whole seconds.
/// Nothing can be promised of a clock reading, so the contract is empty;
/// callers treat the result as an arbitrary instant.
#[verifier::external_body]
pub fn now_unix() -> u64
{
    let t: i64 = chrono::Utc::now().timestamp();
    t as u64
}

/// Relies on `rand::random`: a draw from the thread-local generator.
/// Nothing can be promised of a random value, so the contract is empty.
pub assume_specification<T>[ rand::random::<T> ]() -> (r: T)
    where
        rand::distributions::Standard: rand::distributions::Distribution<T>,
;

/// Relies on `uuid::Uuid::new_v4` and its `Display` form: a random v4 UUID
/// rendered in the hyphenated format, which is 36 ASCII characters.  The
/// value itself is random, so nothing more is promised.
#[verifier::external_body]
pub fn fresh_uuid_string() -> (r: String)
    ensures
        r@.len() == 36,
        r.is_ascii(),
{
    uuid::Uuid::new_v4().to_string()
}

/// The decimal rendering of a nonnegative integer, most significant digit
/// first, without padding or sign.
pub open spec fn dec_str(n: int) -> Seq<char>
    decreases n,
{
    if n < 10 {
        seq![digit_char(n)]
    } else {
        dec_str(n / 10).push(digit_char(n % 10))
    }
}

/// The character for one decimal digit.
pub open spec fn digit_char(d: int) -> char {
    if d == 0 { '0' }
    else if d == 1 { '1' }
    else if d == 2 { '2' }
    else if d == 3 { '3' }
    else if d == 4 { '4' }
    else if d == 5 { '5' }
    else if d == 6 { '6' }
    else if d == 7 { '7' }
    else if d == 8 { '8' }
    else if d == 9 { '9' }
    else { '?' }
}

/// Relies on `<u64 as ToString>::to_string` through `Display`, which is
/// documented to print the plain decimal digits.
#[verifier::external_body]
pub fn u64_to_string(x: u64) -> (r: String)
    ensures
        r@ == dec_str(x as int),
        r.is_ascii(),
{
    x.to_string()
}

/// The SHA-256 digest of a string's bytes.  The digest is a function of the
/// input alone; writing the algorithm out would state nothing checkable, so
/// the result only carries this name.
pub uninterp spec fn sha256_of(s: Seq<char>) -> Seq<u8>;

/// Relies on `sha2::Sha256`: the digest of the input's bytes, which is
/// 32 bytes long and depends on the input alone.
#[verifier::external_body]
pub fn sha256_bytes(s: &str) -> (r: Vec<u8>)
    ensures
        r@ == sha256_of(s@),
        r@.len() == 32,
{
    let mut hasher = sha2::Sha256::new();
    hasher.update(s.as_bytes());
    hasher.finalize().to_vec()
}

/// The lowercase hexadecimal rendering of a byte string.
pub uninterp spec fn hex_of(b: Seq<u8>) -> Seq<char>;

/// Relies on `hex::encode`: two hex digits for each input byte, lowercase,
/// in input order; a function of the bytes alone.
#[verifier::external_body]
pub fn hex_encode(b: &[u8]) -> (r: String)
    ensures
        r@ == hex_of(b@),
        r@.len() == 2 * b@.len(),
        r.is_ascii(),
{
    hex::encode(b)
}

} // verus!
