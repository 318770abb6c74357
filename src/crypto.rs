use sha2::Digest;
use vstd::prelude::*;
use crate::text::push_char;

verus! {

/// The SHA-512 digest of the UTF-8 encoding of a text.
pub uninterp spec fn sha512_of(text: Seq<char>) -> Seq<u8>;

/// The lowercase character of a hexadecimal digit.
pub open spec fn hex_digit(d: nat) -> char {
    if d < 10 {
        crate::text::digit_char(d)
    } else if d == 10 {
        'a'
    } else if d == 11 {
        'b'
    } else if d == 12 {
        'c'
    } else if d == 13 {
        'd'
    } else if d == 14 {
        'e'
    } else {
        'f'
    }
}

/// Lowercase hexadecimal text of a byte string: two digits per byte, the high
/// nibble first.
pub open spec fn hex_of(b: Seq<u8>) -> Seq<char>
    decreases b.len(),
{
    if b.len() == 0 {
        Seq::empty()
    } else {
        hex_of(b.drop_last()) + seq![hex_digit((b.last() / 16) as nat), hex_digit((b.last() % 16) as nat)]
    }
}

/// Relies on `sha2::Sha512::digest`: the 64-byte digest of the text's UTF-8 bytes.
#[verifier::external_body]
fn sha512_digest(text: &str) -> (r: Vec<u8>)
    ensures
        r@ == sha512_of(text@),
        r@.len() == 64,
{
    sha2::Sha512::digest(text.as_bytes()).to_vec()
}

/// Relies on `hex::encode`: two lowercase hexadecimal digits per byte.
#[verifier::external_body]
fn hex_encode(b: &Vec<u8>) -> (r: String)
    ensures
        r@ == hex_of(b@),
{
    hex::encode(b)
}

/// The lowercase hexadecimal SHA-512 digest of `text`.
pub fn sha512(text: &str) -> (r: String)
    ensures
        r@ == hex_of(sha512_of(text@)),
        sha512_of(text@).len() == 64,
        r@.len() == 128,
{
    let digest = sha512_digest(text);
    proof {
        lemma_hex_len(digest@);
    }
    hex_encode(&digest)
}

/// Hexadecimal text has two characters per byte.
proof fn lemma_hex_len(b: Seq<u8>)
    ensures
        hex_of(b).len() == 2 * b.len(),
    decreases b.len(),
{
    if b.len() > 0 {
        lemma_hex_len(b.drop_last());
    }
}

/// The text that is hashed to salt a password: `$`, the password's digest, `$`, the salt.
pub open spec fn salted_input(password: Seq<char>, salt: Seq<char>) -> Seq<char> {
    seq!['$'] + hex_of(sha512_of(password)) + seq!['$'] + salt
}

/// The stored form of a password under a salt.
pub open spec fn salted_digest(password: Seq<char>, salt: Seq<char>) -> Seq<char> {
    hex_of(sha512_of(salted_input(password, salt)))
}

/// Hashes `password` together with `salt`, the form in which passwords are stored.
pub fn salt_password(password: &str, salt: &str) -> (r: String)
    ensures
        r@ == salted_digest(password@, salt@),
{
    let inner = sha512(password);
    let mut buf = String::new();
    push_char(&mut buf, '$');
    buf.append(inner.as_str());
    push_char(&mut buf, '$');
    buf.append(salt);
    proof {
        assert(buf@ =~= salted_input(password@, salt@));
    }
    sha512(buf.as_str())
}

/// Whether `password` under `salt` matches the stored digest.
pub fn password_matches(password: &str, salt: &str, stored: &str) -> (r: bool)
    ensures
        r == (salted_digest(password@, salt@) == stored@),
{
    let computed = salt_password(password, salt);
    let stored_string = String::from_str(stored);
    computed == stored_string
}

/// Upper case letters, lower case letters and digits, in that order.
pub const ALPHANUMERIC: &'static str = "ABCDEFGHIJKLMNOPQRSTUVWXYZabcdefghijklmnopqrstuvwxyz0123456789";

/// Lower case letters and digits, in that order.
pub const LOWER_ALPHANUMERIC: &'static str = "abcdefghijklmnopqrstuvwxyz0123456789";

/// Relies on `rand::random_range`: a value drawn from `0..bound`.
#[verifier::external_body]
fn random_below(bound: usize) -> (r: usize)
    requires
        bound > 0,
    ensures
        r < bound,
{
    rand::random_range(0..bound)
}

/// A string of `length` characters drawn from `charset` (none where `length` is negative).
fn random_from(charset: &str, length: i32) -> (r: String)
    requires
        charset@.len() > 0,
    ensures
        r@.len() == if length < 0 { 0 } else { length as int },
        forall|i: int| 0 <= i < r@.len() ==> charset@.contains(#[trigger] r@[i]),
{
    let n = charset.unicode_len();
    let mut r = String::new();
    let mut k: i32 = 0;
    while k < length
        invariant
            n == charset@.len(),
            n > 0,
            0 <= k,
            k <= length || (length < 0 && k == 0),
            r@.len() == k,
            forall|i: int| 0 <= i < r@.len() ==> charset@.contains(#[trigger] r@[i]),
        decreases length - k,
    {
        let idx = random_below(n);
        let c = charset.get_char(idx);
        proof {
            assert(charset@[idx as int] == c);
        }
        push_char(&mut r, c);
        k = k + 1;
    }
    r
}

/// A random string of upper case letters, lower case letters and digits.
pub fn random_string(length: i32) -> (r: String)
    ensures
        r@.len() == if length < 0 { 0 } else { length as int },
        forall|i: int| 0 <= i < r@.len() ==> ALPHANUMERIC@.contains(#[trigger] r@[i]),
{
    proof {
        reveal_strlit("ABCDEFGHIJKLMNOPQRSTUVWXYZabcdefghijklmnopqrstuvwxyz0123456789");
    }
    random_from(ALPHANUMERIC, length)
}

/// A random string of lower case letters and digits.
pub fn random_string_lower(length: i32) -> (r: String)
    ensures
        r@.len() == if length < 0 { 0 } else { length as int },
        forall|i: int| 0 <= i < r@.len() ==> LOWER_ALPHANUMERIC@.contains(#[trigger] r@[i]),
{
    proof {
        reveal_strlit("abcdefghijklmnopqrstuvwxyz0123456789");
    }
    random_from(LOWER_ALPHANUMERIC, length)
}

/// A fresh salt of 48 alphanumeric characters.
pub fn generate_salt() -> (r: String)
    ensures
        r@.len() == 48,
        forall|i: int| 0 <= i < r@.len() ==> ALPHANUMERIC@.contains(#[trigger] r@[i]),
{
    random_string(48)
}

} // verus!
