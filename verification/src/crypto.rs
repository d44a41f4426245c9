use vstd::prelude::*;

verus! {

/// The sixteen lowercase hexadecimal digits, by value.
pub open spec fn hex_digit(n: int) -> char {
    if n == 0 {
        '0'
    } else if n == 1 {
        '1'
    } else if n == 2 {
        '2'
    } else if n == 3 {
        '3'
    } else if n == 4 {
        '4'
    } else if n == 5 {
        '5'
    } else if n == 6 {
        '6'
    } else if n == 7 {
        '7'
    } else if n == 8 {
        '8'
    } else if n == 9 {
        '9'
    } else if n == 10 {
        'a'
    } else if n == 11 {
        'b'
    } else if n == 12 {
        'c'
    } else if n == 13 {
        'd'
    } else if n == 14 {
        'e'
    } else {
        'f'
    }
}

/// Lowercase hexadecimal encoding: two digits per byte, high nibble
/// first.
pub open spec fn hex_of(bytes: Seq<u8>) -> Seq<char>
    decreases bytes.len(),
{
    if bytes.len() == 0 {
        Seq::empty()
    } else {
        hex_of(bytes.drop_last()) + seq![
            hex_digit(bytes.last() as int / 16),
            hex_digit(bytes.last() as int % 16),
        ]
    }
}

/// What the SHA3-256 digest of a string is. The digest is a function
/// of the input alone; its value is not restated here.
pub uninterp spec fn sha3_256_of(s: Seq<char>) -> Seq<u8>;

/// Relies on sha3::Sha3_256 through sha3::Digest::digest: the digest
/// depends on the input bytes alone, so equal strings hash equally.
#[verifier::external_body]
fn sha3_256(data: &str) -> (r: Vec<u8>)
    ensures
        r@ == sha3_256_of(data@),
{
    let out = <sha3::Sha3_256 as sha3::Digest>::digest(data.as_bytes());
    out.to_vec()
}

/// Relies on hex::encode: lowercase hexadecimal, two digits per byte,
/// high nibble first.
#[verifier::external_body]
fn hex_encode(bytes: &Vec<u8>) -> (r: String)
    ensures
        r@ == hex_of(bytes@),
{
    hex::encode(bytes)
}

/// What a user row stores for a password: the lowercase hex form of
/// the password's SHA3-256 digest.
pub open spec fn password_hash_of(pass: Seq<char>) -> Seq<char> {
    hex_of(sha3_256_of(pass))
}

/// One-way hash of a credential, as stored in a user row.
pub fn hash_password(pass: &str) -> (r: String)
    ensures
        r@ == password_hash_of(pass@),
{
    let digest = sha3_256(pass);
    hex_encode(&digest)
}

} // verus!
