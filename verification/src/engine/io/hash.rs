//! Digests of file contents, written as lower-case hexadecimal.
use vstd::prelude::*;

verus! {

/// The SHA-256 digest of some bytes.
pub uninterp spec fn sha256_digest(data: Seq<u8>) -> Seq<u8>;

/// The SHA-1 digest of some bytes.
pub uninterp spec fn sha1_digest(data: Seq<u8>) -> Seq<u8>;

/// The SHA-512 digest of some bytes.
pub uninterp spec fn sha512_digest(data: Seq<u8>) -> Seq<u8>;

/// Calls `sha2::Sha256::digest`. Claimed: the result is `sha256_digest` of
/// the input and is 32 bytes long.
#[verifier::external_body]
fn sha256_bytes(data: &[u8]) -> (r: Vec<u8>)
    ensures
        r@ == sha256_digest(data@),
        r@.len() == 32,
{
    <sha2::Sha256 as sha2::Digest>::digest(data).to_vec()
}

/// Calls `sha1::Sha1::digest`. Claimed: the result is `sha1_digest` of the
/// input and is 20 bytes long.
#[verifier::external_body]
fn sha1_bytes(data: &[u8]) -> (r: Vec<u8>)
    ensures
        r@ == sha1_digest(data@),
        r@.len() == 20,
{
    <sha1::Sha1 as sha1::Digest>::digest(data).to_vec()
}

/// Calls `sha2::Sha512::digest`. Claimed: the result is `sha512_digest` of
/// the input and is 64 bytes long.
#[verifier::external_body]
pub(crate) fn sha512_bytes(data: &[u8]) -> (r: Vec<u8>)
    ensures
        r@ == sha512_digest(data@),
        r@.len() == 64,
{
    <sha2::Sha512 as sha2::Digest>::digest(data).to_vec()
}

pub open spec fn hex_digit(n: u8) -> char
    recommends
        n < 16,
{
    if n < 10 {
        (48 + n) as char
    } else {
        (87 + n) as char
    }
}

/// Two lower-case hexadecimal digits per byte, high half first.
pub open spec fn hex_lower(data: Seq<u8>) -> Seq<char>
    decreases data.len(),
{
    if data.len() == 0 {
        Seq::empty()
    } else {
        hex_lower(data.drop_last()).push(hex_digit(data.last() / 16)).push(hex_digit(data.last() % 16))
    }
}

/// Two characters per byte.
pub proof fn lemma_hex_len(data: Seq<u8>)
    ensures
        hex_lower(data).len() == 2 * data.len(),
    decreases data.len(),
{
    if data.len() > 0 {
        lemma_hex_len(data.drop_last());
    }
}

fn hex_char(n: u8) -> (c: char)
    requires
        n < 16,
    ensures
        c == hex_digit(n),
{
    if n < 10 {
        (48 + n) as char
    } else {
        (87 + n) as char
    }
}

/// Writes a digest in lower-case hexadecimal.
pub fn hash_file(digest: &[u8]) -> (s: String)
    ensures
        s@ == hex_lower(digest@),
        s@.len() == 2 * digest@.len(),
{
    let mut s = String::new();
    for i in 0..digest.len()
        invariant
            s@ == hex_lower(digest@.take(i as int)),
            s@.len() == 2 * i,
    {
        let b = digest[i];
        assert(digest@.take(i + 1).drop_last() =~= digest@.take(i as int));
        assert(digest@.take(i + 1).last() == b);
        s.push(hex_char(b / 16));
        s.push(hex_char(b % 16));
    }
    assert(digest@.take(digest@.len() as int) =~= digest@);
    s
}

/// The SHA-256 of a file's contents, in lower-case hexadecimal.
pub fn sha256_file(contents: &[u8]) -> (s: String)
    ensures
        s@ == hex_lower(sha256_digest(contents@)),
        s@.len() == 64,
{
    let d = sha256_bytes(contents);
    hash_file(d.as_slice())
}

/// The SHA-1 of a file's contents, in lower-case hexadecimal.
pub fn sha1_file(contents: &[u8]) -> (s: String)
    ensures
        s@ == hex_lower(sha1_digest(contents@)),
        s@.len() == 40,
{
    let d = sha1_bytes(contents);
    hash_file(d.as_slice())
}

} // verus!
