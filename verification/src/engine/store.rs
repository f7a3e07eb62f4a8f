//! The content-addressed store that downloaded files are kept in.
use vstd::prelude::*;
use vstd::string::StringSliceAdditionalSpecFns;
use vstd::utf8::{decode_utf8, encode_utf8, is_ascii_chars, is_char_boundary};
use crate::engine::paths::{join, join_path};
use crate::engine::io::hash::{hash_file, hex_lower, sha512_bytes, sha512_digest};

verus! {

pub enum StoreError {
    Io(String),
    HashMismatch { expected: String, found: String },
}

impl StoreError {
    /// The message the error is shown with.
    pub fn message(&self) -> (r: String)
        ensures
            r@ == (match self {
                StoreError::Io(e) => "io error: "@ + e@,
                StoreError::HashMismatch { expected, found } => "integrity check failed: expected "@ + expected@
                    + ", found "@ + found@,
            }),
    {
        match self {
            StoreError::Io(e) => crate::text::concat2("io error: ", e.as_str()),
            StoreError::HashMismatch { expected, found } => {
                let mut r = crate::text::concat2("integrity check failed: expected ", expected.as_str());
                crate::text::push_str(&mut r, ", found ");
                crate::text::push_str(&mut r, found.as_str());
                r
            },
        }
    }
}

pub struct Store {
    root: String,
}

impl Store {
    /// The folder the store lives in.
    pub closed spec fn root_dir(&self) -> Seq<char> {
        self.root@
    }

    pub fn new(root: String) -> (s: Store)
        ensures
            s.root_dir() == root@,
    {
        Store { root }
    }

    /// A second handle on the same store.
    pub fn duplicate(&self) -> (s: Store)
        ensures
            s.root_dir() == self.root_dir(),
    {
        Store { root: self.root.clone() }
    }

    /// Where the object with digest `hash` is kept: `objects`, then the
    /// first two bytes of the digest, then the digest.
    pub fn object_path(&self, hash: &str) -> (p: String)
        requires
            is_char_boundary(hash.spec_bytes(), 2),
        ensures
            p@ == join_path(join_path(join_path(self.root_dir(), "objects"@),
                decode_utf8(hash.spec_bytes().subrange(0, 2))), hash@),
    {
        let (head, _) = hash.split_at(2);
        proof {
            vstd::utf8::encode_utf8_decode_utf8(head@);
        }
        let objects = join(self.root.as_str(), "objects");
        let dir = join(objects.as_str(), head);
        join(dir.as_str(), hash)
    }

    /// The digest the store files contents under: their SHA-512, in
    /// lower-case hexadecimal.
    pub fn calculate_hash(&self, contents: &[u8]) -> (h: String)
        ensures
            h@ == hex_lower(sha512_digest(contents@)),
            h@.len() == 128,
    {
        let d = sha512_bytes(contents);
        hash_file(d.as_slice())
    }
}

proof fn lemma_hex_ascii(d: Seq<u8>)
    ensures
        is_ascii_chars(hex_lower(d)),
    decreases d.len(),
{
    if d.len() > 0 {
        lemma_hex_ascii(d.drop_last());
        let h = hex_lower(d.drop_last());
        let a = crate::engine::io::hash::hex_digit(d.last() / 16);
        let b = crate::engine::io::hash::hex_digit(d.last() % 16);
        assert forall|i: int| 0 <= i < h.push(a).push(b).len() implies '\0' <= #[trigger] h.push(a).push(b)[i] <= '\u{7f}' by {
            if i < h.len() {
                assert(h.push(a).push(b)[i] == h[i]);
            }
        }
    }
}

/// Every digest the store computes can be filed in it: in its UTF-8 form
/// the first two bytes end on a character boundary, and they are its first
/// two characters, under which `object_path` files it.
pub proof fn lemma_digest_is_storable(d: Seq<u8>)
    requires
        d.len() >= 1,
    ensures
        is_char_boundary(encode_utf8(hex_lower(d)), 2),
        decode_utf8(encode_utf8(hex_lower(d)).subrange(0, 2)) == hex_lower(d).take(2),
{
    let h = hex_lower(d);
    lemma_hex_ascii(d);
    crate::engine::io::hash::lemma_hex_len(d);
    let bytes = encode_utf8(h);
    vstd::utf8::is_ascii_chars_encode_utf8(h);
    vstd::utf8::encode_utf8_valid_utf8(h);
    if bytes.len() == 2 {
        vstd::utf8::is_char_boundary_start_end_of_seq(bytes);
    } else {
        assert(h[2] as u8 == bytes[2]);
        assert(bytes[2] < 0x80);
        vstd::utf8::is_char_boundary_iff_not_is_continuation_byte(bytes, 2);
    }
    let t = h.take(2);
    assert(is_ascii_chars(t));
    vstd::utf8::is_ascii_chars_encode_utf8(t);
    assert(encode_utf8(t) =~= bytes.subrange(0, 2));
    vstd::utf8::encode_utf8_decode_utf8(t);
}

} // verus!
