//! SHA-256 fingerprints, written in hexadecimal.

use vstd::prelude::*;
use vstd::string::*;
use vstd::utf8::encode_utf8;

use crate::json::{json_to_text, text_of_json, Json, Tree};
use crate::text::opt;

verus! {

broadcast use vstd::string::group_string_axioms;

/// The SHA-256 digest of some bytes.
pub uninterp spec fn sha256_of(bytes: Seq<u8>) -> Seq<u8>;

/// `ring::digest::digest` with `SHA256`: thirty-two bytes, which depend on the
/// input alone. It panics where the length of the input in bits does not fit in
/// 64 bits: hence the bound.
#[verifier::external_body]
fn sha256(bytes: &Vec<u8>) -> (r: Vec<u8>)
    requires
        bytes@.len() < 0x2000_0000_0000_0000,
    ensures
        r@ == sha256_of(bytes@),
        r@.len() == 32,
{
    ring::digest::digest(&ring::digest::SHA256, bytes).as_ref().to_vec()
}

/// A hexadecimal digit in lower case.
pub open spec fn hex_digit(n: u8) -> char {
    if n < 10 {
        (48 + n) as char
    } else {
        (87 + n) as char
    }
}

/// Bytes in hexadecimal, two digits each.
pub open spec fn hex_of(bytes: Seq<u8>) -> Seq<char>
    decreases bytes.len(),
{
    if bytes.len() == 0 {
        Seq::empty()
    } else {
        hex_of(bytes.drop_last()).push(hex_digit(bytes.last() / 16)).push(
            hex_digit(bytes.last() % 16),
        )
    }
}

fn hex_char(n: u8) -> (r: char)
    requires
        n < 16,
    ensures
        r == hex_digit(n),
{
    if n < 10 {
        let b: u8 = 48 + n;
        b as char
    } else {
        let b: u8 = 97 + (n - 10);
        b as char
    }
}

/// Writes bytes in hexadecimal.
pub fn hex_encode(bytes: &Vec<u8>) -> (r: String)
    ensures
        r@ == hex_of(bytes@),
{
    let mut out = String::new();
    let mut i: usize = 0;
    while i < bytes.len()
        invariant
            i <= bytes@.len(),
            out@ == hex_of(bytes@.take(i as int)),
        decreases bytes@.len() - i,
    {
        let b: u8 = bytes[i];
        out.push(hex_char(b / 16));
        out.push(hex_char(b % 16));
        proof {
            assert(bytes@.take(i + 1).drop_last() =~= bytes@.take(i as int));
            assert(bytes@.take(i + 1).last() == b);
        }
        i = i + 1;
    }
    proof {
        assert(bytes@.take(i as int) =~= bytes@);
    }
    out
}

/// Bytes in hexadecimal take two digits each.
pub proof fn lemma_hex_length(bytes: Seq<u8>)
    ensures
        hex_of(bytes).len() == 2 * bytes.len(),
    decreases bytes.len(),
{
    if bytes.len() > 0 {
        lemma_hex_length(bytes.drop_last());
    }
}

proof fn lemma_hex_digit(a: u8, b: u8)
    requires
        a < 16,
        b < 16,
        hex_digit(a) == hex_digit(b),
    ensures
        a == b,
{
}

/// Different bytes are written differently.
pub proof fn lemma_hex_tells_apart(a: Seq<u8>, b: Seq<u8>)
    requires
        hex_of(a) == hex_of(b),
    ensures
        a == b,
    decreases a.len(),
{
    lemma_hex_length(a);
    lemma_hex_length(b);
    if a.len() > 0 {
        let x = hex_of(a);
        let n = x.len();
        let pa = hex_of(a.drop_last());
        let pb = hex_of(b.drop_last());
        lemma_hex_length(a.drop_last());
        assert(x == pa.push(hex_digit(a.last() / 16)).push(hex_digit(a.last() % 16)));
        assert(x == pb.push(hex_digit(b.last() / 16)).push(hex_digit(b.last() % 16)));
        lemma_hex_length(b.drop_last());
        assert(x[n - 1] == hex_digit(a.last() % 16) && x[n - 1] == hex_digit(b.last() % 16));
        assert(x[n - 2] == hex_digit(a.last() / 16) && x[n - 2] == hex_digit(b.last() / 16));
        lemma_hex_digit(a.last() % 16, b.last() % 16);
        lemma_hex_digit(a.last() / 16, b.last() / 16);
        assert(a.last() == b.last());
        assert(pa =~= x.take(n - 2));
        assert(pb =~= x.take(n - 2));
        lemma_hex_tells_apart(a.drop_last(), b.drop_last());
        assert(a =~= a.drop_last().push(a.last()));
        assert(b =~= b.drop_last().push(b.last()));
    } else {
        assert(a =~= b);
    }
}

/// The fingerprint of a text: its digest in hexadecimal. There is none of a text
/// whose length in bits does not fit in 64 bits.
pub open spec fn fingerprint_of(text: Seq<char>) -> Option<Seq<char>> {
    let bytes = encode_utf8(text);
    if bytes.len() < 0x2000_0000_0000_0000 {
        Some(hex_of(sha256_of(bytes)))
    } else {
        None
    }
}

pub fn fingerprint(text: &str) -> (r: Option<String>)
    ensures
        opt(r) == fingerprint_of(text@),
        r matches Some(s) ==> s@.len() == 64,
{
    let bytes = text.as_bytes_vec();
    let n: u64 = bytes.len() as u64;
    if n < 0x2000_0000_0000_0000 {
        let digest = sha256(&bytes);
        proof {
            lemma_hex_length(digest@);
        }
        Some(hex_encode(&digest))
    } else {
        None
    }
}

/// What a JSON value is told apart by: the fingerprint of its compact text.
pub open spec fn raw_digest_of(raw: Tree) -> Option<Seq<char>> {
    match fingerprint_of(text_of_json(raw)) {
        Some(f) => Some("sha256:"@ + f),
        None => None,
    }
}

pub fn raw_digest(raw: &Json) -> (r: Option<String>)
    ensures
        opt(r) == raw_digest_of(raw@),
{
    let text = json_to_text(raw);
    match fingerprint(text.as_str()) {
        Some(f) => Some(crate::text::concat2("sha256:", f.as_str())),
        None => None,
    }
}

} // verus!
