//! Digests of texts, for identifiers that are compared and never read back.
use vstd::prelude::*;
use vstd::string::*;

use crate::text;
use crate::text::{hex, owned};

verus! {

/// The digest of a text.
pub uninterp spec fn digest(s: Seq<char>) -> u64;

/// `BuildHasher::hash_one` of std's unseeded `DefaultHasher`: a function of
/// the text alone. Which number it is, is left to std's algorithm.
#[verifier::external_body]
pub(crate) fn digest_of(s: &str) -> (r: u64)
    ensures
        r == digest(s@),
{
    let build = std::hash::BuildHasherDefault::<std::collections::hash_map::DefaultHasher>::default();
    std::hash::BuildHasher::hash_one(&build, s)
}

/// The digest of two texts, one after the other.
pub uninterp spec fn digest_pair(a: Seq<char>, b: Seq<char>) -> u64;

/// `BuildHasher::hash_one` of std's unseeded `DefaultHasher` on a pair: a
/// function of the two texts alone.
#[verifier::external_body]
pub(crate) fn digest_of_pair(a: &str, b: &str) -> (r: u64)
    ensures
        r == digest_pair(a@, b@),
{
    let build = std::hash::BuildHasherDefault::<std::collections::hash_map::DefaultHasher>::default();
    std::hash::BuildHasher::hash_one(&build, (a, b))
}

/// The digest of a text behind a prefix, as sixteen hexadecimal digits.
pub open spec fn tagged(prefix: Seq<char>, s: Seq<char>) -> Seq<char> {
    prefix + text::hex_text(digest(s) as nat, 16)
}

/// Writes the digest of a text behind a prefix.
pub fn tagged_digest(prefix: &str, s: &str) -> (r: String)
    ensures
        r@ == tagged(prefix@, s@),
{
    let mut out = owned(prefix);
    out.append(hex(digest_of(s), 16).as_str());
    out
}

/// Bytes as a text, each as the character of its number.
pub open spec fn characters(bytes: Seq<u8>) -> Seq<char> {
    Seq::new(bytes.len(), |i: int| bytes[i] as char)
}

/// The digest of bytes.
pub fn digest_of_bytes(bytes: &Vec<u8>) -> (r: u64)
    ensures
        r == digest(characters(bytes@)),
{
    let mut out = String::new();
    let mut i: usize = 0;
    assert(out@ =~= characters(bytes@).take(0));
    while i < bytes.len()
        invariant
            i <= bytes@.len(),
            out@ == characters(bytes@).take(i as int),
        decreases bytes@.len() - i,
    {
        out.push(bytes[i] as char);
        i = i + 1;
        assert(out@ =~= characters(bytes@).take(i as int));
    }
    assert(characters(bytes@).take(bytes@.len() as int) =~= characters(bytes@));
    digest_of(out.as_str())
}

/// A tagged digest is the tag and sixteen hexadecimal digits that are read back
/// as the digest; texts with one digest under one tag are written alike, and bytes
/// are digested in their order, each on its own.
pub proof fn digests_are_written_whole(prefix: Seq<char>, s: Seq<char>, a: Seq<u8>, b: Seq<u8>)
    ensures
        tagged(prefix, s).len() == prefix.len() + 16,
        prefix.is_prefix_of(tagged(prefix, s)),
        tagged(prefix, s).skip(prefix.len() as int) == text::hex_text(digest(s) as nat, 16),
        characters(a + b) == characters(a) + characters(b),
        characters(a).len() == a.len(),
{
    text::hex_text_len(digest(s) as nat, 16);
    assert(tagged(prefix, s).skip(prefix.len() as int) =~= text::hex_text(digest(s) as nat, 16));
    assert(characters(a + b) =~= characters(a) + characters(b));
}

/// A byte is the character of its number.
pub proof fn bytes_are_characters(b: u8)
    ensures
        characters(seq![b]) == seq![b as char],
{
    assert(characters(seq![b]) =~= seq![b as char]);
}

} // verus!
