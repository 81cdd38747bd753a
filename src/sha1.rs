//! SHA-1 digests, as the `sha1` crate computes them.
use vstd::prelude::*;
use vstd::utf8::*;

verus! {

/// The SHA-1 digest of a byte sequence.
pub uninterp spec fn sha1_of(b: Seq<u8>) -> Seq<u8>;

/// Relies on `sha1::Sha1` through `Digest::digest`: the digest of the input,
/// whose output size is 20 bytes.
#[verifier::external_body]
pub(crate) fn sha1_digest(b: &[u8]) -> (r: Vec<u8>)
    ensures
        r@ == sha1_of(b@),
        r@.len() == 20,
{
    <::sha1::Sha1 as ::sha1::Digest>::digest(b).to_vec()
}

/// Relies on `Vec::into_boxed_slice`: the boxed slice holds the same bytes.
#[verifier::external_body]
fn boxed(v: Vec<u8>) -> (r: Box<[u8]>)
    ensures
        r@ == v@,
{
    v.into_boxed_slice()
}

/// The SHA-1 digest of the UTF-8 bytes of `input`.
pub fn encode(input: String) -> (r: Box<[u8]>)
    ensures
        r@ == sha1_of(encode_utf8(input@)),
        r@.len() == 20,
{
    boxed(sha1_digest(input.as_str().as_bytes()))
}

} // verus!
