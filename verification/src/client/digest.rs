use vstd::prelude::*;

use crate::text;

verus! {

/// The MD5 digest of some bytes.
pub uninterp spec fn md5_digest(data: Seq<u8>) -> Seq<u8>;

/// Calls `md5::compute`. The claim on it is that the digest is a function of the bytes alone.
#[verifier::external_body]
fn md5_compute(data: &[u8]) -> (r: [u8; 16])
    ensures
        r@ == md5_digest(data@),
{
    md5::compute(data).0
}

/// A digest as text: two hexadecimal digits for each byte.
pub fn digest_text(digest: &[u8; 16]) -> (r: String)
    ensures
        r@ == text::hex(digest@),
{
    text::hex_text(digest.as_slice())
}

/// The MD5 digest of `data` as text.
pub fn md5_text(data: &[u8]) -> (r: String)
    ensures
        r@ == text::hex(md5_digest(data@)),
{
    digest_text(&md5_compute(data))
}

} // verus!
