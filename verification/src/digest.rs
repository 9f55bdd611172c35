//! The trusted boundary to the MD5 implementation of the `md5` crate. The
//! digest is the keying primitive of the password obfuscation and of the
//! response authenticator; its value is kept abstract under `md5_of`.

use vstd::prelude::*;

verus! {

/// The MD5 digest of a byte sequence. The digest depends on the input bytes
/// alone; nothing is assumed of its value beyond its 16-byte length.
pub uninterp spec fn md5_of(data: Seq<u8>) -> Seq<u8>;

/// Relies on md5::compute: the 16-byte MD5 digest of the input, a function of
/// the input bytes alone.
#[verifier::external_body]
pub(crate) fn md5_digest(data: &Vec<u8>) -> (r: Vec<u8>)
    ensures
        r@ == md5_of(data@),
        r@.len() == 16,
{
    md5::compute(data.as_slice()).0.to_vec()
}

} // verus!
