//! SHA-256 digests, through `sha2`.

use sha2::Digest;
use vstd::prelude::*;

verus! {

/// The lower-case hexadecimal SHA-256 digest of a byte string.
pub uninterp spec fn sha256_hex(data: Seq<u8>) -> Seq<char>;

/// `format!("{:x}", sha2::Sha256::digest(data))`: the digest's 32 bytes as 64
/// lower-case hexadecimal digits.
#[verifier::external_body]
pub(crate) fn sha256_hex_of(data: &[u8]) -> (r: String)
    ensures
        r@ == sha256_hex(data@),
        r@.len() == 64,
        forall|i: int| 0 <= i < 64 ==> crate::ids::is_lower_hex_digit(#[trigger] r@[i]),
{
    format!("{:x}", sha2::Sha256::digest(data))
}

} // verus!
