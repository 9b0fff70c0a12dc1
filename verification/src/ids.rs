//! Random identifiers, through `uuid`.

use vstd::prelude::*;

verus! {

/// A lower-case hexadecimal digit.
pub open spec fn is_lower_hex_digit(c: char) -> bool {
    ('0' <= c <= '9') || ('a' <= c <= 'f')
}

/// The hyphenated lower-case form of a UUID: 36 characters, with `-` at
/// positions 8, 13, 18 and 23 and a lower-case hexadecimal digit elsewhere.
pub open spec fn hyphenated_uuid(s: Seq<char>) -> bool {
    &&& s.len() == 36
    &&& forall|i: int|
        0 <= i < 36 ==> if i == 8 || i == 13 || i == 18 || i == 23 {
            #[trigger] s[i] == '-'
        } else {
            is_lower_hex_digit(s[i])
        }
}

/// `uuid::Uuid::new_v4().to_string()`: a random UUID in its hyphenated
/// lower-case form (`Display` writes the 16 bytes as lower-case hex in
/// groups of 8, 4, 4, 4 and 12 joined by `-`). Which UUID comes back is
/// random.
#[verifier::external_body]
pub(crate) fn new_uuid_text() -> (r: String)
    ensures
        hyphenated_uuid(r@),
{
    uuid::Uuid::new_v4().to_string()
}

} // verus!
