//! Fresh identifiers for members and teams.

use vstd::prelude::*;

verus! {

/// A decimal digit or one of the letters `a` to `f`.
pub open spec fn is_lower_hex(c: char) -> bool {
    ('0' <= c && c <= '9') || ('a' <= c && c <= 'f')
}

/// The four places at which the hyphenated text of a UUID holds a hyphen.
pub open spec fn is_hyphen_place(i: int) -> bool {
    i == 8 || i == 13 || i == 18 || i == 23
}

/// The shape of the hyphenated lower-case text of a random (version 4) UUID:
/// 36 characters, hyphens at places 8, 13, 18 and 23, lower-case hexadecimal
/// digits elsewhere, the version digit `4` at place 14 and one of `8`, `9`,
/// `a`, `b` (the RFC variant) at place 19.
pub open spec fn is_random_uuid_text(s: Seq<char>) -> bool {
    &&& s.len() == 36
    &&& forall|i: int|
        0 <= i < 36 ==> if is_hyphen_place(i) {
            s[i] == '-'
        } else {
            is_lower_hex(#[trigger] s[i])
        }
    &&& s[14] == '4'
    &&& (s[19] == '8' || s[19] == '9' || s[19] == 'a' || s[19] == 'b')
}

/// Draws a random identifier: `uuid::Uuid::new_v4()` rendered by `to_string()`.
///
/// Trusted, not proved. The contract claims only the shape of the text, which
/// holds of every draw: `new_v4` fixes the version and variant bits of sixteen
/// random bytes, and the `Display` impl of `Uuid` writes them hyphenated in
/// lower case. Nothing is claimed about which identifier comes back, nor that
/// two draws differ. `new_v4` panics if the operating system cannot supply
/// random bytes.
#[verifier::external_body]
pub(crate) fn fresh_id() -> (id: String)
    ensures
        is_random_uuid_text(id@),
{
    uuid::Uuid::new_v4().to_string()
}

} // verus!
