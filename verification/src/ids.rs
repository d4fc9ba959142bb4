//! Random identifiers.

use vstd::prelude::*;

verus! {

/// A fresh random version-4 UUID in its hyphenated lowercase form
/// (`uuid::Uuid::new_v4` and its `Display`): 36 characters, hyphens at
/// indices 8, 13, 18 and 23, the version digit `4` at index 14. Which UUID
/// comes out is random, so nothing more is stated.
#[verifier::external_body]
pub fn new_uuid_v4() -> (r: String)
    ensures
        r@.len() == 36,
        r@[8] == '-' && r@[13] == '-' && r@[18] == '-' && r@[23] == '-',
        r@[14] == '4',
{
    uuid::Uuid::new_v4().to_string()
}

/// Whether `c` is a lowercase hexadecimal digit.
pub open spec fn is_lower_hex(c: char) -> bool {
    ('0' <= c && c <= '9') || ('a' <= c && c <= 'f')
}

/// Whether `s` has the hyphenated form of a UUID: 36 characters, hyphens
/// at indices 8, 13, 18 and 23, lowercase hexadecimal digits elsewhere.
pub open spec fn is_hyphenated_uuid(s: Seq<char>) -> bool {
    &&& s.len() == 36
    &&& forall|i: int|
        0 <= i < 36 ==> if i == 8 || i == 13 || i == 18 || i == 23 {
            #[trigger] s[i] == '-'
        } else {
            is_lower_hex(s[i])
        }
}

/// `uuid::Uuid`, carried through as it is.
#[verifier::external_type_specification]
#[verifier::external_body]
pub struct ExUuid(uuid::Uuid);

/// The text of a UUID (`uuid::Uuid`'s `Display`, which writes the
/// hyphenated lowercase form). Which digits it holds depends on the UUID,
/// which Verus cannot see into; stated is the form.
#[verifier::external_body]
pub fn uuid_text(u: &uuid::Uuid) -> (r: String)
    ensures
        is_hyphenated_uuid(r@),
{
    u.to_string()
}

/// A fresh random version-4 UUID in its simple form (`uuid::Uuid::new_v4`,
/// `Uuid::simple` and its `Display`): 32 lowercase hexadecimal digits, no
/// hyphens. Which UUID comes out is random, so nothing more is stated.
#[verifier::external_body]
pub fn new_uuid_v4_simple() -> (r: String)
    ensures
        r@.len() == 32,
        forall|i: int| 0 <= i < 32 ==> is_lower_hex(#[trigger] r@[i]),
{
    uuid::Uuid::new_v4().simple().to_string()
}

} // verus!
