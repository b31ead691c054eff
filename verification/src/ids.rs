//! Identifiers of records: a prefix that tells the kind of record, and a
//! random UUID.

use vstd::prelude::*;
use vstd::string::StringExecFns;

verus! {

/// Number of characters of a UUID in its hyphenated form.
pub const UUID_LENGTH: usize = 36;

pub open spec fn is_lower_hex(c: char) -> bool {
    ('0' <= c <= '9') || ('a' <= c <= 'f')
}

/// The text is a random UUID in its hyphenated lower-case form: five
/// groups of hexadecimal digits with hyphens between them, the third of
/// which begins with the version, four.
pub open spec fn is_uuid_text(text: Seq<char>) -> bool {
    &&& text.len() == UUID_LENGTH
    &&& forall|i: int|
        0 <= i < text.len() ==> if i == 8 || i == 13 || i == 18 || i == 23 {
            #[trigger] text[i] == '-'
        } else {
            is_lower_hex(text[i])
        }
    &&& text[14] == '4'
}

/// Calls `Uuid::new_v4` and formats the UUID by its `Display`, which gives
/// the hyphenated lower-case form. The UUID is random, so the form is all
/// that is claimed. The call panics where the operating system can give no
/// random bytes.
#[verifier::external_body]
fn random_uuid() -> (text: String)
    ensures
        is_uuid_text(text@),
{
    uuid::Uuid::new_v4().to_string()
}

/// The identifier is `prefix` followed by a UUID.
pub open spec fn is_id_with_prefix(id: Seq<char>, prefix: Seq<char>) -> bool {
    &&& id.len() == prefix.len() + UUID_LENGTH
    &&& id.subrange(0, prefix.len() as int) == prefix
    &&& is_uuid_text(id.subrange(prefix.len() as int, id.len() as int))
}

/// Makes `prefix` followed by `uuid`.
pub fn prefixed(prefix: &str, uuid: &str) -> (id: String)
    ensures
        id@ == prefix@ + uuid@,
{
    let mut id = String::from_str(prefix);
    id.append(uuid);
    id
}

/// A fresh identifier: `prefix` followed by a random UUID.
pub fn fresh_id(prefix: &str) -> (id: String)
    ensures
        is_id_with_prefix(id@, prefix@),
{
    let uuid = random_uuid();
    let id = prefixed(prefix, uuid.as_str());
    assert(id@.subrange(0, prefix@.len() as int) =~= prefix@);
    assert(id@.subrange(prefix@.len() as int, id@.len() as int) =~= uuid@);
    id
}

} // verus!
