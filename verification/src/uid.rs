//! Node identities: UUIDs held as 128-bit numbers, read from and written as text.
use vstd::prelude::*;

verus! {

/// The error type of `uuid`, carried through opaquely.
#[verifier::external_type_specification]
#[verifier::external_body]
pub struct ExUuidError(uuid::Error);

/// The UUID that `uuid::Uuid::parse_str` reads from `text` (simple, hyphenated
/// or URN form), as its 128-bit number; `None` when the text is not a UUID.
pub uninterp spec fn parsed_uuid(text: Seq<char>) -> Option<u128>;

/// Reads a UUID (`uuid::Uuid::parse_str`, then `as_u128`). The result is
/// named, not stated: it is `parsed_uuid` of the text. The hyphenated form
/// that `uuid` writes is among the forms it reads, and reads back as the
/// UUID it was written from.
#[verifier::external_body]
pub(crate) fn parse_uuid(text: &str) -> (r: Result<u128, uuid::Error>)
    ensures
        r is Ok <==> parsed_uuid(text@) is Some,
        r matches Ok(u) ==> parsed_uuid(text@) == Some(u),
        r matches Ok(v) ==> forall|u: u128| #[trigger] hyphenated_uuid(u) == text@ ==> v == u,
        r is Err ==> forall|u: u128| #[trigger] hyphenated_uuid(u) != text@,
{
    uuid::Uuid::parse_str(text).map(|u| u.as_u128())
}

/// Reads the global id of a node as the UUID it names.
pub fn parse_node_id(id: &str) -> (r: Result<u128, uuid::Error>)
    ensures
        r is Ok <==> parsed_uuid(id@) is Some,
        r matches Ok(u) ==> parsed_uuid(id@) == Some(u),
        forall|u: u128| #[trigger] hyphenated_uuid(u) == id@ ==> r == Ok::<u128, uuid::Error>(u),
{
    parse_uuid(id)
}

/// The lower-case hexadecimal digits, in order of value.
pub open spec fn hex_chars() -> Seq<char> {
    seq!['0', '1', '2', '3', '4', '5', '6', '7', '8', '9', 'a', 'b', 'c', 'd', 'e', 'f']
}

/// The `k`-th hexadecimal digit of `u`, counted from the most significant (0 to 31).
pub open spec fn uuid_nibble(u: u128, k: int) -> int {
    ((u >> ((31 - k) * 4) as u128) & 15u128) as int
}

/// The hyphenated lower-case text of the UUID `u`: its 32 hexadecimal digits,
/// most significant first, in groups of 8, 4, 4, 4 and 12 separated by `-`.
pub open spec fn hyphenated_uuid(u: u128) -> Seq<char> {
    Seq::new(
        36,
        |j: int|
            if j == 8 || j == 13 || j == 18 || j == 23 {
                '-'
            } else {
                let k = if j < 8 {
                    j
                } else if j < 13 {
                    j - 1
                } else if j < 18 {
                    j - 2
                } else if j < 23 {
                    j - 3
                } else {
                    j - 4
                };
                hex_chars()[uuid_nibble(u, k)]
            },
    )
}

/// Writes a UUID in its hyphenated lower-case form (`uuid::Uuid::to_string`,
/// which `uuid` documents as the hyphenated form).
#[verifier::external_body]
pub(crate) fn uuid_text(u: u128) -> (r: String)
    ensures
        r@ == hyphenated_uuid(u),
{
    uuid::Uuid::from_u128(u).to_string()
}

} // verus!
