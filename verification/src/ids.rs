//! Identifiers of folders and profiles.

use uuid::Uuid;
use vstd::prelude::*;

verus! {

/// `uuid::Uuid`, the 16 bytes of an identifier.
#[verifier::external_type_specification]
#[verifier::external_body]
pub struct ExUuid(uuid::Uuid);

/// `Uuid::new_v4`: some identifier. The bytes are drawn at random, so nothing is
/// said of which one comes, nor that it differs from those drawn before.
#[verifier::external_body]
pub(crate) fn new_id() -> (id: Uuid) {
    Uuid::new_v4()
}

/// `==` on `Uuid`: whether two identifiers are the same 16 bytes, that is, the same
/// value.
#[verifier::external_body]
pub(crate) fn same_id(a: Uuid, b: Uuid) -> (r: bool)
    ensures
        r == (a == b),
{
    a == b
}

/// What `Display` of `Uuid` writes.
pub uninterp spec fn printed_id(id: Uuid) -> Seq<char>;

/// What `Uuid::parse_str` reads, where it succeeds.
pub uninterp spec fn parsed_id(s: Seq<char>) -> Option<Uuid>;

/// `to_string` on `Uuid`, which is `Display`: the identifier in hexadecimal digits with
/// hyphens. `Uuid::parse_str` reads it back.
#[verifier::external_body]
pub(crate) fn print_id(id: Uuid) -> (r: String)
    ensures
        r@ == printed_id(id),
        parsed_id(r@) == Some(id),
{
    id.to_string()
}

/// `Uuid::parse_str`: the identifier that a text stands for, a function of its
/// characters alone; nothing where it is no identifier.
#[verifier::external_body]
pub(crate) fn parse_id(s: &str) -> (r: Option<Uuid>)
    ensures
        r == parsed_id(s@),
{
    Uuid::parse_str(s).ok()
}

/// Whether two optional identifiers are the same.
pub fn same_optional_id(a: Option<Uuid>, b: Option<Uuid>) -> (r: bool)
    ensures
        r == (a == b),
{
    match (a, b) {
        (Some(x), Some(y)) => same_id(x, y),
        (None, None) => true,
        _ => false,
    }
}

} // verus!
