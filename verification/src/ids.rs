//! Opaque identifiers.
//!
//! Assets, shops, offers and subscriptions are identified by 128-bit
//! values; at the service boundary they travel as canonical hyphenated
//! UUID strings. Parsing and formatting are the uuid crate's; the library
//! refers to their results only through the names `uuid_of` and
//! `uuid_str_of`.

use vstd::prelude::*;

verus! {

/// What `uuid::Uuid::try_parse` returns on a given string, as a 128-bit
/// value: `None` where the string is not a UUID in any accepted form.
pub uninterp spec fn uuid_of(s: Seq<char>) -> Option<u128>;

/// The canonical hyphenated rendering of a 128-bit identifier.
pub uninterp spec fn uuid_str_of(v: u128) -> Seq<char>;

/// Relies on `uuid::Uuid::try_parse` and `Uuid::as_u128`: parsing is a
/// deterministic function of the string alone.
#[verifier::external_body]
pub fn uuid_try_parse(s: &str) -> (r: Option<u128>)
    ensures
        r == uuid_of(s@),
{
    uuid::Uuid::try_parse(s).ok().map(|u| u.as_u128())
}

/// Relies on `uuid::Uuid::hyphenated`: the canonical hyphenated form is a
/// deterministic function of the value and is 36 characters long.
#[verifier::external_body]
pub fn uuid_format(v: u128) -> (r: String)
    ensures
        r@ == uuid_str_of(v),
        r@.len() == 36,
{
    uuid::Uuid::from_u128(v).hyphenated().to_string()
}

/// Relies on `uuid::Uuid::new_v4`: a random identifier; nothing is assumed
/// of the value.
#[verifier::external_body]
pub fn uuid_new_v4() -> u128 {
    uuid::Uuid::new_v4().as_u128()
}

} // verus!
