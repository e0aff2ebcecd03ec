//! The few places where the library leans on code it does not verify:
//! minting identifiers, flipping the scheduler's coin, reading the clock,
//! and Unicode case folding.

use vstd::prelude::*;

verus! {

/// What `str::to_lowercase` returns for a string: a function of the
/// characters alone, left uninterpreted here.
pub uninterp spec fn lower_of(s: Seq<char>) -> Seq<char>;

/// Relies on `uuid::Uuid::new_v4`: a freshly drawn random identifier.
/// Nothing can be promised of a random value.
#[verifier::external_body]
pub(crate) fn fresh_id() -> (r: u128) {
    uuid::Uuid::new_v4().as_u128()
}

/// Relies on `rand::random::<bool>`: a fair coin flip.
/// Nothing can be promised of a random value.
#[verifier::external_body]
pub(crate) fn coin() -> (r: bool) {
    rand::random()
}

/// Relies on `chrono::Utc::now` and `DateTime::to_rfc3339`: the current
/// time rendered as text. The clock decides the contents.
#[verifier::external_body]
pub(crate) fn now_rfc3339() -> (r: String) {
    chrono::Utc::now().to_rfc3339()
}

/// Relies on `str::to_lowercase`: the lowercase equivalent of the string,
/// a function of its characters alone; an empty string stays empty.
#[verifier::external_body]
pub(crate) fn lowercase(s: &str) -> (r: String)
    ensures
        r@ == lower_of(s@),
        s@.len() == 0 ==> r@.len() == 0,
{
    s.to_lowercase()
}

} // verus!
