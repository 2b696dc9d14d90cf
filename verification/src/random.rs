//! The library's source of chance: the thread-local generator of the `rand`
//! crate. Nothing here is proved; each contract states what `rand` documents.

use rand::Rng;
use vstd::prelude::*;

verus! {

/// Calls `rand::Rng::gen_ratio` on `rand::thread_rng()`: a draw that is true
/// with probability `numerator / denominator`. `rand` panics on a zero
/// denominator and on a numerator above the denominator, hence the `requires`.
/// All that is claimed of the result is what `rand` guarantees of every draw:
/// a ratio of one always hits, a ratio of zero never does.
#[verifier::external_body]
pub(crate) fn random_ratio(numerator: u32, denominator: u32) -> (hit: bool)
    requires
        denominator > 0,
        numerator <= denominator,
    ensures
        numerator == denominator ==> hit,
        numerator == 0 ==> !hit,
{
    rand::thread_rng().gen_ratio(numerator, denominator)
}

/// Calls `rand::Rng::gen_range` on `rand::thread_rng()` with the range
/// `0..bound`: a uniform draw. `rand` panics on an empty range, hence the
/// `requires`. All that is claimed of the result is that it lies in the range.
#[verifier::external_body]
pub(crate) fn random_below(bound: u32) -> (r: u32)
    requires
        bound > 0,
    ensures
        r < bound,
{
    rand::thread_rng().gen_range(0..bound)
}

/// Calls `uuid::Uuid::new_v4` and formats the result with `to_string`: a
/// random version-4 identifier in its hyphenated lower-case form. All that is
/// claimed of the result is what holds of every such text: it has 36
/// characters, hexadecimal digits and hyphens, all of them ASCII.
#[verifier::external_body]
pub(crate) fn random_uuid_text() -> (text: String)
    ensures
        text@.len() == 36,
        vstd::string::string_is_ascii(&text),
{
    uuid::Uuid::new_v4().to_string()
}

} // verus!
