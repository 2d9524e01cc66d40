//! What the library takes from chance: random numbers and identifiers.
use rand::Rng;
use vstd::prelude::*;

verus! {

/// Whether `c` is a hexadecimal digit in lower case.
pub open spec fn is_hex(c: char) -> bool {
    '0' <= c <= '9' || 'a' <= c <= 'f'
}

/// The form of a random identifier: 36 characters, hyphens at four places,
/// hexadecimal digits elsewhere, and among these the version and the variant.
pub open spec fn is_uuid(s: Seq<char>) -> bool {
    &&& s.len() == 36
    &&& s[14] == '4'
    &&& s[19] == '8' || s[19] == '9' || s[19] == 'a' || s[19] == 'b'
    &&& forall|i: int|
        #![trigger s[i]]
        0 <= i < 36 ==> if i == 8 || i == 13 || i == 18 || i == 23 {
            s[i] == '-'
        } else {
            is_hex(s[i])
        }
}

/// Calls `Rng::gen_range` on `rand::thread_rng()`: some number below `bound`.
/// Which one is left to chance.
#[verifier::external_body]
pub(crate) fn random_below(bound: usize) -> (number: usize)
    requires
        0 < bound,
    ensures
        number < bound,
{
    rand::thread_rng().gen_range(0..bound)
}

/// Calls `Uuid::new_v4` and writes it out with `to_string`: some identifier of
/// version 4 and of the variant of RFC 4122, with hyphens and in lower case.
/// Which one is left to chance.
#[verifier::external_body]
pub(crate) fn random_uuid() -> (uuid: String)
    ensures
        is_uuid(uuid@),
{
    uuid::Uuid::new_v4().to_string()
}

} // verus!
