//! What chance decides: a fresh identifier, random bytes and a random pick.
//! Of each outcome only what holds of every outcome is stated.

use vstd::prelude::*;

verus! {

/// The outside type `getrandom::Error`, carried through as an opaque value.
#[verifier::external_type_specification]
#[verifier::external_body]
pub struct ExGetrandomError(getrandom::Error);

/// Whether `c` is a hexadecimal digit in lower case.
pub open spec fn is_lower_hex(c: char) -> bool {
    ('0' <= c && c <= '9') || ('a' <= c && c <= 'f')
}

/// Whether `s` has the hyphenated form of a version 4 identifier: 36
/// characters, hyphens after the 8th, 12th, 16th and 20th digit, lower-case
/// hexadecimal digits elsewhere, the version digit `4` and a variant digit
/// among `8`, `9`, `a`, `b`.
pub open spec fn is_uuid_v4_text(s: Seq<char>) -> bool {
    &&& s.len() == 36
    &&& forall|i: int|
        0 <= i < 36 ==> if i == 8 || i == 13 || i == 18 || i == 23 {
            #[trigger] s[i] == '-'
        } else {
            is_lower_hex(s[i])
        }
    &&& s[14] == '4'
    &&& (s[19] == '8' || s[19] == '9' || s[19] == 'a' || s[19] == 'b')
}

/// `uuid::Uuid::new_v4` written with `to_string`: a random identifier in
/// hyphenated lower-case form, with the version and variant bits set.
#[verifier::external_body]
pub(crate) fn uuid_v4_text() -> (r: String)
    ensures
        is_uuid_v4_text(r@),
{
    uuid::Uuid::new_v4().to_string()
}

/// `getrandom::getrandom`: fills the buffer from the system's source of
/// random bytes, or fails; the length of the buffer stays.
#[verifier::external_body]
pub(crate) fn fill_random(buffer: &mut Vec<u8>) -> (r: Result<(), getrandom::Error>)
    ensures
        final(buffer)@.len() == old(buffer)@.len(),
{
    getrandom::getrandom(buffer.as_mut_slice())
}

/// `SliceRandom::choose` with `rand::thread_rng()`: one of the items, and
/// `None` exactly where there is none to pick.
#[verifier::external_body]
pub(crate) fn pick_one<'a>(items: &'a Vec<String>) -> (r: Option<&'a String>)
    ensures
        r is None <==> items@.len() == 0,
        r matches Some(item) ==> exists|i: int| 0 <= i < items@.len() && items@[i] == *item,
{
    rand::seq::SliceRandom::choose(items.as_slice(), &mut rand::thread_rng())
}

} // verus!
