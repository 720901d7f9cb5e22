//! Fresh record identifiers.
use vstd::prelude::*;
use crate::text::{chars_of, str_eq, string_of};

verus! {

/// Relies on `uuid::Uuid::new_v4` and its `Display` form (the hyphenated lower-case
/// layout, `Hyphenated::LENGTH` characters): a random identifier of 36 characters.
#[verifier::external_body]
pub fn new_id() -> (r: String)
    ensures
        r@.len() == 36,
{
    uuid::Uuid::new_v4().to_string()
}

/// An identifier that none of `taken` holds: a new random one, or, should it clash,
/// that one lengthened with zeros past the longest taken identifier.
pub fn fresh_id(taken: &Vec<String>) -> (r: String)
    ensures
        forall|i: int| 0 <= i < taken@.len() ==> (#[trigger] taken@[i])@ != r@,
{
    let id = new_id();
    let mut clash = false;
    let mut longest: usize = 0;
    let mut i: usize = 0;
    while i < taken.len()
        invariant
            i <= taken@.len(),
            !clash ==> forall|j: int| 0 <= j < i ==> (#[trigger] taken@[j])@ != id@,
            forall|j: int| 0 <= j < i ==> (#[trigger] taken@[j])@.len() <= longest,
        decreases taken@.len() - i,
    {
        if str_eq(taken[i].as_str(), id.as_str()) {
            clash = true;
        }
        let n = chars_of(taken[i].as_str()).len();
        if n > longest {
            longest = n;
        }
        i = i + 1;
    }
    if !clash {
        return id;
    }
    let mut v = chars_of(id.as_str());
    while v.len() <= longest
        invariant
            forall|j: int| 0 <= j < taken@.len() ==> (#[trigger] taken@[j])@.len() <= longest,
        decreases longest + 1 - v@.len(),
    {
        v.push('0');
    }
    string_of(v.as_slice())
}

} // verus!
