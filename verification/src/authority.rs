//! The authority checker: pure membership checks of an account's declared
//! owner, and of a program's own identity, against an expected set.
//!
//! These predicates are the primary defense against confused-deputy attacks,
//! where a caller substitutes a resource from an unrelated authority. A set
//! of more than one expected identity supports migration between program
//! identities.

use vstd::prelude::*;

use crate::error::Error;

verus! {

/// `key` occurs in `set`.
pub open spec fn key_in(set: Seq<[u8; 32]>, key: [u8; 32]) -> bool {
    exists|i: int| 0 <= i < set.len() && set[i]@ == key@
}

/// Byte-for-byte equality of two 32-byte addresses.
pub fn address_eq(a: &[u8; 32], b: &[u8; 32]) -> (r: bool)
    ensures
        r == (a@ == b@),
{
    let mut i: usize = 0;
    while i < 32
        invariant
            i <= 32,
            forall|j: int| 0 <= j < i ==> a@[j] == b@[j],
        decreases 32 - i,
    {
        if a[i] != b[i] {
            return false;
        }
        i += 1;
    }
    proof {
        assert(a@ =~= b@);
    }
    true
}

/// Check an account's declared owning authority against the expected set:
/// succeeds iff the owner is in the set, and otherwise names the offending
/// authority in the error.
pub fn check_owner(owner: &[u8; 32], expected: &Vec<[u8; 32]>) -> (r: Result<(), Error>)
    ensures
        key_in(expected@, *owner) ==> r == Ok::<(), Error>(()),
        !key_in(expected@, *owner) ==> r == Err::<(), Error>(Error::Unauthorized(*owner)),
{
    let mut i: usize = 0;
    while i < expected.len()
        invariant
            i <= expected@.len(),
            forall|j: int| 0 <= j < i ==> expected@[j]@ != owner@,
        decreases expected@.len() - i,
    {
        if address_eq(&expected[i], owner) {
            return Ok(());
        }
        i += 1;
    }
    Err(Error::Unauthorized(*owner))
}

/// Check the executing program's own identity against the expected set:
/// succeeds iff the identity is in the set, and otherwise names the offending
/// identity in the error.
pub fn check_id(id: &[u8; 32], expected: &Vec<[u8; 32]>) -> (r: Result<(), Error>)
    ensures
        key_in(expected@, *id) ==> r == Ok::<(), Error>(()),
        !key_in(expected@, *id) ==> r == Err::<(), Error>(Error::Unauthorized(*id)),
{
    let mut i: usize = 0;
    while i < expected.len()
        invariant
            i <= expected@.len(),
            forall|j: int| 0 <= j < i ==> expected@[j]@ != id@,
        decreases expected@.len() - i,
    {
        if address_eq(&expected[i], id) {
            return Ok(());
        }
        i += 1;
    }
    Err(Error::Unauthorized(*id))
}

} // verus!
