//! The discriminator registry: checking the byte type tag at the head of an
//! account buffer.
//!
//! Every account type carries a fixed tag, laid down when its schema is
//! defined. A buffer whose leading tag bytes are all zero is uninitialized
//! and acceptable only to a field that is itself initializing the account; a
//! buffer whose leading bytes are the reserved closed marker belongs to an
//! account that was destroyed earlier in this instruction sequence and must
//! never be bound again.

use vstd::prelude::*;

use crate::error::Error;

verus! {

/// Length in bytes of the reserved closed-account marker.
pub const CLOSED_MARKER_LEN: usize = 8;

/// The byte the closed-account marker repeats.
pub const CLOSED_MARKER_BYTE: u8 = 0xff;

/// `prefix` occupies the leading bytes of `buf`.
pub open spec fn starts_with(buf: Seq<u8>, prefix: Seq<u8>) -> bool {
    prefix.len() <= buf.len() && buf.subrange(0, prefix.len() as int) == prefix
}

/// The outcome of holding a buffer against an expected type tag: too short,
/// a tag for some other type, or a match.
pub open spec fn spec_check_discriminator(buf: Seq<u8>, disc: Seq<u8>) -> Result<(), Error> {
    if buf.len() < disc.len() {
        Err(Error::TruncatedData)
    } else if buf.subrange(0, disc.len() as int) == disc {
        Ok(())
    } else {
        Err(Error::TypeMismatch)
    }
}

/// The first `n` tag bytes of `buf` (as far as the buffer reaches) are zero.
pub open spec fn spec_uninitialized(buf: Seq<u8>, n: int) -> bool {
    forall|i: int| 0 <= i < n && i < buf.len() ==> buf[i] == 0u8
}

/// `buf` carries the closed-account marker.
pub open spec fn spec_closed(buf: Seq<u8>) -> bool {
    buf.len() >= CLOSED_MARKER_LEN && (forall|i: int|
        0 <= i < CLOSED_MARKER_LEN ==> buf[i] == CLOSED_MARKER_BYTE)
}

/// Compare the buffer's leading bytes against the expected discriminator.
pub fn check_discriminator(buf: &[u8], disc: &[u8]) -> (r: Result<(), Error>)
    ensures
        r == spec_check_discriminator(buf@, disc@),
{
    if buf.len() < disc.len() {
        return Err(Error::TruncatedData);
    }
    let mut i: usize = 0;
    while i < disc.len()
        invariant
            i <= disc@.len() <= buf@.len(),
            forall|j: int| 0 <= j < i ==> buf@[j] == disc@[j],
        decreases disc@.len() - i,
    {
        if buf[i] != disc[i] {
            proof {
                assert(buf@.subrange(0, disc@.len() as int)[i as int] == buf@[i as int]);
            }
            return Err(Error::TypeMismatch);
        }
        i += 1;
    }
    proof {
        assert(buf@.subrange(0, disc@.len() as int) =~= disc@);
    }
    Ok(())
}

/// True iff the leading `n` tag bytes of the buffer (as far as it reaches)
/// are all zero: the create-path check, valid exactly once, at creation.
pub fn check_uninitialized(buf: &[u8], n: usize) -> (r: bool)
    ensures
        r == spec_uninitialized(buf@, n as int),
{
    let mut i: usize = 0;
    while i < n
        invariant
            i <= n,
            forall|j: int| 0 <= j < i && j < buf@.len() ==> buf@[j] == 0u8,
        decreases n - i,
    {
        if i >= buf.len() {
            return true;
        }
        if buf[i] != 0 {
            return false;
        }
        i += 1;
    }
    true
}

/// True iff the buffer carries the closed-account marker.
pub fn is_closed(buf: &[u8]) -> (r: bool)
    ensures
        r == spec_closed(buf@),
{
    if buf.len() < CLOSED_MARKER_LEN {
        return false;
    }
    let mut i: usize = 0;
    while i < CLOSED_MARKER_LEN
        invariant
            i <= CLOSED_MARKER_LEN <= buf@.len(),
            forall|j: int| 0 <= j < i ==> buf@[j] == CLOSED_MARKER_BYTE,
        decreases CLOSED_MARKER_LEN - i,
    {
        if buf[i] != CLOSED_MARKER_BYTE {
            return false;
        }
        i += 1;
    }
    true
}

/// Distinct type tags cannot be confused: a buffer tagged for one type is
/// rejected as a type mismatch by a field that expects a different tag of the
/// same length. (Tags where one is a proper prefix of the other are ambiguous
/// by construction and excluded here.)
pub proof fn lemma_distinct_tags_rejected(buf: Seq<u8>, expected: Seq<u8>, actual: Seq<u8>)
    requires
        starts_with(buf, actual),
        expected.len() == actual.len(),
        expected != actual,
    ensures
        spec_check_discriminator(buf, expected) == Err::<(), Error>(Error::TypeMismatch),
{
    assert(buf.subrange(0, actual.len() as int) == actual);
}

} // verus!
