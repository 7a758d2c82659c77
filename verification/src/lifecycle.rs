//! The lifecycle manager: persisting a typed account at end of instruction,
//! and closing one for good.
//!
//! Closing moves the account's whole remaining balance to a destination,
//! zero-fills its buffer, and writes the reserved closed marker over the
//! leading bytes. The marker is what the binder checks first on every later
//! binding attempt, so a closed account cannot be resurrected by re-depositing
//! value into it before the host garbage-collects it.

use vstd::prelude::*;

use crate::binder::{spec_field_result, FieldSpec};
use crate::discriminator::{spec_closed, CLOSED_MARKER_BYTE, CLOSED_MARKER_LEN};
use crate::error::Error;
use crate::handle::AccountHandle;

verus! {

/// The buffer a closed account is left with: the closed marker over the
/// leading bytes, zeroes to the old length (grown to marker length if the
/// buffer was shorter, so the marker always fits).
pub open spec fn spec_closed_data(len: nat) -> Seq<u8> {
    Seq::new(
        if len >= CLOSED_MARKER_LEN {
            len
        } else {
            CLOSED_MARKER_LEN as nat
        },
        |i: int|
            if i < CLOSED_MARKER_LEN {
                CLOSED_MARKER_BYTE
            } else {
                0u8
            },
    )
}

/// Persist the typed account back into its raw buffer at the end of the
/// instruction. The typed views of this core index the raw buffer directly,
/// so the state is already in place and there is nothing left to move.
pub fn exit(handle: &AccountHandle) -> (r: Result<(), Error>)
    ensures
        r == Ok::<(), Error>(()),
{
    Ok(())
}

/// Destroy `target`: move its whole remaining balance to `destination`,
/// zero-fill its buffer and write the closed marker, so that any later
/// binding attempt within this execution rejects it. A destination balance
/// that cannot take the amount fails the close and changes nothing.
pub fn close(target: &mut AccountHandle, destination: &mut AccountHandle) -> (r: Result<
    (),
    Error,
>)
    ensures
        old(target).lamports + old(destination).lamports <= u64::MAX ==> (
        r == Ok::<(), Error>(())
            && *final(destination) == (AccountHandle {
            lamports: (old(destination).lamports + old(target).lamports) as u64,
            ..*old(destination)
        })
            && final(target).lamports == 0
            && final(target).data@ == spec_closed_data(old(target).data@.len())
            && spec_closed(final(target).data@)
            && final(target).key == old(target).key
            && final(target).owner == old(target).owner
            && final(target).is_signer == old(target).is_signer
            && final(target).is_writable == old(target).is_writable
            && final(target).is_executable == old(target).is_executable
            && final(target).lamports + final(destination).lamports == old(target).lamports + old(
            destination,
        ).lamports),
        old(target).lamports + old(destination).lamports > u64::MAX ==> (
        r == Err::<(), Error>(Error::Overflow)
            && *final(target) == *old(target)
            && *final(destination) == *old(destination)),
{
    let amount = target.get_lamports();
    if amount > u64::MAX - destination.get_lamports() {
        return Err(Error::Overflow);
    }
    let _ = destination.add_lamports(amount);
    let _ = target.sub_lamports(amount);
    let old_len = target.data.len();
    let new_len = if old_len >= CLOSED_MARKER_LEN {
        old_len
    } else {
        CLOSED_MARKER_LEN
    };
    let mut buf: Vec<u8> = Vec::new();
    let mut i: usize = 0;
    while i < new_len
        invariant
            i <= new_len,
            buf@.len() == i,
            new_len as nat == spec_closed_data(old(target).data@.len()).len(),
            forall|q: int|
                0 <= q < i ==> buf@[q] == spec_closed_data(old(target).data@.len())[q],
        decreases new_len - i,
    {
        if i < CLOSED_MARKER_LEN {
            buf.push(CLOSED_MARKER_BYTE);
        } else {
            buf.push(0);
        }
        i += 1;
    }
    proof {
        assert(buf@ =~= spec_closed_data(old(target).data@.len()));
    }
    target.data = buf;
    Ok(())
}

/// Close-then-rebind is caught: a closed account offered to any field that is
/// not itself initializing the account is rejected as a closed resource,
/// whatever the field's other constraints say.
pub proof fn lemma_closed_account_rejected(program_id: Seq<u8>, f: FieldSpec, h: AccountHandle)
    requires
        spec_closed(h.data@),
        !f.init,
    ensures
        spec_field_result(program_id, f, h) == Err::<Option<u8>, Error>(Error::ClosedResource),
{
}

/// A closed account does not pass for uninitialized either: a field that
/// would create the account afresh (and expects a non-empty type tag to
/// write) rejects the closed buffer as a type mismatch, until the host itself
/// zeroes or reclaims the account — which is outside this core's control.
pub proof fn lemma_closed_account_rejected_by_init(
    program_id: Seq<u8>,
    f: FieldSpec,
    h: AccountHandle,
)
    requires
        spec_closed(h.data@),
        f.init,
        f.discriminator@.len() >= 1,
    ensures
        spec_field_result(program_id, f, h) == Err::<Option<u8>, Error>(Error::TypeMismatch),
{
    assert(h.data@[0] == CLOSED_MARKER_BYTE);
    assert(!crate::discriminator::spec_uninitialized(h.data@, f.discriminator@.len() as int));
}

} // verus!
