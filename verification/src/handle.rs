//! The raw account handle as the host presents it, and the overflow-checked
//! balance (lamport) primitives.
//!
//! A handle is host-owned: the core borrows it for one instruction. Its
//! balance moves only through the checked primitives here, which fail with
//! [`Error::Overflow`] or [`Error::Underflow`] rather than wrapping, and a
//! failed transfer leaves both sides untouched.

use vstd::prelude::*;

use crate::error::Error;

verus! {

/// One account reference in an outgoing instruction: its address and the
/// signer and writable flags the callee will see.
#[derive(Debug, Clone, Copy, PartialEq, Eq)]
pub struct AccountMeta {
    /// The account's address.
    pub key: [u8; 32],
    /// Whether the account is presented as a signer.
    pub is_signer: bool,
    /// Whether the account is presented as writable.
    pub is_writable: bool,
}

/// One raw account as handed in by the host: an identity, an owning
/// authority, a balance locked inside the account, a mutable byte buffer,
/// and the permission flags of this instruction.
pub struct AccountHandle {
    /// The account's address.
    pub key: [u8; 32],
    /// The authority (program) that owns the account's buffer.
    pub owner: [u8; 32],
    /// The balance locked inside the account.
    pub lamports: u64,
    /// The serialized account state; leading bytes are the type tag.
    pub data: Vec<u8>,
    /// Whether the account signed this instruction.
    pub is_signer: bool,
    /// Whether this instruction may mutate the account.
    pub is_writable: bool,
    /// Whether the account holds an executable program.
    pub is_executable: bool,
}

impl AccountHandle {
    /// The address of this account.
    pub fn key(&self) -> (r: [u8; 32])
        ensures
            r == self.key,
    {
        self.key
    }

    /// The instruction-building view of this account. `is_signer`, when
    /// given, overrides the handle's own signer flag: a derived address that
    /// signs a relayed call cannot be marked as a signer by the original
    /// caller, so the relaying program marks it here.
    pub fn to_account_meta(&self, is_signer: Option<bool>) -> (r: AccountMeta)
        ensures
            r.key == self.key,
            r.is_writable == self.is_writable,
            r.is_signer == (match is_signer {
                Some(b) => b,
                None => self.is_signer,
            }),
    {
        let signer = match is_signer {
            Some(b) => b,
            None => self.is_signer,
        };
        AccountMeta { key: self.key, is_signer: signer, is_writable: self.is_writable }
    }

    /// The balance currently locked inside this account.
    pub fn get_lamports(&self) -> (r: u64)
        ensures
            r == self.lamports,
    {
        self.lamports
    }

    /// Checked deposit: on success only the balance changes, by exactly
    /// `amount`; an addition that would not fit in 64 bits is rejected and
    /// changes nothing.
    pub fn add_lamports(&mut self, amount: u64) -> (r: Result<(), Error>)
        ensures
            old(self).lamports + amount <= u64::MAX ==> (
                r == Ok::<(), Error>(())
                && *final(self) == (AccountHandle {
                    lamports: (old(self).lamports + amount) as u64,
                    ..*old(self)
                })
            ),
            old(self).lamports + amount > u64::MAX ==> (
                r == Err::<(), Error>(Error::Overflow) && *final(self) == *old(self)
            ),
    {
        match self.lamports.checked_add(amount) {
            Some(v) => {
                self.lamports = v;
                Ok(())
            }
            None => Err(Error::Overflow),
        }
    }

    /// Checked withdrawal: on success only the balance changes, by exactly
    /// `amount`; a subtraction below zero is rejected and changes nothing.
    pub fn sub_lamports(&mut self, amount: u64) -> (r: Result<(), Error>)
        ensures
            amount <= old(self).lamports ==> (
                r == Ok::<(), Error>(())
                && *final(self) == (AccountHandle {
                    lamports: (old(self).lamports - amount) as u64,
                    ..*old(self)
                })
            ),
            amount > old(self).lamports ==> (
                r == Err::<(), Error>(Error::Underflow) && *final(self) == *old(self)
            ),
    {
        match self.lamports.checked_sub(amount) {
            Some(v) => {
                self.lamports = v;
                Ok(())
            }
            None => Err(Error::Underflow),
        }
    }
}

/// Move `amount` from `from` to `to`. On success `from` decreases and `to`
/// increases by exactly `amount`, so the total over the pair is conserved; on
/// any failure both accounts are left exactly as they were.
pub fn transfer_lamports(from: &mut AccountHandle, to: &mut AccountHandle, amount: u64) -> (r:
    Result<(), Error>)
    ensures
        amount <= old(from).lamports && old(to).lamports + amount <= u64::MAX ==> (
            r == Ok::<(), Error>(())
            && *final(from) == (AccountHandle {
                lamports: (old(from).lamports - amount) as u64,
                ..*old(from)
            })
            && *final(to) == (AccountHandle {
                lamports: (old(to).lamports + amount) as u64,
                ..*old(to)
            })
        ),
        amount > old(from).lamports ==> (
            r == Err::<(), Error>(Error::Underflow)
            && *final(from) == *old(from)
            && *final(to) == *old(to)
        ),
        amount <= old(from).lamports && old(to).lamports + amount > u64::MAX ==> (
            r == Err::<(), Error>(Error::Overflow)
            && *final(from) == *old(from)
            && *final(to) == *old(to)
        ),
        r is Ok ==> final(from).lamports + final(to).lamports == old(from).lamports + old(
            to,
        ).lamports,
{
    if amount > from.get_lamports() {
        return Err(Error::Underflow);
    }
    if amount > u64::MAX - to.get_lamports() {
        return Err(Error::Overflow);
    }
    let _ = from.sub_lamports(amount);
    let _ = to.add_lamports(amount);
    Ok(())
}

/// The total balance locked across a list of handles.
pub open spec fn spec_total_lamports(handles: Seq<AccountHandle>) -> int
    decreases handles.len(),
{
    if handles.len() == 0 {
        0
    } else {
        handles[0].lamports + spec_total_lamports(handles.drop_first())
    }
}

/// Two handle lists that agree balance-for-balance lock the same total.
pub proof fn lemma_total_lamports_pointwise(a: Seq<AccountHandle>, b: Seq<AccountHandle>)
    requires
        a.len() == b.len(),
        forall|i: int| 0 <= i < a.len() ==> a[i].lamports == b[i].lamports,
    ensures
        spec_total_lamports(a) == spec_total_lamports(b),
    decreases a.len(),
{
    if a.len() > 0 {
        assert(forall|i: int|
            0 <= i < a.drop_first().len() ==> #[trigger] a.drop_first()[i].lamports
                == b.drop_first()[i].lamports);
        lemma_total_lamports_pointwise(a.drop_first(), b.drop_first());
    }
}

/// Value-transfer conservation: a withdrawal of `amount` on one side matched
/// by a deposit of `amount` on the other leaves the total over the pair
/// unchanged.
pub proof fn lemma_transfer_conservation(
    from_before: u64,
    to_before: u64,
    from_after: u64,
    to_after: u64,
    amount: u64,
)
    requires
        amount <= from_before,
        to_before + amount <= u64::MAX,
        from_after == from_before - amount,
        to_after == to_before + amount,
    ensures
        from_after + to_after == from_before + to_before,
{
}

} // verus!
