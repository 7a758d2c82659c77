//! The tagged errors that the validation core reports.
//!
//! Every check is a security predicate: the first failure aborts the whole
//! instruction, so no error is recoverable mid-instruction. Errors that blame
//! a particular account carry the offending 32-byte address.

use vstd::prelude::*;

verus! {

/// Why a binding, transfer, or close was rejected.
#[derive(Debug, Clone, Copy, PartialEq, Eq)]
pub enum Error {
    /// The buffer's leading bytes do not match the expected discriminator.
    TypeMismatch,
    /// The account's declared owner (or the program's own identity) is not in
    /// the expected set; carries the offending address.
    Unauthorized([u8; 32]),
    /// The account's address is not the one derived from the declared seeds.
    SeedMismatch,
    /// A required signer or writable flag is missing.
    PermissionDenied,
    /// A checked balance addition would exceed the representable maximum.
    Overflow,
    /// A checked balance subtraction would go below zero.
    Underflow,
    /// The same raw handle was offered for a second declared field; carries
    /// the address that was already consumed.
    AlreadyConsumed([u8; 32]),
    /// The account was closed earlier in this instruction sequence and may
    /// not be bound again.
    ClosedResource,
    /// The buffer or payload is too short to hold what was declared.
    TruncatedData,
}

} // verus!
