//! A typed-resource validation core for account-based programs.
//!
//! The host hands an instruction a flat list of raw account handles (identity,
//! owner, balance, byte buffer, permission flags) together with a raw
//! instruction payload. Before any application logic runs, this library binds
//! each handle to a declared, typed role and enforces the security invariants
//! of that role: the type tag (discriminator) at the head of the buffer, the
//! owning authority, the derivation of authority-less (program-derived)
//! addresses, and the signer/writable permission flags. It also provides
//! overflow-checked balance transfer primitives and the close procedure that
//! retires an account and poisons it against reuse.

use vstd::prelude::*;

pub mod authority;
pub mod binder;
pub mod discriminator;
pub mod error;
pub mod handle;
pub mod instruction;
pub mod lifecycle;
pub mod pda;

verus! {

/// The maximum of two sizes, as used when computing the space an enum-shaped
/// account needs: the space of the largest variant.
pub fn max(a: usize, b: usize) -> (r: usize)
    ensures
        r == if a >= b { a as int } else { b as int },
{
    if a >= b {
        a
    } else {
        b
    }
}

} // verus!
