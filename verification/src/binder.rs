//! The typed resource binder: one instance per instruction.
//!
//! The binder consumes the host's raw handle list left to right, one handle
//! per declared field, and holds each handle against the field's declared
//! constraints: type tag (or the uninitialized check, for a field that is
//! itself creating the account), owning authority, derived address, and
//! signer/writable permissions. A handle, once consumed, is unavailable to
//! every later field, so one raw handle can never serve two typed roles. The
//! first failing field rejects the whole instruction and no partial mutation
//! survives; only a fully successful pass applies the staged buffer updates
//! and returns the typed bundle.

use vstd::prelude::*;

use crate::authority::{address_eq, check_owner, key_in};
use crate::discriminator::{
    check_discriminator, check_uninitialized, is_closed, spec_check_discriminator, spec_closed,
    spec_uninitialized,
};
use crate::error::Error;
use crate::handle::AccountHandle;
use crate::instruction::{parse_instruction, spec_parse_instruction};
use crate::pda::{find_bump, seeds_view, spec_search_bump, spec_verify_derived, verify_derived};

verus! {

/// A derived-address constraint on one field: the seed material and either
/// the bump nonce to verify, or the instruction to search for the canonical
/// one.
pub struct PdaSpec {
    /// Seed byte-strings, without the trailing bump byte.
    pub seeds: Vec<Vec<u8>>,
    /// The nonce to verify, or `None` to search from 255 downward.
    pub bump: Option<u8>,
}

/// The declared constraints of one field of a typed resource bundle: a row of
/// the static constraint table the binder interprets.
pub struct FieldSpec {
    /// The type tag expected at the head of the account's buffer (written,
    /// not checked, when `init` is set).
    pub discriminator: Vec<u8>,
    /// The set of authorities allowed to own the account.
    pub owners: Vec<[u8; 32]>,
    /// The field creates the account: the buffer must be uninitialized and
    /// receives the type tag.
    pub init: bool,
    /// Space the buffer must provide when the field initializes the account.
    pub space: Option<usize>,
    /// The account must have signed the instruction.
    pub require_signer: bool,
    /// The account must be writable in this instruction.
    pub require_writable: bool,
    /// The account's address must be derived from this seed material.
    pub pda: Option<PdaSpec>,
}

/// The declared shape of one instruction: its payload type tag and the
/// constraint rows of the accounts it consumes, in consumption order.
pub struct InstructionSpec {
    /// The type tag that opens the instruction payload.
    pub discriminator: Vec<u8>,
    /// One row per account, in the order the caller must supply them.
    pub fields: Vec<FieldSpec>,
}

/// The typed bundle a successful pass returns: for each field the index of
/// the raw handle it was bound to (a view into the host-owned list, never an
/// aliasing copy), the bump cache, the identities whose buffer length
/// changed, and the instruction's argument bytes.
#[derive(Debug, PartialEq, Eq)]
pub struct Bound {
    /// For each field, the index of the handle bound to it.
    pub field_handles: Vec<usize>,
    /// For each field, the derivation nonce its constraint produced, if any.
    pub bumps: Vec<Option<u8>>,
    /// Identities whose buffer length changed during binding, in field order.
    pub reallocs: Vec<[u8; 32]>,
    /// The payload bytes that follow the instruction's type tag.
    pub args: Vec<u8>,
}

/// The buffer length an initializing field settles on: the declared space,
/// or the present length where that is already larger.
pub open spec fn spec_init_len(f: FieldSpec, h: AccountHandle) -> int {
    let space = match f.space {
        Some(n) => n as int,
        None => 0,
    };
    if h.data@.len() >= space {
        h.data@.len() as int
    } else {
        space
    }
}

/// The buffer an initializing field leaves behind: the type tag over the
/// leading bytes, the old bytes after it, zeroes in any grown region.
pub open spec fn spec_init_data(f: FieldSpec, h: AccountHandle) -> Seq<u8> {
    Seq::new(
        spec_init_len(f, h) as nat,
        |i: int|
            if i < f.discriminator@.len() {
                f.discriminator@[i]
            } else if i < h.data@.len() {
                h.data@[i]
            } else {
                0u8
            },
    )
}

/// The derived-address constraint of one field, checked against the handle's
/// address: a supplied bump is verified, an absent one is searched for.
pub open spec fn spec_field_pda(program_id: Seq<u8>, f: FieldSpec, h: AccountHandle) -> Result<
    Option<u8>,
    Error,
> {
    match f.pda {
        None => Ok(None),
        Some(p) => match p.bump {
            Some(b) => match spec_verify_derived(h.key@, program_id, seeds_view(p.seeds@), b) {
                Ok(u) => Ok(Some(b)),
                Err(e) => Err(e),
            },
            None => match spec_search_bump(seeds_view(p.seeds@), program_id, 255) {
                Some((b, addr)) => if addr == h.key@ {
                    Ok(Some(b))
                } else {
                    Err(Error::SeedMismatch)
                },
                None => Err(Error::SeedMismatch),
            },
        },
    }
}

/// The owner, derived-address and permission checks shared by initializing
/// and non-initializing fields, in that order.
pub open spec fn spec_field_checks(program_id: Seq<u8>, f: FieldSpec, h: AccountHandle) -> Result<
    Option<u8>,
    Error,
> {
    if !key_in(f.owners@, h.owner) {
        Err(Error::Unauthorized(h.owner))
    } else {
        match spec_field_pda(program_id, f, h) {
            Err(e) => Err(e),
            Ok(b) => {
                if f.require_signer && !h.is_signer {
                    Err(Error::PermissionDenied)
                } else if f.require_writable && !h.is_writable {
                    Err(Error::PermissionDenied)
                } else {
                    Ok(b)
                }
            }
        }
    }
}

/// The outcome of holding one handle against one field: the bump its
/// derived-address constraint produced, or the first failing check.
pub open spec fn spec_field_result(program_id: Seq<u8>, f: FieldSpec, h: AccountHandle) -> Result<
    Option<u8>,
    Error,
> {
    if f.init {
        if !spec_uninitialized(h.data@, f.discriminator@.len() as int) {
            Err(Error::TypeMismatch)
        } else if spec_init_len(f, h) < f.discriminator@.len() {
            Err(Error::TruncatedData)
        } else {
            spec_field_checks(program_id, f, h)
        }
    } else {
        if spec_closed(h.data@) {
            Err(Error::ClosedResource)
        } else {
            match spec_check_discriminator(h.data@, f.discriminator@) {
                Ok(u) => spec_field_checks(program_id, f, h),
                Err(e) => Err(e),
            }
        }
    }
}

/// The handle at position `i` repeats the key of a handle an earlier field
/// already consumed.
pub open spec fn spec_dup_at(handles: Seq<AccountHandle>, i: int) -> bool {
    exists|j: int| 0 <= j < i && handles[j].key@ == handles[i].key@
}

/// Walking the declared fields from position `i`: the first failing check
/// decides the outcome, and a missing or repeated handle fails before the
/// field's own checks run.
pub open spec fn spec_bind_from(
    program_id: Seq<u8>,
    fields: Seq<FieldSpec>,
    handles: Seq<AccountHandle>,
    i: int,
) -> Result<(), Error>
    decreases fields.len() - i,
{
    if i >= fields.len() {
        Ok(())
    } else if i >= handles.len() {
        Err(Error::TruncatedData)
    } else if spec_dup_at(handles, i) {
        Err(Error::AlreadyConsumed(handles[i].key))
    } else {
        match spec_field_result(program_id, fields[i], handles[i]) {
            Ok(b) => spec_bind_from(program_id, fields, handles, i + 1),
            Err(e) => Err(e),
        }
    }
}

/// The whole pass: check the payload's type tag, then bind every field.
pub open spec fn spec_try_result(
    program_id: Seq<u8>,
    ixs: InstructionSpec,
    handles: Seq<AccountHandle>,
    ix_data: Seq<u8>,
) -> Result<(), Error> {
    match spec_parse_instruction(ix_data, ixs.discriminator@) {
        Err(e) => Err(e),
        Ok(u) => spec_bind_from(program_id, ixs.fields@, handles, 0),
    }
}

/// The identities of the initializing fields whose buffer length changes, in
/// field order, from position `i` on.
pub open spec fn spec_realloc_keys(
    fields: Seq<FieldSpec>,
    handles: Seq<AccountHandle>,
    i: int,
) -> Seq<[u8; 32]>
    decreases fields.len() - i,
{
    if i >= fields.len() || i >= handles.len() {
        Seq::empty()
    } else {
        let rest = spec_realloc_keys(fields, handles, i + 1);
        if fields[i].init && spec_init_len(fields[i], handles[i]) != handles[i].data@.len() {
            seq![handles[i].key] + rest
        } else {
            rest
        }
    }
}

/// How a successfully bound handle relates to the raw one: everything but the
/// buffer is untouched, and the buffer changed only for an initializing
/// field, which wrote its tag.
pub open spec fn spec_handle_bound(f: FieldSpec, h_old: AccountHandle, h_new: AccountHandle) -> bool {
    &&& h_new.key == h_old.key
    &&& h_new.owner == h_old.owner
    &&& h_new.lamports == h_old.lamports
    &&& h_new.is_signer == h_old.is_signer
    &&& h_new.is_writable == h_old.is_writable
    &&& h_new.is_executable == h_old.is_executable
    &&& h_new.data@ == (if f.init {
        spec_init_data(f, h_old)
    } else {
        h_old.data@
    })
}

/// A staged buffer update is right for its field: an initializing field
/// stages exactly the initialized image, any other field stages nothing.
pub open spec fn spec_staged_ok(f: FieldSpec, h: AccountHandle, s: Option<Vec<u8>>) -> bool {
    if f.init {
        s matches Some(d) && d@ == spec_init_data(f, h)
    } else {
        s is None
    }
}

/// Every check before field `i` passes: a handle is present, is no repeat,
/// and satisfies its field.
pub open spec fn spec_steps_ok_before(
    program_id: Seq<u8>,
    fields: Seq<FieldSpec>,
    handles: Seq<AccountHandle>,
    i: int,
) -> bool {
    forall|k: int|
        0 <= k < i ==> k < handles.len() && !spec_dup_at(handles, k) && (#[trigger] spec_field_result(
            program_id,
            fields[k],
            handles[k],
        )) is Ok
}

/// While every step before `i` passes, the outcome of the whole walk is the
/// outcome of the walk that starts at `i`.
pub proof fn lemma_bind_reaches(
    program_id: Seq<u8>,
    fields: Seq<FieldSpec>,
    handles: Seq<AccountHandle>,
    i: int,
)
    requires
        0 <= i <= fields.len(),
        spec_steps_ok_before(program_id, fields, handles, i),
    ensures
        spec_bind_from(program_id, fields, handles, 0) == spec_bind_from(
            program_id,
            fields,
            handles,
            i,
        ),
    decreases i,
{
    if i > 0 {
        lemma_bind_reaches(program_id, fields, handles, i - 1);
        assert(spec_bind_from(program_id, fields, handles, i - 1) == spec_bind_from(
            program_id,
            fields,
            handles,
            i,
        ));
    }
}

/// Double consumption is caught: if binding reaches field `i` and the handle
/// offered there repeats a key an earlier field consumed, the whole binding
/// fails with `AlreadyConsumed` naming that key.
pub proof fn lemma_double_consumption(
    program_id: Seq<u8>,
    fields: Seq<FieldSpec>,
    handles: Seq<AccountHandle>,
    i: int,
    j: int,
)
    requires
        0 <= j < i < fields.len(),
        i < handles.len(),
        handles[j].key@ == handles[i].key@,
        spec_steps_ok_before(program_id, fields, handles, i),
    ensures
        spec_bind_from(program_id, fields, handles, 0) == Err::<(), Error>(
            Error::AlreadyConsumed(handles[i].key),
        ),
{
    lemma_bind_reaches(program_id, fields, handles, i);
    assert(spec_dup_at(handles, i));
}

/// Type confusion is caught at the binder: a field expecting one type tag
/// rejects a handle whose buffer carries a different tag of the same length
/// as a type mismatch, whatever the field's other constraints say. (A buffer
/// carrying the closed marker is reported as a closed resource first.)
pub proof fn lemma_field_rejects_foreign_tag(
    program_id: Seq<u8>,
    f: FieldSpec,
    h: AccountHandle,
    actual: Seq<u8>,
)
    requires
        !f.init,
        !spec_closed(h.data@),
        crate::discriminator::starts_with(h.data@, actual),
        f.discriminator@.len() == actual.len(),
        f.discriminator@ != actual,
    ensures
        spec_field_result(program_id, f, h) == Err::<Option<u8>, Error>(Error::TypeMismatch),
{
    crate::discriminator::lemma_distinct_tags_rejected(h.data@, f.discriminator@, actual);
}

/// Binding is value-neutral: a successful pass rewrites buffers of
/// initializing fields but changes no balance, so the total locked across the
/// instruction's handle list when binding starts equals the total when it
/// ends.
pub proof fn lemma_binding_conserves_value(
    fields: Seq<FieldSpec>,
    before: Seq<AccountHandle>,
    after: Seq<AccountHandle>,
)
    requires
        before.len() == after.len(),
        fields.len() <= before.len(),
        forall|i: int|
            0 <= i < fields.len() ==> spec_handle_bound(fields[i], before[i], #[trigger] after[i]),
        forall|i: int| fields.len() <= i < before.len() ==> #[trigger] after[i] == before[i],
    ensures
        crate::handle::spec_total_lamports(before) == crate::handle::spec_total_lamports(after),
{
    assert(forall|i: int| 0 <= i < before.len() ==> before[i].lamports == #[trigger] after[i].lamports);
    crate::handle::lemma_total_lamports_pointwise(before, after);
}

/// Bind the host's raw handles to the instruction's declared fields.
///
/// On success the handle list holds the staged buffer updates of the
/// initializing fields and nothing else has moved; the bundle names, per
/// field, the handle index it was bound to and the bump its derivation
/// produced, plus the resized identities and the payload's argument bytes.
/// On any failure the handle list is exactly as it was: binding is atomic,
/// all or nothing.
#[verifier::loop_isolation(false)]
pub fn try_accounts(
    program_id: &[u8; 32],
    handles: &mut Vec<AccountHandle>,
    ix_data: &[u8],
    ixs: &InstructionSpec,
) -> (r: Result<Bound, Error>)
    ensures
        (match r {
            Ok(bound) => {
                &&& spec_try_result(program_id@, *ixs, old(handles)@, ix_data@) == Ok::<
                    (),
                    Error,
                >(())
                &&& bound.args@ == ix_data@.skip(ixs.discriminator@.len() as int)
                &&& old(handles)@.len() >= ixs.fields@.len()
                &&& bound.field_handles@.len() == ixs.fields@.len()
                &&& (forall|i: int|
                    0 <= i < ixs.fields@.len() ==> #[trigger] bound.field_handles@[i] == i)
                &&& bound.bumps@.len() == ixs.fields@.len()
                &&& (forall|i: int|
                    0 <= i < ixs.fields@.len() ==> spec_field_result(
                        program_id@,
                        ixs.fields@[i],
                        old(handles)@[i],
                    ) == Ok::<Option<u8>, Error>(#[trigger] bound.bumps@[i]))
                &&& bound.reallocs@ == spec_realloc_keys(ixs.fields@, old(handles)@, 0)
                &&& final(handles)@.len() == old(handles)@.len()
                &&& (forall|i: int|
                    0 <= i < ixs.fields@.len() ==> spec_handle_bound(
                        ixs.fields@[i],
                        old(handles)@[i],
                        #[trigger] final(handles)@[i],
                    ))
                &&& (forall|i: int|
                    ixs.fields@.len() <= i < old(handles)@.len()
                        ==> #[trigger] final(handles)@[i] == old(handles)@[i])
            },
            Err(e) => {
                &&& spec_try_result(program_id@, *ixs, old(handles)@, ix_data@) == Err::<
                    (),
                    Error,
                >(e)
                &&& final(handles)@ == old(handles)@
            },
        }),
{
    let args = match parse_instruction(ix_data, ixs.discriminator.as_slice()) {
        Ok(a) => a,
        Err(e) => {
            return Err(e);
        }
    };
    let n = ixs.fields.len();
    let mut bumps: Vec<Option<u8>> = Vec::new();
    let mut reallocs: Vec<[u8; 32]> = Vec::new();
    let mut staged: Vec<Option<Vec<u8>>> = Vec::new();
    let mut i: usize = 0;
    while i < n
        invariant
            n == ixs.fields@.len(),
            0 <= i <= n,
            handles@ == old(handles)@,
            spec_steps_ok_before(program_id@, ixs.fields@, handles@, i as int),
            (i as int) <= handles@.len(),
            bumps@.len() == i,
            forall|k: int|
                0 <= k < i ==> spec_field_result(program_id@, ixs.fields@[k], handles@[k]) == Ok::<
                    Option<u8>,
                    Error,
                >(#[trigger] bumps@[k]),
            staged@.len() == i,
            forall|k: int|
                0 <= k < i ==> spec_staged_ok(
                    ixs.fields@[k],
                    handles@[k],
                    #[trigger] staged@[k],
                ),
            reallocs@ + spec_realloc_keys(ixs.fields@, handles@, i as int) == spec_realloc_keys(
                ixs.fields@,
                handles@,
                0,
            ),
        decreases n - i,
    {
        proof {
            lemma_bind_reaches(program_id@, ixs.fields@, handles@, i as int);
        }
        if i >= handles.len() {
            proof {
                assert(spec_bind_from(program_id@, ixs.fields@, handles@, i as int) == Err::<
                    (),
                    Error,
                >(Error::TruncatedData));
            }
            return Err(Error::TruncatedData);
        }
        // a key consumed once is consumed for good: scan what came before
        let key_i = handles[i].key;
        let mut j: usize = 0;
        while j < i
            invariant
                0 <= j <= i < handles@.len(),
                key_i == handles@[i as int].key,
                forall|k: int| 0 <= k < j ==> handles@[k].key@ != handles@[i as int].key@,
            decreases i - j,
        {
            if address_eq(&handles[j].key, &key_i) {
                proof {
                    assert(spec_dup_at(handles@, i as int));
                    assert(spec_bind_from(program_id@, ixs.fields@, handles@, i as int) == Err::<
                        (),
                        Error,
                    >(Error::AlreadyConsumed(key_i)));
                }
                return Err(Error::AlreadyConsumed(key_i));
            }
            j += 1;
        }
        proof {
            assert(!spec_dup_at(handles@, i as int));
        }
        let f = &ixs.fields[i];
        // type tag, or the create-path uninitialized check
        if f.init {
            if !check_uninitialized(handles[i].data.as_slice(), f.discriminator.len()) {
                proof {
                    assert(spec_bind_from(program_id@, ixs.fields@, handles@, i as int) == Err::<
                        (),
                        Error,
                    >(Error::TypeMismatch));
                }
                return Err(Error::TypeMismatch);
            }
            let space = match f.space {
                Some(s) => s,
                None => 0,
            };
            let old_len = handles[i].data.len();
            let target_len = if old_len >= space {
                old_len
            } else {
                space
            };
            if target_len < f.discriminator.len() {
                proof {
                    assert(spec_bind_from(program_id@, ixs.fields@, handles@, i as int) == Err::<
                        (),
                        Error,
                    >(Error::TruncatedData));
                }
                return Err(Error::TruncatedData);
            }
        } else {
            if is_closed(handles[i].data.as_slice()) {
                proof {
                    assert(spec_bind_from(program_id@, ixs.fields@, handles@, i as int) == Err::<
                        (),
                        Error,
                    >(Error::ClosedResource));
                }
                return Err(Error::ClosedResource);
            }
            match check_discriminator(handles[i].data.as_slice(), f.discriminator.as_slice()) {
                Ok(u) => {}
                Err(e) => {
                    proof {
                        assert(spec_bind_from(program_id@, ixs.fields@, handles@, i as int)
                            == Err::<(), Error>(e));
                    }
                    return Err(e);
                }
            }
        }
        // owning authority
        match check_owner(&handles[i].owner, &f.owners) {
            Ok(u) => {}
            Err(e) => {
                proof {
                    assert(spec_bind_from(program_id@, ixs.fields@, handles@, i as int) == Err::<
                        (),
                        Error,
                    >(e));
                }
                return Err(e);
            }
        }
        // derived address
        let bump: Option<u8>;
        match &f.pda {
            None => {
                bump = None;
            }
            Some(p) => {
                match p.bump {
                    Some(b) => {
                        match verify_derived(&key_i, program_id, &p.seeds, b) {
                            Ok(u) => {
                                bump = Some(b);
                            }
                            Err(e) => {
                                proof {
                                    assert(spec_bind_from(
                                        program_id@,
                                        ixs.fields@,
                                        handles@,
                                        i as int,
                                    ) == Err::<(), Error>(e));
                                }
                                return Err(e);
                            }
                        }
                    }
                    None => {
                        match find_bump(&p.seeds, program_id) {
                            Some((b, addr)) => {
                                if address_eq(&addr, &key_i) {
                                    bump = Some(b);
                                } else {
                                    proof {
                                        assert(spec_bind_from(
                                            program_id@,
                                            ixs.fields@,
                                            handles@,
                                            i as int,
                                        ) == Err::<(), Error>(Error::SeedMismatch));
                                    }
                                    return Err(Error::SeedMismatch);
                                }
                            }
                            None => {
                                proof {
                                    assert(spec_bind_from(
                                        program_id@,
                                        ixs.fields@,
                                        handles@,
                                        i as int,
                                    ) == Err::<(), Error>(Error::SeedMismatch));
                                }
                                return Err(Error::SeedMismatch);
                            }
                        }
                    }
                }
            }
        }
        // permission flags
        if f.require_signer && !handles[i].is_signer {
            proof {
                assert(spec_bind_from(program_id@, ixs.fields@, handles@, i as int) == Err::<
                    (),
                    Error,
                >(Error::PermissionDenied));
            }
            return Err(Error::PermissionDenied);
        }
        if f.require_writable && !handles[i].is_writable {
            proof {
                assert(spec_bind_from(program_id@, ixs.fields@, handles@, i as int) == Err::<
                    (),
                    Error,
                >(Error::PermissionDenied));
            }
            return Err(Error::PermissionDenied);
        }
        proof {
            assert(spec_field_result(program_id@, ixs.fields@[i as int], handles@[i as int])
                == Ok::<Option<u8>, Error>(bump));
        }
        // stage the initializing field's buffer image
        if f.init {
            let space = match f.space {
                Some(s) => s,
                None => 0,
            };
            let old_len = handles[i].data.len();
            let target_len = if old_len >= space {
                old_len
            } else {
                space
            };
            let mut new_data: Vec<u8> = Vec::new();
            let mut t: usize = 0;
            while t < target_len
        invariant
                    t <= target_len,
                    target_len == spec_init_len(ixs.fields@[i as int], handles@[i as int]),
                    (i as int) < handles@.len(),
                    new_data@.len() == t,
                    forall|q: int|
                        0 <= q < t ==> new_data@[q] == spec_init_data(
                            ixs.fields@[i as int],
                            handles@[i as int],
                        )[q],
                decreases target_len - t,
            {
                let b: u8 = if t < f.discriminator.len() {
                    f.discriminator[t]
                } else if t < handles[i].data.len() {
                    handles[i].data[t]
                } else {
                    0
                };
                new_data.push(b);
                t += 1;
            }
            proof {
                assert(new_data@ =~= spec_init_data(ixs.fields@[i as int], handles@[i as int]));
            }
            if target_len != old_len {
                reallocs.push(key_i);
            }
            staged.push(Some(new_data));
        } else {
            staged.push(None);
        }
        bumps.push(bump);
        proof {
            assert(spec_bind_from(program_id@, ixs.fields@, handles@, i as int)
                == spec_bind_from(program_id@, ixs.fields@, handles@, i as int + 1));
            assert(reallocs@ + spec_realloc_keys(ixs.fields@, handles@, i as int + 1)
                =~= spec_realloc_keys(ixs.fields@, handles@, 0));
        }
        i += 1;
    }
    proof {
        lemma_bind_reaches(program_id@, ixs.fields@, handles@, n as int);
        assert(spec_bind_from(program_id@, ixs.fields@, handles@, 0) == Ok::<(), Error>(()));
        assert(reallocs@ =~= spec_realloc_keys(ixs.fields@, handles@, 0));
    }
    // every field passed: apply the staged buffer images, back to front
    let ghost orig = old(handles)@;
    let mut k: usize = n;
    while k > 0
        invariant
            k <= n <= handles@.len(),
            staged@.len() == k,
            handles@.len() == orig.len(),
            forall|q: int| 0 <= q < k ==> #[trigger] handles@[q] == orig[q],
            forall|q: int| n <= q < orig.len() ==> #[trigger] handles@[q] == orig[q],
            forall|q: int|
                k <= q < n ==> spec_handle_bound(ixs.fields@[q], orig[q], #[trigger] handles@[q]),
            forall|q: int|
                0 <= q < k ==> spec_staged_ok(ixs.fields@[q], orig[q], #[trigger] staged@[q]),
        decreases k,
    {
        let s = staged.pop().unwrap();
        k = k - 1;
        match s {
            Some(d) => {
                let h = &mut handles[k];
                h.data = d;
            }
            None => {}
        }
    }
    let mut field_handles: Vec<usize> = Vec::new();
    let mut m: usize = 0;
    while m < n
        invariant
            m <= n,
            field_handles@.len() == m,
            forall|q: int| 0 <= q < m ==> #[trigger] field_handles@[q] == q,
        decreases n - m,
    {
        field_handles.push(m);
        m += 1;
    }
    Ok(Bound { field_handles, bumps, reallocs, args })
}

} // verus!
