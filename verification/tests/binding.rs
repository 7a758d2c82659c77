//! Checks of the typed resource binder and of the derived-address verifier,
//! with the real derivation underneath.

use anchor_lang::binder::{try_accounts, Bound, FieldSpec, InstructionSpec, PdaSpec};
use anchor_lang::error::Error;
use anchor_lang::handle::AccountHandle;
use anchor_lang::lifecycle::close;
use anchor_lang::pda::{find_bump, verify_derived};

const TAG: [u8; 8] = [0x01, 0x02, 0x03, 0x04, 0x05, 0x06, 0x07, 0x08];
const IX_TAG: [u8; 4] = [0x01, 0x02, 0x03, 0x04];

fn tagged_handle(key_byte: u8, owner: [u8; 32], writable: bool, signer: bool) -> AccountHandle {
    let mut data = TAG.to_vec();
    data.extend_from_slice(&[0u8; 8]);
    AccountHandle {
        key: [key_byte; 32],
        owner,
        lamports: 10,
        data,
        is_signer: signer,
        is_writable: writable,
        is_executable: false,
    }
}

fn plain_field(owner: [u8; 32], writable: bool, signer: bool) -> FieldSpec {
    FieldSpec {
        discriminator: TAG.to_vec(),
        owners: vec![owner],
        init: false,
        space: None,
        require_signer: signer,
        require_writable: writable,
        pda: None,
    }
}

fn one_field_spec(field: FieldSpec) -> InstructionSpec {
    InstructionSpec { discriminator: IX_TAG.to_vec(), fields: vec![field] }
}

#[test]
fn end_to_end_binds_matching_handle() {
    let p = [7u8; 32];
    let mut payload = IX_TAG.to_vec();
    payload.extend_from_slice(&[0x2a, 0x00]);
    let mut handles = vec![tagged_handle(1, p, true, false)];
    let spec = one_field_spec(plain_field(p, true, false));
    let bound: Bound = try_accounts(&[9u8; 32], &mut handles, &payload, &spec).unwrap();
    assert_eq!(bound.args, vec![0x2a, 0x00]);
    assert_eq!(bound.field_handles, vec![0]);
    assert_eq!(bound.bumps, vec![None]);
    assert!(bound.reallocs.is_empty());
}

#[test]
fn end_to_end_wrong_owner_is_unauthorized() {
    let p = [7u8; 32];
    let q = [8u8; 32];
    let payload = IX_TAG.to_vec();
    let mut handles = vec![tagged_handle(1, q, true, false)];
    let spec = one_field_spec(plain_field(p, true, false));
    assert_eq!(
        try_accounts(&[9u8; 32], &mut handles, &payload, &spec),
        Err(Error::Unauthorized(q))
    );
}

#[test]
fn end_to_end_missing_writable_is_permission_denied() {
    let p = [7u8; 32];
    let payload = IX_TAG.to_vec();
    let mut handles = vec![tagged_handle(1, p, false, false)];
    let spec = one_field_spec(plain_field(p, true, false));
    assert_eq!(
        try_accounts(&[9u8; 32], &mut handles, &payload, &spec),
        Err(Error::PermissionDenied)
    );
}

#[test]
fn missing_signer_is_permission_denied() {
    let p = [7u8; 32];
    let payload = IX_TAG.to_vec();
    let mut handles = vec![tagged_handle(1, p, true, false)];
    let spec = one_field_spec(plain_field(p, false, true));
    assert_eq!(
        try_accounts(&[9u8; 32], &mut handles, &payload, &spec),
        Err(Error::PermissionDenied)
    );
}

#[test]
fn wrong_type_tag_is_type_mismatch() {
    let p = [7u8; 32];
    let payload = IX_TAG.to_vec();
    let mut handles = vec![tagged_handle(1, p, true, false)];
    handles[0].data[0] = 0x99;
    let spec = one_field_spec(plain_field(p, true, false));
    assert_eq!(try_accounts(&[9u8; 32], &mut handles, &payload, &spec), Err(Error::TypeMismatch));
}

#[test]
fn wrong_payload_tag_is_type_mismatch() {
    let p = [7u8; 32];
    let payload = vec![0x09, 0x09, 0x09, 0x09];
    let mut handles = vec![tagged_handle(1, p, true, false)];
    let spec = one_field_spec(plain_field(p, true, false));
    assert_eq!(try_accounts(&[9u8; 32], &mut handles, &payload, &spec), Err(Error::TypeMismatch));
}

#[test]
fn exhausted_handle_list_is_truncated() {
    let p = [7u8; 32];
    let payload = IX_TAG.to_vec();
    let mut handles = vec![tagged_handle(1, p, true, false)];
    let spec = InstructionSpec {
        discriminator: IX_TAG.to_vec(),
        fields: vec![plain_field(p, false, false), plain_field(p, false, false)],
    };
    assert_eq!(try_accounts(&[9u8; 32], &mut handles, &payload, &spec), Err(Error::TruncatedData));
}

#[test]
fn same_handle_twice_is_already_consumed() {
    let p = [7u8; 32];
    let payload = IX_TAG.to_vec();
    let h = tagged_handle(1, p, true, false);
    let mut handles = vec![tagged_handle(1, p, true, false), h];
    let spec = InstructionSpec {
        discriminator: IX_TAG.to_vec(),
        fields: vec![plain_field(p, false, false), plain_field(p, false, false)],
    };
    assert_eq!(
        try_accounts(&[9u8; 32], &mut handles, &payload, &spec),
        Err(Error::AlreadyConsumed([1u8; 32]))
    );
}

#[test]
fn distinct_handles_bind_in_order() {
    let p = [7u8; 32];
    let payload = IX_TAG.to_vec();
    let mut handles = vec![tagged_handle(1, p, true, false), tagged_handle(2, p, true, false)];
    let spec = InstructionSpec {
        discriminator: IX_TAG.to_vec(),
        fields: vec![plain_field(p, false, false), plain_field(p, false, false)],
    };
    let bound = try_accounts(&[9u8; 32], &mut handles, &payload, &spec).unwrap();
    assert_eq!(bound.field_handles, vec![0, 1]);
}

#[test]
fn empty_field_list_still_checks_payload() {
    let spec = InstructionSpec { discriminator: IX_TAG.to_vec(), fields: vec![] };
    let mut handles: Vec<AccountHandle> = vec![];
    let bound = try_accounts(&[9u8; 32], &mut handles, &IX_TAG, &spec).unwrap();
    assert!(bound.field_handles.is_empty());
    assert!(bound.args.is_empty());
    assert_eq!(
        try_accounts(&[9u8; 32], &mut handles, &[0u8; 4], &spec),
        Err(Error::TypeMismatch)
    );
}

#[test]
fn handles_beyond_declared_fields_are_untouched() {
    let p = [7u8; 32];
    let payload = IX_TAG.to_vec();
    let mut handles = vec![tagged_handle(1, p, true, false), tagged_handle(2, p, true, false)];
    let spec = one_field_spec(plain_field(p, false, false));
    let bound = try_accounts(&[9u8; 32], &mut handles, &payload, &spec).unwrap();
    assert_eq!(bound.field_handles, vec![0]);
    assert_eq!(handles[1].key, [2u8; 32]);
    assert_eq!(handles[1].lamports, 10);
}

#[test]
fn init_field_writes_tag_and_records_realloc() {
    let p = [7u8; 32];
    let payload = IX_TAG.to_vec();
    let mut handles = vec![AccountHandle {
        key: [1u8; 32],
        owner: p,
        lamports: 0,
        data: vec![0u8; 4],
        is_signer: false,
        is_writable: true,
        is_executable: false,
    }];
    let field = FieldSpec {
        discriminator: TAG.to_vec(),
        owners: vec![p],
        init: true,
        space: Some(16),
        require_signer: false,
        require_writable: true,
        pda: None,
    };
    let bound = try_accounts(&[9u8; 32], &mut handles, &payload, &one_field_spec(field)).unwrap();
    assert_eq!(bound.reallocs, vec![[1u8; 32]]);
    assert_eq!(handles[0].data.len(), 16);
    assert_eq!(&handles[0].data[..8], &TAG);
    assert_eq!(&handles[0].data[8..], &[0u8; 8]);
}

#[test]
fn init_field_rejects_tagged_buffer() {
    let p = [7u8; 32];
    let payload = IX_TAG.to_vec();
    let mut handles = vec![tagged_handle(1, p, true, false)];
    let field = FieldSpec {
        discriminator: TAG.to_vec(),
        owners: vec![p],
        init: true,
        space: Some(16),
        require_signer: false,
        require_writable: true,
        pda: None,
    };
    assert_eq!(
        try_accounts(&[9u8; 32], &mut handles, &payload, &one_field_spec(field)),
        Err(Error::TypeMismatch)
    );
}

#[test]
fn failed_binding_leaves_handles_untouched() {
    // the first field initializes, the second field fails: the staged tag
    // write of the first field must not survive
    let p = [7u8; 32];
    let payload = IX_TAG.to_vec();
    let mut handles = vec![
        AccountHandle {
            key: [1u8; 32],
            owner: p,
            lamports: 0,
            data: vec![0u8; 16],
            is_signer: false,
            is_writable: true,
            is_executable: false,
        },
        tagged_handle(2, p, false, false),
    ];
    let init_field = FieldSpec {
        discriminator: TAG.to_vec(),
        owners: vec![p],
        init: true,
        space: Some(16),
        require_signer: false,
        require_writable: true,
        pda: None,
    };
    let spec = InstructionSpec {
        discriminator: IX_TAG.to_vec(),
        fields: vec![init_field, plain_field(p, true, false)],
    };
    assert_eq!(
        try_accounts(&[9u8; 32], &mut handles, &payload, &spec),
        Err(Error::PermissionDenied)
    );
    assert_eq!(handles[0].data, vec![0u8; 16]);
}

#[test]
fn closed_account_cannot_be_rebound() {
    let p = [7u8; 32];
    let payload = IX_TAG.to_vec();
    let mut target = tagged_handle(1, p, true, false);
    let mut dest = tagged_handle(2, p, true, false);
    close(&mut target, &mut dest).unwrap();
    let mut handles = vec![target];
    let spec = one_field_spec(plain_field(p, true, false));
    assert_eq!(
        try_accounts(&[9u8; 32], &mut handles, &payload, &spec),
        Err(Error::ClosedResource)
    );
}

#[test]
fn closed_account_cannot_be_reinitialized() {
    let p = [7u8; 32];
    let payload = IX_TAG.to_vec();
    let mut target = tagged_handle(1, p, true, false);
    let mut dest = tagged_handle(2, p, true, false);
    close(&mut target, &mut dest).unwrap();
    let mut handles = vec![target];
    let field = FieldSpec {
        discriminator: TAG.to_vec(),
        owners: vec![p],
        init: true,
        space: Some(16),
        require_signer: false,
        require_writable: true,
        pda: None,
    };
    assert_eq!(
        try_accounts(&[9u8; 32], &mut handles, &payload, &one_field_spec(field)),
        Err(Error::TypeMismatch)
    );
}

#[test]
fn rezeroed_account_can_be_reinitialized() {
    // once the host zeroes the buffer (outside this core's control), an
    // initializing field accepts the account again
    let p = [7u8; 32];
    let payload = IX_TAG.to_vec();
    let mut target = tagged_handle(1, p, true, false);
    let mut dest = tagged_handle(2, p, true, false);
    close(&mut target, &mut dest).unwrap();
    target.data = vec![0u8; 16];
    let mut handles = vec![target];
    let field = FieldSpec {
        discriminator: TAG.to_vec(),
        owners: vec![p],
        init: true,
        space: Some(16),
        require_signer: false,
        require_writable: true,
        pda: None,
    };
    assert!(try_accounts(&[9u8; 32], &mut handles, &payload, &one_field_spec(field)).is_ok());
}

#[test]
fn bump_search_matches_host_derivation() {
    let pid = solana_pubkey::Pubkey::new_from_array([11u8; 32]);
    let (expected_addr, expected_bump) =
        solana_pubkey::Pubkey::find_program_address(&[b"vault", b"alpha"], &pid);
    let seeds = vec![b"vault".to_vec(), b"alpha".to_vec()];
    let (bump, addr) = find_bump(&seeds, &[11u8; 32]).unwrap();
    assert_eq!(bump, expected_bump);
    assert_eq!(addr, expected_addr.to_bytes());
}

#[test]
fn bump_search_is_idempotent() {
    let seeds = vec![b"vault".to_vec()];
    let first = find_bump(&seeds, &[11u8; 32]).unwrap();
    let second = find_bump(&seeds, &[11u8; 32]).unwrap();
    assert_eq!(first, second);
}

#[test]
fn verify_derived_accepts_canonical_and_rejects_others() {
    let seeds = vec![b"vault".to_vec()];
    let (bump, addr) = find_bump(&seeds, &[11u8; 32]).unwrap();
    assert_eq!(verify_derived(&addr, &[11u8; 32], &seeds, bump), Ok(()));
    assert_eq!(
        verify_derived(&addr, &[11u8; 32], &seeds, bump.wrapping_sub(1)),
        Err(Error::SeedMismatch)
    );
    assert_eq!(verify_derived(&[0u8; 32], &[11u8; 32], &seeds, bump), Err(Error::SeedMismatch));
    // verifying the same triple twice yields the same result
    assert_eq!(
        verify_derived(&addr, &[11u8; 32], &seeds, bump),
        verify_derived(&addr, &[11u8; 32], &seeds, bump)
    );
}

#[test]
fn pda_field_checks_address_and_caches_bump() {
    let p = [7u8; 32];
    let program = [11u8; 32];
    let seeds = vec![b"vault".to_vec()];
    let (bump, addr) = find_bump(&seeds, &program).unwrap();
    let payload = IX_TAG.to_vec();
    let mut h = tagged_handle(1, p, true, false);
    h.key = addr;
    let mut handles = vec![h];
    let field = FieldSpec {
        discriminator: TAG.to_vec(),
        owners: vec![p],
        init: false,
        space: None,
        require_signer: false,
        require_writable: false,
        pda: Some(PdaSpec { seeds: seeds.clone(), bump: None }),
    };
    let bound = try_accounts(&program, &mut handles, &payload, &one_field_spec(field)).unwrap();
    assert_eq!(bound.bumps, vec![Some(bump)]);

    // a handle whose address is not the derived one is rejected
    let mut wrong = vec![tagged_handle(3, p, true, false)];
    let field2 = FieldSpec {
        discriminator: TAG.to_vec(),
        owners: vec![p],
        init: false,
        space: None,
        require_signer: false,
        require_writable: false,
        pda: Some(PdaSpec { seeds, bump: Some(bump) }),
    };
    assert_eq!(
        try_accounts(&program, &mut wrong, &payload, &one_field_spec(field2)),
        Err(Error::SeedMismatch)
    );
}
