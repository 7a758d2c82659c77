//! The derived-address verifier and the canonical bump search.
//!
//! A derived address is a deterministic function of a program identity, a
//! list of seed byte-strings, and a single trailing nonce byte (the "bump").
//! Only nonces whose derived point falls off the canonical elliptic curve are
//! valid. When a binding supplies a bump, the verifier recomputes the address
//! and compares; when a binding asks to find one, the search walks nonces
//! from 255 downward and accepts the first valid derivation, exactly as the
//! host's own canonical algorithm does (the nonce 0 is never tried).

use vstd::prelude::*;

use crate::authority::address_eq;
use crate::error::Error;

verus! {

/// What the host's derivation returns for a full seed list (bump included)
/// and a program id: the derived address, or nothing when the derivation is
/// refused (seed limits exceeded, or the candidate point lies on the curve).
pub uninterp spec fn derived_address(seeds: Seq<Seq<u8>>, program_id: Seq<u8>) -> Option<Seq<u8>>;

/// The byte strings held by a list of seed buffers.
pub open spec fn seeds_view(seeds: Seq<Vec<u8>>) -> Seq<Seq<u8>> {
    seeds.map_values(|s: Vec<u8>| s@)
}

/// Relies on solana_pubkey::Pubkey::create_program_address: the derived
/// address, or the refusal, is a function of the seed slices and the program
/// id alone. The bump byte is handed over as one extra trailing seed, as the
/// host's own search does.
#[verifier::external_body]
fn derive_with_bump(seeds: &Vec<Vec<u8>>, bump: u8, program_id: &[u8; 32]) -> (r: Option<
    [u8; 32],
>)
    ensures
        (match r {
            Some(addr) => derived_address(seeds_view(seeds@).push(seq![bump]), program_id@)
                == Some(addr@),
            None => derived_address(seeds_view(seeds@).push(seq![bump]), program_id@) is None,
        }),
{
    let mut slices: Vec<&[u8]> = Vec::new();
    for s in seeds.iter() {
        slices.push(s.as_slice());
    }
    let bump_seed = [bump];
    slices.push(&bump_seed);
    let pid = solana_pubkey::Pubkey::new_from_array(*program_id);
    match solana_pubkey::Pubkey::create_program_address(&slices, &pid) {
        Ok(addr) => Some(addr.to_bytes()),
        Err(_) => None,
    }
}

/// The canonical bump search, descending from nonce `b`: the result of the
/// first derivation that succeeds, or nothing if every nonce down to 1 is
/// refused.
pub open spec fn spec_search_bump(seeds: Seq<Seq<u8>>, program_id: Seq<u8>, b: int) -> Option<
    (u8, Seq<u8>),
>
    decreases b,
{
    if b < 1 {
        None
    } else {
        match derived_address(seeds.push(seq![b as u8]), program_id) {
            Some(addr) => Some((b as u8, addr)),
            None => spec_search_bump(seeds, program_id, b - 1),
        }
    }
}

/// Recompute the derived address for the given seeds and bump and hold it
/// against the expected address.
pub open spec fn spec_verify_derived(
    expected: Seq<u8>,
    program_id: Seq<u8>,
    seeds: Seq<Seq<u8>>,
    bump: u8,
) -> Result<(), Error> {
    if derived_address(seeds.push(seq![bump]), program_id) == Some(expected) {
        Ok(())
    } else {
        Err(Error::SeedMismatch)
    }
}

/// Verify that `(program_id, seeds, bump)` derives exactly `expected`; any
/// disagreement, including a refused derivation, is a seed mismatch.
pub fn verify_derived(
    expected: &[u8; 32],
    program_id: &[u8; 32],
    seeds: &Vec<Vec<u8>>,
    bump: u8,
) -> (r: Result<(), Error>)
    ensures
        r == spec_verify_derived(expected@, program_id@, seeds_view(seeds@), bump),
{
    match derive_with_bump(seeds, bump, program_id) {
        Some(addr) => {
            if address_eq(&addr, expected) {
                Ok(())
            } else {
                Err(Error::SeedMismatch)
            }
        }
        None => Err(Error::SeedMismatch),
    }
}

/// Search for the canonical bump: the highest nonce in 255..=1 whose
/// derivation succeeds, together with the address it derives.
pub fn find_bump(seeds: &Vec<Vec<u8>>, program_id: &[u8; 32]) -> (r: Option<(u8, [u8; 32])>)
    ensures
        (match r {
            Some((b, addr)) => spec_search_bump(seeds_view(seeds@), program_id@, 255) == Some(
                (b, addr@),
            ),
            None => spec_search_bump(seeds_view(seeds@), program_id@, 255) is None,
        }),
{
    let mut bump: u8 = 255;
    loop
        invariant
            1 <= bump <= 255,
            spec_search_bump(seeds_view(seeds@), program_id@, 255) == spec_search_bump(
                seeds_view(seeds@),
                program_id@,
                bump as int,
            ),
        decreases bump,
    {
        match derive_with_bump(seeds, bump, program_id) {
            Some(addr) => {
                return Some((bump, addr));
            }
            None => {
                if bump == 1 {
                    proof {
                        assert(spec_search_bump(seeds_view(seeds@), program_id@, 0) is None);
                        assert(spec_search_bump(seeds_view(seeds@), program_id@, 1) is None);
                    }
                    return None;
                }
                bump = bump - 1;
            }
        }
    }
}

/// The bump search is deterministic: it is a function of the seed material
/// and the program id alone, so two searches over the same input agree.
pub proof fn lemma_bump_search_deterministic(
    seeds: Seq<Seq<u8>>,
    program_id: Seq<u8>,
    r1: Option<(u8, Seq<u8>)>,
    r2: Option<(u8, Seq<u8>)>,
)
    requires
        r1 == spec_search_bump(seeds, program_id, 255),
        r2 == spec_search_bump(seeds, program_id, 255),
    ensures
        r1 == r2,
{
}

/// Verifying the same `(program, seeds, bump)` twice yields the same result.
pub proof fn lemma_verify_deterministic(
    expected: Seq<u8>,
    program_id: Seq<u8>,
    seeds: Seq<Seq<u8>>,
    bump: u8,
    r1: Result<(), Error>,
    r2: Result<(), Error>,
)
    requires
        r1 == spec_verify_derived(expected, program_id, seeds, bump),
        r2 == spec_verify_derived(expected, program_id, seeds, bump),
    ensures
        r1 == r2,
{
}

/// What a successful search means: the found nonce derives the returned
/// address, and every higher nonce in the searched range is refused — the
/// search accepts only the single canonical choice.
pub proof fn lemma_search_bump_canonical(
    seeds: Seq<Seq<u8>>,
    program_id: Seq<u8>,
    b: int,
    bump: u8,
    addr: Seq<u8>,
)
    requires
        0 <= b <= 255,
        spec_search_bump(seeds, program_id, b) == Some((bump, addr)),
    ensures
        1 <= bump <= b,
        derived_address(seeds.push(seq![bump]), program_id) == Some(addr),
        forall|c: u8|
            bump < c <= b ==> #[trigger] derived_address(seeds.push(seq![c]), program_id)
                is None,
    decreases b,
{
    if b >= 1 {
        if derived_address(seeds.push(seq![b as u8]), program_id) is Some {
            assert(bump == b as u8);
        } else {
            lemma_search_bump_canonical(seeds, program_id, b - 1, bump, addr);
            assert(forall|c: u8|
                bump < c <= b ==> #[trigger] derived_address(seeds.push(seq![c]), program_id)
                    is None) by {
                assert(derived_address(seeds.push(seq![b as u8]), program_id) is None);
            }
        }
    }
}

} // verus!
