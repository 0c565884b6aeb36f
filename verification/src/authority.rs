//! Who may act: signers, and addresses derived from seeds and a program's
//! identifier, which stand for an authority that has no private key.

use vstd::prelude::*;
use solana_program::pubkey::{Pubkey, PubkeyError};
use crate::account::Account;
use crate::error::{ProgramError, ProgramResult};
use crate::key::Key;

verus! {

/// The largest number of seeds that an address can be derived from.
pub const MAX_SEEDS: usize = 16;

/// The largest number of bytes in one seed.
pub const MAX_SEED_LEN: usize = 32;

/// The bytes of the address that `Pubkey::create_program_address` derives from
/// `seeds` and the program's identifier, or `None` where it reports
/// `InvalidSeeds`: the hash of the seeds is a point of the curve, and so no
/// program address. Meant for seeds within the limits on their number and
/// lengths.
pub uninterp spec fn program_address(seeds: Seq<Seq<u8>>, program_id: Seq<u8>) -> Option<Seq<u8>>;

/// The seeds as sequences of bytes.
pub open spec fn seed_bytes(seeds: &Vec<Vec<u8>>) -> Seq<Seq<u8>> {
    Seq::new(seeds@.len(), |i: int| seeds@[i]@)
}

/// At most 16 seeds, each of at most 32 bytes.
pub open spec fn seeds_within_limits(seeds: Seq<Seq<u8>>) -> bool {
    &&& seeds.len() <= MAX_SEEDS
    &&& forall|i: int| 0 <= i < seeds.len() ==> (#[trigger] seeds[i]).len() <= MAX_SEED_LEN
}

/// The seeds followed by the bump, a seed of one byte.
pub open spec fn with_bump(seeds: Seq<Seq<u8>>, bump: u8) -> Seq<Seq<u8>> {
    seeds.push(seq![bump])
}

/// A seed tuple that an address with a bump can be derived from: at most 15
/// seeds, each of at most 32 bytes.
pub open spec fn valid_seeds(seeds: Seq<Seq<u8>>) -> bool {
    seeds_within_limits(with_bump(seeds, 0))
}

/// The address derived from exactly these seeds, or the reason why there is
/// none.
pub open spec fn created(seeds: Seq<Seq<u8>>, program_id: Seq<u8>) -> Result<Key, ProgramError> {
    if !seeds_within_limits(seeds) {
        Err(ProgramError::MaxSeedLengthExceeded)
    } else {
        match program_address(seeds, program_id) {
            Some(address) => Ok(Key::from_seq(address)),
            None => Err(ProgramError::InvalidSeeds),
        }
    }
}

/// `bump` is the canonical bump of `seeds` and `address` the address that it
/// gives: the search runs from 255 down to 1 and stops at the first bump for
/// which the seeds followed by it derive an address.
pub open spec fn is_canonical(
    seeds: Seq<Seq<u8>>,
    program_id: Seq<u8>,
    address: Seq<u8>,
    bump: u8,
) -> bool {
    &&& valid_seeds(seeds)
    &&& bump >= 1
    &&& program_address(with_bump(seeds, bump), program_id) == Some(address)
    &&& forall|b: u8|
        bump < b ==> (#[trigger] program_address(with_bump(seeds, b), program_id)) is None
}

/// No bump from 255 down to 1 derives an address from `seeds`.
pub open spec fn no_bump(seeds: Seq<Seq<u8>>, program_id: Seq<u8>) -> bool {
    forall|b: u8| b >= 1 ==> (#[trigger] program_address(with_bump(seeds, b), program_id)) is None
}

/// The derived address of `seeds` together with its canonical bump, if there
/// is one.
pub open spec fn derived(seeds: Seq<Seq<u8>>, program_id: Seq<u8>) -> Option<(Key, u8)> {
    if exists|p: (Key, u8)| is_canonical(seeds, program_id, p.0@, p.1) {
        Some(choose|p: (Key, u8)| is_canonical(seeds, program_id, p.0@, p.1))
    } else {
        None
    }
}

/// What checking `candidate` against the address recomputed from the seeds
/// and the bump gives: `InvalidArgument` unless the seeds and the bump derive
/// an address and the candidate is that address.
pub open spec fn verified(
    candidate: Key,
    seeds: Seq<Seq<u8>>,
    program_id: Seq<u8>,
    expected_bump: u8,
) -> ProgramResult {
    if created(with_bump(seeds, expected_bump), program_id) == Ok::<Key, ProgramError>(candidate) {
        Ok(())
    } else {
        Err(ProgramError::InvalidArgument)
    }
}

/// Calls `Pubkey::create_program_address`. The contract follows its source:
/// more than 16 seeds, or a seed of more than 32 bytes, give
/// `MaxSeedLengthExceeded`; otherwise the result is the address named
/// `program_address`, or `InvalidSeeds` where there is none.
#[verifier::external_body]
fn create_address(seeds: &Vec<Vec<u8>>, program_id: &Key) -> (r: Result<Key, ProgramError>)
    ensures
        match r {
            Ok(address) => seeds_within_limits(seed_bytes(seeds)) && program_address(
                seed_bytes(seeds),
                program_id@,
            ) == Some(address@),
            Err(e) => if seeds_within_limits(seed_bytes(seeds)) {
                e == ProgramError::InvalidSeeds && program_address(seed_bytes(seeds), program_id@)
                    is None
            } else {
                e == ProgramError::MaxSeedLengthExceeded
            },
        },
{
    let refs: Vec<&[u8]> = seeds.iter().map(|s| s.as_slice()).collect();
    match Pubkey::create_program_address(&refs, &Pubkey::new_from_array(program_id.bytes)) {
        Ok(address) => Ok(Key { bytes: address.to_bytes() }),
        Err(PubkeyError::MaxSeedLengthExceeded) => Err(ProgramError::MaxSeedLengthExceeded),
        Err(PubkeyError::InvalidSeeds) => Err(ProgramError::InvalidSeeds),
        Err(PubkeyError::IllegalOwner) => Err(ProgramError::IllegalOwner),
    }
}

/// Calls `Pubkey::try_find_program_address`. The contract follows its source,
/// which tries the bumps 255, 254, down to 1 with `create_program_address` on
/// the seeds followed by the bump: it returns the first address found with
/// its bump, and `None` where the seeds are beyond the limits or no bump
/// gives an address.
#[verifier::external_body]
fn find_address(seeds: &Vec<Vec<u8>>, program_id: &Key) -> (r: Option<(Key, u8)>)
    ensures
        match r {
            Some((address, bump)) => is_canonical(
                seed_bytes(seeds),
                program_id@,
                address@,
                bump,
            ),
            None => !valid_seeds(seed_bytes(seeds)) || no_bump(seed_bytes(seeds), program_id@),
        },
{
    let refs: Vec<&[u8]> = seeds.iter().map(|s| s.as_slice()).collect();
    match Pubkey::try_find_program_address(&refs, &Pubkey::new_from_array(program_id.bytes)) {
        Some((address, bump)) => Some((Key { bytes: address.to_bytes() }, bump)),
        None => None,
    }
}

/// Whether the seeds are within the limits does not depend on the bump.
pub proof fn lemma_limits_any_bump(seeds: Seq<Seq<u8>>, bump: u8)
    ensures
        seeds_within_limits(with_bump(seeds, bump)) == valid_seeds(seeds),
{
    let a = with_bump(seeds, bump);
    let z = with_bump(seeds, 0);
    assert(a.len() == z.len());
    if seeds_within_limits(z) {
        assert forall|i: int| 0 <= i < a.len() implies (#[trigger] a[i]).len() <= MAX_SEED_LEN by {
            if i < seeds.len() {
                assert(a[i] == z[i]);
            }
        }
    }
    if seeds_within_limits(a) {
        assert forall|i: int| 0 <= i < z.len() implies (#[trigger] z[i]).len() <= MAX_SEED_LEN by {
            if i < seeds.len() {
                assert(z[i] == a[i]);
            }
        }
    }
}

/// A seed tuple has at most one canonical bump, and so at most one derived
/// address.
pub proof fn law_canonical_unique(
    seeds: Seq<Seq<u8>>,
    program_id: Seq<u8>,
    a1: Key,
    b1: u8,
    a2: Key,
    b2: u8,
)
    requires
        is_canonical(seeds, program_id, a1@, b1),
        is_canonical(seeds, program_id, a2@, b2),
    ensures
        a1 == a2,
        b1 == b2,
{
    if b1 < b2 {
        assert(program_address(with_bump(seeds, b2), program_id) is None);
    }
    if b2 < b1 {
        assert(program_address(with_bump(seeds, b1), program_id) is None);
    }
    Key::lemma_view_injective(a1, a2);
}

/// Derives the address of `seeds` under the program `program_id`, and the
/// canonical bump that gives it.
///
/// The result is a function of the seeds and the program's identifier alone.
/// It is `None` where the seeds are more than 15 or one is longer than 32
/// bytes, and where no bump derives an address.
pub fn derive(seeds: &Vec<Vec<u8>>, program_id: &Key) -> (r: Option<(Key, u8)>)
    ensures
        r == derived(seed_bytes(seeds), program_id@),
        r is None ==> !valid_seeds(seed_bytes(seeds)) || no_bump(seed_bytes(seeds), program_id@),
{
    let found = find_address(seeds, program_id);
    proof {
        let s = seed_bytes(seeds);
        let pid = program_id@;
        match found {
            Some((address, bump)) => {
                assert(is_canonical(s, pid, (address, bump).0@, (address, bump).1));
                let p = choose|p: (Key, u8)| is_canonical(s, pid, p.0@, p.1);
                law_canonical_unique(s, pid, address, bump, p.0, p.1);
            },
            None => {
                assert forall|p: (Key, u8)| !is_canonical(s, pid, p.0@, p.1) by {
                    if is_canonical(s, pid, p.0@, p.1) {
                        assert(program_address(with_bump(s, p.1), pid) is None);
                    }
                }
            },
        }
    }
    found
}

/// The address derived from exactly `seeds`, without a search for a bump.
pub fn create_program_address(seeds: &Vec<Vec<u8>>, program_id: &Key) -> (r: Result<
    Key,
    ProgramError,
>)
    ensures
        r == created(seed_bytes(seeds), program_id@),
{
    let r = create_address(seeds, program_id);
    proof {
        if let Ok(address) = r {
            Key::lemma_from_view(address);
        }
    }
    r
}

/// A copy of `seeds` followed by the bump.
pub fn seeds_with_bump(seeds: &Vec<Vec<u8>>, bump: u8) -> (r: Vec<Vec<u8>>)
    ensures
        seed_bytes(&r) == with_bump(seed_bytes(seeds), bump),
{
    let mut out: Vec<Vec<u8>> = Vec::new();
    let mut i: usize = 0;
    while i < seeds.len()
        invariant
            i <= seeds@.len(),
            out@.len() == i,
            forall|j: int| 0 <= j < i ==> (#[trigger] out@[j])@ == seeds@[j]@,
        decreases seeds@.len() - i,
    {
        let mut seed: Vec<u8> = Vec::new();
        crate::wire::push_bytes(&mut seed, seeds[i].as_slice());
        assert(seed@ =~= seeds@[i as int]@);
        out.push(seed);
        i = i + 1;
    }
    let mut last: Vec<u8> = Vec::new();
    last.push(bump);
    assert(last@ =~= seq![bump]);
    out.push(last);
    assert(seed_bytes(&out) =~= with_bump(seed_bytes(seeds), bump));
    out
}

/// `Err(MissingRequiredSignature)` where the signature of `account` is
/// required and absent.
pub fn verify_signer(account: &Account, required: bool) -> (r: ProgramResult)
    ensures
        r == (if required && !account.is_signer {
            Err::<(), ProgramError>(ProgramError::MissingRequiredSignature)
        } else {
            Ok(())
        }),
{
    if required && !account.is_signer {
        Err(ProgramError::MissingRequiredSignature)
    } else {
        Ok(())
    }
}

/// Recomputes the address from the seeds and the stored bump, and checks that
/// `candidate` is that address: `InvalidArgument` where it is another one,
/// and where the seeds and the bump derive no address at all.
pub fn verify_derived_address(
    candidate: &Key,
    seeds: &Vec<Vec<u8>>,
    program_id: &Key,
    expected_bump: u8,
) -> (r: ProgramResult)
    ensures
        r == verified(*candidate, seed_bytes(seeds), program_id@, expected_bump),
{
    let all = seeds_with_bump(seeds, expected_bump);
    match create_program_address(&all, program_id) {
        Ok(address) => if address == *candidate {
            Ok(())
        } else {
            Err(ProgramError::InvalidArgument)
        },
        Err(_) => Err(ProgramError::InvalidArgument),
    }
}

/// The bump that `derive` returns, supplied again, reconstructs the address
/// that `derive` returned.
pub proof fn law_derive_round_trip(
    seeds: Seq<Seq<u8>>,
    program_id: Seq<u8>,
    address: Key,
    bump: u8,
)
    requires
        derived(seeds, program_id) == Some((address, bump)),
    ensures
        created(with_bump(seeds, bump), program_id) == Ok::<Key, ProgramError>(address),
        verified(address, seeds, program_id, bump) == Ok::<(), ProgramError>(()),
{
    let p = choose|p: (Key, u8)| is_canonical(seeds, program_id, p.0@, p.1);
    assert(is_canonical(seeds, program_id, address@, bump));
    lemma_limits_any_bump(seeds, bump);
    Key::lemma_from_view(address);
}

/// No bump above the canonical one derives an address: a check against such
/// a bump fails, whatever the candidate.
pub proof fn law_higher_bump_rejected(
    seeds: Seq<Seq<u8>>,
    program_id: Seq<u8>,
    address: Key,
    bump: u8,
    candidate: Key,
    higher: u8,
)
    requires
        derived(seeds, program_id) == Some((address, bump)),
        higher > bump,
    ensures
        created(with_bump(seeds, higher), program_id) == Err::<Key, ProgramError>(
            ProgramError::InvalidSeeds,
        ),
        verified(candidate, seeds, program_id, higher) == Err::<(), ProgramError>(
            ProgramError::InvalidArgument,
        ),
{
    let p = choose|p: (Key, u8)| is_canonical(seeds, program_id, p.0@, p.1);
    assert(is_canonical(seeds, program_id, address@, bump));
    assert(program_address(with_bump(seeds, higher), program_id) is None);
    lemma_limits_any_bump(seeds, higher);
}

/// A candidate passes the check against the canonical bump if and only if it
/// is the derived address.
pub proof fn law_only_derived_address_passes(
    seeds: Seq<Seq<u8>>,
    program_id: Seq<u8>,
    address: Key,
    bump: u8,
    candidate: Key,
)
    requires
        derived(seeds, program_id) == Some((address, bump)),
    ensures
        verified(candidate, seeds, program_id, bump) == (if candidate == address {
            Ok::<(), ProgramError>(())
        } else {
            Err(ProgramError::InvalidArgument)
        }),
{
    law_derive_round_trip(seeds, program_id, address, bump);
}

} // verus!
