use vstd::prelude::*;
use crate::codec::{be16, be32, put_bytes, put_u16_be, put_u32_be};
use crate::error::ProcessError;

verus! {

/// An account address or a program identity: 32 raw bytes.
pub type Address = [u8; 32];

/// The address derived from `seeds` under `program`, if the seeds give one:
/// a hash of the seeds and the program identity that is not itself a valid
/// curve point.
pub uninterp spec fn program_address(seeds: Seq<Seq<u8>>, program: Seq<u8>) -> Option<Seq<u8>>;

/// The seeds as byte sequences.
pub open spec fn seeds_view(seeds: Seq<Vec<u8>>) -> Seq<Seq<u8>> {
    seeds.map_values(|s: Vec<u8>| s@)
}

/// More seeds, or a longer seed, than derivation accepts.
pub open spec fn seeds_out_of_bounds(seeds: Seq<Seq<u8>>) -> bool {
    seeds.len() > 16 || exists|i: int| 0 <= i < seeds.len() && #[trigger] seeds[i].len() > 32
}

/// `seeds` completed by the one-byte `bump` seed.
pub open spec fn with_bump(seeds: Seq<Seq<u8>>, bump: u8) -> Seq<Seq<u8>> {
    seeds.push(seq![bump])
}

/// The derivation with an explicit bump, as seen by a caller.
pub open spec fn derived_with(seeds: Seq<Seq<u8>>, bump: u8, program: Seq<u8>) -> Option<Seq<u8>> {
    program_address(with_bump(seeds, bump), program)
}

/// `bump` is the canonical bump: the largest from 1 to 255 that gives an address.
pub open spec fn is_canonical_bump(seeds: Seq<Seq<u8>>, bump: u8, program: Seq<u8>) -> bool {
    &&& 1 <= bump
    &&& derived_with(seeds, bump, program) is Some
    &&& forall|k: u8| bump < k ==> (#[trigger] derived_with(seeds, k, program)) is None
}

/// The address derived with the given bump, or with the canonical bump when
/// none is given.
pub open spec fn derived(seeds: Seq<Seq<u8>>, bump: Option<u8>, program: Seq<u8>) -> Option<Seq<u8>> {
    match bump {
        Some(b) => derived_with(seeds, b, program),
        None => if exists|c: u8| is_canonical_bump(seeds, c, program) {
            derived_with(seeds, choose|c: u8| is_canonical_bump(seeds, c, program), program)
        } else {
            None
        },
    }
}

proof fn lemma_canonical_unique(seeds: Seq<Seq<u8>>, b: u8, c: u8, program: Seq<u8>)
    requires
        is_canonical_bump(seeds, b, program),
        is_canonical_bump(seeds, c, program),
    ensures
        b == c,
{
    if b < c {
        assert(derived_with(seeds, c, program) is None);
    } else if c < b {
        assert(derived_with(seeds, b, program) is None);
    }
}

/// Relies on Pubkey::create_program_address: the address is a function of
/// the seeds and the program identity; too many or too long seeds are refused.
#[verifier::external_body]
fn create_program_address(seeds: &Vec<Vec<u8>>, program_id: &Address) -> (r: Option<Address>)
    ensures
        match r {
            Some(a) => program_address(seeds_view(seeds@), program_id@) == Some(a@),
            None => program_address(seeds_view(seeds@), program_id@) is None,
        },
        seeds_out_of_bounds(seeds_view(seeds@)) ==> r is None,
{
    let refs: Vec<&[u8]> = seeds.iter().map(|s| s.as_slice()).collect();
    let program = solana_program::pubkey::Pubkey::new_from_array(*program_id);
    solana_program::pubkey::Pubkey::create_program_address(&refs, &program).ok().map(|k| k.to_bytes())
}

/// Relies on Pubkey::try_find_program_address: it appends bump seeds from 255
/// downward and returns the first address found with its bump.
#[verifier::external_body]
fn find_program_address(seeds: &Vec<Vec<u8>>, program_id: &Address) -> (r: Option<(Address, u8)>)
    ensures
        match r {
            Some((a, b)) => 1 <= b && derived_with(seeds_view(seeds@), b, program_id@) == Some(a@)
                && is_canonical_bump(seeds_view(seeds@), b, program_id@),
            None => forall|k: u8|
                1 <= k ==> (#[trigger] derived_with(seeds_view(seeds@), k, program_id@)) is None,
        },
{
    let refs: Vec<&[u8]> = seeds.iter().map(|s| s.as_slice()).collect();
    let program = solana_program::pubkey::Pubkey::new_from_array(*program_id);
    solana_program::pubkey::Pubkey::try_find_program_address(&refs, &program).map(
        |(k, b)| (k.to_bytes(), b),
    )
}

/// Derives the address for `seeds`: with the given bump, or with the canonical
/// bump when none is given. Returns the address and the bump used.
pub fn derive_address(seeds: &Vec<Vec<u8>>, bump: Option<u8>, program_id: &Address) -> (r: Result<
    (Address, u8),
    ProcessError,
>)
    ensures
        r is Ok <==> derived(seeds_view(seeds@), bump, program_id@) is Some,
        r matches Ok((a, b)) ==> {
            &&& derived(seeds_view(seeds@), bump, program_id@) == Some(a@)
            &&& derived_with(seeds_view(seeds@), b, program_id@) == Some(a@)
            &&& bump matches Some(c) ==> b == c
        },
        r is Err ==> r == Err::<(Address, u8), ProcessError>(ProcessError::InvalidSeeds),
{
    match bump {
        Some(b) => {
            let mut full = copy_seeds(seeds);
            let mut last: Vec<u8> = Vec::new();
            last.push(b);
            full.push(last);
            proof {
                assert(seeds_view(full@) =~= with_bump(seeds_view(seeds@), b));
            }
            match create_program_address(&full, program_id) {
                Some(a) => Ok((a, b)),
                None => Err(ProcessError::InvalidSeeds),
            }
        },
        None => {
            let ghost sv = seeds_view(seeds@);
            match find_program_address(seeds, program_id) {
                Some((a, b)) => {
                    proof {
                        let c = choose|c: u8| is_canonical_bump(sv, c, program_id@);
                        lemma_canonical_unique(sv, b, c, program_id@);
                    }
                    Ok((a, b))
                },
                None => {
                    proof {
                        assert forall|c: u8| !is_canonical_bump(sv, c, program_id@) by {
                            if 1 <= c {
                                assert(derived_with(sv, c, program_id@) is None);
                            }
                        }
                    }
                    Err(ProcessError::InvalidSeeds)
                },
            }
        },
    }
}

/// Checks that `key` is the address derived from `seeds`; returns the bump
/// used. A derivation that fails gives `InvalidSeeds`, a different address
/// gives `mismatch`.
pub fn check_derived(
    seeds: &Vec<Vec<u8>>,
    bump: Option<u8>,
    program_id: &Address,
    key: &Address,
    mismatch: ProcessError,
) -> (r: Result<u8, ProcessError>)
    ensures
        match derived(seeds_view(seeds@), bump, program_id@) {
            None => r == Err::<u8, ProcessError>(ProcessError::InvalidSeeds),
            Some(a) => if a == key@ {
                r is Ok
            } else {
                r == Err::<u8, ProcessError>(mismatch)
            },
        },
        r matches Ok(b) ==> derived_with(seeds_view(seeds@), b, program_id@) == Some(key@) && (
        bump matches Some(c) ==> b == c),
{
    let (a, b) = derive_address(seeds, bump, program_id)?;
    if same_address(&a, key) {
        Ok(b)
    } else {
        Err(mismatch)
    }
}

/// Checks that `key` is the address derived from the complete seed list
/// `seeds` (bump included). A derivation that fails gives `InvalidSeeds`, a
/// different address gives `mismatch`.
pub fn check_program_address(
    seeds: &Vec<Vec<u8>>,
    program_id: &Address,
    key: &Address,
    mismatch: ProcessError,
) -> (r: Result<(), ProcessError>)
    ensures
        match program_address(seeds_view(seeds@), program_id@) {
            None => r == Err::<(), ProcessError>(ProcessError::InvalidSeeds),
            Some(a) => if a == key@ {
                r is Ok
            } else {
                r == Err::<(), ProcessError>(mismatch)
            },
        },
{
    match create_program_address(seeds, program_id) {
        Some(a) => if same_address(&a, key) {
            Ok(())
        } else {
            Err(mismatch)
        },
        None => Err(ProcessError::InvalidSeeds),
    }
}

pub(crate) fn copy_seeds(seeds: &Vec<Vec<u8>>) -> (r: Vec<Vec<u8>>)
    ensures
        seeds_view(r@) == seeds_view(seeds@),
{
    let mut r: Vec<Vec<u8>> = Vec::new();
    let mut i: usize = 0;
    while i < seeds.len()
        invariant
            i <= seeds@.len(),
            r@.len() == i,
            forall|j: int| 0 <= j < i ==> (#[trigger] r@[j])@ == seeds@[j]@,
        decreases seeds@.len() - i,
    {
        let mut s: Vec<u8> = Vec::new();
        put_bytes(&mut s, seeds[i].as_slice());
        assert(s@ =~= seeds@[i as int]@);
        r.push(s);
        i = i + 1;
    }
    assert(seeds_view(r@) =~= seeds_view(seeds@));
    r
}

/// Byte-for-byte comparison of two addresses.
pub fn same_address(a: &Address, b: &Address) -> (r: bool)
    ensures
        r == (a@ == b@),
{
    let mut i: usize = 0;
    while i < 32
        invariant
            i <= 32,
            forall|j: int| 0 <= j < i ==> a@[j] == b@[j],
        decreases 32 - i,
    {
        if a[i] != b[i] {
            return false;
        }
        i = i + 1;
    }
    assert(a@ =~= b@);
    true
}

// ---- seed lists ----

/// "vault"
pub open spec fn vault_tag() -> Seq<u8> {
    seq![118u8, 97, 117, 108, 116]
}

/// "state2": the domain of current campaign records.
pub open spec fn state_tag() -> Seq<u8> {
    seq![115u8, 116, 97, 116, 101, 50]
}

/// "state": the domain of records written before campaigns had ids.
pub open spec fn legacy_state_tag() -> Seq<u8> {
    seq![115u8, 116, 97, 116, 101]
}

/// "ticket"
pub open spec fn ticket_tag() -> Seq<u8> {
    seq![116u8, 105, 99, 107, 101, 116]
}

pub open spec fn vault_seeds(owner: Seq<u8>) -> Seq<Seq<u8>> {
    seq![owner, vault_tag()]
}

pub open spec fn state_seeds(owner: Seq<u8>, id: u16) -> Seq<Seq<u8>> {
    seq![owner, state_tag(), be16(id)]
}

pub open spec fn legacy_state_seeds(owner: Seq<u8>) -> Seq<Seq<u8>> {
    seq![owner, legacy_state_tag()]
}

/// A ticket's seeds name its owner, the `"ticket"` domain, the campaign, the
/// purchase seed and the ticket's index within its batch (the id of a voucher
/// ticket stands as its seed, with index 0). So every unit has an address of
/// its own, and a second issue at one address meets the used record there.
pub open spec fn ticket_seeds(owner: Seq<u8>, campaign: u16, seed: u32, index: u8) -> Seq<
    Seq<u8>,
> {
    seq![owner, ticket_tag(), be16(campaign), be32(seed), seq![index]]
}

fn key_vec(a: &Address) -> (r: Vec<u8>)
    ensures
        r@ == a@,
{
    let mut r: Vec<u8> = Vec::new();
    put_bytes(&mut r, a.as_slice());
    r
}

/// `[owner, "vault"]`
pub fn make_vault_seeds(owner: &Address) -> (r: Vec<Vec<u8>>)
    ensures
        seeds_view(r@) == vault_seeds(owner@),
{
    let mut r: Vec<Vec<u8>> = Vec::new();
    r.push(key_vec(owner));
    r.push(vec![118u8, 97, 117, 108, 116]);
    assert(seeds_view(r@) =~= vault_seeds(owner@));
    r
}

/// `[owner, "state2", id as big-endian u16]`
pub fn make_state_seeds(owner: &Address, id: u16) -> (r: Vec<Vec<u8>>)
    ensures
        seeds_view(r@) == state_seeds(owner@, id),
{
    let mut r: Vec<Vec<u8>> = Vec::new();
    r.push(key_vec(owner));
    r.push(vec![115u8, 116, 97, 116, 101, 50]);
    let mut id_bytes: Vec<u8> = Vec::new();
    put_u16_be(&mut id_bytes, id);
    assert(id_bytes@ =~= be16(id));
    r.push(id_bytes);
    assert(seeds_view(r@) =~= state_seeds(owner@, id));
    r
}

/// `[owner, "state"]`
pub fn make_legacy_state_seeds(owner: &Address) -> (r: Vec<Vec<u8>>)
    ensures
        seeds_view(r@) == legacy_state_seeds(owner@),
{
    let mut r: Vec<Vec<u8>> = Vec::new();
    r.push(key_vec(owner));
    r.push(vec![115u8, 116, 97, 116, 101]);
    assert(seeds_view(r@) =~= legacy_state_seeds(owner@));
    r
}

/// `[owner, "ticket", campaign as big-endian u16, seed as big-endian u32, index]`
pub fn make_ticket_seeds(owner: &Address, campaign: u16, seed: u32, index: u8) -> (r: Vec<Vec<u8>>)
    ensures
        seeds_view(r@) == ticket_seeds(owner@, campaign, seed, index),
{
    let mut r: Vec<Vec<u8>> = Vec::new();
    r.push(key_vec(owner));
    r.push(vec![116u8, 105, 99, 107, 101, 116]);
    let mut c: Vec<u8> = Vec::new();
    put_u16_be(&mut c, campaign);
    assert(c@ =~= be16(campaign));
    r.push(c);
    let mut s: Vec<u8> = Vec::new();
    put_u32_be(&mut s, seed);
    assert(s@ =~= be32(seed));
    r.push(s);
    let mut i: Vec<u8> = Vec::new();
    i.push(index);
    r.push(i);
    assert(seeds_view(r@) =~= ticket_seeds(owner@, campaign, seed, index));
    r
}

/// The token program's identity, `TokenkegQfeZyiNwAJbNbGKPFXCWuBvf9Ss623VQ5DA`.
pub open spec fn token_program_id() -> Seq<u8> {
    seq![
        6u8, 221, 246, 225, 215, 101, 161, 147, 217, 203, 225, 70, 206, 235, 121, 172,
        28, 180, 133, 237, 95, 91, 55, 145, 58, 140, 245, 133, 126, 255, 0, 169,
    ]
}

/// Relies on spl_token::check_id: it compares the key with the token
/// program's declared identity.
#[verifier::external_body]
pub(crate) fn is_token_program(key: &Address) -> (r: bool)
    ensures
        r == (key@ == token_program_id()),
{
    spl_token::check_id(&solana_program::pubkey::Pubkey::new_from_array(*key))
}

} // verus!
