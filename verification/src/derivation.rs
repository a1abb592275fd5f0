use crate::identity::Identity;
use vstd::prelude::*;

verus! {

broadcast use vstd::array::group_array_axioms;

/// What the ledger runtime's address derivation returns for the seed pair
/// `[tag, manager]` under `program`: the derived address and its
/// disambiguation (bump) value, or nothing when no value in the search
/// range yields an acceptable address. The result is a one-way function of
/// the three inputs alone, so it carries no definition here.
pub uninterp spec fn derivation_of(tag: Seq<u8>, program: Seq<u8>, manager: Seq<u8>) -> Option<
    (Seq<u8>, u8),
>;

/// Relies on solana_pubkey::Pubkey::try_find_program_address: the derived
/// address and bump seed are computed from the seeds and the program id
/// alone, and None comes back only when no bump seed is acceptable.
#[verifier::external_body]
fn try_find_vault_address(tag: &[u8], manager: &Identity, program: &Identity) -> (r: Option<
    (Identity, u8),
>)
    ensures
        r is Some <==> derivation_of(tag@, program@, manager@) is Some,
        r is Some ==> (r->Some_0.0@, r->Some_0.1) == derivation_of(
            tag@,
            program@,
            manager@,
        )->Some_0,
{
    let program_id = solana_pubkey::Pubkey::new_from_array(program.bytes);
    solana_pubkey::Pubkey::try_find_program_address(&[tag, &manager.bytes], &program_id).map(
        |found: (solana_pubkey::Pubkey, u8)| (Identity { bytes: found.0.to_bytes() }, found.1),
    )
}

/// The domain tag every vault derivation is namespaced under: the bytes of
/// "vault".
pub open spec fn spec_vault_tag() -> Seq<u8> {
    seq![118u8, 97u8, 117u8, 108u8, 116u8]
}

pub fn vault_tag() -> (r: Vec<u8>)
    ensures
        r@ == spec_vault_tag(),
{
    let mut tag: Vec<u8> = Vec::new();
    tag.push(118);
    tag.push(97);
    tag.push(117);
    tag.push(108);
    tag.push(116);
    proof {
        assert(tag@ =~= spec_vault_tag());
    }
    tag
}

/// The identity of the vault program itself, under which every vault
/// address is derived.
pub open spec fn spec_program_id() -> Seq<u8> {
    seq![
        211u8, 34u8, 42u8, 199u8, 231u8, 139u8, 185u8, 189u8, 7u8, 69u8, 73u8, 9u8, 192u8, 42u8,
        83u8, 10u8, 241u8, 48u8, 206u8, 158u8, 199u8, 197u8, 157u8, 215u8, 186u8, 28u8, 185u8,
        8u8, 188u8, 60u8, 228u8, 5u8,
    ]
}

pub fn program_id() -> (r: Identity)
    ensures
        r@ == spec_program_id(),
{
    let bytes: [u8; 32] = [
        211, 34, 42, 199, 231, 139, 185, 189, 7, 69, 73, 9, 192, 42, 83, 10, 241, 48, 206, 158,
        199, 197, 157, 215, 186, 28, 185, 8, 188, 60, 228, 5,
    ];
    proof {
        assert(bytes@ =~= spec_program_id());
    }
    Identity { bytes }
}

/// What `derive` yields for a manager: the vault derivation for the fixed
/// domain tag and program identity.
pub open spec fn spec_derive(manager: Seq<u8>) -> Option<(Seq<u8>, u8)> {
    derivation_of(spec_vault_tag(), spec_program_id(), manager)
}

/// The vault's authority over its own holding account: an address and the
/// disambiguation value that lets the runtime re-check the derivation from
/// public inputs. Recomputed on demand, never persisted.
#[derive(Clone, Copy, Debug)]
pub struct DerivedAuthority {
    pub address: Identity,
    pub bump: u8,
}

/// The authority is exactly the manager's derivation.
pub open spec fn authority_for(manager: Seq<u8>, authority: DerivedAuthority) -> bool {
    spec_derive(manager) == Some((authority.address@, authority.bump))
}

/// Derive the vault address and proof seed for a manager. Deterministic:
/// the result is a function of the manager identity alone.
pub fn derive(manager: &Identity) -> (r: Option<DerivedAuthority>)
    ensures
        r is Some <==> spec_derive(manager@) is Some,
        r is Some ==> authority_for(manager@, r->Some_0),
{
    let tag = vault_tag();
    let program = program_id();
    match try_find_vault_address(tag.as_slice(), manager, &program) {
        Some(found) => Some(DerivedAuthority { address: found.0, bump: found.1 }),
        None => None,
    }
}

} // verus!
