use vstd::prelude::*;

use crate::identity::{Address, Identity};

verus! {

/// The namespace tag under which every record address is derived:
/// the ASCII bytes of `"user"`.
pub open spec fn user_seed_tag() -> Seq<u8> {
    seq![117u8, 115u8, 101u8, 114u8]
}

/// The 32-byte id of the hosting program, the last ingredient of the
/// address derivation.
pub open spec fn program_id_seq() -> Seq<u8> {
    seq![
        240u8, 230u8, 9u8, 129u8, 213u8, 16u8, 210u8, 164u8,
        57u8, 196u8, 137u8, 119u8, 117u8, 149u8, 64u8, 197u8,
        153u8, 130u8, 250u8, 193u8, 78u8, 10u8, 16u8, 3u8,
        123u8, 179u8, 135u8, 167u8, 195u8, 69u8, 166u8, 68u8,
    ]
}

/// The namespace tag as an executable value.
pub fn user_seed_bytes() -> (r: [u8; 4])
    ensures
        r@ == user_seed_tag(),
{
    let r: [u8; 4] = [117u8, 115u8, 101u8, 114u8];
    proof {
        assert(r@ =~= user_seed_tag());
    }
    r
}

/// The program id as an executable value.
pub fn program_id_bytes() -> (r: [u8; 32])
    ensures
        r@ == program_id_seq(),
{
    let r: [u8; 32] = [
        240u8, 230u8, 9u8, 129u8, 213u8, 16u8, 210u8, 164u8,
        57u8, 196u8, 137u8, 119u8, 117u8, 149u8, 64u8, 197u8,
        153u8, 130u8, 250u8, 193u8, 78u8, 10u8, 16u8, 3u8,
        123u8, 179u8, 135u8, 167u8, 195u8, 69u8, 166u8, 68u8,
    ];
    proof {
        assert(r@ =~= program_id_seq());
    }
    r
}

/// What the host's address derivation returns for a seed tag, an owner key
/// and a program id: the canonical derived address and its nonce, or nothing
/// when no nonce in range yields a derived address. The derivation is a pure
/// function of these three arguments.
pub uninterp spec fn pda_of(tag: Seq<u8>, owner: Seq<u8>, program: Seq<u8>) -> Option<(Seq<u8>, u8)>;

/// Relies on `Pubkey::try_find_program_address` (re-exported by
/// `anchor_lang`): for given seeds and program id it deterministically
/// returns the canonical derived address and bump nonce, or `None` when no
/// bump in range yields one.
#[verifier::external_body]
fn try_find_pda(tag: &[u8], owner: &[u8; 32], program: &[u8; 32]) -> (r: Option<([u8; 32], u8)>)
    ensures
        (match r {
            Some((addr, nonce)) => pda_of(tag@, owner@, program@) == Some((addr@, nonce)),
            None => pda_of(tag@, owner@, program@) is None,
        }),
{
    let program_pk = anchor_lang::solana_program::pubkey::Pubkey::new_from_array(*program);
    anchor_lang::solana_program::pubkey::Pubkey::try_find_program_address(
        &[tag, owner.as_slice()],
        &program_pk,
    ).map(|(addr, nonce)| (addr.to_bytes(), nonce))
}

/// The derivation this library uses: the `"user"` tag, the owner's key and
/// the program id.
pub open spec fn derived(owner: Seq<u8>) -> Option<(Seq<u8>, u8)> {
    pda_of(user_seed_tag(), owner, program_id_seq())
}

/// The mathematical value of a derivation result.
pub open spec fn derive_result_view(r: Option<(Address, u8)>) -> Option<(Seq<u8>, u8)> {
    match r {
        Some((addr, nonce)) => Some((addr@, nonce)),
        None => None,
    }
}

/// Derives the unique record address for an identity, together with the
/// derivation nonce that proves it. Returns `None` only when no nonce in
/// range yields a derived address for this identity.
pub fn derive_address(owner: &Identity) -> (r: Option<(Address, u8)>)
    ensures
        derive_result_view(r) == derived(owner@),
{
    let tag: [u8; 4] = user_seed_bytes();
    let program: [u8; 32] = program_id_bytes();
    match try_find_pda(tag.as_slice(), &owner.bytes, &program) {
        Some((addr, nonce)) => Some((Address { bytes: addr }, nonce)),
        None => None,
    }
}

/// Law: address derivation is idempotent — any two results that
/// `derive_address` returns for the same identity are the same pair.
pub proof fn lemma_derive_address_idempotent(
    owner: Identity,
    r1: Option<(Address, u8)>,
    r2: Option<(Address, u8)>,
)
    requires
        derive_result_view(r1) == derived(owner@),
        derive_result_view(r2) == derived(owner@),
    ensures
        derive_result_view(r1) == derive_result_view(r2),
{
}

} // verus!
