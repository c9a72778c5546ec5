use vstd::prelude::*;

use solana_program::pubkey::Pubkey;

use crate::error::SocialError;
use crate::ids::ActorId;

verus! {

/// What the external derivation returns for a given deriving program,
/// owner, seed label and optional index byte: the derived address and its
/// validity nonce (bump), or nothing when the bounded nonce search finds no
/// usable address.  The result is a pure function of these inputs alone.
pub uninterp spec fn derive_outcome(
    program: Seq<u8>,
    owner: Seq<u8>,
    label: Seq<u8>,
    index: Option<u8>,
) -> Option<(Seq<u8>, u8)>;

/// Relies on `solana_program::pubkey::Pubkey::try_find_program_address`: it
/// hashes the seeds (owner bytes, label bytes, the optional index byte, and a
/// bump byte searched over a bounded space) together with the program id into
/// a candidate address, rejecting candidates that collide with a signable
/// key; the computation depends on its arguments alone and it never panics,
/// returning `None` when no bump works.
#[verifier::external_body]
fn try_derive(program: &ActorId, owner: &ActorId, label: &Vec<u8>, index: Option<u8>) -> (r:
    Option<(ActorId, u8)>)
    requires
        program.wf(),
        owner.wf(),
    ensures
        match r {
            Some(p) => p.0.wf() && derive_outcome(program@, owner@, label@, index) == Some(
                (p.0@, p.1),
            ),
            None => derive_outcome(program@, owner@, label@, index) == None::<(Seq<u8>, u8)>,
        },
{
    let mut pid = [0u8; 32];
    pid.copy_from_slice(program.bytes.as_slice());
    let seeds = [owner.bytes.as_slice(), label.as_slice(), &[index.unwrap_or(0)]];
    let n = if index.is_some() { 3 } else { 2 };
    let found = Pubkey::try_find_program_address(&seeds[..n], &Pubkey::new_from_array(pid));
    match found {
        None => None,
        Some((address, bump)) => Some((ActorId { bytes: address.to_bytes().to_vec() }, bump)),
    }
}

/// Deterministic derivation of record addresses from an owner identifier and
/// a seed label.  No state.
pub struct AddressDeriver;

impl AddressDeriver {
    /// Derives the record address and validity nonce for `owner` under
    /// `label` (and an optional index byte), for the program named
    /// `program`.  Fails only when the bounded nonce search is exhausted.
    pub fn derive(program: &ActorId, owner: &ActorId, label: &Vec<u8>, index: Option<u8>) -> (r:
        Result<(ActorId, u8), SocialError>)
        requires
            program.wf(),
            owner.wf(),
        ensures
            match derive_outcome(program@, owner@, label@, index) {
                Some(p) => r matches Ok(q) && q.0@ == p.0 && q.1 == p.1 && q.0.wf(),
                None => r == Err::<(ActorId, u8), SocialError>(
                    SocialError::AddressDerivationExhausted,
                ),
            },
    {
        match try_derive(program, owner, label, index) {
            Some(pair) => Ok(pair),
            None => Err(SocialError::AddressDerivationExhausted),
        }
    }

    /// Recomputes the derivation and compares: true exactly when the claimed
    /// address is the derived one.  Callers creating or resolving a record
    /// call this before any write; a mismatch is rejected as
    /// `InvalidAddress` before anything is touched.
    pub fn verify(
        claimed: &ActorId,
        program: &ActorId,
        owner: &ActorId,
        label: &Vec<u8>,
        index: Option<u8>,
    ) -> (r: bool)
        requires
            program.wf(),
            owner.wf(),
        ensures
            r == (derive_outcome(program@, owner@, label@, index) matches Some(p) && p.0
                == claimed@),
    {
        match try_derive(program, owner, label, index) {
            Some(pair) => crate::ids::bytes_eq(&pair.0.bytes, &claimed.bytes),
            None => false,
        }
    }
}

/// Law: address derivation is deterministic.  Any two outcomes of the
/// derivation for identical inputs are identical, so repeated calls of
/// `AddressDeriver::derive` agree on both the address and the nonce.
pub proof fn lemma_derive_deterministic(
    program: Seq<u8>,
    owner: Seq<u8>,
    label: Seq<u8>,
    index: Option<u8>,
    r1: Option<(Seq<u8>, u8)>,
    r2: Option<(Seq<u8>, u8)>,
)
    requires
        r1 == derive_outcome(program, owner, label, index),
        r2 == derive_outcome(program, owner, label, index),
    ensures
        r1 == r2,
{
}

} // verus!
