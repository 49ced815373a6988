//! Signature checks of votes, and verification of a justification as received.
use vstd::prelude::*;
use crate::model::verification_outcome;
use crate::strict::verify_justification_with_signatures;
use crate::types::{
    AuthorityId, AuthoritySignature, BlockHash, BlockNumber, Error, GrandpaJustification,
    JustificationVerificationContext, RoundNumber, SetId, SignedPrecommit,
};
use sp_consensus_grandpa::{Message, Precommit};
use sp_runtime::generic::Header as GenericHeader;
use sp_runtime::traits::BlakeTwo256;

verus! {

/// The `len` bytes of `x` in little-endian order, lowest first.
pub open spec fn le_bytes(x: nat, len: nat) -> Seq<u8>
    decreases len,
{
    if len == 0 {
        Seq::empty()
    } else {
        seq![(x % 256) as u8] + le_bytes(x / 256, (len - 1) as nat)
    }
}

/// The bytes an authority signs for a precommit of block `(target_hash, target_number)`
/// in round `round` of authority set `set_id`: the message tag of a precommit (1), the
/// target hash, then the target number, the round and the set id in little-endian order.
pub open spec fn precommit_payload(
    target_hash: Seq<u8>,
    target_number: BlockNumber,
    round: RoundNumber,
    set_id: SetId,
) -> Seq<u8> {
    seq![1u8] + target_hash + le_bytes(target_number as nat, 4) + le_bytes(round as nat, 8)
        + le_bytes(set_id as nat, 8)
}

/// Whether `signature` is a valid ed25519 signature of `message` by key `id`.
pub uninterp spec fn ed25519_signature_valid(id: Seq<u8>, signature: Seq<u8>, message: Seq<u8>) -> bool;

/// Relies on sp_consensus_grandpa::localized_payload: it SCALE-encodes the tuple of the
/// precommit message, `round` and `set_id`; the message is its variant index (1 for a
/// precommit) followed by the target's hash bytes and its number, integers little-endian.
#[verifier::external_body]
fn localized_precommit_payload(vote: &SignedPrecommit, round: RoundNumber, set_id: SetId) -> (r: Vec<u8>)
    ensures
        r@ == precommit_payload(vote.target_hash@, vote.target_number, round, set_id),
{
    let message = Message::<GenericHeader<BlockNumber, BlakeTwo256>>::Precommit(Precommit::<
        GenericHeader<BlockNumber, BlakeTwo256>,
    > { target_hash: sp_core::H256::from(vote.target_hash), target_number: vote.target_number });
    sp_consensus_grandpa::localized_payload(round, set_id, &message)
}

/// Relies on sp_core::ed25519::Pair's `Pair::verify`: it checks the signature with
/// ed25519-zebra and returns false for a malformed key or signature; the verdict depends on
/// the key, the signature and the message alone.
#[verifier::external_body]
fn ed25519_verify(id: &AuthorityId, signature: &AuthoritySignature, message: &Vec<u8>) -> (r: bool)
    ensures
        r == ed25519_signature_valid(id@, signature@, message@),
{
    <sp_core::ed25519::Pair as sp_core::Pair>::verify(
        &sp_core::ed25519::Signature::from_raw(*signature),
        message.as_slice(),
        &sp_core::ed25519::Public::from_raw(*id),
    )
}

/// The signature verdict of each vote of `just`: its ed25519 signature of the precommit
/// payload for the justification's round and the context's set.
pub open spec fn signature_verdicts(
    ctx: JustificationVerificationContext,
    just: GrandpaJustification,
) -> Seq<bool> {
    Seq::new(
        just.commit.precommits@.len(),
        |i: int|
            ed25519_signature_valid(
                just.commit.precommits@[i].id@,
                just.commit.precommits@[i].signature@,
                precommit_payload(
                    just.commit.precommits@[i].target_hash@,
                    just.commit.precommits@[i].target_number,
                    just.round,
                    ctx.authority_set_id,
                ),
            ),
    )
}

/// Verify that justification, that is generated by given authority set, finalizes given header.
pub fn verify_justification(
    finalized_target: (BlockHash, BlockNumber),
    context: &JustificationVerificationContext,
    justification: &GrandpaJustification,
) -> (r: Result<(), Error>)
    ensures
        r == verification_outcome(
            finalized_target,
            *context,
            *justification,
            signature_verdicts(*context, *justification),
        ),
{
    let precommits = &justification.commit.precommits;
    let mut verdicts: Vec<bool> = Vec::new();
    let mut i: usize = 0;
    while i < precommits.len()
        invariant
            i <= precommits@.len(),
            precommits == &justification.commit.precommits,
            verdicts@ == signature_verdicts(*context, *justification).take(i as int),
        decreases precommits@.len() - i,
    {
        let vote = &precommits[i];
        let payload = localized_precommit_payload(vote, justification.round, context.authority_set_id);
        let ok = ed25519_verify(&vote.id, &vote.signature, &payload);
        verdicts.push(ok);
        assert(verdicts@ =~= signature_verdicts(*context, *justification).take(i + 1));
        i = i + 1;
    }
    assert(verdicts@ =~= signature_verdicts(*context, *justification));
    verify_justification_with_signatures(finalized_target, context, justification, &verdicts)
}

} // verus!
