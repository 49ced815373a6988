use grandpa_justification::signature::verify_justification;
use grandpa_justification::strict::{verify_justification_with_signatures, StrictJustificationVerifier};
use grandpa_justification::types::{
    Commit, Error, GrandpaJustification, Header, IterationFlow, JustificationVerificationContext,
    PrecommitError, SignedPrecommit,
};
use sp_core::Pair;

const ROUND: u64 = 1;
const SET_ID: u64 = 0;
const TARGET_HASH: [u8; 32] = [0xaa; 32];
const TARGET_NUMBER: u32 = 10;

fn keypair(k: u8) -> sp_core::ed25519::Pair {
    sp_core::ed25519::Pair::from_seed(&[k; 32])
}

fn authority(k: u8) -> [u8; 32] {
    keypair(k).public().0
}

fn signed_vote(k: u8, target_hash: [u8; 32], target_number: u32) -> SignedPrecommit {
    let message = sp_consensus_grandpa::Message::<
        sp_runtime::generic::Header<u32, sp_runtime::traits::BlakeTwo256>,
    >::Precommit(sp_consensus_grandpa::Precommit::<
        sp_runtime::generic::Header<u32, sp_runtime::traits::BlakeTwo256>,
    > {
        target_hash: sp_core::H256::from(target_hash),
        target_number,
    });
    let payload = sp_consensus_grandpa::localized_payload(ROUND, SET_ID, &message);
    let signature = keypair(k).sign(&payload);
    SignedPrecommit { target_hash, target_number, id: authority(k), signature: signature.0 }
}

fn four_authorities() -> JustificationVerificationContext {
    JustificationVerificationContext {
        authorities: vec![(authority(1), 1), (authority(2), 1), (authority(3), 1), (authority(4), 1)],
        threshold: 3,
        authority_set_id: SET_ID,
    }
}

fn justification(precommits: Vec<SignedPrecommit>, votes_ancestries: Vec<Header>) -> GrandpaJustification {
    GrandpaJustification {
        round: ROUND,
        commit: Commit { target_hash: TARGET_HASH, target_number: TARGET_NUMBER, precommits },
        votes_ancestries,
    }
}

fn direct_votes(keys: &[u8]) -> Vec<SignedPrecommit> {
    keys.iter().map(|k| signed_vote(*k, TARGET_HASH, TARGET_NUMBER)).collect()
}

fn target() -> ([u8; 32], u32) {
    (TARGET_HASH, TARGET_NUMBER)
}

#[test]
fn three_distinct_direct_votes_are_accepted() {
    let just = justification(direct_votes(&[1, 2, 3]), vec![]);
    assert_eq!(verify_justification(target(), &four_authorities(), &just), Ok(()));
}

#[test]
fn corrupted_signature_is_rejected() {
    let mut votes = direct_votes(&[1, 2, 3]);
    votes[1].signature[0] ^= 1;
    let just = justification(votes, vec![]);
    assert_eq!(
        verify_justification(target(), &four_authorities(), &just),
        Err(Error::Precommit(1, PrecommitError::InvalidAuthoritySignature))
    );
}

#[test]
fn signature_for_another_set_is_rejected() {
    let just = justification(direct_votes(&[1, 2, 3]), vec![]);
    let mut ctx = four_authorities();
    ctx.authority_set_id = 7;
    assert_eq!(
        verify_justification(target(), &ctx, &just),
        Err(Error::Precommit(0, PrecommitError::InvalidAuthoritySignature))
    );
}

#[test]
fn equivocating_authority_is_rejected() {
    let child = [0xbb; 32];
    let mut votes = direct_votes(&[1, 2, 3]);
    votes.push(signed_vote(2, child, TARGET_NUMBER + 1));
    let ancestry = vec![Header { hash: child, number: TARGET_NUMBER + 1, parent_hash: TARGET_HASH }];
    let just = justification(votes, ancestry);
    assert_eq!(
        verify_justification(target(), &four_authorities(), &just),
        Err(Error::Precommit(3, PrecommitError::DuplicateAuthorityVote))
    );
}

#[test]
fn repeated_vote_is_rejected() {
    let mut votes = direct_votes(&[1, 2, 3]);
    votes.push(votes[0]);
    let just = justification(votes, vec![]);
    assert_eq!(
        verify_justification(target(), &four_authorities(), &just),
        Err(Error::Precommit(3, PrecommitError::RedundantAuthorityVote))
    );
}

#[test]
fn unused_ancestry_header_is_rejected() {
    let extra = Header { hash: [0xcc; 32], number: TARGET_NUMBER + 1, parent_hash: TARGET_HASH };
    let just = justification(direct_votes(&[1, 2, 3]), vec![extra]);
    assert_eq!(
        verify_justification(target(), &four_authorities(), &just),
        Err(Error::RedundantVotesAncestries)
    );
}

#[test]
fn too_few_votes_are_rejected() {
    let just = justification(direct_votes(&[1, 2]), vec![]);
    assert_eq!(
        verify_justification(target(), &four_authorities(), &just),
        Err(Error::InsufficientSignedWeight)
    );
}

#[test]
fn unknown_authority_is_rejected() {
    let just = justification(direct_votes(&[1, 9, 2, 3]), vec![]);
    assert_eq!(
        verify_justification(target(), &four_authorities(), &just),
        Err(Error::Precommit(1, PrecommitError::UnknownAuthorityVote))
    );
}

#[test]
fn unknown_authority_is_rejected_even_with_quorum() {
    let just = justification(direct_votes(&[1, 2, 3, 9]), vec![]);
    assert_eq!(
        verify_justification(target(), &four_authorities(), &just),
        Err(Error::Precommit(3, PrecommitError::UnknownAuthorityVote))
    );
}

#[test]
fn votes_linked_through_ancestry_are_accepted() {
    let child = [0xbb; 32];
    let grandchild = [0xbc; 32];
    let votes = vec![
        signed_vote(1, TARGET_HASH, TARGET_NUMBER),
        signed_vote(2, child, TARGET_NUMBER + 1),
        signed_vote(3, grandchild, TARGET_NUMBER + 2),
    ];
    let ancestry = vec![
        Header { hash: grandchild, number: TARGET_NUMBER + 2, parent_hash: child },
        Header { hash: child, number: TARGET_NUMBER + 1, parent_hash: TARGET_HASH },
    ];
    let just = justification(votes, ancestry);
    assert_eq!(verify_justification(target(), &four_authorities(), &just), Ok(()));
}

#[test]
fn vote_with_missing_parent_is_unrelated() {
    let stray = [0xdd; 32];
    let mut votes = direct_votes(&[1, 2, 3]);
    votes.push(signed_vote(4, stray, TARGET_NUMBER + 1));
    let just = justification(votes, vec![]);
    assert_eq!(
        verify_justification(target(), &four_authorities(), &just),
        Err(Error::Precommit(3, PrecommitError::UnrelatedAncestryVote))
    );
}

#[test]
fn vote_below_target_is_unrelated() {
    let mut votes = direct_votes(&[1, 2, 3]);
    votes.push(signed_vote(4, [0xee; 32], TARGET_NUMBER - 1));
    let just = justification(votes, vec![]);
    assert_eq!(
        verify_justification(target(), &four_authorities(), &just),
        Err(Error::Precommit(3, PrecommitError::UnrelatedAncestryVote))
    );
}

#[test]
fn weights_count_toward_threshold() {
    let mut ctx = four_authorities();
    ctx.authorities[0].1 = 5;
    ctx.threshold = 6;
    let just = justification(direct_votes(&[1, 2]), vec![]);
    assert_eq!(verify_justification(target(), &ctx, &just), Ok(()));
    let just = justification(direct_votes(&[2, 3, 4]), vec![]);
    assert_eq!(verify_justification(target(), &ctx, &just), Err(Error::InsufficientSignedWeight));
}

#[test]
fn verifying_twice_gives_the_same_result() {
    let ctx = four_authorities();
    let good = justification(direct_votes(&[1, 2, 3]), vec![]);
    let bad = justification(direct_votes(&[1, 2]), vec![]);
    let before = format!("{:?}{:?}", ctx, good);
    assert_eq!(verify_justification(target(), &ctx, &good), Ok(()));
    assert_eq!(verify_justification(target(), &ctx, &bad), Err(Error::InsufficientSignedWeight));
    assert_eq!(verify_justification(target(), &ctx, &good), Ok(()));
    assert_eq!(verify_justification(target(), &ctx, &bad), Err(Error::InsufficientSignedWeight));
    assert_eq!(format!("{:?}{:?}", ctx, good), before);
}

#[test]
fn empty_justification_with_zero_threshold_is_accepted() {
    let ctx = JustificationVerificationContext { authorities: vec![], threshold: 0, authority_set_id: SET_ID };
    let just = justification(vec![], vec![]);
    assert_eq!(verify_justification(target(), &ctx, &just), Ok(()));
}

#[test]
fn given_signature_verdicts_decide_the_signature_check() {
    let just = justification(direct_votes(&[1, 2, 3]), vec![]);
    let ctx = four_authorities();
    assert_eq!(verify_justification_with_signatures(target(), &ctx, &just, &vec![true, true, true]), Ok(()));
    assert_eq!(
        verify_justification_with_signatures(target(), &ctx, &just, &vec![true, true, false]),
        Err(Error::Precommit(2, PrecommitError::InvalidAuthoritySignature))
    );
}

#[test]
fn largest_weights_do_not_overflow() {
    let ctx = JustificationVerificationContext {
        authorities: vec![(authority(1), u64::MAX), (authority(2), u64::MAX)],
        threshold: u64::MAX,
        authority_set_id: SET_ID,
    };
    let just = justification(direct_votes(&[1, 2]), vec![]);
    assert_eq!(verify_justification_with_signatures(target(), &ctx, &just, &vec![true, true]), Ok(()));
}

#[test]
fn strict_policy_rejects_every_fault() {
    let mut verifier = StrictJustificationVerifier::new();
    let vote = signed_vote(1, TARGET_HASH, TARGET_NUMBER);
    assert_eq!(verifier.process_known_authority_vote(0, &vote), Ok(IterationFlow::Run));
    verifier.process_valid_vote(&vote);
    assert_eq!(verifier.votes.len(), 1);
    assert_eq!(verifier.process_known_authority_vote(1, &vote), Err(PrecommitError::DuplicateAuthorityVote));
    assert_eq!(verifier.process_redundant_vote(1), Err(PrecommitError::RedundantAuthorityVote));
    assert_eq!(verifier.process_unknown_authority_vote(1), Err(PrecommitError::UnknownAuthorityVote));
    assert_eq!(verifier.process_unrelated_ancestry_vote(1), Err(PrecommitError::UnrelatedAncestryVote));
    assert_eq!(verifier.process_invalid_signature_vote(1), Err(PrecommitError::InvalidAuthoritySignature));
    assert_eq!(verifier.process_redundant_votes_ancestries(vec![]), Ok(()));
    assert_eq!(
        verifier.process_redundant_votes_ancestries(vec![[1; 32]]),
        Err(Error::RedundantVotesAncestries)
    );
}

#[test]
fn precommit_payload_has_the_stated_layout() {
    let hash = [0x5a; 32];
    let message = sp_consensus_grandpa::Message::<
        sp_runtime::generic::Header<u32, sp_runtime::traits::BlakeTwo256>,
    >::Precommit(sp_consensus_grandpa::Precommit::<
        sp_runtime::generic::Header<u32, sp_runtime::traits::BlakeTwo256>,
    > {
        target_hash: sp_core::H256::from(hash),
        target_number: 0x0102_0304,
    });
    let payload = sp_consensus_grandpa::localized_payload(0x1112_1314_1516_1718, 0x2122_2324_2526_2728, &message);
    let mut expected = vec![1u8];
    expected.extend_from_slice(&hash);
    expected.extend_from_slice(&[0x04, 0x03, 0x02, 0x01]);
    expected.extend_from_slice(&[0x18, 0x17, 0x16, 0x15, 0x14, 0x13, 0x12, 0x11]);
    expected.extend_from_slice(&[0x28, 0x27, 0x26, 0x25, 0x24, 0x23, 0x22, 0x21]);
    assert_eq!(payload, expected);
}

#[test]
fn recording_an_authority_twice_keeps_one_vote() {
    let mut verifier = StrictJustificationVerifier::new();
    let first = signed_vote(1, TARGET_HASH, TARGET_NUMBER);
    let second = signed_vote(1, [0xbb; 32], TARGET_NUMBER + 1);
    verifier.process_valid_vote(&first);
    verifier.process_valid_vote(&second);
    assert_eq!(verifier.votes.len(), 1);
    assert_eq!(verifier.votes[0].target_hash, TARGET_HASH);
    verifier.process_valid_vote(&signed_vote(2, TARGET_HASH, TARGET_NUMBER));
    assert_eq!(verifier.votes.len(), 2);
}
