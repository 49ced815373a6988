//! Data carried by a finality proof and by the context it is checked against.
use vstd::prelude::*;

verus! {

/// Hash of a block header.
pub type BlockHash = [u8; 32];

/// Ordinal of a block within its chain.
pub type BlockNumber = u32;

/// Public key of a finality authority (ed25519).
pub type AuthorityId = [u8; 32];

/// Signature of a finality authority (ed25519).
pub type AuthoritySignature = [u8; 64];

/// Voting weight of an authority.
pub type AuthorityWeight = u64;

/// Number of a voting round.
pub type RoundNumber = u64;

/// Identifier of an authority set.
pub type SetId = u64;

/// A block header as far as the ancestry walk needs it: its identity and its parent link.
#[derive(Clone, Copy, Debug)]
pub struct Header {
    pub hash: BlockHash,
    pub number: BlockNumber,
    pub parent_hash: BlockHash,
}

/// One authority's signed vote for a block.
#[derive(Clone, Copy, Debug)]
pub struct SignedPrecommit {
    pub target_hash: BlockHash,
    pub target_number: BlockNumber,
    pub id: AuthorityId,
    pub signature: AuthoritySignature,
}

/// The block a justification finalizes, with the votes for it.
#[derive(Clone, Debug)]
pub struct Commit {
    pub target_hash: BlockHash,
    pub target_number: BlockNumber,
    pub precommits: Vec<SignedPrecommit>,
}

/// A finality proof: the commit of one round and the headers that link its votes to the target.
#[derive(Clone, Debug)]
pub struct GrandpaJustification {
    pub round: RoundNumber,
    pub commit: Commit,
    pub votes_ancestries: Vec<Header>,
}

/// The authority set a justification is checked against.
///
/// `authorities` maps each authority to its weight; where an id is listed more than once,
/// its first entry counts.
#[derive(Clone, Debug)]
pub struct JustificationVerificationContext {
    pub authorities: Vec<(AuthorityId, AuthorityWeight)>,
    pub threshold: u64,
    pub authority_set_id: SetId,
}

/// Why a single vote was not accepted.
#[derive(Clone, Copy, Debug, PartialEq, Eq, Structural)]
pub enum PrecommitError {
    /// The same vote appears twice.
    RedundantAuthorityVote,
    /// The vote is signed by an authority outside the set.
    UnknownAuthorityVote,
    /// An authority whose vote was already accepted votes again, differently.
    DuplicateAuthorityVote,
    /// The signature does not verify.
    InvalidAuthoritySignature,
    /// The voted block cannot be linked to the finalized target.
    UnrelatedAncestryVote,
}

/// Why a justification was rejected.
#[derive(Clone, Copy, Debug, PartialEq, Eq, Structural)]
pub enum Error {
    /// The vote at the given index was rejected.
    Precommit(usize, PrecommitError),
    /// The accepted votes do not reach the threshold.
    InsufficientSignedWeight,
    /// Some ancestry header is used by no accepted vote.
    RedundantVotesAncestries,
}

/// What the engine does after a vote was handled without error.
#[derive(Clone, Copy, Debug, PartialEq, Eq, Structural)]
pub enum IterationFlow {
    /// Go on handling this vote.
    Run,
    /// Leave this vote out and go on with the next one.
    Skip,
}

/// The hashes of a sequence of hashes, as byte sequences.
pub open spec fn hashes_view(v: Seq<BlockHash>) -> Seq<Seq<u8>> {
    v.map_values(|h: BlockHash| h@)
}

/// Two votes are the same vote: every field agrees.
pub open spec fn same_vote(a: SignedPrecommit, b: SignedPrecommit) -> bool {
    &&& a.target_hash@ == b.target_hash@
    &&& a.target_number == b.target_number
    &&& a.id@ == b.id@
    &&& a.signature@ == b.signature@
}

} // verus!
