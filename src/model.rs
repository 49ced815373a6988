//! What verifying a justification decides, stated over the inputs' values.
use vstd::prelude::*;
use crate::ancestry::walk;
use crate::types::{
    same_vote, AuthorityId, AuthorityWeight, BlockHash, BlockNumber, Error, GrandpaJustification,
    JustificationVerificationContext, PrecommitError, SignedPrecommit,
};

verus! {

/// Index of the first entry at or after `from` that belongs to authority `id`.
pub open spec fn first_authority(auths: Seq<(AuthorityId, AuthorityWeight)>, id: Seq<u8>, from: int) -> Option<int>
    decreases auths.len() - from,
{
    if from < 0 || from >= auths.len() {
        None
    } else if auths[from].0@ == id {
        Some(from)
    } else {
        first_authority(auths, id, from + 1)
    }
}

/// The weight of authority `id` in the context, if it belongs to the set.
pub open spec fn authority_weight(ctx: JustificationVerificationContext, id: Seq<u8>) -> Option<int> {
    match first_authority(ctx.authorities@, id, 0) {
        None => None,
        Some(j) => Some(ctx.authorities@[j].1 as int),
    }
}

/// Index of the first vote at or after `from` cast by authority `id`.
pub open spec fn first_vote_by(votes: Seq<SignedPrecommit>, id: Seq<u8>, from: int) -> Option<int>
    decreases votes.len() - from,
{
    if from < 0 || from >= votes.len() {
        None
    } else if votes[from].id@ == id {
        Some(from)
    } else {
        first_vote_by(votes, id, from + 1)
    }
}

/// The walk of one vote back to the finalized target.
pub open spec fn vote_route(
    target: (BlockHash, BlockNumber),
    just: GrandpaJustification,
    p: SignedPrecommit,
) -> Option<Seq<Seq<u8>>> {
    walk(just.votes_ancestries@, p.target_hash@, p.target_number as int, target.0@, target.1 as int)
}

/// The working state after some votes: the votes accepted, the headers visited by their
/// walks, and their weight.
pub struct RunState {
    pub votes: Seq<SignedPrecommit>,
    pub visited: Seq<Seq<u8>>,
    pub weight: int,
}

/// The outcome of handling vote `i` in state `st`; `sigs[i]` tells whether its signature verifies.
pub open spec fn step(
    target: (BlockHash, BlockNumber),
    ctx: JustificationVerificationContext,
    just: GrandpaJustification,
    sigs: Seq<bool>,
    st: RunState,
    i: int,
) -> Result<RunState, Error> {
    let p = just.commit.precommits@[i];
    if !sigs[i] {
        Err(Error::Precommit(i as usize, PrecommitError::InvalidAuthoritySignature))
    } else {
        match authority_weight(ctx, p.id@) {
            None => Err(Error::Precommit(i as usize, PrecommitError::UnknownAuthorityVote)),
            Some(w) => match vote_route(target, just, p) {
                None => Err(Error::Precommit(i as usize, PrecommitError::UnrelatedAncestryVote)),
                Some(route) => match first_vote_by(st.votes, p.id@, 0) {
                    Some(a) => if same_vote(st.votes[a], p) {
                        Err(Error::Precommit(i as usize, PrecommitError::RedundantAuthorityVote))
                    } else {
                        Err(Error::Precommit(i as usize, PrecommitError::DuplicateAuthorityVote))
                    },
                    None => Ok(
                        RunState {
                            votes: st.votes.push(p),
                            visited: st.visited + route,
                            weight: st.weight + w,
                        },
                    ),
                },
            },
        }
    }
}

/// The state after the first `k` votes, or the error that stopped the run.
pub open spec fn run(
    target: (BlockHash, BlockNumber),
    ctx: JustificationVerificationContext,
    just: GrandpaJustification,
    sigs: Seq<bool>,
    k: nat,
) -> Result<RunState, Error>
    decreases k,
{
    if k == 0 {
        Ok(RunState { votes: Seq::empty(), visited: Seq::empty(), weight: 0 })
    } else {
        match run(target, ctx, just, sigs, (k - 1) as nat) {
            Err(e) => Err(e),
            Ok(st) => step(target, ctx, just, sigs, st, k - 1),
        }
    }
}

/// Whether some supplied ancestry header was visited by no accepted vote.
pub open spec fn has_unvisited_header(just: GrandpaJustification, visited: Seq<Seq<u8>>) -> bool {
    exists|k: int|
        0 <= k < just.votes_ancestries@.len() && !visited.contains(
            #[trigger] just.votes_ancestries@[k].hash@,
        )
}

/// The verdict on a justification, where `sigs[i]` tells whether the signature of vote `i`
/// verifies.
pub open spec fn verification_outcome(
    target: (BlockHash, BlockNumber),
    ctx: JustificationVerificationContext,
    just: GrandpaJustification,
    sigs: Seq<bool>,
) -> Result<(), Error> {
    match run(target, ctx, just, sigs, just.commit.precommits@.len()) {
        Err(e) => Err(e),
        Ok(st) => if st.weight < ctx.threshold {
            Err(Error::InsufficientSignedWeight)
        } else if has_unvisited_header(just, st.visited) {
            Err(Error::RedundantVotesAncestries)
        } else {
            Ok(())
        },
    }
}

/// Once a run has stopped on an error, handing it more votes does not change that error.
pub proof fn lemma_run_error_persists(
    target: (BlockHash, BlockNumber),
    ctx: JustificationVerificationContext,
    just: GrandpaJustification,
    sigs: Seq<bool>,
    k: nat,
    m: nat,
)
    requires
        k <= m,
        run(target, ctx, just, sigs, k) is Err,
    ensures
        run(target, ctx, just, sigs, m) == run(target, ctx, just, sigs, k),
    decreases m - k,
{
    if k < m {
        lemma_run_error_persists(target, ctx, just, sigs, k, (m - 1) as nat);
    }
}

/// What the search for an authority's vote finds: its first vote, or none at all.
pub proof fn lemma_first_vote_by(votes: Seq<SignedPrecommit>, id: Seq<u8>, from: int)
    requires
        0 <= from,
    ensures
        first_vote_by(votes, id, from) matches Some(a) ==> from <= a < votes.len() && votes[a].id@
            == id,
        first_vote_by(votes, id, from) is None ==> forall|j: int|
            from <= j < votes.len() ==> votes[j].id@ != id,
    decreases votes.len() - from,
{
    if from < votes.len() && votes[from].id@ != id {
        lemma_first_vote_by(votes, id, from + 1);
    }
}

} // verus!
