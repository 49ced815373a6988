//! The strict policy, which rejects every unknown, repeated or superfluous vote, and the
//! engine that drives it over a justification.
use vstd::prelude::*;
use crate::ancestry::{ancestry_route, hashes_equal};
use crate::model::{
    authority_weight, first_authority, first_vote_by, has_unvisited_header, lemma_first_vote_by,
    lemma_run_error_persists, run, step, verification_outcome, RunState,
};
use crate::types::{
    hashes_view, same_vote, AuthorityId, AuthorityWeight, BlockHash, BlockNumber, Error,
    GrandpaJustification, IterationFlow, JustificationVerificationContext, PrecommitError,
    SignedPrecommit,
};

verus! {

/// Verification callbacks that reject all unknown, duplicate or redundant votes.
pub struct StrictJustificationVerifier {
    /// The votes accepted so far, at most one per authority.
    pub votes: Vec<SignedPrecommit>,
}

impl StrictJustificationVerifier {
    /// No authority has more than one accepted vote.
    pub open spec fn wf(&self) -> bool {
        forall|a: int, b: int|
            0 <= a < b < self.votes@.len() ==> self.votes@[a].id@ != self.votes@[b].id@
    }
}

/// Whether two votes are the same vote.
pub fn votes_equal(a: &SignedPrecommit, b: &SignedPrecommit) -> (r: bool)
    ensures
        r == same_vote(*a, *b),
{
    if !hashes_equal(&a.target_hash, &b.target_hash) || a.target_number != b.target_number
        || !hashes_equal(&a.id, &b.id) {
        return false;
    }
    let mut i: usize = 0;
    while i < 64
        invariant
            i <= 64,
            a.signature@.len() == 64,
            b.signature@.len() == 64,
            forall|j: int| 0 <= j < i ==> a.signature@[j] == b.signature@[j],
        decreases 64 - i,
    {
        if a.signature[i] != b.signature[i] {
            return false;
        }
        i = i + 1;
    }
    assert(a.signature@ =~= b.signature@);
    true
}

impl StrictJustificationVerifier {
    /// A verifier that has accepted no vote yet.
    pub fn new() -> (r: Self)
        ensures
            r.votes@ == Seq::<SignedPrecommit>::empty(),
            r.wf(),
    {
        StrictJustificationVerifier { votes: Vec::new() }
    }

    /// Index of the accepted vote of authority `id`, if there is one.
    pub fn earlier_vote(&self, id: &AuthorityId) -> (r: Option<usize>)
        ensures
            r matches Some(a) ==> a < self.votes@.len() && first_vote_by(self.votes@, id@, 0) == Some(
                a as int,
            ),
            r is None ==> first_vote_by(self.votes@, id@, 0) is None,
    {
        let mut i: usize = 0;
        while i < self.votes.len()
            invariant
                i <= self.votes@.len(),
                first_vote_by(self.votes@, id@, 0) == first_vote_by(self.votes@, id@, i as int),
            decreases self.votes@.len() - i,
        {
            if hashes_equal(&self.votes[i].id, id) {
                return Some(i);
            }
            i = i + 1;
        }
        None
    }

    /// The vote at `_precommit_idx` repeats an accepted vote: rejected.
    pub fn process_redundant_vote(&mut self, _precommit_idx: usize) -> (r: Result<
        IterationFlow,
        PrecommitError,
    >)
        ensures
            r == Err::<IterationFlow, PrecommitError>(PrecommitError::RedundantAuthorityVote),
            final(self).votes@ == old(self).votes@,
    {
        Err(PrecommitError::RedundantAuthorityVote)
    }

    /// The vote `signed` comes from an authority that may have voted already: rejected if it
    /// has.
    pub fn process_known_authority_vote(
        &mut self,
        _precommit_idx: usize,
        signed: &SignedPrecommit,
    ) -> (r: Result<IterationFlow, PrecommitError>)
        ensures
            r == if first_vote_by(old(self).votes@, signed.id@, 0) is Some {
                Err::<IterationFlow, PrecommitError>(PrecommitError::DuplicateAuthorityVote)
            } else {
                Ok::<IterationFlow, PrecommitError>(IterationFlow::Run)
            },
            final(self).votes@ == old(self).votes@,
    {
        if self.earlier_vote(&signed.id).is_some() {
            // Only the first vote of an authority is accepted.
            return Err(PrecommitError::DuplicateAuthorityVote);
        }
        Ok(IterationFlow::Run)
    }

    /// The vote at `_precommit_idx` is signed by an authority outside the set: rejected.
    pub fn process_unknown_authority_vote(&mut self, _precommit_idx: usize) -> (r: Result<
        (),
        PrecommitError,
    >)
        ensures
            r == Err::<(), PrecommitError>(PrecommitError::UnknownAuthorityVote),
            final(self).votes@ == old(self).votes@,
    {
        Err(PrecommitError::UnknownAuthorityVote)
    }

    /// The vote at `_precommit_idx` cannot be linked to the target: rejected.
    pub fn process_unrelated_ancestry_vote(&mut self, _precommit_idx: usize) -> (r: Result<
        IterationFlow,
        PrecommitError,
    >)
        ensures
            r == Err::<IterationFlow, PrecommitError>(PrecommitError::UnrelatedAncestryVote),
            final(self).votes@ == old(self).votes@,
    {
        Err(PrecommitError::UnrelatedAncestryVote)
    }

    /// The signature of the vote at `_precommit_idx` does not verify: rejected.
    pub fn process_invalid_signature_vote(&mut self, _precommit_idx: usize) -> (r: Result<
        (),
        PrecommitError,
    >)
        ensures
            r == Err::<(), PrecommitError>(PrecommitError::InvalidAuthoritySignature),
            final(self).votes@ == old(self).votes@,
    {
        Err(PrecommitError::InvalidAuthoritySignature)
    }

    /// The vote `signed` passed every check: its authority is recorded as having voted, unless
    /// a vote of that authority is recorded already.
    pub fn process_valid_vote(&mut self, signed: &SignedPrecommit)
        requires
            old(self).wf(),
        ensures
            final(self).votes@ == if first_vote_by(old(self).votes@, signed.id@, 0) is None {
                old(self).votes@.push(*signed)
            } else {
                old(self).votes@
            },
            final(self).wf(),
    {
        if self.earlier_vote(&signed.id).is_none() {
            proof {
                lemma_first_vote_by(self.votes@, signed.id@, 0);
            }
            self.votes.push(*signed);
        }
    }

    /// `redundant_votes_ancestries` are the headers that no accepted vote needed: rejected
    /// unless there are none.
    pub fn process_redundant_votes_ancestries(
        &mut self,
        redundant_votes_ancestries: Vec<BlockHash>,
    ) -> (r: Result<(), Error>)
        ensures
            r == if redundant_votes_ancestries@.len() == 0 {
                Ok::<(), Error>(())
            } else {
                Err::<(), Error>(Error::RedundantVotesAncestries)
            },
            final(self).votes@ == old(self).votes@,
    {
        if redundant_votes_ancestries.len() == 0 {
            Ok(())
        } else {
            Err(Error::RedundantVotesAncestries)
        }
    }
}

/// Weight of authority `id` in the context, if it belongs to the set.
pub fn find_authority_weight(context: &JustificationVerificationContext, id: &AuthorityId) -> (r:
    Option<AuthorityWeight>)
    ensures
        r matches Some(w) ==> authority_weight(*context, id@) == Some(w as int),
        r is None ==> authority_weight(*context, id@) is None,
{
    let mut i: usize = 0;
    while i < context.authorities.len()
        invariant
            i <= context.authorities@.len(),
            first_authority(context.authorities@, id@, 0) == first_authority(
                context.authorities@,
                id@,
                i as int,
            ),
        decreases context.authorities@.len() - i,
    {
        if hashes_equal(&context.authorities[i].0, id) {
            return Some(context.authorities[i].1);
        }
        i = i + 1;
    }
    None
}

/// Whether `h` is among `visited`.
fn hash_visited(visited: &Vec<BlockHash>, h: &BlockHash) -> (r: bool)
    ensures
        r == hashes_view(visited@).contains(h@),
{
    let mut i: usize = 0;
    while i < visited.len()
        invariant
            i <= visited@.len(),
            forall|j: int| 0 <= j < i ==> visited@[j]@ != h@,
        decreases visited@.len() - i,
    {
        if hashes_equal(&visited[i], h) {
            assert(hashes_view(visited@)[i as int] == h@);
            return true;
        }
        i = i + 1;
    }
    proof {
        if hashes_view(visited@).contains(h@) {
            let j = choose|j: int| 0 <= j < hashes_view(visited@).len() && hashes_view(visited@)[j] == h@;
            assert(visited@[j]@ == h@);
        }
    }
    false
}

/// The ancestry headers whose hashes are not among `visited`.
fn unvisited_headers(just: &GrandpaJustification, visited: &Vec<BlockHash>) -> (r: Vec<BlockHash>)
    ensures
        r@.len() > 0 <==> has_unvisited_header(*just, hashes_view(visited@)),
{
    let anc = &just.votes_ancestries;
    let mut out: Vec<BlockHash> = Vec::new();
    let mut k: usize = 0;
    while k < anc.len()
        invariant
            k <= anc@.len(),
            anc == &just.votes_ancestries,
            out@.len() > 0 <==> exists|j: int|
                0 <= j < k && !hashes_view(visited@).contains(#[trigger] anc@[j].hash@),
        decreases anc@.len() - k,
    {
        if !hash_visited(visited, &anc[k].hash) {
            out.push(anc[k].hash);
        }
        k = k + 1;
    }
    out
}

/// Verifies `justification` against `context` under the strict policy, where
/// `signatures_valid[i]` tells whether the signature of vote `i` verifies.
///
/// Votes are handled in order; the first one rejected decides the error. Then the
/// accepted weight must reach the threshold, and every ancestry header must lie on the
/// walk of some accepted vote.
pub fn verify_justification_with_signatures(
    finalized_target: (BlockHash, BlockNumber),
    context: &JustificationVerificationContext,
    justification: &GrandpaJustification,
    signatures_valid: &Vec<bool>,
) -> (r: Result<(), Error>)
    requires
        signatures_valid@.len() == justification.commit.precommits@.len(),
    ensures
        r == verification_outcome(finalized_target, *context, *justification, signatures_valid@),
{
    let ghost sigs = signatures_valid@;
    let ghost n = justification.commit.precommits@.len();
    let precommits = &justification.commit.precommits;
    let mut verifier = StrictJustificationVerifier::new();
    let mut visited: Vec<BlockHash> = Vec::new();
    let mut weight: u128 = 0;
    let mut i: usize = 0;
    assert(hashes_view(visited@) =~= Seq::<Seq<u8>>::empty());
    while i < precommits.len()
        invariant
            i <= n,
            n == precommits@.len(),
            precommits == &justification.commit.precommits,
            sigs == signatures_valid@,
            sigs.len() == n,
            verifier.wf(),
            weight as int <= i as int * 0xFFFF_FFFF_FFFF_FFFF,
            run(finalized_target, *context, *justification, sigs, i as nat) == Ok::<RunState, Error>(
                RunState {
                    votes: verifier.votes@,
                    visited: hashes_view(visited@),
                    weight: weight as int,
                },
            ),
        decreases n - i,
    {
        let p = &precommits[i];
        let ghost before = run(finalized_target, *context, *justification, sigs, i as nat);
        assert(run(finalized_target, *context, *justification, sigs, (i + 1) as nat) == step(
            finalized_target,
            *context,
            *justification,
            sigs,
            before->Ok_0,
            i as int,
        ));
        if !signatures_valid[i] {
            let rejected = verifier.process_invalid_signature_vote(i);
            proof {
                lemma_run_error_persists(finalized_target, *context, *justification, sigs, (i + 1) as nat, n);
            }
            return Err(Error::Precommit(i, rejected.unwrap_err()));
        }
        let w = match find_authority_weight(context, &p.id) {
            Some(w) => w,
            None => {
                let rejected = verifier.process_unknown_authority_vote(i);
                proof {
                    lemma_run_error_persists(finalized_target, *context, *justification, sigs, (i + 1) as nat, n);
                }
                return Err(Error::Precommit(i, rejected.unwrap_err()));
            },
        };
        let route = match ancestry_route(
            &justification.votes_ancestries,
            &p.target_hash,
            p.target_number,
            finalized_target,
        ) {
            Some(route) => route,
            None => {
                let rejected = verifier.process_unrelated_ancestry_vote(i);
                proof {
                    lemma_run_error_persists(finalized_target, *context, *justification, sigs, (i + 1) as nat, n);
                }
                return Err(Error::Precommit(i, rejected.unwrap_err()));
            },
        };
        if let Some(a) = verifier.earlier_vote(&p.id) {
            let rejected = if votes_equal(&verifier.votes[a], p) {
                verifier.process_redundant_vote(i)
            } else {
                verifier.process_known_authority_vote(i, p)
            };
            proof {
                lemma_run_error_persists(finalized_target, *context, *justification, sigs, (i + 1) as nat, n);
            }
            return Err(Error::Precommit(i, rejected.unwrap_err()));
        }
        let ghost old_visited = hashes_view(visited@);
        let ghost route_view = hashes_view(route@);
        verifier.process_valid_vote(p);
        let mut route = route;
        visited.append(&mut route);
        assert(hashes_view(visited@) =~= old_visited + route_view);
        assert(w <= 0xFFFF_FFFF_FFFF_FFFFu64);
        assert((i as int + 1) * 0xFFFF_FFFF_FFFF_FFFF == i as int * 0xFFFF_FFFF_FFFF_FFFF + 0xFFFF_FFFF_FFFF_FFFF) by (nonlinear_arith);
        assert((i as int + 1) * 0xFFFF_FFFF_FFFF_FFFF <= 0xFFFF_FFFF_FFFF_FFFF * 0xFFFF_FFFF_FFFF_FFFF) by (nonlinear_arith)
            requires i as int + 1 <= 0xFFFF_FFFF_FFFF_FFFF;
        weight = weight + w as u128;
        i = i + 1;
    }
    if weight < context.threshold as u128 {
        return Err(Error::InsufficientSignedWeight);
    }
    let unvisited = unvisited_headers(justification, &visited);
    verifier.process_redundant_votes_ancestries(unvisited)
}

} // verus!
