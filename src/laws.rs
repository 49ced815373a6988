//! What holds of every verification: which justifications are accepted, and which error
//! each kind of fault brings.
use vstd::prelude::*;
use crate::model::{
    authority_weight, first_vote_by, lemma_first_vote_by, has_unvisited_header, run, verification_outcome,
    vote_route, RunState,
};
use crate::signature::signature_verdicts;
use crate::types::{
    same_vote, BlockHash, BlockNumber, Error, GrandpaJustification,
    JustificationVerificationContext, PrecommitError, SignedPrecommit,
};

verus! {

/// Vote `i` is signed, comes from an authority of the set and links to the target.
pub open spec fn vote_acceptable(
    target: (BlockHash, BlockNumber),
    ctx: JustificationVerificationContext,
    just: GrandpaJustification,
    sigs: Seq<bool>,
    i: int,
) -> bool {
    let p = just.commit.precommits@[i];
    &&& sigs[i]
    &&& authority_weight(ctx, p.id@) is Some
    &&& vote_route(target, just, p) is Some
}

/// Every vote before `k` is acceptable.
pub open spec fn votes_acceptable(
    target: (BlockHash, BlockNumber),
    ctx: JustificationVerificationContext,
    just: GrandpaJustification,
    sigs: Seq<bool>,
    k: int,
) -> bool {
    forall|i: int| 0 <= i < k ==> vote_acceptable(target, ctx, just, sigs, i)
}

/// The votes before `k` come from pairwise distinct authorities.
pub open spec fn distinct_voters(just: GrandpaJustification, k: int) -> bool {
    forall|a: int, b: int|
        0 <= a < b < k ==> just.commit.precommits@[a].id@ != just.commit.precommits@[b].id@
}

/// The summed weight of the authorities of the votes before `k`.
pub open spec fn votes_weight(
    ctx: JustificationVerificationContext,
    just: GrandpaJustification,
    k: nat,
) -> int
    decreases k,
{
    if k == 0 {
        0
    } else {
        votes_weight(ctx, just, (k - 1) as nat) + match authority_weight(
            ctx,
            just.commit.precommits@[k - 1].id@,
        ) {
            Some(w) => w,
            None => 0,
        }
    }
}

/// The headers passed by the walks of the votes before `k`, in order.
pub open spec fn votes_routes(
    target: (BlockHash, BlockNumber),
    just: GrandpaJustification,
    k: nat,
) -> Seq<Seq<u8>>
    decreases k,
{
    if k == 0 {
        Seq::empty()
    } else {
        votes_routes(target, just, (k - 1) as nat) + match vote_route(
            target,
            just,
            just.commit.precommits@[k - 1],
        ) {
            Some(r) => r,
            None => Seq::empty(),
        }
    }
}

/// Header hash `h` lies on the walk of some vote before `k`.
pub open spec fn on_some_route(
    target: (BlockHash, BlockNumber),
    just: GrandpaJustification,
    k: int,
    h: Seq<u8>,
) -> bool {
    exists|i: int|
        0 <= i < k && match #[trigger] vote_route(target, just, just.commit.precommits@[i]) {
            Some(r) => r.contains(h),
            None => false,
        }
}

proof fn lemma_routes_contain(target: (BlockHash, BlockNumber), just: GrandpaJustification, k: nat, h: Seq<u8>)
    requires
        k <= just.commit.precommits@.len(),
    ensures
        votes_routes(target, just, k).contains(h) <==> on_some_route(target, just, k as int, h),
    decreases k,
{
    if k > 0 {
        lemma_routes_contain(target, just, (k - 1) as nat, h);
        let prev = votes_routes(target, just, (k - 1) as nat);
        let last = match vote_route(target, just, just.commit.precommits@[k - 1]) {
            Some(r) => r,
            None => Seq::empty(),
        };
        assert(votes_routes(target, just, k) == prev + last);
        if (prev + last).contains(h) {
            let j = choose|j: int| 0 <= j < (prev + last).len() && (prev + last)[j] == h;
            if j < prev.len() {
                assert(prev[j] == h);
            } else {
                assert(last[j - prev.len()] == h);
                assert(vote_route(target, just, just.commit.precommits@[k - 1]) is Some);
            }
        }
        if on_some_route(target, just, k as int, h) {
            let i = choose|i: int|
                0 <= i < k && match #[trigger] vote_route(target, just, just.commit.precommits@[i]) {
                    Some(r) => r.contains(h),
                    None => false,
                };
            if i == k - 1 {
                let j = choose|j: int| 0 <= j < last.len() && last[j] == h;
                assert((prev + last)[prev.len() + j] == h);
            } else {
                assert(on_some_route(target, just, k - 1, h));
                let j = choose|j: int| 0 <= j < prev.len() && prev[j] == h;
                assert((prev + last)[j] == h);
            }
        }
    }
}

/// The run over the first `k` votes succeeds exactly when each of them is acceptable and
/// their authorities are distinct; it then has accepted all of them, with their summed
/// weight and the headers of their walks.
pub proof fn lemma_run_accepts_prefix(
    target: (BlockHash, BlockNumber),
    ctx: JustificationVerificationContext,
    just: GrandpaJustification,
    sigs: Seq<bool>,
    k: nat,
)
    requires
        k <= just.commit.precommits@.len(),
        sigs.len() == just.commit.precommits@.len(),
    ensures
        run(target, ctx, just, sigs, k) is Ok <==> (votes_acceptable(target, ctx, just, sigs, k as int)
            && distinct_voters(just, k as int)),
        run(target, ctx, just, sigs, k) is Ok ==> run(target, ctx, just, sigs, k) == Ok::<
            RunState,
            Error,
        >(
            RunState {
                votes: just.commit.precommits@.take(k as int),
                visited: votes_routes(target, just, k),
                weight: votes_weight(ctx, just, k),
            },
        ),
    decreases k,
{
    if k > 0 {
        let i = k - 1;
        lemma_run_accepts_prefix(target, ctx, just, sigs, (k - 1) as nat);
        let precs = just.commit.precommits@;
        let p = precs[i];
        if run(target, ctx, just, sigs, (k - 1) as nat) is Ok {
            let votes = precs.take(i);
            lemma_first_vote_by(votes, p.id@, 0);
            if first_vote_by(votes, p.id@, 0) is None {
                if vote_acceptable(target, ctx, just, sigs, i) {
                    assert(precs.take(k as int) =~= votes.push(p));
                    assert forall|a: int, b: int| 0 <= a < b < k implies precs[a].id@ != precs[b].id@ by {
                        if b == i {
                            assert(votes[a].id@ != p.id@);
                        }
                    }
                } else {
                    assert(!votes_acceptable(target, ctx, just, sigs, k as int));
                }
            } else {
                let a = first_vote_by(votes, p.id@, 0)->Some_0;
                assert(precs[a].id@ == precs[i].id@);
                assert(!distinct_voters(just, k as int));
            }
        } else {
            if votes_acceptable(target, ctx, just, sigs, k as int) && distinct_voters(just, k as int) {
                assert(votes_acceptable(target, ctx, just, sigs, i));
                assert(distinct_voters(just, i));
            }
        }
    } else {
        assert(just.commit.precommits@.take(0) =~= Seq::<SignedPrecommit>::empty());
    }
}

/// A justification whose votes are all signed, from distinct authorities of the set,
/// linked to the target, whose headers all lie on those links, and whose weight reaches
/// the threshold, is accepted.
pub proof fn lemma_valid_justification_accepted(
    target: (BlockHash, BlockNumber),
    ctx: JustificationVerificationContext,
    just: GrandpaJustification,
    sigs: Seq<bool>,
)
    requires
        sigs.len() == just.commit.precommits@.len(),
        votes_acceptable(target, ctx, just, sigs, just.commit.precommits@.len() as int),
        distinct_voters(just, just.commit.precommits@.len() as int),
        forall|k: int|
            0 <= k < just.votes_ancestries@.len() ==> on_some_route(
                target,
                just,
                just.commit.precommits@.len() as int,
                #[trigger] just.votes_ancestries@[k].hash@,
            ),
        votes_weight(ctx, just, just.commit.precommits@.len()) >= ctx.threshold,
    ensures
        verification_outcome(target, ctx, just, sigs) == Ok::<(), Error>(()),
{
    let n = just.commit.precommits@.len();
    lemma_run_accepts_prefix(target, ctx, just, sigs, n);
    assert forall|k: int| 0 <= k < just.votes_ancestries@.len() implies votes_routes(
        target,
        just,
        n,
    ).contains(#[trigger] just.votes_ancestries@[k].hash@) by {
        lemma_routes_contain(target, just, n, just.votes_ancestries@[k].hash@);
    }
    assert(!has_unvisited_header(just, votes_routes(target, just, n)));
}

/// A vote from outside the authority set rejects the justification with
/// `UnknownAuthorityVote`, unless an earlier vote, or this vote's own signature, was
/// rejected first.
pub proof fn lemma_unknown_authority_rejected(
    target: (BlockHash, BlockNumber),
    ctx: JustificationVerificationContext,
    just: GrandpaJustification,
    sigs: Seq<bool>,
    i: int,
)
    requires
        sigs.len() == just.commit.precommits@.len(),
        0 <= i < just.commit.precommits@.len(),
        authority_weight(ctx, just.commit.precommits@[i].id@) is None,
        sigs[i],
        votes_acceptable(target, ctx, just, sigs, i),
        distinct_voters(just, i),
    ensures
        verification_outcome(target, ctx, just, sigs) == Err::<(), Error>(
            Error::Precommit(i as usize, PrecommitError::UnknownAuthorityVote),
        ),
{
    lemma_run_accepts_prefix(target, ctx, just, sigs, i as nat);
    crate::model::lemma_run_error_persists(
        target,
        ctx,
        just,
        sigs,
        (i + 1) as nat,
        just.commit.precommits@.len(),
    );
}

/// An authority that votes a second time rejects the justification: with
/// `RedundantAuthorityVote` where the second vote repeats the first, with
/// `DuplicateAuthorityVote` where it differs (another target, say); unless an earlier vote,
/// or the second vote's signature or link to the target, was rejected first.
pub proof fn lemma_repeated_authority_rejected(
    target: (BlockHash, BlockNumber),
    ctx: JustificationVerificationContext,
    just: GrandpaJustification,
    sigs: Seq<bool>,
    i: int,
    j: int,
)
    requires
        sigs.len() == just.commit.precommits@.len(),
        0 <= i < j < just.commit.precommits@.len(),
        just.commit.precommits@[i].id@ == just.commit.precommits@[j].id@,
        sigs[j],
        vote_route(target, just, just.commit.precommits@[j]) is Some,
        votes_acceptable(target, ctx, just, sigs, j),
        distinct_voters(just, j),
    ensures
        verification_outcome(target, ctx, just, sigs) == Err::<(), Error>(
            Error::Precommit(
                j as usize,
                if same_vote(just.commit.precommits@[i], just.commit.precommits@[j]) {
                    PrecommitError::RedundantAuthorityVote
                } else {
                    PrecommitError::DuplicateAuthorityVote
                },
            ),
        ),
{
    let precs = just.commit.precommits@;
    lemma_run_accepts_prefix(target, ctx, just, sigs, j as nat);
    assert(vote_acceptable(target, ctx, just, sigs, i));
    let votes = precs.take(j);
    lemma_first_vote_by(votes, precs[j].id@, 0);
    assert(votes[i].id@ == precs[j].id@);
    let a = first_vote_by(votes, precs[j].id@, 0)->Some_0;
    assert(a == i) by {
        if a != i {
            assert(precs[a].id@ == precs[i].id@);
            if a < i {
                assert(precs[a].id@ != precs[i].id@);
            } else {
                assert(precs[i].id@ != precs[a].id@);
            }
        }
    }
    crate::model::lemma_run_error_persists(
        target,
        ctx,
        just,
        sigs,
        (j + 1) as nat,
        precs.len(),
    );
}

/// A justification whose votes are all accepted and reach the threshold, but which carries
/// a header on no vote's link to the target, is rejected with `RedundantVotesAncestries`.
pub proof fn lemma_unused_ancestry_rejected(
    target: (BlockHash, BlockNumber),
    ctx: JustificationVerificationContext,
    just: GrandpaJustification,
    sigs: Seq<bool>,
    k: int,
)
    requires
        sigs.len() == just.commit.precommits@.len(),
        votes_acceptable(target, ctx, just, sigs, just.commit.precommits@.len() as int),
        distinct_voters(just, just.commit.precommits@.len() as int),
        votes_weight(ctx, just, just.commit.precommits@.len()) >= ctx.threshold,
        0 <= k < just.votes_ancestries@.len(),
        !on_some_route(
            target,
            just,
            just.commit.precommits@.len() as int,
            just.votes_ancestries@[k].hash@,
        ),
    ensures
        verification_outcome(target, ctx, just, sigs) == Err::<(), Error>(
            Error::RedundantVotesAncestries,
        ),
{
    let n = just.commit.precommits@.len();
    lemma_run_accepts_prefix(target, ctx, just, sigs, n);
    lemma_routes_contain(target, just, n, just.votes_ancestries@[k].hash@);
    assert(has_unvisited_header(just, votes_routes(target, just, n)));
}

/// A justification whose votes are all accepted but whose weight stays below the threshold
/// is rejected with `InsufficientSignedWeight`.
pub proof fn lemma_insufficient_weight_rejected(
    target: (BlockHash, BlockNumber),
    ctx: JustificationVerificationContext,
    just: GrandpaJustification,
    sigs: Seq<bool>,
)
    requires
        sigs.len() == just.commit.precommits@.len(),
        votes_acceptable(target, ctx, just, sigs, just.commit.precommits@.len() as int),
        distinct_voters(just, just.commit.precommits@.len() as int),
        votes_weight(ctx, just, just.commit.precommits@.len()) < ctx.threshold,
    ensures
        verification_outcome(target, ctx, just, sigs) == Err::<(), Error>(
            Error::InsufficientSignedWeight,
        ),
{
    lemma_run_accepts_prefix(target, ctx, just, sigs, just.commit.precommits@.len());
}

proof fn lemma_run_same_contents(
    target: (BlockHash, BlockNumber),
    ctx1: JustificationVerificationContext,
    ctx2: JustificationVerificationContext,
    just1: GrandpaJustification,
    just2: GrandpaJustification,
    sigs: Seq<bool>,
    k: nat,
)
    requires
        ctx1.authorities@ == ctx2.authorities@,
        just1.commit.precommits@ == just2.commit.precommits@,
        just1.votes_ancestries@ == just2.votes_ancestries@,
    ensures
        run(target, ctx1, just1, sigs, k) == run(target, ctx2, just2, sigs, k),
    decreases k,
{
    if k > 0 {
        lemma_run_same_contents(target, ctx1, ctx2, just1, just2, sigs, (k - 1) as nat);
    }
}

/// Verification depends on nothing but what its inputs hold: verifying a justification
/// again, or a copy of it against a copy of the context, gives the same verdict.
pub proof fn lemma_verification_repeatable(
    target: (BlockHash, BlockNumber),
    ctx1: JustificationVerificationContext,
    ctx2: JustificationVerificationContext,
    just1: GrandpaJustification,
    just2: GrandpaJustification,
)
    requires
        ctx1.authorities@ == ctx2.authorities@,
        ctx1.threshold == ctx2.threshold,
        ctx1.authority_set_id == ctx2.authority_set_id,
        just1.round == just2.round,
        just1.commit.precommits@ == just2.commit.precommits@,
        just1.votes_ancestries@ == just2.votes_ancestries@,
    ensures
        verification_outcome(target, ctx1, just1, signature_verdicts(ctx1, just1))
            == verification_outcome(target, ctx2, just2, signature_verdicts(ctx2, just2)),
{
    let sigs = signature_verdicts(ctx1, just1);
    assert(sigs =~= signature_verdicts(ctx2, just2));
    lemma_run_same_contents(target, ctx1, ctx2, just1, just2, sigs, just1.commit.precommits@.len());
}

} // verus!
