//! Linking a voted block back to the finalized target through the supplied headers.
use vstd::prelude::*;
use crate::types::{hashes_view, BlockHash, BlockNumber, Header};

verus! {

/// Index of the first header at or after `from` whose hash is `h`.
pub open spec fn first_header(anc: Seq<Header>, h: Seq<u8>, from: int) -> Option<int>
    decreases anc.len() - from,
{
    if from < 0 || from >= anc.len() {
        None
    } else if anc[from].hash@ == h {
        Some(from)
    } else {
        first_header(anc, h, from + 1)
    }
}

/// The walk from block `(h, n)` back to the target `(th, tn)` over the headers `anc`.
///
/// It succeeds with the hashes of the headers it passes through (the target excluded),
/// and fails where a parent is missing or the walk gets to the target's number without
/// meeting the target.
pub open spec fn walk(anc: Seq<Header>, h: Seq<u8>, n: int, th: Seq<u8>, tn: int) -> Option<
    Seq<Seq<u8>>,
>
    decreases n - tn,
{
    if h == th {
        Some(Seq::empty())
    } else if n <= tn {
        None
    } else {
        match first_header(anc, h, 0) {
            None => None,
            Some(k) => match walk(anc, anc[k].parent_hash@, n - 1, th, tn) {
                None => None,
                Some(rest) => Some(seq![h] + rest),
            },
        }
    }
}

/// `prefix` put in front of the route of a walk that succeeded.
pub open spec fn extend_route(prefix: Seq<Seq<u8>>, w: Option<Seq<Seq<u8>>>) -> Option<
    Seq<Seq<u8>>,
> {
    match w {
        None => None,
        Some(rest) => Some(prefix + rest),
    }
}

/// Whether two hashes are equal.
pub fn hashes_equal(a: &BlockHash, b: &BlockHash) -> (r: bool)
    ensures
        r == (a@ == b@),
{
    let mut i: usize = 0;
    while i < 32
        invariant
            i <= 32,
            a@.len() == 32,
            b@.len() == 32,
            forall|j: int| 0 <= j < i ==> a@[j] == b@[j],
        decreases 32 - i,
    {
        if a[i] != b[i] {
            return false;
        }
        i = i + 1;
    }
    assert(a@ =~= b@);
    true
}

/// Index of the first header in `anc` whose hash is `h`.
pub fn find_header(anc: &Vec<Header>, h: &BlockHash) -> (r: Option<usize>)
    ensures
        r matches Some(k) ==> k < anc@.len() && first_header(anc@, h@, 0) == Some(k as int),
        r is None ==> first_header(anc@, h@, 0) is None,
{
    let mut i: usize = 0;
    while i < anc.len()
        invariant
            i <= anc@.len(),
            first_header(anc@, h@, 0) == first_header(anc@, h@, i as int),
        decreases anc@.len() - i,
    {
        if hashes_equal(&anc[i].hash, h) {
            return Some(i);
        }
        i = i + 1;
    }
    None
}

/// Walks from the voted block `(hash, number)` back to `target` over the headers `anc`.
///
/// Returns the hashes of the headers passed through, or `None` where no link exists.
pub fn ancestry_route(
    anc: &Vec<Header>,
    hash: &BlockHash,
    number: BlockNumber,
    target: (BlockHash, BlockNumber),
) -> (r: Option<Vec<BlockHash>>)
    ensures
        r is None <==> walk(anc@, hash@, number as int, target.0@, target.1 as int) is None,
        r matches Some(route) ==> walk(anc@, hash@, number as int, target.0@, target.1 as int)
            == Some(hashes_view(route@)),
{
    let ghost whole = walk(anc@, hash@, number as int, target.0@, target.1 as int);
    let mut route: Vec<BlockHash> = Vec::new();
    let mut cur: BlockHash = *hash;
    let mut n: BlockNumber = number;
    assert(hashes_view(route@) + Seq::<Seq<u8>>::empty() =~= Seq::<Seq<u8>>::empty());
    loop
        invariant
            whole == walk(anc@, hash@, number as int, target.0@, target.1 as int),
            whole == extend_route(hashes_view(route@), walk(anc@, cur@, n as int, target.0@, target.1 as int)),
        decreases n,
    {
        if hashes_equal(&cur, &target.0) {
            assert(hashes_view(route@) + Seq::<Seq<u8>>::empty() =~= hashes_view(route@));
            return Some(route);
        }
        if n <= target.1 {
            return None;
        }
        match find_header(anc, &cur) {
            None => {
                return None;
            },
            Some(k) => {
                let ghost before = hashes_view(route@);
                let ghost rest = walk(anc@, anc@[k as int].parent_hash@, n - 1, target.0@, target.1 as int);
                route.push(cur);
                assert(hashes_view(route@) =~= before.push(cur@));
                proof {
                    if let Some(tail) = rest {
                        assert(before + (seq![cur@] + tail) =~= hashes_view(route@) + tail);
                    }
                }
                cur = anc[k].parent_hash;
                n = n - 1;
            },
        }
    }
}

} // verus!
