//! The flock coordinator's routing of the commits its units emit.
use vstd::prelude::*;
use crate::commit::{Commit, CommitView};

verus! {

/// What the coordinator does with a commit a unit emitted.
#[derive(Clone, Copy, Debug, PartialEq, Eq, Structural)]
pub enum Route {
    /// A single signature: send it to every unit.
    Gossip,
    /// An aggregate for a slot not answered yet: return it upstream.
    Respond,
    /// An aggregate for a slot already answered: drop it.
    Discard,
}

/// The route of `r` for a coordinator that last answered slot `last`, and
/// the slot it has answered last afterwards.
pub open spec fn route_of(last: u32, r: CommitView) -> (Route, u32) {
    if !r.aggregated {
        (Route::Gossip, last)
    } else if r.i > last {
        (Route::Respond, r.i)
    } else {
        (Route::Discard, last)
    }
}

/// The slots answered, in order, when the commits `rs` arrive in turn at a
/// coordinator that last answered slot `last`.
pub open spec fn answered(last: u32, rs: Seq<CommitView>) -> Seq<u32>
    decreases rs.len(),
{
    if rs.len() == 0 {
        Seq::empty()
    } else {
        let (route, next) = route_of(last, rs[0]);
        let rest = answered(next, rs.drop_first());
        if route == Route::Respond {
            seq![rs[0].i] + rest
        } else {
            rest
        }
    }
}

/// Duplicate-slot guard: over any sequence of emitted commits, the slots the
/// coordinator answers rise strictly, each above the last slot answered
/// before, so no slot is answered twice.
pub proof fn lemma_one_answer_per_slot(last: u32, rs: Seq<CommitView>)
    ensures
        forall|k: int| 0 <= k < answered(last, rs).len() ==> answered(last, rs)[k] > last,
        forall|a: int, b: int|
            0 <= a < b < answered(last, rs).len() ==> answered(last, rs)[a] < answered(
                last,
                rs,
            )[b],
    decreases rs.len(),
{
    if rs.len() > 0 {
        let (route, next) = route_of(last, rs[0]);
        lemma_one_answer_per_slot(next, rs.drop_first());
        let rest = answered(next, rs.drop_first());
        if route == Route::Respond {
            let all = seq![rs[0].i] + rest;
            assert(answered(last, rs) == all);
            assert forall|a: int, b: int| 0 <= a < b < all.len() implies all[a] < all[b] by {
                if a > 0 {
                    assert(all[a] == rest[a - 1]);
                }
                assert(all[b] == rest[b - 1]);
            }
            assert forall|k: int| 0 <= k < all.len() implies all[k] > last by {
                if k > 0 {
                    assert(all[k] == rest[k - 1]);
                }
            }
        }
    }
}

/// The coordinator's routing state: the last slot answered upstream.
#[derive(Clone, Copy, Debug, PartialEq, Eq, Structural)]
pub struct Router {
    pub last_slot: u32,
}

impl Router {
    /// A coordinator that has answered nothing yet.
    pub fn new() -> (r: Router)
        ensures
            r.last_slot == 0,
    {
        Router { last_slot: 0 }
    }

    /// Routes a commit a unit emitted: single signatures are gossiped, the
    /// first aggregate of a slot above the last one answered is returned
    /// upstream and its slot becomes the last answered, other aggregates are
    /// dropped.
    pub fn route(&mut self, r: &Commit) -> (route: Route)
        ensures
            (route, final(self).last_slot) == route_of(old(self).last_slot, r@),
    {
        if !r.aggregated {
            Route::Gossip
        } else if r.i > self.last_slot {
            self.last_slot = r.i;
            Route::Respond
        } else {
            Route::Discard
        }
    }
}

} // verus!
