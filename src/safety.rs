//! Laws of a bounce unit over its executions.
use vstd::prelude::*;
use crate::bounce_unit::{ActionView, UnitView, aggregate_at_most_once, own_at_most_once};
use crate::commit::{CommitType, CommitView};
use crate::config::FailureMode;
use crate::slot_info::Phase;

verus! {

/// An event a unit handles: a phase tick, an inbound commit with the coin
/// flip that goes with it, a signature, or the sums of a buffer.
pub enum UnitEvent {
    Tick(Phase),
    Deliver(CommitView, bool),
    Signed(CommitView, Option<Seq<u8>>),
    Summed(CommitType, u32, nat, Option<(Seq<u8>, Seq<u8>)>),
}

/// The unit after handling `e`.
pub open spec fn step(u: UnitView, e: UnitEvent) -> UnitView {
    match e {
        UnitEvent::Tick(p) => u.on_phase(p).0,
        UnitEvent::Deliver(c, coin) => u.on_commit(c, coin).0,
        UnitEvent::Signed(t, sig) => u.on_signature(t, sig).0,
        UnitEvent::Summed(typ, i, count, sums) => u.on_aggregate(typ, i, count, sums).0,
    }
}

/// Whether `e` can be handled: a tick that opens a new slot needs a slot
/// index left to open.
pub open spec fn can_handle(u: UnitView, e: UnitEvent) -> bool {
    e matches UnitEvent::Tick(p) ==> (p == Phase::First ==> u.slot.i < u32::MAX)
}

/// The unit after handling the events `es` in turn.
pub open spec fn run(u: UnitView, es: Seq<UnitEvent>) -> UnitView
    decreases es.len(),
{
    if es.len() == 0 {
        u
    } else {
        run(step(u, es[0]), es.drop_first())
    }
}

/// Whether every event of `es` can be handled when its turn comes.
pub open spec fn can_run(u: UnitView, es: Seq<UnitEvent>) -> bool
    decreases es.len(),
{
    es.len() == 0 || (can_handle(u, es[0]) && can_run(step(u, es[0]), es.drop_first()))
}

/// Every event keeps the invariant of a unit.
pub proof fn lemma_step_keeps_invariant(u: UnitView, e: UnitEvent)
    requires
        u.inv(),
        can_handle(u, e),
    ensures
        step(u, e).inv(),
        u.emitted.is_prefix_of(step(u, e).emitted),
{
    match e {
        UnitEvent::Tick(p) => {},
        UnitEvent::Deliver(c, coin) => {},
        UnitEvent::Signed(t, sig) => {
            if sig is Some && u.takes_signed(t) {
                assert forall|k: int|
                    0 <= k < u.emitted.len() && !u.emitted[k].aggregated implies u.emitted[k].i
                    != t.i by {}
            }
        },
        UnitEvent::Summed(typ, i, count, sums) => {
            if sums is Some && u.takes_sums(typ, i, count) {
                assert forall|k: int|
                    0 <= k < u.emitted.len() && u.emitted[k].aggregated implies u.emitted[k].i
                    != u.slot.i by {}
            }
        },
    }
}

/// Every run keeps the invariant of a unit, and only adds to its history.
pub proof fn lemma_run_keeps_invariant(u: UnitView, es: Seq<UnitEvent>)
    requires
        u.inv(),
        can_run(u, es),
    ensures
        run(u, es).inv(),
        u.emitted.is_prefix_of(run(u, es).emitted),
    decreases es.len(),
{
    if es.len() > 0 {
        lemma_step_keeps_invariant(u, es[0]);
        lemma_run_keeps_invariant(step(u, es[0]), es.drop_first());
    }
}

/// Single sign: in any run from a consistent state, the unit broadcasts at
/// most one commit of its own (non-aggregate) per slot.
pub proof fn lemma_single_sign(u: UnitView, es: Seq<UnitEvent>)
    requires
        u.inv(),
        can_run(u, es),
    ensures
        own_at_most_once(run(u, es).emitted),
{
    lemma_run_keeps_invariant(u, es);
}

/// Single aggregate: in any run from a consistent state, the unit broadcasts
/// at most one aggregate commit per slot.
pub proof fn lemma_single_aggregate(u: UnitView, es: Seq<UnitEvent>)
    requires
        u.inv(),
        can_run(u, es),
    ensures
        aggregate_at_most_once(run(u, es).emitted),
{
    lemma_run_keeps_invariant(u, es);
}

/// No cross-type aggregation: in any run from a consistent state, two
/// aggregates the unit broadcasts for the same slot are one and the same, so
/// a unit never aggregates both precommits and non-commits in a slot.
pub proof fn lemma_no_cross_type_aggregates(u: UnitView, es: Seq<UnitEvent>)
    requires
        u.inv(),
        can_run(u, es),
    ensures
        forall|a: int, b: int|
            #![trigger run(u, es).emitted[a], run(u, es).emitted[b]]
            0 <= a < run(u, es).emitted.len() && 0 <= b < run(u, es).emitted.len()
                && run(u, es).emitted[a].aggregated && run(u, es).emitted[b].aggregated
                && run(u, es).emitted[a].i == run(u, es).emitted[b].i ==> a == b
                && run(u, es).emitted[a].typ == run(u, es).emitted[b].typ,
{
    lemma_run_keeps_invariant(u, es);
    let e = run(u, es).emitted;
    assert forall|a: int, b: int|
        #![trigger e[a], e[b]]
        0 <= a < e.len() && 0 <= b < e.len() && e[a].aggregated && e[b].aggregated && e[a].i
            == e[b].i implies a == b && e[a].typ == e[b].typ by {
        if a < b {
            assert(e[a].i != e[b].i);
        } else if b < a {
            assert(e[b].i != e[a].i);
        }
    }
}

/// No contradiction: once a unit has produced or seen an aggregate for its
/// current slot, it broadcasts nothing more until the next slot opens.
pub proof fn lemma_aggregated_slot_is_silent(u: UnitView, e: UnitEvent)
    requires
        u.inv(),
        u.slot.aggregated,
        !(e matches UnitEvent::Tick(p) && p == Phase::First),
    ensures
        step(u, e).emitted == u.emitted,
        step(u, e).slot.i == u.slot.i,
        step(u, e).slot.aggregated,
{
}

/// Monotone `j`: on every event the last committed slot never decreases,
/// and it stays at most the current slot.
pub proof fn lemma_last_committed_monotone(u: UnitView, e: UnitEvent)
    requires
        u.inv(),
        can_handle(u, e),
    ensures
        step(u, e).slot.j >= u.slot.j,
        step(u, e).slot.j <= step(u, e).slot.i,
{
    lemma_step_keeps_invariant(u, e);
}

/// Monotone `j` over runs: in any run from a consistent state the last
/// committed slot never decreases.
pub proof fn lemma_last_committed_monotone_over_runs(u: UnitView, es: Seq<UnitEvent>)
    requires
        u.inv(),
        can_run(u, es),
    ensures
        run(u, es).slot.j >= u.slot.j,
    decreases es.len(),
{
    if es.len() > 0 {
        lemma_last_committed_monotone(u, es[0]);
        lemma_step_keeps_invariant(u, es[0]);
        lemma_last_committed_monotone_over_runs(step(u, es[0]), es.drop_first());
    }
}

/// Quorum leads to aggregation: an honest unit that has signed in the first
/// or second phase, has room in its buffers, and receives a precommit from a
/// unit it holds nothing from that brings its precommits to a quorum asks for their aggregate; once the sums come back,
/// it broadcasts an aggregate precommit for the current slot over that quorum.
pub proof fn lemma_quorum_of_precommits_aggregates(
    u: UnitView,
    c: CommitView,
    coin: bool,
    sig: Seq<u8>,
    pk: Seq<u8>,
)
    requires
        u.inv(),
        u.mode == FailureMode::Honest,
        u.slot.phase == Phase::First || u.slot.phase == Phase::Second,
        u.slot.signed,
        !u.full(),
        !u.slot.holds_signer(c.public_key),
        !u.drops(c),
        !c.aggregated,
        c.typ == CommitType::Precommit,
        u.slot.precommits.len() + 1 >= u.quorum(),
    ensures
        ({
            let (v, s) = u.on_commit(c, coin);
            let (w, t) = v.on_aggregate(
                CommitType::Precommit,
                v.slot.i,
                v.slot.precommits.len(),
                Some((sig, pk)),
            );
            &&& s.action == v.aggregate_request(CommitType::Precommit)
            &&& v.slot.precommits.len() >= u.quorum()
            &&& t.broadcast == Some(v.aggregate_commit(CommitType::Precommit, sig, pk))
            &&& v.aggregate_commit(CommitType::Precommit, sig, pk).typ == CommitType::Precommit
            &&& v.aggregate_commit(CommitType::Precommit, sig, pk).aggregated
            &&& v.aggregate_commit(CommitType::Precommit, sig, pk).i == u.slot.i
            &&& w.slot.aggregated
            &&& w.slot.j == u.slot.i
        }),
{
    let (v, s) = u.on_commit(c, coin);
    assert(v.slot.precommits.last() == CommitView { typ: CommitType::Precommit, ..c });
}

/// An aggregate is made of a quorum of one type: when a unit takes sums, the
/// aggregate it broadcasts carries those sums, belongs to the current slot,
/// has the type of every commit summed, and at least a quorum of them were summed.
pub proof fn lemma_aggregate_from_quorum(
    u: UnitView,
    typ: CommitType,
    i: u32,
    count: nat,
    sig: Seq<u8>,
    pk: Seq<u8>,
)
    requires
        u.inv(),
        u.takes_sums(typ, i, count),
    ensures
        ({
            let agg = u.aggregate_commit(typ, sig, pk);
            let buf = u.slot.buffer(typ);
            &&& u.on_aggregate(typ, i, count, Some((sig, pk))).1.broadcast == Some(agg)
            &&& agg.signature == sig && agg.public_key == pk
            &&& agg.aggregated && agg.i == u.slot.i && agg.typ == typ
            &&& buf.len() >= u.quorum()
            &&& forall|k: int| 0 <= k < buf.len() ==> (#[trigger] buf[k]).typ == typ
            &&& forall|a: int, b: int|
                0 <= a < b < buf.len() ==> (#[trigger] buf[a]).public_key
                    != (#[trigger] buf[b]).public_key
            &&& agg.msg == buf.last().msg
        }),
{
    assert(crate::threshold(u.n as int) >= 1);
}

/// Third phase: a unit that does not fail by stopping and reaches the third
/// phase of a slot without having signed or aggregated, with room in its
/// buffers, asks to sign the slot's canonical non-commit; once signed, it
/// broadcasts that non-commit, records it, and is signed, nothing else changing.
pub proof fn lemma_third_phase_noncommit(u: UnitView, sig: Seq<u8>)
    requires
        u.inv(),
        u.mode != FailureMode::FailStop,
        u.slot.phase != Phase::Stop,
        !u.slot.signed,
        !u.slot.aggregated,
        !u.full(),
    ensures
        ({
            let (v, s) = u.on_phase(Phase::Third);
            let t = u.noncommit_template();
            let own = CommitView { signature: sig, ..t };
            let (w, r) = v.on_signature(t, Some(sig));
            &&& s.action == ActionView::Sign(t)
            &&& t.typ == CommitType::Noncommit && !t.aggregated
            &&& t.msg == crate::commit::noncommit_text(u.slot.j, u.slot.i)
            &&& t.i == u.slot.i && t.j == u.slot.j
            &&& r.broadcast == Some(own)
            &&& r.action == ActionView::Idle
            &&& w.slot.signed
            &&& w.slot.noncommits == u.slot.noncommits.push(own)
            &&& w.slot.precommits == u.slot.precommits
            &&& w.slot.i == u.slot.i && w.slot.j == u.slot.j
            &&& w.slot.phase == Phase::Third
            &&& !w.slot.aggregated
            &&& w.emitted == u.emitted.push(own)
        }),
{
}

/// Fail-stop: a unit that fails by stopping, and so has taken no commit in
/// the current slot, takes none and broadcasts nothing in any run; it never
/// counts toward a quorum.
pub proof fn lemma_fail_stop_is_silent(u: UnitView, es: Seq<UnitEvent>)
    requires
        u.inv(),
        can_run(u, es),
        u.mode == FailureMode::FailStop,
        u.slot.precommits.len() == 0,
        u.slot.noncommits.len() == 0,
    ensures
        run(u, es).emitted == u.emitted,
        run(u, es).slot.precommits.len() == 0,
        run(u, es).slot.noncommits.len() == 0,
    decreases es.len(),
{
    if es.len() > 0 {
        assert(crate::threshold(u.n as int) >= 1);
        lemma_step_keeps_invariant(u, es[0]);
        lemma_fail_stop_is_silent(step(u, es[0]), es.drop_first());
    }
}

/// Runs compose: handling `a` and then `b` is handling `a + b`.
pub proof fn lemma_run_append(u: UnitView, a: Seq<UnitEvent>, b: Seq<UnitEvent>)
    ensures
        run(u, a + b) == run(run(u, a), b),
        can_run(u, a + b) == (can_run(u, a) && can_run(run(u, a), b)),
    decreases a.len(),
{
    if a.len() == 0 {
        assert(a + b =~= b);
    } else {
        assert((a + b).drop_first() =~= a.drop_first() + b);
        assert((a + b)[0] == a[0]);
        lemma_run_append(step(u, a[0]), a.drop_first(), b);
    }
}

/// The deliveries of the commits `cs`, in order, with the coin showing tails.
pub open spec fn deliveries(cs: Seq<CommitView>) -> Seq<UnitEvent> {
    cs.map_values(|c: CommitView| UnitEvent::Deliver(c, false))
}

/// Whether the commits `cs` carry pairwise distinct keys, none of them one
/// that `u` already holds a commit under.
pub open spec fn fresh_signers(u: UnitView, cs: Seq<CommitView>) -> bool {
    &&& forall|k: int| 0 <= k < cs.len() ==> !u.slot.holds_signer(#[trigger] cs[k].public_key)
    &&& forall|a: int, b: int|
        0 <= a < b < cs.len() ==> #[trigger] cs[a].public_key != #[trigger] cs[b].public_key
}

/// Whether `c` is another unit's single precommit, as far as `u` can tell.
pub open spec fn foreign_precommit(u: UnitView, c: CommitView) -> bool {
    &&& c.typ == CommitType::Precommit
    &&& !c.aggregated
    &&& c.public_key != u.public_key
}

/// An honest unit that has signed, in the first or second phase, records
/// every precommit of another signer it receives while its buffers have room,
/// and does nothing else.
pub proof fn lemma_signed_unit_records_precommits(u: UnitView, cs: Seq<CommitView>)
    requires
        u.inv(),
        u.mode == FailureMode::Honest,
        u.slot.phase == Phase::First || u.slot.phase == Phase::Second,
        u.slot.signed,
        !u.slot.aggregated,
        u.buffered() + cs.len() <= u.n,
        forall|k: int| 0 <= k < cs.len() ==> foreign_precommit(u, #[trigger] cs[k]),
        fresh_signers(u, cs),
    ensures
        can_run(u, deliveries(cs)),
        run(u, deliveries(cs)) == u.with_slot(
            crate::slot_info::SlotView { precommits: u.slot.precommits + cs, ..u.slot },
        ),
    decreases cs.len(),
{
    let es = deliveries(cs);
    if cs.len() == 0 {
        assert(u.slot.precommits + cs =~= u.slot.precommits);
        assert(u.with_slot(crate::slot_info::SlotView { precommits: u.slot.precommits, ..u.slot })
            == u);
    } else {
        let c = cs[0];
        assert(foreign_precommit(u, c));
        assert(es[0] == UnitEvent::Deliver(c, false));
        assert(CommitView { typ: CommitType::Precommit, ..c } == c);
        let v = step(u, es[0]);
        assert(v == u.with_slot(
            crate::slot_info::SlotView { precommits: u.slot.precommits.push(c), ..u.slot },
        ));
        lemma_step_keeps_invariant(u, es[0]);
        let rest = cs.drop_first();
        assert forall|k: int| 0 <= k < rest.len() implies foreign_precommit(v, #[trigger] rest[k]) by {
            assert(rest[k] == cs[k + 1]);
        }
        assert forall|k: int| 0 <= k < rest.len() implies !v.slot.holds_signer(
            #[trigger] rest[k].public_key,
        ) by {
            assert(rest[k] == cs[k + 1]);
            assert(!u.slot.holds_signer(cs[k + 1].public_key));
            assert(cs[0].public_key != cs[k + 1].public_key);
            assert forall|m: int| 0 <= m < v.slot.precommits.len() implies (
            #[trigger] v.slot.precommits[m]).public_key != rest[k].public_key by {
                if m < u.slot.precommits.len() {
                    assert(v.slot.precommits[m] == u.slot.precommits[m]);
                }
            }
        }
        assert forall|a: int, b: int| 0 <= a < b < rest.len() implies #[trigger] rest[a].public_key
            != #[trigger] rest[b].public_key by {
            assert(rest[a] == cs[a + 1]);
            assert(rest[b] == cs[b + 1]);
        }
        lemma_signed_unit_records_precommits(v, rest);
        assert(es.drop_first() =~= deliveries(rest));
        assert(u.slot.precommits.push(c) + rest =~= u.slot.precommits + cs);
    }
}

/// Liveness, for one unit: an honest unit that is in the first or second
/// phase of a slot it has not yet signed or aggregated in, with room in its
/// buffers for a quorum of precommits, and that receives
/// the ground station's precommit, signs it; once a quorum's worth of other
/// units' precommits have reached it and the sums come back, it has
/// broadcast its own precommit and then an aggregate precommit for the slot.
pub proof fn lemma_honest_unit_aggregates(
    u: UnitView,
    c0: CommitView,
    s0: Seq<u8>,
    cs: Seq<CommitView>,
    sig: Seq<u8>,
    pk: Seq<u8>,
)
    requires
        u.inv(),
        u.mode == FailureMode::Honest,
        u.slot.phase == Phase::First || u.slot.phase == Phase::Second,
        !u.slot.signed,
        !u.slot.aggregated,
        u.slot.precommits.len() == 0,
        u.slot.noncommits.len() + u.quorum() <= u.n,
        foreign_precommit(u, c0),
        cs.len() == u.quorum() - 1,
        forall|k: int| 0 <= k < cs.len() ==> foreign_precommit(u, #[trigger] cs[k]),
        fresh_signers(u, cs),
    ensures
        ({
            let own = CommitView { signature: s0, ..u.sign_template(c0, CommitType::Precommit) };
            let es = seq![
                UnitEvent::Deliver(c0, false),
                UnitEvent::Signed(u.sign_template(c0, CommitType::Precommit), Some(s0)),
            ] + deliveries(cs) + seq![
                UnitEvent::Summed(CommitType::Precommit, u.slot.i, u.quorum() as nat, Some((sig, pk))),
            ];
            let w = run(u, es);
            &&& can_run(u, es)
            &&& w.slot.i == u.slot.i
            &&& w.slot.aggregated
            &&& w.slot.j == u.slot.i
            &&& w.emitted.len() == u.emitted.len() + 2
            &&& w.emitted[u.emitted.len() as int] == own
            &&& w.emitted.last() == (CommitView {
                typ: CommitType::Precommit,
                i: u.slot.i,
                aggregated: true,
                signer_id: u.id,
                signature: sig,
                public_key: pk,
                ..w.emitted.last()
            })
        }),
{
    assert(crate::threshold(u.n as int) >= 1);
    let t = u.sign_template(c0, CommitType::Precommit);
    let own = CommitView { signature: s0, ..t };
    let e1 = UnitEvent::Deliver(c0, false);
    let e2 = UnitEvent::Signed(t, Some(s0));
    let e3 = UnitEvent::Summed(CommitType::Precommit, u.slot.i, u.quorum() as nat, Some((sig, pk)));
    let head = seq![e1, e2];
    let tail = seq![e3];
    let es = head + deliveries(cs) + tail;

    // Delivering the ground station's precommit asks for a signature.
    let u1 = step(u, e1);
    assert(u1 == u);
    // The signature is taken: the unit's own precommit is recorded and broadcast.
    let u2 = step(u1, e2);
    assert(u.takes_signed(t));
    lemma_step_keeps_invariant(u1, e2);
    assert(u2.slot.precommits =~= seq![own]);
    assert(u2.emitted == u.emitted.push(own));
    // Run over the first two events.
    let one = seq![e2];
    assert(one[0] == e2);
    assert(one.drop_first() =~= Seq::<UnitEvent>::empty());
    assert(can_run(u2, one.drop_first()));
    assert(run(u2, one.drop_first()) == u2);
    assert(step(u1, one[0]) == u2);
    assert(run(u1, one) == u2);
    assert(can_handle(u1, one[0]));
    assert(can_run(u1, one));
    assert(head[0] == e1);
    assert(head.drop_first() =~= one);
    assert(run(u, head) == u2);
    assert(can_run(u, head));
    // The other units' precommits are recorded.
    assert forall|k: int| 0 <= k < cs.len() implies foreign_precommit(u2, #[trigger] cs[k]) by {}
    assert forall|k: int| 0 <= k < cs.len() implies !u2.slot.holds_signer(
        #[trigger] cs[k].public_key,
    ) by {
        assert(!u.slot.holds_signer(cs[k].public_key));
        assert(u2.slot.noncommits == u.slot.noncommits);
        assert(u2.slot.precommits[0].public_key == u.public_key);
    }
    lemma_signed_unit_records_precommits(u2, cs);
    let u3 = run(u2, deliveries(cs));
    lemma_run_append(u, head, deliveries(cs));
    assert(u3.slot.precommits.len() == u.quorum());
    lemma_run_keeps_invariant(u2, deliveries(cs));
    // The sums are taken.
    let u4 = step(u3, e3);
    assert(u3.takes_sums(CommitType::Precommit, u.slot.i, u.quorum() as nat));
    assert(tail[0] == e3);
    assert(tail.drop_first() =~= Seq::<UnitEvent>::empty());
    assert(can_run(u4, tail.drop_first()));
    assert(run(u4, tail.drop_first()) == u4);
    assert(step(u3, tail[0]) == u4);
    assert(run(u3, tail) == u4);
    assert(can_run(u3, tail));
    lemma_run_append(u, head + deliveries(cs), tail);
    assert(u4.emitted == u.emitted.push(own).push(u3.aggregate_commit(CommitType::Precommit, sig, pk)));
}

/// The precommit unit `u` broadcasts for the ground station's precommit
/// `c0`, signed `s`.
pub open spec fn own_precommit(u: UnitView, c0: CommitView, s: Seq<u8>) -> CommitView {
    CommitView { signature: s, ..u.sign_template(c0, CommitType::Precommit) }
}

/// Whether `u` is an honest unit of a flock of `n`, in the first or second
/// phase of slot `i`, that has done nothing in it yet.
pub open spec fn fresh_honest_unit(u: UnitView, n: u32, i: u32) -> bool {
    &&& u.inv()
    &&& u.n == n
    &&& u.mode == FailureMode::Honest
    &&& u.slot.i == i
    &&& (u.slot.phase == Phase::First || u.slot.phase == Phase::Second)
    &&& !u.slot.signed
    &&& !u.slot.aggregated
    &&& u.slot.precommits.len() == 0
    &&& u.slot.noncommits.len() == 0
}

/// Liveness, for a flock of honest units: when every unit of a flock of
/// honest units with distinct keys receives the ground station's precommit in
/// the first or second phase of a slot, each signs it and broadcasts its own
/// precommit; and once the first unit has received a quorum's worth less one
/// of its peers' precommits and the sums, it has broadcast an aggregate
/// precommit for the slot.
pub proof fn lemma_honest_flock_aggregates(
    us: Seq<UnitView>,
    c0: CommitView,
    sigs: Seq<Seq<u8>>,
    sig: Seq<u8>,
    pk: Seq<u8>,
)
    requires
        us.len() >= 1,
        us.len() <= u32::MAX,
        sigs.len() == us.len(),
        forall|k: int|
            0 <= k < us.len() ==> fresh_honest_unit(#[trigger] us[k], us.len() as u32, us[0].slot.i),
        forall|k: int| 0 <= k < us.len() ==> foreign_precommit(#[trigger] us[k], c0),
        forall|a: int, b: int|
            0 <= a < us.len() && 0 <= b < us.len() && a != b ==> #[trigger] us[a].public_key
                != #[trigger] us[b].public_key,
    ensures
        forall|k: int|
            0 <= k < us.len() ==> {
                let t = (#[trigger] us[k]).sign_template(c0, CommitType::Precommit);
                &&& us[k].on_commit(c0, false).1.action == ActionView::Sign(t)
                &&& us[k].on_signature(t, Some(sigs[k])).1.broadcast == Some(
                    own_precommit(us[k], c0, sigs[k]),
                )
            },
        ({
            let u = us[0];
            let cs = Seq::new(
                (u.quorum() - 1) as nat,
                |k: int| own_precommit(us[k + 1], c0, sigs[k + 1]),
            );
            let es = seq![
                UnitEvent::Deliver(c0, false),
                UnitEvent::Signed(u.sign_template(c0, CommitType::Precommit), Some(sigs[0])),
            ] + deliveries(cs) + seq![
                UnitEvent::Summed(CommitType::Precommit, u.slot.i, u.quorum() as nat, Some((sig, pk))),
            ];
            let w = run(u, es);
            &&& can_run(u, es)
            &&& w.slot.aggregated
            &&& w.slot.j == u.slot.i
            &&& w.emitted.last().aggregated
            &&& w.emitted.last().typ == CommitType::Precommit
            &&& w.emitted.last().i == u.slot.i
            &&& w.emitted.last().signature == sig
            &&& w.emitted.last().public_key == pk
        }),
{
    let n = us.len() as u32;
    assert forall|k: int| 0 <= k < us.len() implies {
        let t = (#[trigger] us[k]).sign_template(c0, CommitType::Precommit);
        &&& us[k].on_commit(c0, false).1.action == ActionView::Sign(t)
        &&& us[k].on_signature(t, Some(sigs[k])).1.broadcast == Some(
            own_precommit(us[k], c0, sigs[k]),
        )
    } by {
        let u = us[k];
        assert(fresh_honest_unit(u, n, us[0].slot.i));
        assert(foreign_precommit(u, c0));
        let t = u.sign_template(c0, CommitType::Precommit);
        assert(u.takes_signed(t));
    }
    let u = us[0];
    assert(fresh_honest_unit(u, n, u.slot.i));
    assert(foreign_precommit(u, c0));
    assert(crate::threshold(n as int) <= n);
    assert(crate::threshold(n as int) >= 1);
    let cs = Seq::new(
        (u.quorum() - 1) as nat,
        |k: int| own_precommit(us[k + 1], c0, sigs[k + 1]),
    );
    assert forall|k: int| 0 <= k < cs.len() implies foreign_precommit(u, #[trigger] cs[k]) by {
        assert(us[k + 1].public_key != us[0].public_key);
        assert(fresh_honest_unit(us[k + 1], n, u.slot.i));
    }
    lemma_honest_unit_aggregates(u, c0, sigs[0], cs, sig, pk);
}

} // verus!
