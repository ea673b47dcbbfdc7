//! The bounce unit: the per-unit decision state machine.
//!
//! A unit holds no key material. When it decides to sign a commit or to
//! aggregate a buffer of commits it says so in the [`Action`] of its [`Step`];
//! whoever runs the unit performs the BLS operation and hands the result back
//! through [`BounceUnit::on_signature`] or [`BounceUnit::on_aggregate`].
use vstd::prelude::*;
use crate::commit::{
    Commit, CommitType, CommitView, bytes_equal, commit_views, copy_bytes, noncommit_message,
    noncommit_text,
};
use crate::config::FailureMode;
use crate::entropy::flip_coin;
use crate::slot_info::{Phase, SlotInfo, SlotView};
use crate::{supermajority, threshold};

verus! {

/// A command to a running unit.
#[derive(Clone, Copy, Debug, PartialEq, Eq, Structural)]
pub enum Command {
    /// Stops the unit.
    Terminate,
}

/// The signatures and public keys of a buffer of commits, to be summed.
#[derive(Clone, Debug)]
pub struct AggregateRequest {
    /// The type of the commits.
    pub typ: CommitType,
    /// The slot they belong to.
    pub i: u32,
    /// How many commits the buffer held.
    pub count: usize,
    pub signatures: Vec<Vec<u8>>,
    pub public_keys: Vec<Vec<u8>>,
}

/// What a unit asks of its runner after a step.
#[derive(Clone, Debug)]
pub enum Action {
    /// Nothing.
    Idle,
    /// Sign the commit's `msg` with the unit's secret key, and hand the
    /// signature to [`BounceUnit::on_signature`] with this commit.
    Sign(Commit),
    /// Sum the signatures and the public keys, and hand the sums to
    /// [`BounceUnit::on_aggregate`] with this request.
    Aggregate(AggregateRequest),
}

/// The outcome of a step: a commit to broadcast, if any, and what to do next.
#[derive(Clone, Debug)]
pub struct Step {
    pub broadcast: Option<Commit>,
    pub action: Action,
}

/// The views of a sequence of byte vectors.
pub open spec fn byte_views(s: Seq<Vec<u8>>) -> Seq<Seq<u8>> {
    s.map_values(|v: Vec<u8>| v@)
}

/// The mathematical value of an [`Action`].
pub enum ActionView {
    Idle,
    Sign(CommitView),
    Aggregate {
        typ: CommitType,
        i: u32,
        count: nat,
        signatures: Seq<Seq<u8>>,
        public_keys: Seq<Seq<u8>>,
    },
}

/// The mathematical value of a [`Step`].
pub struct StepView {
    pub broadcast: Option<CommitView>,
    pub action: ActionView,
}

impl View for AggregateRequest {
    type V = ActionView;

    open spec fn view(&self) -> ActionView {
        ActionView::Aggregate {
            typ: self.typ,
            i: self.i,
            count: self.count as nat,
            signatures: byte_views(self.signatures@),
            public_keys: byte_views(self.public_keys@),
        }
    }
}

impl View for Action {
    type V = ActionView;

    open spec fn view(&self) -> ActionView {
        match self {
            Action::Idle => ActionView::Idle,
            Action::Sign(c) => ActionView::Sign(c@),
            Action::Aggregate(r) => r@,
        }
    }
}

impl View for Step {
    type V = StepView;

    open spec fn view(&self) -> StepView {
        StepView {
            broadcast: match self.broadcast {
                Some(c) => Some(c@),
                None => None,
            },
            action: self.action@,
        }
    }
}

impl StepView {
    /// Nothing broadcast, nothing asked.
    pub open spec fn idle() -> StepView {
        StepView { broadcast: None, action: ActionView::Idle }
    }
}

impl Step {
    /// Nothing broadcast, nothing asked.
    pub fn idle() -> (s: Step)
        ensures
            s@ == StepView::idle(),
    {
        Step { broadcast: None, action: Action::Idle }
    }
}

/// Whether no slot holds two commits of the unit's own (non-aggregate) in `e`.
pub open spec fn own_at_most_once(e: Seq<CommitView>) -> bool {
    forall|a: int, b: int|
        #![trigger e[a], e[b]]
        0 <= a < b < e.len() && !e[a].aggregated && !e[b].aggregated ==> e[a].i != e[b].i
}

/// Whether no slot holds two aggregate commits in `e`.
pub open spec fn aggregate_at_most_once(e: Seq<CommitView>) -> bool {
    forall|a: int, b: int|
        #![trigger e[a], e[b]]
        0 <= a < b < e.len() && e[a].aggregated && e[b].aggregated ==> e[a].i != e[b].i
}

/// The type a unit in `mode` gives a commit of type `typ`, with `coin` the
/// outcome of its coin flip.
pub open spec fn effective_type(mode: FailureMode, typ: CommitType, coin: bool) -> CommitType {
    if mode == FailureMode::FailArbitrary {
        if coin {
            CommitType::Precommit
        } else {
            CommitType::Noncommit
        }
    } else {
        typ
    }
}

/// Whether a commit of type `typ` received in `phase` is recorded: the first
/// phase takes only precommits, the later ones take both types.
pub open spec fn admits(phase: Phase, typ: CommitType) -> bool {
    ||| phase == Phase::Second
    ||| phase == Phase::Third
    ||| (phase == Phase::First && typ == CommitType::Precommit)
}

/// The mathematical value of a [`BounceUnit`].
pub struct UnitView {
    pub id: u32,
    /// The number of units in the flock.
    pub n: u32,
    pub mode: FailureMode,
    pub public_key: Seq<u8>,
    pub slot: SlotView,
    /// Every commit the unit has broadcast, oldest first.
    pub emitted: Seq<CommitView>,
}

impl UnitView {
    /// The number of commits of one type that make a quorum.
    pub open spec fn quorum(self) -> int {
        threshold(self.n as int)
    }

    /// How many commits the buffers of the current slot hold.
    pub open spec fn buffered(self) -> int {
        self.slot.precommits.len() + self.slot.noncommits.len() as int
    }

    /// Whether the buffers hold as many commits as there are units.
    pub open spec fn full(self) -> bool {
        self.buffered() >= self.n
    }

    /// The invariant of a unit: a flock of at least one unit, a last committed
    /// slot no later than the current one, buffers that hold commits of their
    /// own type from distinct signers (the unit itself only once it has signed)
    /// and no more commits than there are units, and a history consistent with
    /// the slot record.
    pub open spec fn inv(self) -> bool {
        &&& self.n >= 1
        &&& self.slot.j <= self.slot.i
        &&& self.buffered() <= self.n
        &&& self.slot.distinct_signers()
        &&& (!self.slot.signed ==> !self.slot.holds_signer(self.public_key))
        &&& forall|k: int|
            0 <= k < self.slot.precommits.len() ==> (#[trigger] self.slot.precommits[k]).typ
                == CommitType::Precommit
        &&& forall|k: int|
            0 <= k < self.slot.noncommits.len() ==> (#[trigger] self.slot.noncommits[k]).typ
                == CommitType::Noncommit
        &&& forall|k: int| 0 <= k < self.emitted.len() ==> (#[trigger] self.emitted[k]).i <= self.slot.i
        &&& forall|k: int|
            0 <= k < self.emitted.len() && !(#[trigger] self.emitted[k]).aggregated
                && self.emitted[k].i == self.slot.i ==> self.slot.signed
        &&& forall|k: int|
            0 <= k < self.emitted.len() && (#[trigger] self.emitted[k]).aggregated
                && self.emitted[k].i == self.slot.i ==> self.slot.aggregated
        &&& own_at_most_once(self.emitted)
        &&& aggregate_at_most_once(self.emitted)
    }

    /// The unit with slot record `slot`.
    pub open spec fn with_slot(self, slot: SlotView) -> UnitView {
        UnitView { slot, ..self }
    }

    /// Whether an inbound commit is dropped before anything else is looked at:
    /// it carries the unit's own key, the unit is stopped, or the slot is
    /// already aggregated.
    pub open spec fn drops(self, c: CommitView) -> bool {
        ||| c.public_key == self.public_key
        ||| self.slot.phase == Phase::Stop
        ||| self.slot.aggregated
    }

    /// Whether the unit signs a commit of type `typ` now: it has not signed in
    /// this slot, and the phase is the second, or the first and `typ` is a precommit.
    pub open spec fn signs(self, typ: CommitType) -> bool {
        &&& !self.slot.signed
        &&& (self.slot.phase == Phase::Second || (self.slot.phase == Phase::First && typ
            == CommitType::Precommit))
    }

    /// The commit `c`, typed `typ`, made ready for this unit's signature.
    pub open spec fn sign_template(self, c: CommitView, typ: CommitType) -> CommitView {
        CommitView {
            typ,
            i: self.slot.i,
            public_key: self.public_key,
            aggregated: false,
            signer_id: self.id,
            ..c
        }
    }

    /// The non-commit for the current slot, ready for this unit's signature.
    pub open spec fn noncommit_template(self) -> CommitView {
        CommitView {
            typ: CommitType::Noncommit,
            i: self.slot.i,
            j: self.slot.j,
            msg: noncommit_text(self.slot.j, self.slot.i),
            public_key: self.public_key,
            signature: Seq::empty(),
            aggregated: false,
            signer_id: self.id,
        }
    }

    /// The request to sum the signatures and public keys of the buffer of type `typ`.
    pub open spec fn aggregate_request(self, typ: CommitType) -> ActionView {
        let buf = self.slot.buffer(typ);
        ActionView::Aggregate {
            typ,
            i: self.slot.i,
            count: buf.len(),
            signatures: buf.map_values(|c: CommitView| c.signature),
            public_keys: buf.map_values(|c: CommitView| c.public_key),
        }
    }

    /// The quorum check: aggregate the precommits if there are enough of them,
    /// else the non-commits if there are enough of them, else nothing.
    pub open spec fn quorum_action(self) -> ActionView {
        if self.slot.precommits.len() >= self.quorum() {
            self.aggregate_request(CommitType::Precommit)
        } else if self.slot.noncommits.len() >= self.quorum() {
            self.aggregate_request(CommitType::Noncommit)
        } else {
            ActionView::Idle
        }
    }

    /// A phase tick: the first phase opens the next slot; the third has a unit
    /// that does not fail by stopping and has neither signed nor seen an
    /// aggregate in the slot ask to sign the slot's non-commit. The phase is
    /// recorded last.
    pub open spec fn on_phase(self, phase: Phase) -> (UnitView, StepView) {
        if phase == Phase::First {
            (self.with_slot(self.slot.next()), StepView::idle())
        } else if phase == Phase::Third && self.mode != FailureMode::FailStop && !self.slot.signed
            && !self.slot.aggregated {
            (
                self.with_slot(SlotView { phase, ..self.slot }),
                StepView { broadcast: None, action: ActionView::Sign(self.noncommit_template()) },
            )
        } else {
            (self.with_slot(SlotView { phase, ..self.slot }), StepView::idle())
        }
    }

    /// The last committed slot after an aggregate `c` for the current slot
    /// arrives: an aggregate precommit raises it to `c.j` where that is later
    /// (and, as a commit's `j` must be, no later than the slot); an aggregate
    /// non-commit leaves it.
    pub open spec fn adopted_j(self, c: CommitView) -> u32 {
        if c.typ == CommitType::Precommit && self.slot.j < c.j && c.j <= self.slot.i {
            c.j
        } else {
            self.slot.j
        }
    }

    /// An inbound commit `c`; `coin` is the coin flip of a unit that fails
    /// arbitrarily. A unit whose buffers are full, or already hold a commit
    /// under `c`'s key, takes no more single commits.
    pub open spec fn on_commit(self, c: CommitView, coin: bool) -> (UnitView, StepView) {
        if self.drops(c) {
            (self, StepView::idle())
        } else if c.aggregated && c.i == self.slot.i {
            (
                self.with_slot(SlotView { aggregated: true, j: self.adopted_j(c), ..self.slot }),
                StepView::idle(),
            )
        } else if self.mode == FailureMode::FailStop {
            (self, StepView::idle())
        } else {
            let typ = effective_type(self.mode, c.typ, coin);
            if self.full() || self.slot.holds_signer(c.public_key) {
                (self, StepView::idle())
            } else if self.signs(typ) {
                (
                    self,
                    StepView {
                        broadcast: None,
                        action: ActionView::Sign(self.sign_template(c, typ)),
                    },
                )
            } else if admits(self.slot.phase, typ) {
                let u = self.with_slot(self.slot.record(CommitView { typ, ..c }));
                (u, StepView { broadcast: None, action: u.quorum_action() })
            } else {
                (self, StepView { broadcast: None, action: self.quorum_action() })
            }
        }
    }

    /// Whether a signed commit `t` is taken: the unit is running and does not
    /// fail by stopping, has neither signed nor aggregated in this slot, has
    /// room in its buffers, `t` is a commit of this unit for the current slot,
    /// and the phase admits its type.
    pub open spec fn takes_signed(self, t: CommitView) -> bool {
        &&& self.mode != FailureMode::FailStop
        &&& !self.slot.signed
        &&& !self.slot.aggregated
        &&& !self.full()
        &&& self.slot.phase != Phase::Stop
        &&& t.i == self.slot.i
        &&& !t.aggregated
        &&& t.signer_id == self.id
        &&& t.public_key == self.public_key
        &&& admits(self.slot.phase, t.typ)
    }

    /// The signature `sig` of the commit `t` comes back. If it is taken, the
    /// signed commit is broadcast and recorded, and outside the third phase
    /// the quorum is checked.
    pub open spec fn on_signature(self, t: CommitView, sig: Option<Seq<u8>>) -> (
        UnitView,
        StepView,
    ) {
        match sig {
            Some(s) if self.takes_signed(t) => {
                let own = CommitView { signature: s, ..t };
                let u = UnitView {
                    slot: SlotView { signed: true, ..self.slot }.record(own),
                    emitted: self.emitted.push(own),
                    ..self
                };
                if self.slot.phase == Phase::Third {
                    (u, StepView { broadcast: Some(own), action: ActionView::Idle })
                } else {
                    (u, StepView { broadcast: Some(own), action: u.quorum_action() })
                }
            },
            _ => (self, StepView::idle()),
        }
    }

    /// Whether sums for `count` commits of type `typ` of slot `i` are taken:
    /// the slot is not aggregated yet, and its buffer of that type still holds
    /// exactly those commits, enough for a quorum.
    pub open spec fn takes_sums(self, typ: CommitType, i: u32, count: nat) -> bool {
        &&& !self.slot.aggregated
        &&& i == self.slot.i
        &&& count == self.slot.buffer(typ).len()
        &&& count >= self.quorum()
    }

    /// The last committed slot once the buffer of type `typ` is aggregated:
    /// the current slot for precommits, unchanged for non-commits.
    pub open spec fn concluded_j(self, typ: CommitType) -> u32 {
        if typ == CommitType::Precommit {
            self.slot.i
        } else {
            self.slot.j
        }
    }

    /// The aggregate commit with signature `sig` and public key `pk`: the
    /// buffer's last commit, marked aggregated and signed off by this unit for
    /// the current slot, carrying the last committed slot it leaves the unit with.
    pub open spec fn aggregate_commit(self, typ: CommitType, sig: Seq<u8>, pk: Seq<u8>) -> CommitView {
        CommitView {
            signature: sig,
            public_key: pk,
            aggregated: true,
            i: self.slot.i,
            j: self.concluded_j(typ),
            signer_id: self.id,
            ..self.slot.buffer(typ).last()
        }
    }

    /// The sums of a buffer come back. If they are taken, the aggregate is
    /// broadcast, the slot is aggregated, and an aggregate precommit makes the
    /// current slot the last committed one.
    pub open spec fn on_aggregate(
        self,
        typ: CommitType,
        i: u32,
        count: nat,
        sums: Option<(Seq<u8>, Seq<u8>)>,
    ) -> (UnitView, StepView) {
        match sums {
            Some((sig, pk)) if self.takes_sums(typ, i, count) => {
                let agg = self.aggregate_commit(typ, sig, pk);
                (
                    UnitView {
                        slot: SlotView { aggregated: true, j: self.concluded_j(typ), ..self.slot },
                        emitted: self.emitted.push(agg),
                        ..self
                    },
                    StepView { broadcast: Some(agg), action: ActionView::Idle },
                )
            },
            _ => (self, StepView::idle()),
        }
    }
}

/// A bounce unit of a flock.
pub struct BounceUnit {
    id: u32,
    num_bounce_units: u32,
    failure_mode: FailureMode,
    public_key: Vec<u8>,
    slot_info: SlotInfo,
    /// Every commit this unit has broadcast, oldest first.
    emitted: Ghost<Seq<CommitView>>,
}

impl View for BounceUnit {
    type V = UnitView;

    closed spec fn view(&self) -> UnitView {
        UnitView {
            id: self.id,
            n: self.num_bounce_units,
            mode: self.failure_mode,
            public_key: self.public_key@,
            slot: self.slot_info@,
            emitted: self.emitted@,
        }
    }
}

/// The signatures and the public keys of `buf`, in order.
fn collect_keys(buf: &Vec<Commit>) -> (r: (Vec<Vec<u8>>, Vec<Vec<u8>>))
    ensures
        byte_views(r.0@) == commit_views(buf@).map_values(|c: CommitView| c.signature),
        byte_views(r.1@) == commit_views(buf@).map_values(|c: CommitView| c.public_key),
{
    let mut sigs: Vec<Vec<u8>> = Vec::new();
    let mut pks: Vec<Vec<u8>> = Vec::new();
    let mut k: usize = 0;
    while k < buf.len()
        invariant
            k <= buf@.len(),
            sigs@.len() == k,
            pks@.len() == k,
            forall|m: int| 0 <= m < k ==> (#[trigger] sigs@[m])@ == buf@[m].signature@,
            forall|m: int| 0 <= m < k ==> (#[trigger] pks@[m])@ == buf@[m].public_key@,
        decreases buf@.len() - k,
    {
        sigs.push(copy_bytes(&buf[k].signature));
        pks.push(copy_bytes(&buf[k].public_key));
        k = k + 1;
    }
    assert(byte_views(sigs@) =~= commit_views(buf@).map_values(|c: CommitView| c.signature));
    assert(byte_views(pks@) =~= commit_views(buf@).map_values(|c: CommitView| c.public_key));
    (sigs, pks)
}

impl BounceUnit {
    /// Whether the unit's state satisfies its invariant.
    pub open spec fn wf(&self) -> bool {
        self@.inv()
    }

    /// A unit `id` of a flock of `num_bounce_units` units, behaving as
    /// `failure_mode`, whose secret key belongs to `public_key`. It starts
    /// stopped at slot 0.
    pub fn new(id: u32, num_bounce_units: u32, failure_mode: FailureMode, public_key: Vec<u8>) -> (u:
        BounceUnit)
        requires
            num_bounce_units >= 1,
        ensures
            u.wf(),
            u@ == (UnitView {
                id,
                n: num_bounce_units,
                mode: failure_mode,
                public_key: public_key@,
                slot: SlotView::initial(),
                emitted: Seq::empty(),
            }),
    {
        BounceUnit {
            id,
            num_bounce_units,
            failure_mode,
            public_key,
            slot_info: SlotInfo::new(),
            emitted: Ghost(Seq::empty()),
        }
    }

    /// The unit's id.
    pub fn id(&self) -> (r: u32)
        ensures
            r == self@.id,
    {
        self.id
    }

    /// The unit's public key.
    pub fn public_key(&self) -> (r: &Vec<u8>)
        ensures
            r@ == self@.public_key,
    {
        &self.public_key
    }

    /// The unit's record of the current slot.
    pub fn slot_info(&self) -> (r: &SlotInfo)
        ensures
            r@ == self@.slot,
    {
        &self.slot_info
    }

    /// Whether the buffers hold as many commits as there are units.
    fn is_full(&self) -> (r: bool)
        requires
            self.wf(),
        ensures
            r == self@.full(),
    {
        let held = self.slot_info.precommits.len() as u64 + self.slot_info.noncommits.len() as u64;
        held >= self.num_bounce_units as u64
    }

    /// The request to sum the buffer of type `typ`.
    fn aggregate_request(&self, typ: CommitType) -> (r: AggregateRequest)
        ensures
            r@ == self@.aggregate_request(typ),
    {
        let buf = if typ == CommitType::Precommit {
            &self.slot_info.precommits
        } else {
            &self.slot_info.noncommits
        };
        let (signatures, public_keys) = collect_keys(buf);
        AggregateRequest { typ, i: self.slot_info.i, count: buf.len(), signatures, public_keys }
    }

    /// The quorum check.
    fn quorum_action(&self) -> (a: Action)
        ensures
            a@ == self@.quorum_action(),
    {
        let t = supermajority(self.num_bounce_units as usize);
        if self.slot_info.precommits.len() >= t {
            Action::Aggregate(self.aggregate_request(CommitType::Precommit))
        } else if self.slot_info.noncommits.len() >= t {
            Action::Aggregate(self.aggregate_request(CommitType::Noncommit))
        } else {
            Action::Idle
        }
    }

    /// Handles a phase tick.
    pub fn on_phase(&mut self, phase: Phase) -> (step: Step)
        requires
            old(self).wf(),
            phase == Phase::First ==> old(self)@.slot.i < u32::MAX,
        ensures
            final(self).wf(),
            (final(self)@, step@) == old(self)@.on_phase(phase),
    {
        if phase == Phase::First {
            self.slot_info.next();
            return Step::idle();
        }
        let step = if phase == Phase::Third && self.failure_mode != FailureMode::FailStop
            && !self.slot_info.signed && !self.slot_info.aggregated {
            let noncommit = Commit {
                typ: CommitType::Noncommit,
                i: self.slot_info.i,
                j: self.slot_info.j,
                msg: noncommit_message(self.slot_info.j, self.slot_info.i),
                public_key: copy_bytes(&self.public_key),
                signature: Vec::new(),
                aggregated: false,
                signer_id: self.id,
            };
            assert(noncommit.signature@ =~= Seq::<u8>::empty());
            Step { broadcast: None, action: Action::Sign(noncommit) }
        } else {
            Step::idle()
        };
        self.slot_info.phase = phase;
        step
    }

    /// Handles an inbound commit; `coin` is the coin flip that a unit failing
    /// arbitrarily uses to relabel it.
    pub fn on_commit(&mut self, c: Commit, coin: bool) -> (step: Step)
        requires
            old(self).wf(),
        ensures
            final(self).wf(),
            (final(self)@, step@) == old(self)@.on_commit(c@, coin),
    {
        if bytes_equal(&c.public_key, &self.public_key) || self.slot_info.phase == Phase::Stop
            || self.slot_info.aggregated {
            return Step::idle();
        }
        if c.aggregated && c.i == self.slot_info.i {
            self.slot_info.aggregated = true;
            if c.typ == CommitType::Precommit && self.slot_info.j < c.j && c.j <= self.slot_info.i {
                self.slot_info.j = c.j;
            }
            return Step::idle();
        }
        let typ = match self.failure_mode {
            FailureMode::FailStop => {
                return Step::idle();
            },
            FailureMode::FailArbitrary => {
                if coin {
                    CommitType::Precommit
                } else {
                    CommitType::Noncommit
                }
            },
            FailureMode::Honest => c.typ,
        };
        if self.is_full() || self.slot_info.holds_signer(&c.public_key) {
            return Step::idle();
        }
        let phase = self.slot_info.phase;
        let mut c = c;
        c.typ = typ;
        if !self.slot_info.signed && (phase == Phase::Second || (phase == Phase::First && typ
            == CommitType::Precommit)) {
            c.i = self.slot_info.i;
            c.public_key = copy_bytes(&self.public_key);
            c.aggregated = false;
            c.signer_id = self.id;
            return Step { broadcast: None, action: Action::Sign(c) };
        }
        if phase == Phase::Second || phase == Phase::Third || (phase == Phase::First && typ
            == CommitType::Precommit) {
            self.slot_info.record(c);
        }
        Step { broadcast: None, action: self.quorum_action() }
    }

    /// Handles an inbound commit, flipping a fresh coin when the unit fails
    /// arbitrarily. Whatever the coin shows, the step is one of [`Self::on_commit`].
    pub fn on_commit_flipping(&mut self, c: Commit) -> (step: Step)
        requires
            old(self).wf(),
        ensures
            final(self).wf(),
            exists|coin: bool| (final(self)@, step@) == old(self)@.on_commit(c@, coin),
    {
        let coin = if self.failure_mode == FailureMode::FailArbitrary {
            flip_coin()
        } else {
            false
        };
        self.on_commit(c, coin)
    }

    /// Handles the signature of the commit `template` that an earlier step
    /// asked for; `None` if signing failed.
    pub fn on_signature(&mut self, template: Commit, signature: Option<Vec<u8>>) -> (step: Step)
        requires
            old(self).wf(),
        ensures
            final(self).wf(),
            (final(self)@, step@) == old(self)@.on_signature(
                template@,
                match signature {
                    Some(s) => Some(s@),
                    None => None,
                },
            ),
    {
        let sig = match signature {
            Some(s) => s,
            None => {
                return Step::idle();
            },
        };
        let phase = self.slot_info.phase;
        if self.failure_mode == FailureMode::FailStop || self.slot_info.signed
            || self.slot_info.aggregated || self.is_full() || phase == Phase::Stop
            || template.i != self.slot_info.i || template.aggregated || template.signer_id
            != self.id || !bytes_equal(&template.public_key, &self.public_key) || (phase
            == Phase::First && template.typ == CommitType::Noncommit) {
            return Step::idle();
        }
        let mut own = template;
        own.signature = sig;
        let out = own.duplicate();
        proof {
            assert(!self@.slot.signed);
            assert forall|k: int| 0 <= k < self@.emitted.len() && !self@.emitted[k].aggregated
                implies self@.emitted[k].i != own@.i by {}
        }
        self.slot_info.signed = true;
        self.slot_info.record(own);
        self.emitted = Ghost(self.emitted@.push(out@));
        if phase == Phase::Third {
            Step { broadcast: Some(out), action: Action::Idle }
        } else {
            Step { broadcast: Some(out), action: self.quorum_action() }
        }
    }

    /// Handles the sums of signatures and of public keys that `request` asked
    /// for; `None` if summing failed.
    pub fn on_aggregate(&mut self, request: &AggregateRequest, sums: Option<(Vec<u8>, Vec<u8>)>) -> (step:
        Step)
        requires
            old(self).wf(),
        ensures
            final(self).wf(),
            (final(self)@, step@) == old(self)@.on_aggregate(
                request.typ,
                request.i,
                request.count as nat,
                match sums {
                    Some((s, p)) => Some((s@, p@)),
                    None => None,
                },
            ),
    {
        let (sig, pk) = match sums {
            Some(p) => p,
            None => {
                return Step::idle();
            },
        };
        let typ = request.typ;
        let len = if typ == CommitType::Precommit {
            self.slot_info.precommits.len()
        } else {
            self.slot_info.noncommits.len()
        };
        let t = supermajority(self.num_bounce_units as usize);
        if self.slot_info.aggregated || request.i != self.slot_info.i || request.count != len
            || len < t {
            return Step::idle();
        }
        proof {
            assert(threshold(self@.n as int) >= 1);
        }
        let last = if typ == CommitType::Precommit {
            self.slot_info.precommits[len - 1].duplicate()
        } else {
            self.slot_info.noncommits[len - 1].duplicate()
        };
        let j = if typ == CommitType::Precommit {
            self.slot_info.i
        } else {
            self.slot_info.j
        };
        let agg = Commit {
            typ: last.typ,
            i: self.slot_info.i,
            j,
            msg: last.msg,
            public_key: pk,
            signature: sig,
            aggregated: true,
            signer_id: self.id,
        };
        let out = agg.duplicate();
        proof {
            assert forall|k: int| 0 <= k < self@.emitted.len() && self@.emitted[k].aggregated
                implies self@.emitted[k].i != agg@.i by {}
        }
        self.slot_info.aggregated = true;
        self.slot_info.j = j;
        self.emitted = Ghost(self.emitted@.push(out@));
        Step { broadcast: Some(out), action: Action::Idle }
    }
}

} // verus!
