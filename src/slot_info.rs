//! A bounce unit's record of the current slot.
use vstd::prelude::*;
use crate::commit::{Commit, CommitType, CommitView, bytes_equal, commit_views};

verus! {

/// The sub-interval of a slot.
#[derive(Clone, Copy, Debug, PartialEq, Eq, Structural)]
pub enum Phase {
    Stop,
    First,
    Second,
    Third,
}

impl Default for Phase {
    fn default() -> (p: Phase)
        ensures
            p == Phase::Stop,
    {
        Phase::Stop
    }
}

/// What a bounce unit knows of the current slot.
#[derive(Clone, Debug)]
pub struct SlotInfo {
    /// Index of the current slot.
    pub i: u32,
    /// Index of the last committed slot.
    pub j: u32,
    pub phase: Phase,
    /// Whether this unit has signed a commit of its own for slot `i`.
    pub signed: bool,
    /// Whether this unit has produced or seen an aggregate for slot `i`.
    pub aggregated: bool,
    /// Precommits received for slot `i`, in order of arrival.
    pub precommits: Vec<Commit>,
    /// Non-commits received for slot `i`, in order of arrival.
    pub noncommits: Vec<Commit>,
}

/// The mathematical value of a [`SlotInfo`].
pub struct SlotView {
    pub i: u32,
    pub j: u32,
    pub phase: Phase,
    pub signed: bool,
    pub aggregated: bool,
    pub precommits: Seq<CommitView>,
    pub noncommits: Seq<CommitView>,
}

impl View for SlotInfo {
    type V = SlotView;

    open spec fn view(&self) -> SlotView {
        SlotView {
            i: self.i,
            j: self.j,
            phase: self.phase,
            signed: self.signed,
            aggregated: self.aggregated,
            precommits: commit_views(self.precommits@),
            noncommits: commit_views(self.noncommits@),
        }
    }
}

impl SlotView {
    /// The record at boot: slot 0, nothing committed, stopped.
    pub open spec fn initial() -> SlotView {
        SlotView {
            i: 0,
            j: 0,
            phase: Phase::Stop,
            signed: false,
            aggregated: false,
            precommits: Seq::empty(),
            noncommits: Seq::empty(),
        }
    }

    /// The commits of type `typ` received for this slot.
    pub open spec fn buffer(self, typ: CommitType) -> Seq<CommitView> {
        if typ == CommitType::Precommit {
            self.precommits
        } else {
            self.noncommits
        }
    }

    /// Whether a buffered commit of this slot carries the public key `pk`.
    pub open spec fn holds_signer(self, pk: Seq<u8>) -> bool {
        ||| exists|k: int| 0 <= k < self.precommits.len() && (#[trigger] self.precommits[k]).public_key == pk
        ||| exists|k: int| 0 <= k < self.noncommits.len() && (#[trigger] self.noncommits[k]).public_key == pk
    }

    /// Whether the buffered commits of this slot carry pairwise distinct public keys.
    pub open spec fn distinct_signers(self) -> bool {
        &&& forall|a: int, b: int|
            #![trigger self.precommits[a], self.precommits[b]]
            0 <= a < b < self.precommits.len() ==> self.precommits[a].public_key
                != self.precommits[b].public_key
        &&& forall|a: int, b: int|
            #![trigger self.noncommits[a], self.noncommits[b]]
            0 <= a < b < self.noncommits.len() ==> self.noncommits[a].public_key
                != self.noncommits[b].public_key
        &&& forall|a: int, b: int|
            #![trigger self.precommits[a], self.noncommits[b]]
            0 <= a < self.precommits.len() && 0 <= b < self.noncommits.len()
                ==> self.precommits[a].public_key != self.noncommits[b].public_key
    }

    /// The record after `c` is appended to the buffer of its type.
    pub open spec fn record(self, c: CommitView) -> SlotView {
        if c.typ == CommitType::Precommit {
            SlotView { precommits: self.precommits.push(c), ..self }
        } else {
            SlotView { noncommits: self.noncommits.push(c), ..self }
        }
    }

    /// The record on entering the next slot.
    pub open spec fn next(self) -> SlotView
        recommends
            self.i < u32::MAX,
    {
        SlotView {
            i: (self.i + 1) as u32,
            phase: Phase::First,
            signed: false,
            aggregated: false,
            precommits: Seq::empty(),
            noncommits: Seq::empty(),
            ..self
        }
    }
}

impl Default for SlotInfo {
    fn default() -> (s: SlotInfo)
        ensures
            s@ == SlotView::initial(),
    {
        SlotInfo::new()
    }
}

impl SlotInfo {
    /// The record at boot.
    pub fn new() -> (s: SlotInfo)
        ensures
            s@ == SlotView::initial(),
    {
        let s = SlotInfo {
            i: 0,
            j: 0,
            phase: Phase::Stop,
            signed: false,
            aggregated: false,
            precommits: Vec::new(),
            noncommits: Vec::new(),
        };
        assert(s@.precommits =~= Seq::empty());
        assert(s@.noncommits =~= Seq::empty());
        s
    }

    /// Appends `c` to the buffer of its type.
    pub fn record(&mut self, c: Commit)
        ensures
            final(self)@ == old(self)@.record(c@),
    {
        if c.typ == CommitType::Precommit {
            self.precommits.push(c);
            assert(self@.precommits =~= old(self)@.precommits.push(c@));
        } else {
            self.noncommits.push(c);
            assert(self@.noncommits =~= old(self)@.noncommits.push(c@));
        }
    }

    /// Whether a buffered commit carries the public key `pk`.
    pub fn holds_signer(&self, pk: &Vec<u8>) -> (r: bool)
        ensures
            r == self@.holds_signer(pk@),
    {
        let mut k: usize = 0;
        while k < self.precommits.len()
            invariant
                k <= self.precommits@.len(),
                forall|m: int| 0 <= m < k ==> self.precommits@[m].public_key@ != pk@,
            decreases self.precommits@.len() - k,
        {
            if bytes_equal(&self.precommits[k].public_key, pk) {
                assert(self@.precommits[k as int].public_key == pk@);
                return true;
            }
            k = k + 1;
        }
        let mut k: usize = 0;
        while k < self.noncommits.len()
            invariant
                k <= self.noncommits@.len(),
                forall|m: int| 0 <= m < k ==> self.noncommits@[m].public_key@ != pk@,
            decreases self.noncommits@.len() - k,
        {
            if bytes_equal(&self.noncommits[k].public_key, pk) {
                assert(self@.noncommits[k as int].public_key == pk@);
                return true;
            }
            k = k + 1;
        }
        assert forall|m: int| 0 <= m < self@.precommits.len() implies
            (#[trigger] self@.precommits[m]).public_key != pk@ by {
            assert(self@.precommits[m] == self.precommits@[m]@);
        }
        assert forall|m: int| 0 <= m < self@.noncommits.len() implies
            (#[trigger] self@.noncommits[m]).public_key != pk@ by {
            assert(self@.noncommits[m] == self.noncommits@[m]@);
        }
        false
    }

    /// Enters the next slot: advances `i`, enters the first phase, and forgets
    /// what was signed and received; `j` is kept.
    pub fn next(&mut self)
        requires
            old(self).i < u32::MAX,
        ensures
            final(self)@ == old(self)@.next(),
    {
        self.i = self.i + 1;
        self.phase = Phase::First;
        self.signed = false;
        self.aggregated = false;
        self.precommits.clear();
        self.noncommits.clear();
        assert(self@.precommits =~= Seq::empty());
        assert(self@.noncommits =~= Seq::empty());
    }
}

} // verus!
