//! Flock configuration: slot timing and the failure mode of each unit.
use vstd::prelude::*;

verus! {

/// How a bounce unit behaves.
#[derive(Clone, Copy, Debug, PartialEq, Eq, Structural)]
pub enum FailureMode {
    /// Follows the protocol.
    Honest,
    /// Relabels each commit it handles as a precommit or a non-commit by a coin flip.
    FailArbitrary,
    /// Drops every commit and emits nothing.
    FailStop,
}

/// Why a configuration was refused.
#[derive(Clone, Copy, Debug, PartialEq, Eq, Structural)]
pub enum ConfigError {
    /// A flock needs at least one unit.
    NoUnits,
    /// The first two phases do not end before the slot does.
    PhasesTooLong,
    /// A unit id that is not below the number of units.
    UnitOutOfRange(u32),
    /// A unit listed both as failing arbitrarily and as failing by stopping.
    ConflictingFailureModes(u32),
}

/// Durations, in seconds, of a slot and of its first two phases.
#[derive(Clone, Copy, Debug, PartialEq, Eq, Structural)]
pub struct SlotConfig {
    pub slot_duration: u32,
    pub phase1_duration: u32,
    pub phase2_duration: u32,
}

impl SlotConfig {
    /// Whether the first and second phases end before the slot does.
    pub open spec fn valid(self) -> bool {
        self.phase1_duration + self.phase2_duration < self.slot_duration
    }

    /// A slot configuration, if its first two phases end before the slot does.
    pub fn new(slot_duration: u32, phase1_duration: u32, phase2_duration: u32) -> (r: Result<
        SlotConfig,
        ConfigError,
    >)
        ensures
            match r {
                Ok(cfg) => {
                    &&& cfg == (SlotConfig { slot_duration, phase1_duration, phase2_duration })
                    &&& cfg.valid()
                },
                Err(e) => {
                    &&& e == ConfigError::PhasesTooLong
                    &&& phase1_duration + phase2_duration >= slot_duration
                },
            },
    {
        if (phase1_duration as u64) + (phase2_duration as u64) < slot_duration as u64 {
            Ok(SlotConfig { slot_duration, phase1_duration, phase2_duration })
        } else {
            Err(ConfigError::PhasesTooLong)
        }
    }

    /// Seconds from the start of a slot to the start of its second phase.
    pub fn second_phase_offset(&self) -> (s: u32)
        ensures
            s == self.phase1_duration,
    {
        self.phase1_duration
    }

    /// Seconds from the start of a slot to the start of its third phase.
    pub fn third_phase_offset(&self) -> (s: u64)
        ensures
            s == self.phase1_duration + self.phase2_duration,
    {
        self.phase1_duration as u64 + self.phase2_duration as u64
    }
}

/// The units of a flock and which of them fail, and how.
#[derive(Clone, Debug)]
pub struct FlockConfig {
    num_bounce_units: u32,
    fail_arbitrary: Vec<u32>,
    fail_stop: Vec<u32>,
}

/// Whether some id of `ids` is not below `n`.
pub open spec fn has_out_of_range(ids: Seq<u32>, n: u32) -> bool {
    exists|k: int| 0 <= k < ids.len() && ids[k] >= n
}

/// Whether some id is in both lists.
pub open spec fn overlaps(a: Seq<u32>, b: Seq<u32>) -> bool {
    exists|k: int| 0 <= k < a.len() && b.contains(#[trigger] a[k])
}

/// The mode of unit `id` given the two lists; unlisted units are honest.
pub open spec fn mode_of(fail_arbitrary: Seq<u32>, fail_stop: Seq<u32>, id: u32) -> FailureMode {
    if fail_stop.contains(id) {
        FailureMode::FailStop
    } else if fail_arbitrary.contains(id) {
        FailureMode::FailArbitrary
    } else {
        FailureMode::Honest
    }
}

/// The first id of `ids` that is not below `n`, if any.
fn find_out_of_range(ids: &Vec<u32>, n: u32) -> (r: Option<u32>)
    ensures
        match r {
            Some(id) => ids@.contains(id) && id >= n,
            None => !has_out_of_range(ids@, n),
        },
{
    let mut k: usize = 0;
    while k < ids.len()
        invariant
            k <= ids@.len(),
            forall|m: int| 0 <= m < k ==> ids@[m] < n,
        decreases ids@.len() - k,
    {
        if ids[k] >= n {
            return Some(ids[k]);
        }
        k = k + 1;
    }
    None
}

/// Whether `ids` holds `id`.
fn holds(ids: &Vec<u32>, id: u32) -> (r: bool)
    ensures
        r == ids@.contains(id),
{
    let mut k: usize = 0;
    while k < ids.len()
        invariant
            k <= ids@.len(),
            forall|m: int| 0 <= m < k ==> ids@[m] != id,
        decreases ids@.len() - k,
    {
        if ids[k] == id {
            return true;
        }
        k = k + 1;
    }
    false
}

impl FlockConfig {
    /// The number of units.
    pub closed spec fn units(&self) -> u32 {
        self.num_bounce_units
    }

    /// The ids listed as failing arbitrarily.
    pub closed spec fn fail_arbitrary_ids(&self) -> Seq<u32> {
        self.fail_arbitrary@
    }

    /// The ids listed as failing by stopping.
    pub closed spec fn fail_stop_ids(&self) -> Seq<u32> {
        self.fail_stop@
    }

    /// Whether the lists name only units of the flock, none of them twice over.
    pub open spec fn wf(&self) -> bool {
        &&& self.units() >= 1
        &&& !has_out_of_range(self.fail_arbitrary_ids(), self.units())
        &&& !has_out_of_range(self.fail_stop_ids(), self.units())
        &&& !overlaps(self.fail_arbitrary_ids(), self.fail_stop_ids())
    }

    /// A flock of `num_bounce_units` units in which the listed ids fail
    /// arbitrarily or by stopping and every other unit is honest.
    pub fn new(num_bounce_units: u32, fail_arbitrary: Vec<u32>, fail_stop: Vec<u32>) -> (r: Result<
        FlockConfig,
        ConfigError,
    >)
        ensures
            match r {
                Ok(cfg) => {
                    &&& cfg.wf()
                    &&& cfg.units() == num_bounce_units
                    &&& cfg.fail_arbitrary_ids() == fail_arbitrary@
                    &&& cfg.fail_stop_ids() == fail_stop@
                },
                Err(ConfigError::NoUnits) => num_bounce_units == 0,
                Err(ConfigError::UnitOutOfRange(id)) => {
                    &&& num_bounce_units >= 1
                    &&& (fail_arbitrary@.contains(id) || fail_stop@.contains(id))
                    &&& id >= num_bounce_units
                },
                Err(ConfigError::ConflictingFailureModes(id)) => {
                    &&& num_bounce_units >= 1
                    &&& !has_out_of_range(fail_arbitrary@, num_bounce_units)
                    &&& !has_out_of_range(fail_stop@, num_bounce_units)
                    &&& fail_arbitrary@.contains(id)
                    &&& fail_stop@.contains(id)
                },
                Err(ConfigError::PhasesTooLong) => false,
            },
    {
        if num_bounce_units == 0 {
            return Err(ConfigError::NoUnits);
        }
        match find_out_of_range(&fail_arbitrary, num_bounce_units) {
            Some(id) => {
                return Err(ConfigError::UnitOutOfRange(id));
            },
            None => {},
        }
        match find_out_of_range(&fail_stop, num_bounce_units) {
            Some(id) => {
                return Err(ConfigError::UnitOutOfRange(id));
            },
            None => {},
        }
        let mut k: usize = 0;
        while k < fail_arbitrary.len()
            invariant
                k <= fail_arbitrary@.len(),
                num_bounce_units >= 1,
                !has_out_of_range(fail_arbitrary@, num_bounce_units),
                !has_out_of_range(fail_stop@, num_bounce_units),
                forall|m: int| 0 <= m < k ==> !fail_stop@.contains(#[trigger] fail_arbitrary@[m]),
            decreases fail_arbitrary@.len() - k,
        {
            let id = fail_arbitrary[k];
            if holds(&fail_stop, id) {
                assert(fail_arbitrary@.contains(id)) by {
                    assert(fail_arbitrary@[k as int] == id);
                }
                return Err(ConfigError::ConflictingFailureModes(id));
            }
            k = k + 1;
        }
        Ok(FlockConfig { num_bounce_units, fail_arbitrary, fail_stop })
    }

    /// The number of units.
    pub fn num_bounce_units(&self) -> (n: u32)
        ensures
            n == self.units(),
    {
        self.num_bounce_units
    }

    /// The failure mode of unit `id`: as listed, and honest when unlisted.
    pub fn failure_mode(&self, id: u32) -> (m: FailureMode)
        ensures
            m == mode_of(self.fail_arbitrary_ids(), self.fail_stop_ids(), id),
    {
        if holds(&self.fail_stop, id) {
            FailureMode::FailStop
        } else if holds(&self.fail_arbitrary, id) {
            FailureMode::FailArbitrary
        } else {
            FailureMode::Honest
        }
    }
}

} // verus!
