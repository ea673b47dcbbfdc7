//! Bounce: a flock of bounce units that agree, slot by slot, to precommit a
//! ground station's payload or to non-commit the slot, and answer with one
//! aggregate BLS signature.
//!
//! - [`commit`]: the commit record and the canonical non-commit message.
//! - [`slot_info`]: a unit's record of the current slot and its phase.
//! - [`bounce_unit`]: the unit's decision state machine.
//! - [`safety`]: laws of a unit over its executions.
//! - [`flock`]: the coordinator's routing and its duplicate-slot guard.
//! - [`config`]: slot timing and failure modes.
//! - [`ground_station`]: a ground station gathering signatures on a request.
//! - [`entropy`]: coin flips and secret key bytes.
use vstd::prelude::*;

pub mod bounce_unit;
pub mod commit;
pub mod config;
pub mod entropy;
pub mod flock;
pub mod ground_station;
pub mod safety;
pub mod slot_info;

pub use commit::{Commit, CommitType};
pub use bounce_unit::{BounceUnit, Command};
pub use slot_info::{Phase, SlotInfo};

verus! {

/// The supermajority threshold `⌈2n/3⌉`.
pub open spec fn threshold(n: int) -> int {
    (2 * n + 2) / 3
}

/// The number of votes of one kind needed out of `n` units: `⌈2n/3⌉`.
pub fn supermajority(n: usize) -> (t: usize)
    ensures
        t == threshold(n as int),
{
    let q: usize = n / 3;
    let r: usize = n % 3;
    let extra: usize = if r == 0 {
        0
    } else if r == 1 {
        1
    } else {
        2
    };
    assert(2 * q + extra == (2 * n + 2) / 3) by (nonlinear_arith)
        requires
            q == n / 3,
            r == n % 3,
            extra == (if r == 0 { 0 } else if r == 1 { 1 } else { 2int }),
    ;
    2 * q + extra
}

} // verus!
