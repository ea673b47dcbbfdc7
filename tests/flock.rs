use std::collections::VecDeque;

use bounce::bounce_unit::{Action, BounceUnit, Step};
use bounce::config::{ConfigError, FailureMode, FlockConfig, SlotConfig};
use bounce::flock::{Route, Router};
use bounce::{supermajority, Commit, CommitType, Phase};

// The same toy scheme as in the unit tests: signatures `k * h(m)` that add up.
const P: u64 = 1_000_000_007;

fn h(msg: &[u8]) -> u64 {
    let mut x: u64 = 7;
    for b in msg {
        x = (x * 31 + *b as u64) % P;
    }
    x
}

fn enc(x: u64) -> Vec<u8> {
    x.to_le_bytes().to_vec()
}

fn dec(v: &[u8]) -> u64 {
    let mut a = [0u8; 8];
    a.copy_from_slice(&v[..8]);
    u64::from_le_bytes(a)
}

fn toy_sign(k: u64, msg: &[u8]) -> Vec<u8> {
    enc(k % P * h(msg) % P)
}

fn toy_sum(vs: &[Vec<u8>]) -> Vec<u8> {
    enc(vs.iter().map(|v| dec(v)).fold(0, |a, x| (a + x) % P))
}

fn toy_verify(sig: &[u8], msg: &[u8], pk: &[u8]) -> bool {
    dec(sig) == dec(pk) % P * h(msg) % P
}

fn drive(u: &mut BounceUnit, k: u64, mut step: Step, out: &mut VecDeque<Commit>) {
    loop {
        if let Some(c) = step.broadcast.take() {
            out.push_back(c);
        }
        match step.action {
            Action::Idle => return,
            Action::Sign(t) => {
                let sig = toy_sign(k, &t.msg);
                step = u.on_signature(t, Some(sig));
            }
            Action::Aggregate(req) => {
                let sums = (toy_sum(&req.signatures), toy_sum(&req.public_keys));
                step = u.on_aggregate(&req, Some(sums));
            }
        }
    }
}

/// A flock run in one thread: units, their keys, the router and the result queue.
struct Flock {
    units: Vec<BounceUnit>,
    keys: Vec<u64>,
    router: Router,
    results: VecDeque<Commit>,
}

impl Flock {
    fn new(config: &FlockConfig) -> Flock {
        let n = config.num_bounce_units();
        let mut units = Vec::new();
        let mut keys = Vec::new();
        for id in 0..n {
            let k = 1000 + 7919 * id as u64;
            units.push(BounceUnit::new(id, n, config.failure_mode(id), enc(k)));
            keys.push(k);
        }
        Flock { units, keys, router: Router::new(), results: VecDeque::new() }
    }

    fn tick(&mut self, phase: Phase) {
        for (u, k) in self.units.iter_mut().zip(self.keys.iter()) {
            let s = u.on_phase(phase);
            drive(u, *k, s, &mut self.results);
        }
    }

    fn deliver(&mut self, c: &Commit) {
        for (u, k) in self.units.iter_mut().zip(self.keys.iter()) {
            let s = u.on_commit_flipping(c.clone());
            drive(u, *k, s, &mut self.results);
        }
    }

    /// Fans `c0` out, then gossips single signatures until an aggregate is returned.
    fn bounce(&mut self, c0: &Commit) -> Option<Commit> {
        self.deliver(c0);
        while let Some(r) = self.results.pop_front() {
            match self.router.route(&r) {
                Route::Gossip => self.deliver(&r),
                Route::Respond => return Some(r),
                Route::Discard => {}
            }
        }
        None
    }
}

fn ground_precommit(i: u32, msg: &[u8]) -> Commit {
    let k = 99_991;
    Commit {
        typ: CommitType::Precommit,
        i,
        j: 0,
        msg: msg.to_vec(),
        public_key: enc(k),
        signature: toy_sign(k, msg),
        aggregated: false,
        signer_id: 100,
    }
}

#[test]
fn happy_path_ten_honest_units() {
    let config = FlockConfig::new(10, vec![], vec![]).unwrap();
    let mut flock = Flock::new(&config);
    flock.tick(Phase::First);
    let r = flock.bounce(&ground_precommit(1, b"ping")).expect("an aggregate");
    assert!(r.aggregated);
    assert_eq!(r.i, 1);
    assert_eq!(r.typ, CommitType::Precommit);
    assert!(toy_verify(&r.signature, b"ping", &r.public_key));
    let signer = &flock.units[r.signer_id as usize];
    assert!(signer.slot_info().precommits.len() >= 7);
    // The aggregate key is the sum of the constituents' keys.
    let keys: Vec<Vec<u8>> =
        signer.slot_info().precommits.iter().map(|c| c.public_key.clone()).collect();
    assert_eq!(r.public_key, toy_sum(&keys));
}

#[test]
fn three_fail_stop_units_do_not_block_quorum() {
    let config = FlockConfig::new(10, vec![], vec![2, 5, 7]).unwrap();
    let mut flock = Flock::new(&config);
    flock.tick(Phase::First);
    let r = flock.bounce(&ground_precommit(1, b"ping")).expect("an aggregate");
    assert!(r.aggregated);
    assert_eq!(r.typ, CommitType::Precommit);
    assert!(toy_verify(&r.signature, b"ping", &r.public_key));
    let signer = &flock.units[r.signer_id as usize];
    assert_eq!(signer.slot_info().precommits.len(), 7);
    for id in [2usize, 5, 7] {
        assert!(!flock.units[id].slot_info().signed);
    }
}

#[test]
fn fail_stop_units_stay_silent_through_a_whole_slot() {
    let config = FlockConfig::new(10, vec![], vec![0, 4, 9]).unwrap();
    let mut flock = Flock::new(&config);
    flock.tick(Phase::First);
    flock.tick(Phase::Second);
    flock.tick(Phase::Third);
    // Only the seven honest units sign the slot's non-commit.
    let mut signers: Vec<u32> = flock.results.iter().map(|c| c.signer_id).collect();
    signers.sort();
    assert_eq!(signers, vec![1, 2, 3, 5, 6, 7, 8]);
    let mut answer = None;
    while let Some(r) = flock.results.pop_front() {
        assert!(r.signer_id != 0 && r.signer_id != 4 && r.signer_id != 9);
        match flock.router.route(&r) {
            Route::Gossip => flock.deliver(&r),
            Route::Respond => {
                answer = Some(r);
                break;
            }
            Route::Discard => {}
        }
    }
    let r = answer.expect("an aggregate non-commit from the honest units");
    assert_eq!(r.typ, CommitType::Noncommit);
    assert_eq!(r.msg, b"noncommit(1,1)".to_vec());
    assert!(toy_verify(&r.signature, &r.msg, &r.public_key));
    for id in [0usize, 4, 9] {
        assert!(!flock.units[id].slot_info().signed);
        assert!(flock.units[id].slot_info().noncommits.is_empty());
    }
}

#[test]
fn two_fail_arbitrary_units_still_reach_a_decision() {
    let config = FlockConfig::new(10, vec![3, 8], vec![]).unwrap();
    let mut flock = Flock::new(&config);
    flock.tick(Phase::First);
    flock.tick(Phase::Second);
    let r = flock.bounce(&ground_precommit(1, b"ping")).expect("an aggregate");
    assert!(r.aggregated);
    assert_eq!(r.i, 1);
    // Either type may win; the delivered payload is what was signed.
    assert!(r.typ == CommitType::Precommit || r.typ == CommitType::Noncommit);
    assert!(toy_verify(&r.signature, b"ping", &r.public_key));
}

#[test]
fn silent_flock_non_commits_in_the_third_phase() {
    let config = FlockConfig::new(4, vec![], vec![]).unwrap();
    let mut flock = Flock::new(&config);
    flock.tick(Phase::First);
    flock.tick(Phase::Second);
    flock.tick(Phase::Third);
    // Every unit signed the canonical non-commit; gossip brings the quorum.
    let mut answer = None;
    while let Some(r) = flock.results.pop_front() {
        match flock.router.route(&r) {
            Route::Gossip => flock.deliver(&r),
            Route::Respond => {
                answer = Some(r);
                break;
            }
            Route::Discard => {}
        }
    }
    let r = answer.expect("an aggregate non-commit");
    assert_eq!(r.typ, CommitType::Noncommit);
    assert_eq!(r.msg, b"noncommit(1,1)".to_vec());
    assert!(toy_verify(&r.signature, &r.msg, &r.public_key));
}

#[test]
fn each_unit_signs_and_aggregates_at_most_once_per_slot() {
    let config = FlockConfig::new(7, vec![], vec![]).unwrap();
    let mut flock = Flock::new(&config);
    flock.tick(Phase::First);
    let c0 = ground_precommit(1, b"ping");
    flock.deliver(&c0);
    let mut seen: Vec<Commit> = Vec::new();
    while let Some(r) = flock.results.pop_front() {
        if !r.aggregated {
            flock.deliver(&r);
        }
        seen.push(r);
    }
    for id in 0..7u32 {
        let own = seen.iter().filter(|c| !c.aggregated && c.signer_id == id).count();
        let agg = seen.iter().filter(|c| c.aggregated && c.signer_id == id).count();
        assert_eq!(own, 1);
        assert!(agg <= 1);
    }
    assert!(seen.iter().any(|c| c.aggregated));
}

#[test]
fn router_answers_each_slot_once() {
    let mut router = Router::new();
    let mut agg = ground_precommit(1, b"x");
    agg.aggregated = true;
    assert_eq!(router.route(&ground_precommit(1, b"x")), Route::Gossip);
    assert_eq!(router.route(&agg), Route::Respond);
    assert_eq!(router.last_slot, 1);
    assert_eq!(router.route(&agg), Route::Discard);
    agg.i = 0;
    assert_eq!(router.route(&agg), Route::Discard);
    agg.i = 4;
    assert_eq!(router.route(&agg), Route::Respond);
    assert_eq!(router.last_slot, 4);
}

#[test]
fn last_committed_slot_follows_aggregate_precommits() {
    let config = FlockConfig::new(1, vec![], vec![]).unwrap();
    let mut flock = Flock::new(&config);
    let mut last_j = 0;
    for slot in 1..4u32 {
        flock.tick(Phase::First);
        let r = flock.bounce(&ground_precommit(slot, b"p")).expect("an aggregate");
        assert_eq!(r.i, slot);
        let j = flock.units[0].slot_info().j;
        assert!(j >= last_j);
        assert_eq!(j, slot);
        last_j = j;
    }
}

#[test]
fn supermajority_of_flock_sizes() {
    assert_eq!(supermajority(0), 0);
    assert_eq!(supermajority(2), 2);
    assert_eq!(supermajority(4), 3);
    assert_eq!(supermajority(6), 4);
    assert_eq!(supermajority(7), 5);
    assert_eq!(supermajority(usize::MAX), usize::MAX / 3 * 2);
}

#[test]
fn flock_config_modes_and_errors() {
    let cfg = FlockConfig::new(5, vec![1], vec![3]).unwrap();
    assert_eq!(cfg.failure_mode(0), FailureMode::Honest);
    assert_eq!(cfg.failure_mode(1), FailureMode::FailArbitrary);
    assert_eq!(cfg.failure_mode(3), FailureMode::FailStop);
    assert_eq!(cfg.failure_mode(9), FailureMode::Honest);
    assert_eq!(cfg.num_bounce_units(), 5);

    assert_eq!(FlockConfig::new(0, vec![], vec![]).unwrap_err(), ConfigError::NoUnits);
    assert_eq!(
        FlockConfig::new(5, vec![5], vec![]).unwrap_err(),
        ConfigError::UnitOutOfRange(5)
    );
    assert_eq!(
        FlockConfig::new(5, vec![], vec![1, 9]).unwrap_err(),
        ConfigError::UnitOutOfRange(9)
    );
    assert_eq!(
        FlockConfig::new(5, vec![2, 4], vec![4]).unwrap_err(),
        ConfigError::ConflictingFailureModes(4)
    );
}

#[test]
fn slot_config_needs_short_phases() {
    let cfg = SlotConfig::new(10, 4, 4).unwrap();
    assert_eq!(cfg.second_phase_offset(), 4);
    assert_eq!(cfg.third_phase_offset(), 8);
    assert_eq!(SlotConfig::new(10, 5, 5).unwrap_err(), ConfigError::PhasesTooLong);
    assert_eq!(SlotConfig::new(10, 6, 5).unwrap_err(), ConfigError::PhasesTooLong);
    assert_eq!(
        SlotConfig::new(u32::MAX, u32::MAX, 1).unwrap_err(),
        ConfigError::PhasesTooLong
    );
}
