use bounce::commit::{bytes_equal, copy_bytes, noncommit_message};
use bounce::entropy::secret_key_bytes;
use bounce::ground_station::{BounceRequest, GroundStation, StationType};
use bounce::{Commit, CommitType, Phase};

#[test]
fn noncommit_message_is_canonical() {
    assert_eq!(noncommit_message(0, 1), b"noncommit(1,1)".to_vec());
    assert_eq!(noncommit_message(9, 10), b"noncommit(10,10)".to_vec());
    assert_eq!(
        noncommit_message(u32::MAX, u32::MAX),
        format!("noncommit({},{})", u32::MAX as u64 + 1, u32::MAX).into_bytes()
    );
}

#[test]
fn commit_type_wire_values() {
    assert_eq!(CommitType::from_wire(0), CommitType::Precommit);
    assert_eq!(CommitType::from_wire(1), CommitType::Noncommit);
    assert_eq!(CommitType::from_wire(7), CommitType::Precommit);
    assert_eq!(CommitType::Precommit.to_wire(), 0);
    assert_eq!(CommitType::Noncommit.to_wire(), 1);
}

#[test]
fn commit_duplicate_and_bytes() {
    let c = Commit {
        typ: CommitType::Noncommit,
        i: 3,
        j: 2,
        msg: b"m".to_vec(),
        public_key: b"pk".to_vec(),
        signature: b"sig".to_vec(),
        aggregated: true,
        signer_id: 4,
    };
    assert_eq!(c.duplicate(), c);
    assert_eq!(copy_bytes(&c.msg), b"m".to_vec());
    assert!(bytes_equal(&c.public_key, &b"pk".to_vec()));
    assert!(!bytes_equal(&c.public_key, &b"pK".to_vec()));
    assert!(!bytes_equal(&c.public_key, &b"pk2".to_vec()));
}

#[test]
fn secret_keys_are_fresh_32_bytes() {
    let a = secret_key_bytes();
    let b = secret_key_bytes();
    assert_eq!(a.len(), 32);
    assert_eq!(b.len(), 32);
    assert_ne!(a, b);
}

#[test]
fn ground_station_gathers_a_supermajority() {
    let mut stations: Vec<GroundStation> = (0..3u32)
        .map(|id| GroundStation::new(id, StationType::Listening, 3, vec![id as u8 + 1]))
        .collect();
    for s in stations.iter_mut() {
        s.on_phase(Phase::First);
    }
    let mut request = BounceRequest { msg: b"hi".to_vec(), signatures: vec![], public_keys: vec![] };
    assert!(stations[0].wants_to_sign(&request));
    assert!(!stations[0].endorse(&mut request, vec![10]));
    assert!(!stations[0].wants_to_sign(&request));
    assert!(stations[1].wants_to_sign(&request));
    assert!(stations[1].endorse(&mut request, vec![20]));
    assert_eq!(request.signatures, vec![vec![10], vec![20]]);
    assert_eq!(request.public_keys, vec![vec![1], vec![2]]);

    let c = stations[1].precommit(request.msg.clone(), vec![30], vec![3]);
    assert_eq!(c.typ, CommitType::Precommit);
    assert_eq!(c.i, 1);
    assert_eq!(c.signer_id, 1);
    assert!(!c.aggregated);

    stations[2].on_commit(&c);
    assert_eq!(stations[2].slot_info().j, 1);
    let mut n = c.clone();
    n.typ = CommitType::Noncommit;
    n.i = 5;
    stations[2].on_commit(&n);
    assert_eq!(stations[2].slot_info().j, 1);
    assert_eq!(stations[2].station_type(), StationType::Listening);
    assert_eq!(stations[2].station_id(), 2);
}
