//! A ground station that gathers its peers' signatures on a client request
//! into the precommit it submits to the flock.
//!
//! As with a bounce unit, the station holds no key material: its runner signs
//! and sums signatures and hands the results to it.
use vstd::prelude::*;
use crate::commit::{Commit, CommitType, CommitView, bytes_equal, copy_bytes};
use crate::slot_info::{Phase, SlotInfo, SlotView};
use crate::bounce_unit::byte_views;
use crate::{supermajority, threshold};

verus! {

/// The role of a ground station.
#[derive(Clone, Copy, Debug, PartialEq, Eq, Structural)]
pub enum StationType {
    Sending,
    Listening,
}

/// A client's request, with the signatures the stations have added so far.
#[derive(Clone, Debug)]
pub struct BounceRequest {
    pub msg: Vec<u8>,
    pub signatures: Vec<Vec<u8>>,
    pub public_keys: Vec<Vec<u8>>,
}

/// A ground station.
pub struct GroundStation {
    station_id: u32,
    station_type: StationType,
    /// The number of ground stations, this one included.
    num_stations: u32,
    public_key: Vec<u8>,
    slot_info: SlotInfo,
}

/// Whether `s` holds the byte string `x`.
pub open spec fn holds_key(s: Seq<Seq<u8>>, x: Seq<u8>) -> bool {
    exists|k: int| 0 <= k < s.len() && s[k] == x
}

/// Whether `keys` holds `key`.
fn contains_key(keys: &Vec<Vec<u8>>, key: &Vec<u8>) -> (r: bool)
    ensures
        r == holds_key(byte_views(keys@), key@),
{
    let mut k: usize = 0;
    while k < keys.len()
        invariant
            k <= keys@.len(),
            forall|m: int| 0 <= m < k ==> keys@[m]@ != key@,
        decreases keys@.len() - k,
    {
        if bytes_equal(&keys[k], key) {
            assert(byte_views(keys@)[k as int] == key@);
            return true;
        }
        k = k + 1;
    }
    assert forall|m: int| 0 <= m < byte_views(keys@).len() implies byte_views(keys@)[m] != key@ by {
        assert(byte_views(keys@)[m] == keys@[m]@);
    }
    false
}

/// The mathematical value of a [`GroundStation`].
pub struct StationView {
    pub station_id: u32,
    pub station_type: StationType,
    /// The number of ground stations, this one included.
    pub stations: u32,
    pub public_key: Seq<u8>,
    pub slot: SlotView,
}

impl View for GroundStation {
    type V = StationView;

    closed spec fn view(&self) -> StationView {
        StationView {
            station_id: self.station_id,
            station_type: self.station_type,
            stations: self.num_stations,
            public_key: self.public_key@,
            slot: self.slot_info@,
        }
    }
}

impl GroundStation {
    /// Station `station_id` of `num_stations` stations, whose secret key
    /// belongs to `public_key`. It starts at slot 0.
    pub fn new(station_id: u32, station_type: StationType, num_stations: u32, public_key: Vec<u8>) -> (g:
        GroundStation)
        ensures
            g@ == (StationView {
                station_id,
                station_type,
                stations: num_stations,
                public_key: public_key@,
                slot: SlotView::initial(),
            }),
    {
        GroundStation {
            station_id,
            station_type,
            num_stations,
            public_key,
            slot_info: SlotInfo::new(),
        }
    }

    /// The station's id.
    pub fn station_id(&self) -> (r: u32)
        ensures
            r == self@.station_id,
    {
        self.station_id
    }

    /// The station's role.
    pub fn station_type(&self) -> (r: StationType)
        ensures
            r == self@.station_type,
    {
        self.station_type
    }

    /// The station's public key.
    pub fn public_key(&self) -> (r: &Vec<u8>)
        ensures
            r@ == self@.public_key,
    {
        &self.public_key
    }

    /// The station's record of the current slot.
    pub fn slot_info(&self) -> (r: &SlotInfo)
        ensures
            r@ == self@.slot,
    {
        &self.slot_info
    }

    /// A phase tick: the first phase opens the next slot; other phases change nothing.
    pub fn on_phase(&mut self, phase: Phase)
        requires
            phase == Phase::First ==> old(self)@.slot.i < u32::MAX,
        ensures
            final(self)@ == (StationView {
                slot: if phase == Phase::First {
                    old(self)@.slot.next()
                } else {
                    old(self)@.slot
                },
                ..old(self)@
            }),
    {
        if phase == Phase::First {
            self.slot_info.next();
        }
    }

    /// Whether the station is to sign `request`: it has not signed it yet.
    /// A request the station has already signed has gone round all stations.
    pub fn wants_to_sign(&self, request: &BounceRequest) -> (r: bool)
        ensures
            r == !holds_key(byte_views(request.public_keys@), self@.public_key),
    {
        !contains_key(&request.public_keys, &self.public_key)
    }

    /// Adds the station's `signature` and public key to `request`, and tells
    /// whether the request now holds a supermajority of the stations' signatures.
    pub fn endorse(&self, request: &mut BounceRequest, signature: Vec<u8>) -> (quorum: bool)
        ensures
            final(request).msg@ == old(request).msg@,
            byte_views(final(request).signatures@) == byte_views(old(request).signatures@).push(
                signature@,
            ),
            byte_views(final(request).public_keys@) == byte_views(old(request).public_keys@).push(
                self@.public_key,
            ),
            quorum == (final(request).signatures@.len() >= threshold(self@.stations as int)),
    {
        let ghost sigs = old(request).signatures@;
        let ghost pks = old(request).public_keys@;
        request.signatures.push(signature);
        request.public_keys.push(copy_bytes(&self.public_key));
        assert(byte_views(request.signatures@) =~= byte_views(sigs).push(signature@));
        assert(byte_views(request.public_keys@) =~= byte_views(pks).push(self@.public_key));
        request.signatures.len() >= supermajority(self.num_stations as usize)
    }

    /// The precommit of the current slot for the payload `msg`, carrying the
    /// stations' summed `signature` and `public_key`.
    pub fn precommit(&self, msg: Vec<u8>, signature: Vec<u8>, public_key: Vec<u8>) -> (c: Commit)
        ensures
            c@ == (CommitView {
                typ: CommitType::Precommit,
                i: self@.slot.i,
                j: self@.slot.j,
                msg: msg@,
                public_key: public_key@,
                signature: signature@,
                aggregated: false,
                signer_id: self@.station_id,
            }),
    {
        Commit {
            typ: CommitType::Precommit,
            i: self.slot_info.i,
            j: self.slot_info.j,
            msg,
            public_key,
            signature,
            aggregated: false,
            signer_id: self.station_id,
        }
    }

    /// A commit the flock returned: a precommit makes its slot the last committed one.
    pub fn on_commit(&mut self, c: &Commit)
        ensures
            final(self)@ == (StationView {
                slot: if c.typ == CommitType::Precommit {
                    SlotView { j: c.i, ..old(self)@.slot }
                } else {
                    old(self)@.slot
                },
                ..old(self)@
            }),
    {
        if c.typ == CommitType::Precommit {
            self.slot_info.j = c.i;
        }
    }
}

} // verus!
