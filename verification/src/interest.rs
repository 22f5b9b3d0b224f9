//! Which objects a session is told about.
//!
//! Autonomous objects are reported to a session only when they are within the
//! interest radius of the session's player; players are reported to everyone.
//! Distances are compared squared. A squared distance reaches this library as
//! the bit pattern of a 32-bit float that is not negative; on such patterns the
//! order of the unsigned numbers is the order of the floats, and a pattern that
//! is no number is above every number.

use vstd::prelude::*;
use crate::ids::NetIDType;
use crate::records::{EnemyPackage, MyVec3, PlayerPackage};
use crate::registry::{Handle, IdentityRegistry};

verus! {

/// Bit pattern of the interest radius, 500.
pub const INTEREST_RADIUS: u32 = 0x43fa_0000;

/// Bit pattern of the interest radius squared, 250000.
pub const INTEREST_RADIUS_SQUARED: u32 = 0x4874_2400;

/// An autonomous object as one session's player sees it.
#[derive(Clone, Copy, Debug, PartialEq, Eq, Structural)]
pub struct Sighting {
    pub handle: Handle,
    pub position: MyVec3,
    /// Bit pattern of the object's radius.
    pub radius: u32,
    /// Bit pattern of the squared distance between the object and the player.
    pub distance_squared: u32,
}

/// A player's handle and position.
#[derive(Clone, Copy, Debug, PartialEq, Eq, Structural)]
pub struct PlayerSample {
    pub handle: Handle,
    pub position: MyVec3,
}

/// Whether a squared distance is within the interest radius. An object exactly
/// at the radius is within it.
pub open spec fn is_within_interest(distance_squared: u32) -> bool {
    distance_squared <= INTEREST_RADIUS_SQUARED
}

/// The record that reports a sighting: none when the object is too far away
/// or has no identifier.
pub open spec fn sighting_record(sighting: Sighting, handles: Map<Handle, NetIDType>) -> Option<
    EnemyPackage,
> {
    if is_within_interest(sighting.distance_squared) && handles.contains_key(sighting.handle) {
        Some(
            EnemyPackage {
                net_id: handles[sighting.handle],
                position: sighting.position,
                radius: sighting.radius,
            },
        )
    } else {
        None
    }
}

/// The records of the sightings that are reported, in the order of the
/// sightings.
pub open spec fn nearby(sightings: Seq<Sighting>, handles: Map<Handle, NetIDType>) -> Seq<
    EnemyPackage,
>
    decreases sightings.len(),
{
    if sightings.len() == 0 {
        Seq::empty()
    } else {
        let before = nearby(sightings.drop_last(), handles);
        match sighting_record(sightings.last(), handles) {
            Some(record) => before.push(record),
            None => before,
        }
    }
}

/// The record that reports a player: none when the player has no identifier.
pub open spec fn sample_record(sample: PlayerSample, handles: Map<Handle, NetIDType>) -> Option<
    PlayerPackage,
> {
    if handles.contains_key(sample.handle) {
        Some(PlayerPackage { net_id: handles[sample.handle], position: sample.position })
    } else {
        None
    }
}

/// The records of the players that have an identifier, in the order of the
/// samples.
pub open spec fn reported(samples: Seq<PlayerSample>, handles: Map<Handle, NetIDType>) -> Seq<
    PlayerPackage,
>
    decreases samples.len(),
{
    if samples.len() == 0 {
        Seq::empty()
    } else {
        let before = reported(samples.drop_last(), handles);
        match sample_record(samples.last(), handles) {
            Some(record) => before.push(record),
            None => before,
        }
    }
}

/// The interest boundary: an object with an identifier is reported when its
/// squared distance is the squared radius or less, and is not reported when it
/// is any more than that. What is reported is exactly the records of such
/// sightings.
pub proof fn lemma_interest_boundary(sightings: Seq<Sighting>, handles: Map<Handle, NetIDType>)
    ensures
        is_within_interest(INTEREST_RADIUS_SQUARED),
        forall|d: u32| d > INTEREST_RADIUS_SQUARED ==> !is_within_interest(d),
        nearby(sightings, handles).len() <= sightings.len(),
        forall|i: int|
            0 <= i < sightings.len() && handles.contains_key(sightings[i].handle)
                && sightings[i].distance_squared <= INTEREST_RADIUS_SQUARED ==> nearby(
                sightings,
                handles,
            ).contains(#[trigger] sighting_record(sightings[i], handles).unwrap()),
        forall|record: EnemyPackage| #[trigger]
            nearby(sightings, handles).contains(record) ==> exists|i: int|
                0 <= i < sightings.len() && sightings[i].distance_squared
                    <= INTEREST_RADIUS_SQUARED && #[trigger] sighting_record(sightings[i], handles)
                    == Some(record),
    decreases sightings.len(),
{
    if sightings.len() > 0 {
        let front = sightings.drop_last();
        let last = sightings.last();
        let all = nearby(sightings, handles);
        let before = nearby(front, handles);
        lemma_interest_boundary(front, handles);
        assert forall|i: int|
            0 <= i < sightings.len() && handles.contains_key(sightings[i].handle)
                && sightings[i].distance_squared <= INTEREST_RADIUS_SQUARED implies all.contains(
            #[trigger] sighting_record(sightings[i], handles).unwrap(),
        ) by {
            let record = sighting_record(sightings[i], handles).unwrap();
            if i < front.len() {
                assert(front[i] == sightings[i]);
                assert(before.contains(sighting_record(front[i], handles).unwrap()));
                let k = choose|k: int| 0 <= k < before.len() && before[k] == record;
                assert(all[k] == record);
            } else {
                assert(all[all.len() - 1] == record);
            }
        }
        assert forall|record: EnemyPackage| #[trigger] all.contains(record) implies exists|i: int|
            0 <= i < sightings.len() && sightings[i].distance_squared <= INTEREST_RADIUS_SQUARED
                && #[trigger] sighting_record(sightings[i], handles) == Some(record) by {
            let k = choose|k: int| 0 <= k < all.len() && all[k] == record;
            if k < before.len() {
                assert(before[k] == record);
                assert(before.contains(record));
                let i = choose|i: int|
                    0 <= i < front.len() && front[i].distance_squared <= INTEREST_RADIUS_SQUARED
                        && #[trigger] sighting_record(front[i], handles) == Some(record);
                assert(sightings[i] == front[i]);
            } else {
                assert(sighting_record(sightings[sightings.len() - 1], handles) == Some(record));
            }
        }
    }
}

/// Whether a squared distance is within the interest radius.
pub fn within_interest(distance_squared: u32) -> (within: bool)
    ensures
        within == is_within_interest(distance_squared),
{
    distance_squared <= INTEREST_RADIUS_SQUARED
}

/// The records that report `sightings` to one session.
pub fn collect_nearby(registry: &IdentityRegistry, sightings: &Vec<Sighting>) -> (records: Vec<
    EnemyPackage,
>)
    ensures
        records@ == nearby(sightings@, registry.handles()),
{
    let mut records: Vec<EnemyPackage> = Vec::new();
    let mut at: usize = 0;
    assert(sightings@.take(0) =~= Seq::empty());
    while at < sightings.len()
        invariant
            at <= sightings.len(),
            records@ == nearby(sightings@.take(at as int), registry.handles()),
        decreases sightings.len() - at,
    {
        let sighting: Sighting = sightings[at];
        proof {
            let next = sightings@.take(at + 1);
            assert(next.drop_last() =~= sightings@.take(at as int));
            assert(next.last() == sighting);
        }
        if within_interest(sighting.distance_squared) {
            match registry.lookup_by_handle(sighting.handle) {
                Some(net_id) => {
                    records.push(
                        EnemyPackage {
                            net_id,
                            position: sighting.position,
                            radius: sighting.radius,
                        },
                    );
                },
                None => {},
            }
        }
        at = at + 1;
    }
    assert(sightings@.take(at as int) =~= sightings@);
    records
}

/// The records that report `samples` to every session.
pub fn collect_players(registry: &IdentityRegistry, samples: &Vec<PlayerSample>) -> (records: Vec<
    PlayerPackage,
>)
    ensures
        records@ == reported(samples@, registry.handles()),
{
    let mut records: Vec<PlayerPackage> = Vec::new();
    let mut at: usize = 0;
    assert(samples@.take(0) =~= Seq::empty());
    while at < samples.len()
        invariant
            at <= samples.len(),
            records@ == reported(samples@.take(at as int), registry.handles()),
        decreases samples.len() - at,
    {
        let sample: PlayerSample = samples[at];
        proof {
            let next = samples@.take(at + 1);
            assert(next.drop_last() =~= samples@.take(at as int));
            assert(next.last() == sample);
        }
        match registry.lookup_by_handle(sample.handle) {
            Some(net_id) => {
                records.push(PlayerPackage { net_id, position: sample.position });
            },
            None => {},
        }
        at = at + 1;
    }
    assert(samples@.take(at as int) =~= samples@);
    records
}

} // verus!
