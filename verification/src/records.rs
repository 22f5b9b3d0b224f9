//! The records that travel inside messages, and their byte layout.
//!
//! Coordinates, radii and velocities are 32-bit floats on the wire. This
//! library never computes with them: it carries each one as its bit pattern.

use vstd::prelude::*;
use crate::ids::NetIDType;
use crate::wire::{get_le, le_bytes, le_value, put_le, span};
use crate::wire::{
    lemma_le_bytes_len, lemma_le_value_bound, lemma_le_value_of_bytes, lemma_span_values,
};

verus! {

/// Bytes taken by a `MyVec2`.
pub const VEC2_LEN: usize = 8;

/// Bytes taken by a `MyVec3`.
pub const VEC3_LEN: usize = 12;

/// Bytes taken by an `EnemyPackage`.
pub const ENEMY_RECORD_LEN: usize = 32;

/// Bytes taken by a `PlayerPackage`.
pub const PLAYER_RECORD_LEN: usize = 28;

/// A point in space; each coordinate is the bit pattern of a 32-bit float.
#[derive(Clone, Copy, Debug, PartialEq, Eq, Structural)]
pub struct MyVec3 {
    pub x: u32,
    pub y: u32,
    pub z: u32,
}

/// A planar vector; each component is the bit pattern of a 32-bit float.
#[derive(Clone, Copy, Debug, PartialEq, Eq, Structural)]
pub struct MyVec2 {
    pub x: u32,
    pub y: u32,
}

/// The state of one autonomous object as the server reports it.
#[derive(Clone, Copy, Debug, PartialEq, Eq, Structural)]
pub struct EnemyPackage {
    pub net_id: NetIDType,
    pub position: MyVec3,
    /// Bit pattern of the object's radius.
    pub radius: u32,
}

/// The state of one player as the server reports it.
#[derive(Clone, Copy, Debug, PartialEq, Eq, Structural)]
pub struct PlayerPackage {
    pub net_id: NetIDType,
    pub position: MyVec3,
}

/// The field of `width` bytes that starts at `at`.
pub open spec fn field(bytes: Seq<u8>, at: int, width: int) -> Seq<u8> {
    bytes.subrange(at, at + width)
}

impl MyVec2 {
    /// The layout: `x`, then `y`.
    pub open spec fn bytes(self) -> Seq<u8> {
        le_bytes(self.x as nat, 4) + le_bytes(self.y as nat, 4)
    }

    /// The vector laid out from position `at` on.
    pub open spec fn parse_at(bytes: Seq<u8>, at: int) -> MyVec2 {
        MyVec2 {
            x: le_value(field(bytes, at, 4)) as u32,
            y: le_value(field(bytes, at + 4, 4)) as u32,
        }
    }
}

impl MyVec3 {
    /// The layout: `x`, `y`, then `z`.
    pub open spec fn bytes(self) -> Seq<u8> {
        le_bytes(self.x as nat, 4) + le_bytes(self.y as nat, 4) + le_bytes(self.z as nat, 4)
    }

    /// The point laid out from position `at` on.
    pub open spec fn parse_at(bytes: Seq<u8>, at: int) -> MyVec3 {
        MyVec3 {
            x: le_value(field(bytes, at, 4)) as u32,
            y: le_value(field(bytes, at + 4, 4)) as u32,
            z: le_value(field(bytes, at + 8, 4)) as u32,
        }
    }
}

impl EnemyPackage {
    /// The layout: identifier, position, then radius.
    pub open spec fn bytes(self) -> Seq<u8> {
        le_bytes(self.net_id as nat, 16) + self.position.bytes() + le_bytes(self.radius as nat, 4)
    }

    /// The record laid out from position `at` on.
    pub open spec fn parse_at(bytes: Seq<u8>, at: int) -> EnemyPackage {
        EnemyPackage {
            net_id: le_value(field(bytes, at, 16)) as u128,
            position: MyVec3::parse_at(bytes, at + 16),
            radius: le_value(field(bytes, at + 28, 4)) as u32,
        }
    }

    /// The records one after the other.
    pub open spec fn bytes_of_all(records: Seq<EnemyPackage>) -> Seq<u8>
        decreases records.len(),
    {
        if records.len() == 0 {
            Seq::empty()
        } else {
            Self::bytes_of_all(records.drop_last()) + records.last().bytes()
        }
    }

    /// The `count` records laid out one after the other from position `at` on.
    pub open spec fn parse_all_at(bytes: Seq<u8>, at: int, count: nat) -> Seq<EnemyPackage> {
        Seq::new(count, |i: int| Self::parse_at(bytes, at + 32 * i))
    }
}

impl PlayerPackage {
    /// The layout: identifier, then position.
    pub open spec fn bytes(self) -> Seq<u8> {
        le_bytes(self.net_id as nat, 16) + self.position.bytes()
    }

    /// The record laid out from position `at` on.
    pub open spec fn parse_at(bytes: Seq<u8>, at: int) -> PlayerPackage {
        PlayerPackage {
            net_id: le_value(field(bytes, at, 16)) as u128,
            position: MyVec3::parse_at(bytes, at + 16),
        }
    }

    /// The records one after the other.
    pub open spec fn bytes_of_all(records: Seq<PlayerPackage>) -> Seq<u8>
        decreases records.len(),
    {
        if records.len() == 0 {
            Seq::empty()
        } else {
            Self::bytes_of_all(records.drop_last()) + records.last().bytes()
        }
    }

    /// The `count` records laid out one after the other from position `at` on.
    pub open spec fn parse_all_at(bytes: Seq<u8>, at: int, count: nat) -> Seq<PlayerPackage> {
        Seq::new(count, |i: int| Self::parse_at(bytes, at + 28 * i))
    }
}

/// A number written as a field between any two stretches of bytes is read
/// back from that place.
pub proof fn lemma_field_round_trip(before: Seq<u8>, v: nat, width: nat, after: Seq<u8>)
    requires
        v < span(width),
    ensures
        le_bytes(v, width).len() == width,
        field(before + le_bytes(v, width) + after, before.len() as int, width as int) == le_bytes(
            v,
            width,
        ),
        le_value(field(before + le_bytes(v, width) + after, before.len() as int, width as int))
            == v,
{
    lemma_le_bytes_len(v, width);
    lemma_le_value_of_bytes(v, width);
    assert(field(before + le_bytes(v, width) + after, before.len() as int, width as int)
        =~= le_bytes(v, width));
}

/// A planar vector has eight bytes and is read back from where it was written.
pub proof fn lemma_vec2_round_trip(before: Seq<u8>, v: MyVec2, after: Seq<u8>)
    ensures
        v.bytes().len() == VEC2_LEN,
        MyVec2::parse_at(before + v.bytes() + after, before.len() as int) == v,
{
    lemma_span_values();
    let x = le_bytes(v.x as nat, 4);
    let y = le_bytes(v.y as nat, 4);
    let whole = before + v.bytes() + after;
    lemma_field_round_trip(before, v.x as nat, 4, y + after);
    lemma_field_round_trip(before + x, v.y as nat, 4, after);
    assert(whole =~= before + x + (y + after));
    assert(whole =~= (before + x) + y + after);
}

/// A point has twelve bytes and is read back from where it was written.
pub proof fn lemma_vec3_round_trip(before: Seq<u8>, p: MyVec3, after: Seq<u8>)
    ensures
        p.bytes().len() == VEC3_LEN,
        MyVec3::parse_at(before + p.bytes() + after, before.len() as int) == p,
{
    lemma_span_values();
    let x = le_bytes(p.x as nat, 4);
    let y = le_bytes(p.y as nat, 4);
    let z = le_bytes(p.z as nat, 4);
    let whole = before + p.bytes() + after;
    lemma_field_round_trip(before, p.x as nat, 4, y + z + after);
    lemma_field_round_trip(before + x, p.y as nat, 4, z + after);
    lemma_field_round_trip(before + x + y, p.z as nat, 4, after);
    assert(whole =~= before + x + (y + z + after));
    assert(whole =~= (before + x) + y + (z + after));
    assert(whole =~= (before + x + y) + z + after);
}

/// An enemy record has 32 bytes and is read back from where it was written.
pub proof fn lemma_enemy_round_trip(before: Seq<u8>, e: EnemyPackage, after: Seq<u8>)
    ensures
        e.bytes().len() == ENEMY_RECORD_LEN,
        EnemyPackage::parse_at(before + e.bytes() + after, before.len() as int) == e,
{
    lemma_span_values();
    let id = le_bytes(e.net_id as nat, 16);
    let position = e.position.bytes();
    let radius = le_bytes(e.radius as nat, 4);
    let whole = before + e.bytes() + after;
    lemma_field_round_trip(before, e.net_id as nat, 16, position + radius + after);
    lemma_vec3_round_trip(before + id, e.position, radius + after);
    lemma_field_round_trip(before + id + position, e.radius as nat, 4, after);
    assert(whole =~= before + id + (position + radius + after));
    assert(whole =~= (before + id) + position + (radius + after));
    assert(whole =~= (before + id + position) + radius + after);
}

/// A player record has 28 bytes and is read back from where it was written.
pub proof fn lemma_player_round_trip(before: Seq<u8>, p: PlayerPackage, after: Seq<u8>)
    ensures
        p.bytes().len() == PLAYER_RECORD_LEN,
        PlayerPackage::parse_at(before + p.bytes() + after, before.len() as int) == p,
{
    lemma_span_values();
    let id = le_bytes(p.net_id as nat, 16);
    let position = p.position.bytes();
    let whole = before + p.bytes() + after;
    lemma_field_round_trip(before, p.net_id as nat, 16, position + after);
    lemma_vec3_round_trip(before + id, p.position, after);
    assert(whole =~= before + id + (position + after));
    assert(whole =~= (before + id) + position + after);
}

/// Enemy records written one after the other take 32 bytes each and are read
/// back, each from its place.
pub proof fn lemma_enemies_round_trip(before: Seq<u8>, records: Seq<EnemyPackage>, after: Seq<u8>)
    ensures
        EnemyPackage::bytes_of_all(records).len() == ENEMY_RECORD_LEN * records.len(),
        EnemyPackage::parse_all_at(
            before + EnemyPackage::bytes_of_all(records) + after,
            before.len() as int,
            records.len(),
        ) == records,
    decreases records.len(),
{
    let all = EnemyPackage::bytes_of_all(records);
    let whole = before + all + after;
    let parsed = EnemyPackage::parse_all_at(whole, before.len() as int, records.len());
    if records.len() == 0 {
        assert(parsed =~= records);
    } else {
        let front = records.drop_last();
        let last = records.last();
        let front_bytes = EnemyPackage::bytes_of_all(front);
        lemma_enemies_round_trip(before, front, last.bytes() + after);
        lemma_enemy_round_trip(before + front_bytes, last, after);
        assert(whole =~= before + front_bytes + (last.bytes() + after));
        assert(whole =~= (before + front_bytes) + last.bytes() + after);
        let front_parsed = EnemyPackage::parse_all_at(whole, before.len() as int, front.len());
        assert forall|i: int| 0 <= i < records.len() implies parsed[i] == records[i] by {
            if i < front.len() {
                assert(parsed[i] == front_parsed[i]);
                assert(front[i] == records[i]);
            }
        }
        assert(parsed =~= records);
    }
}

/// Player records written one after the other take 28 bytes each and are read
/// back, each from its place.
pub proof fn lemma_players_round_trip(
    before: Seq<u8>,
    records: Seq<PlayerPackage>,
    after: Seq<u8>,
)
    ensures
        PlayerPackage::bytes_of_all(records).len() == PLAYER_RECORD_LEN * records.len(),
        PlayerPackage::parse_all_at(
            before + PlayerPackage::bytes_of_all(records) + after,
            before.len() as int,
            records.len(),
        ) == records,
    decreases records.len(),
{
    let all = PlayerPackage::bytes_of_all(records);
    let whole = before + all + after;
    let parsed = PlayerPackage::parse_all_at(whole, before.len() as int, records.len());
    if records.len() == 0 {
        assert(parsed =~= records);
    } else {
        let front = records.drop_last();
        let last = records.last();
        let front_bytes = PlayerPackage::bytes_of_all(front);
        lemma_players_round_trip(before, front, last.bytes() + after);
        lemma_player_round_trip(before + front_bytes, last, after);
        assert(whole =~= before + front_bytes + (last.bytes() + after));
        assert(whole =~= (before + front_bytes) + last.bytes() + after);
        let front_parsed = PlayerPackage::parse_all_at(whole, before.len() as int, front.len());
        assert forall|i: int| 0 <= i < records.len() implies parsed[i] == records[i] by {
            if i < front.len() {
                assert(parsed[i] == front_parsed[i]);
                assert(front[i] == records[i]);
            }
        }
        assert(parsed =~= records);
    }
}

/// Reads the 32-bit field that starts at `at`.
pub fn get_scalar(bytes: &[u8], at: usize) -> (v: u32)
    requires
        at + 4 <= bytes.len(),
    ensures
        v == le_value(field(bytes@, at as int, 4)),
{
    let wide: u128 = get_le(bytes, at, 4);
    proof {
        lemma_le_value_bound(field(bytes@, at as int, 4));
        lemma_span_values();
    }
    wide as u32
}

/// Appends a planar vector.
pub fn put_vec2(out: &mut Vec<u8>, v: &MyVec2)
    ensures
        final(out)@ == old(out)@ + v.bytes(),
{
    put_le(out, v.x as u128, 4);
    put_le(out, v.y as u128, 4);
    assert(out@ =~= old(out)@ + v.bytes());
}

/// Reads the planar vector that starts at `at`.
pub fn get_vec2(bytes: &[u8], at: usize) -> (v: MyVec2)
    requires
        at + 8 <= bytes.len(),
    ensures
        v == MyVec2::parse_at(bytes@, at as int),
{
    let x: u32 = get_scalar(bytes, at);
    let y: u32 = get_scalar(bytes, at + 4);
    MyVec2 { x, y }
}

/// Appends a point.
pub fn put_vec3(out: &mut Vec<u8>, p: &MyVec3)
    ensures
        final(out)@ == old(out)@ + p.bytes(),
{
    put_le(out, p.x as u128, 4);
    put_le(out, p.y as u128, 4);
    put_le(out, p.z as u128, 4);
    assert(out@ =~= old(out)@ + p.bytes());
}

/// Reads the point that starts at `at`.
pub fn get_vec3(bytes: &[u8], at: usize) -> (p: MyVec3)
    requires
        at + 12 <= bytes.len(),
    ensures
        p == MyVec3::parse_at(bytes@, at as int),
{
    let x: u32 = get_scalar(bytes, at);
    let y: u32 = get_scalar(bytes, at + 4);
    let z: u32 = get_scalar(bytes, at + 8);
    MyVec3 { x, y, z }
}

/// Appends an enemy record.
pub fn put_enemy(out: &mut Vec<u8>, e: &EnemyPackage)
    ensures
        final(out)@ == old(out)@ + e.bytes(),
{
    put_le(out, e.net_id, 16);
    put_vec3(out, &e.position);
    put_le(out, e.radius as u128, 4);
    assert(out@ =~= old(out)@ + e.bytes());
}

/// Reads the enemy record that starts at `at`.
pub fn get_enemy(bytes: &[u8], at: usize) -> (e: EnemyPackage)
    requires
        at + 32 <= bytes.len(),
    ensures
        e == EnemyPackage::parse_at(bytes@, at as int),
{
    let net_id: u128 = get_le(bytes, at, 16);
    let position: MyVec3 = get_vec3(bytes, at + 16);
    let radius: u32 = get_scalar(bytes, at + 28);
    EnemyPackage { net_id, position, radius }
}

/// Appends a player record.
pub fn put_player(out: &mut Vec<u8>, p: &PlayerPackage)
    ensures
        final(out)@ == old(out)@ + p.bytes(),
{
    put_le(out, p.net_id, 16);
    put_vec3(out, &p.position);
    assert(out@ =~= old(out)@ + p.bytes());
}

/// Reads the player record that starts at `at`.
pub fn get_player(bytes: &[u8], at: usize) -> (p: PlayerPackage)
    requires
        at + 28 <= bytes.len(),
    ensures
        p == PlayerPackage::parse_at(bytes@, at as int),
{
    let net_id: u128 = get_le(bytes, at, 16);
    let position: MyVec3 = get_vec3(bytes, at + 16);
    PlayerPackage { net_id, position }
}

} // verus!
