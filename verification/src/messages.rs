//! The protocol's messages and their datagrams.
//!
//! Every datagram has `CAPACITY` bytes. It starts with a one-byte tag that
//! names the message variant. A batch of records follows a two-byte record
//! count. All numbers are little-endian and of fixed width; what follows the
//! message is zero padding, which the decoder does not read.

use vstd::prelude::*;
use crate::ids::NetIDType;
use crate::records::{EnemyPackage, MyVec2, PlayerPackage};
use crate::records::{ENEMY_RECORD_LEN, PLAYER_RECORD_LEN};
use crate::records::{field, get_enemy, get_player, get_vec2, put_enemy, put_player, put_vec2};
use crate::records::{
    lemma_enemies_round_trip, lemma_field_round_trip, lemma_players_round_trip,
    lemma_vec2_round_trip,
};
use crate::wire::{get_le, le_bytes, le_value, put_le, zeros, CAPACITY};
use crate::wire::{lemma_le_bytes_len, lemma_span_values};

verus! {

/// Bytes taken by the tag and the record count of a batch.
pub const HEADER_LEN: usize = 3;

/// The most enemy records that one datagram holds.
pub const ENEMIES_PER_PACKAGE: usize = (CAPACITY - HEADER_LEN) / ENEMY_RECORD_LEN;

/// The most player records that one datagram holds.
pub const PLAYERS_PER_PACKAGE: usize = (CAPACITY - HEADER_LEN) / PLAYER_RECORD_LEN;

/// Why bytes are not a message.
#[derive(Clone, Copy, Debug, PartialEq, Eq, Structural)]
pub enum DecodeError {
    /// The bytes end before the message does.
    Truncated,
    /// The first byte names no message variant.
    UnknownTag,
    /// The record count is more than a datagram can hold.
    TooManyRecords,
}

/// What the server sends to a client.
#[derive(Clone, Debug, PartialEq, Eq)]
pub enum ServerMessage {
    /// Login succeeded; the payload is the identifier of the client's own player.
    Accepted(NetIDType),
    UpdateEnemies(Vec<EnemyPackage>),
    UpdatePlayers(Vec<PlayerPackage>),
}

/// What a client sends to the server.
#[derive(Clone, Copy, Debug, PartialEq, Eq, Structural)]
pub enum ClientMessage {
    Login,
    /// The velocity that the client wants for the player with this identifier.
    SetVelocity(NetIDType, MyVec2),
}

/// A server message as a mathematical value.
pub enum ServerMessageView {
    Accepted(NetIDType),
    UpdateEnemies(Seq<EnemyPackage>),
    UpdatePlayers(Seq<PlayerPackage>),
}

impl View for ServerMessage {
    type V = ServerMessageView;

    open spec fn view(&self) -> ServerMessageView {
        match self {
            ServerMessage::Accepted(id) => ServerMessageView::Accepted(*id),
            ServerMessage::UpdateEnemies(records) => ServerMessageView::UpdateEnemies(records@),
            ServerMessage::UpdatePlayers(records) => ServerMessageView::UpdatePlayers(records@),
        }
    }
}

/// `bytes` filled up with zeros to the size of a datagram.
pub open spec fn padded(bytes: Seq<u8>) -> Seq<u8> {
    bytes + zeros((CAPACITY - bytes.len()) as nat)
}

impl ServerMessageView {
    /// Whether the message has room in one datagram.
    pub open spec fn fits(self) -> bool {
        match self {
            ServerMessageView::Accepted(_) => true,
            ServerMessageView::UpdateEnemies(records) => records.len() <= ENEMIES_PER_PACKAGE,
            ServerMessageView::UpdatePlayers(records) => records.len() <= PLAYERS_PER_PACKAGE,
        }
    }

    /// The message's bytes, without padding.
    pub open spec fn bytes(self) -> Seq<u8> {
        match self {
            ServerMessageView::Accepted(id) => seq![0u8] + le_bytes(id as nat, 16),
            ServerMessageView::UpdateEnemies(records) => seq![1u8] + le_bytes(records.len(), 2)
                + EnemyPackage::bytes_of_all(records),
            ServerMessageView::UpdatePlayers(records) => seq![2u8] + le_bytes(records.len(), 2)
                + PlayerPackage::bytes_of_all(records),
        }
    }

    /// The message that `bytes` start with, or why there is none.
    pub open spec fn parse(bytes: Seq<u8>) -> Result<ServerMessageView, DecodeError> {
        if bytes.len() < 1 {
            Err(DecodeError::Truncated)
        } else if bytes[0] == 0 {
            if bytes.len() < 17 {
                Err(DecodeError::Truncated)
            } else {
                Ok(ServerMessageView::Accepted(le_value(field(bytes, 1, 16)) as u128))
            }
        } else if bytes[0] == 1 {
            if bytes.len() < HEADER_LEN {
                Err(DecodeError::Truncated)
            } else {
                let count = le_value(field(bytes, 1, 2));
                if count > ENEMIES_PER_PACKAGE {
                    Err(DecodeError::TooManyRecords)
                } else if bytes.len() < HEADER_LEN + ENEMY_RECORD_LEN * count {
                    Err(DecodeError::Truncated)
                } else {
                    Ok(
                        ServerMessageView::UpdateEnemies(
                            EnemyPackage::parse_all_at(bytes, HEADER_LEN as int, count),
                        ),
                    )
                }
            }
        } else if bytes[0] == 2 {
            if bytes.len() < HEADER_LEN {
                Err(DecodeError::Truncated)
            } else {
                let count = le_value(field(bytes, 1, 2));
                if count > PLAYERS_PER_PACKAGE {
                    Err(DecodeError::TooManyRecords)
                } else if bytes.len() < HEADER_LEN + PLAYER_RECORD_LEN * count {
                    Err(DecodeError::Truncated)
                } else {
                    Ok(
                        ServerMessageView::UpdatePlayers(
                            PlayerPackage::parse_all_at(bytes, HEADER_LEN as int, count),
                        ),
                    )
                }
            }
        } else {
            Err(DecodeError::UnknownTag)
        }
    }
}

impl ClientMessage {
    /// The message's bytes, without padding.
    pub open spec fn bytes(self) -> Seq<u8> {
        match self {
            ClientMessage::Login => seq![0u8],
            ClientMessage::SetVelocity(id, velocity) => seq![1u8] + le_bytes(id as nat, 16)
                + velocity.bytes(),
        }
    }

    /// The message that `bytes` start with, or why there is none.
    pub open spec fn parse(bytes: Seq<u8>) -> Result<ClientMessage, DecodeError> {
        if bytes.len() < 1 {
            Err(DecodeError::Truncated)
        } else if bytes[0] == 0 {
            Ok(ClientMessage::Login)
        } else if bytes[0] == 1 {
            if bytes.len() < 25 {
                Err(DecodeError::Truncated)
            } else {
                Ok(
                    ClientMessage::SetVelocity(
                        le_value(field(bytes, 1, 16)) as u128,
                        MyVec2::parse_at(bytes, 17),
                    ),
                )
            }
        } else {
            Err(DecodeError::UnknownTag)
        }
    }
}

/// A server message that fits takes no more bytes than a datagram has.
pub proof fn lemma_server_bytes_len(m: ServerMessageView)
    requires
        m.fits(),
    ensures
        1 <= m.bytes().len() <= CAPACITY,
        m matches ServerMessageView::Accepted(_) ==> m.bytes().len() == 17,
        m matches ServerMessageView::UpdateEnemies(records) ==> m.bytes().len() == HEADER_LEN
            + ENEMY_RECORD_LEN * records.len(),
        m matches ServerMessageView::UpdatePlayers(records) ==> m.bytes().len() == HEADER_LEN
            + PLAYER_RECORD_LEN * records.len(),
{
    match m {
        ServerMessageView::Accepted(id) => {
            lemma_le_bytes_len(id as nat, 16);
        },
        ServerMessageView::UpdateEnemies(records) => {
            lemma_le_bytes_len(records.len(), 2);
            lemma_enemies_round_trip(Seq::empty(), records, Seq::empty());
        },
        ServerMessageView::UpdatePlayers(records) => {
            lemma_le_bytes_len(records.len(), 2);
            lemma_players_round_trip(Seq::empty(), records, Seq::empty());
        },
    }
}

/// A client message takes no more bytes than a datagram has.
pub proof fn lemma_client_bytes_len(m: ClientMessage)
    ensures
        1 <= m.bytes().len() <= CAPACITY,
        m is Login ==> m.bytes().len() == 1,
        m is SetVelocity ==> m.bytes().len() == 25,
{
    match m {
        ClientMessage::Login => {},
        ClientMessage::SetVelocity(id, velocity) => {
            lemma_le_bytes_len(id as nat, 16);
            lemma_vec2_round_trip(Seq::empty(), velocity, Seq::empty());
        },
    }
}

/// Decoding what was encoded gives the message back: a server message that
/// fits in a datagram is parsed from its bytes, whatever follows them.
pub proof fn lemma_server_round_trip(m: ServerMessageView, rest: Seq<u8>)
    requires
        m.fits(),
    ensures
        ServerMessageView::parse(m.bytes() + rest) == Ok::<ServerMessageView, DecodeError>(m),
        ServerMessageView::parse(padded(m.bytes())) == Ok::<ServerMessageView, DecodeError>(m),
{
    lemma_server_parse_prefix(m, rest);
    lemma_server_parse_prefix(m, zeros((CAPACITY - m.bytes().len()) as nat));
}

proof fn lemma_server_parse_prefix(m: ServerMessageView, rest: Seq<u8>)
    requires
        m.fits(),
    ensures
        ServerMessageView::parse(m.bytes() + rest) == Ok::<ServerMessageView, DecodeError>(m),
{
    lemma_span_values();
    lemma_server_bytes_len(m);
    let whole = m.bytes() + rest;
    let tag = seq![whole[0]];
    match m {
        ServerMessageView::Accepted(id) => {
            lemma_field_round_trip(tag, id as nat, 16, rest);
            assert(whole =~= tag + le_bytes(id as nat, 16) + rest);
        },
        ServerMessageView::UpdateEnemies(records) => {
            let count = le_bytes(records.len(), 2);
            let body = EnemyPackage::bytes_of_all(records);
            lemma_field_round_trip(tag, records.len(), 2, body + rest);
            lemma_enemies_round_trip(tag + count, records, rest);
            assert(whole =~= tag + count + (body + rest));
            assert(whole =~= (tag + count) + body + rest);
        },
        ServerMessageView::UpdatePlayers(records) => {
            let count = le_bytes(records.len(), 2);
            let body = PlayerPackage::bytes_of_all(records);
            lemma_field_round_trip(tag, records.len(), 2, body + rest);
            lemma_players_round_trip(tag + count, records, rest);
            assert(whole =~= tag + count + (body + rest));
            assert(whole =~= (tag + count) + body + rest);
        },
    }
}

/// Decoding what was encoded gives the message back: a client message is
/// parsed from its bytes, whatever follows them.
pub proof fn lemma_client_round_trip(m: ClientMessage, rest: Seq<u8>)
    ensures
        ClientMessage::parse(m.bytes() + rest) == Ok::<ClientMessage, DecodeError>(m),
        ClientMessage::parse(padded(m.bytes())) == Ok::<ClientMessage, DecodeError>(m),
{
    lemma_client_parse_prefix(m, rest);
    lemma_client_parse_prefix(m, zeros((CAPACITY - m.bytes().len()) as nat));
}

proof fn lemma_client_parse_prefix(m: ClientMessage, rest: Seq<u8>)
    ensures
        ClientMessage::parse(m.bytes() + rest) == Ok::<ClientMessage, DecodeError>(m),
{
    lemma_span_values();
    lemma_client_bytes_len(m);
    let whole = m.bytes() + rest;
    let tag = seq![whole[0]];
    match m {
        ClientMessage::Login => {},
        ClientMessage::SetVelocity(id, velocity) => {
            let id_bytes = le_bytes(id as nat, 16);
            lemma_field_round_trip(tag, id as nat, 16, velocity.bytes() + rest);
            lemma_vec2_round_trip(tag + id_bytes, velocity, rest);
            assert(whole =~= tag + id_bytes + (velocity.bytes() + rest));
            assert(whole =~= (tag + id_bytes) + velocity.bytes() + rest);
        },
    }
}

/// Copies `payload` to the start of a fresh datagram.
fn frame(payload: &Vec<u8>) -> (datagram: [u8; 1000])
    requires
        payload.len() <= CAPACITY,
    ensures
        datagram@ == padded(payload@),
{
    let mut datagram: [u8; 1000] = [0u8; 1000];
    let mut at: usize = 0;
    while at < payload.len()
        invariant
            at <= payload.len() <= CAPACITY,
            datagram@.len() == CAPACITY,
            forall|i: int| 0 <= i < at ==> datagram@[i] == payload@[i],
            forall|i: int| at <= i < CAPACITY ==> datagram@[i] == 0,
        decreases payload.len() - at,
    {
        datagram[at] = payload[at];
        at = at + 1;
    }
    assert(datagram@ =~= padded(payload@));
    datagram
}

impl ServerMessage {
    /// Whether the message has room in one datagram.
    pub fn fits(&self) -> (yes: bool)
        ensures
            yes == self@.fits(),
    {
        match self {
            ServerMessage::Accepted(_) => true,
            ServerMessage::UpdateEnemies(records) => records.len() <= ENEMIES_PER_PACKAGE,
            ServerMessage::UpdatePlayers(records) => records.len() <= PLAYERS_PER_PACKAGE,
        }
    }

    /// The datagram that carries this message.
    pub fn encode(&self) -> (datagram: [u8; 1000])
        requires
            self@.fits(),
        ensures
            datagram@ == padded(self@.bytes()),
    {
        let mut out: Vec<u8> = Vec::new();
        match self {
            ServerMessage::Accepted(id) => {
                out.push(0u8);
                put_le(&mut out, *id, 16);
                assert(out@ =~= self@.bytes());
            },
            ServerMessage::UpdateEnemies(records) => {
                out.push(1u8);
                put_le(&mut out, records.len() as u128, 2);
                let ghost header = out@;
                let mut done: usize = 0;
                assert(records@.take(0) =~= Seq::empty());
                while done < records.len()
                    invariant
                        done <= records.len(),
                        out@ == header + EnemyPackage::bytes_of_all(records@.take(done as int)),
                    decreases records.len() - done,
                {
                    put_enemy(&mut out, &records[done]);
                    proof {
                        let next = records@.take(done + 1);
                        assert(next.drop_last() =~= records@.take(done as int));
                        assert(next.last() == records@[done as int]);
                    }
                    done = done + 1;
                }
                assert(records@.take(done as int) =~= records@);
                assert(out@ =~= self@.bytes());
            },
            ServerMessage::UpdatePlayers(records) => {
                out.push(2u8);
                put_le(&mut out, records.len() as u128, 2);
                let ghost header = out@;
                let mut done: usize = 0;
                assert(records@.take(0) =~= Seq::empty());
                while done < records.len()
                    invariant
                        done <= records.len(),
                        out@ == header + PlayerPackage::bytes_of_all(records@.take(done as int)),
                    decreases records.len() - done,
                {
                    put_player(&mut out, &records[done]);
                    proof {
                        let next = records@.take(done + 1);
                        assert(next.drop_last() =~= records@.take(done as int));
                        assert(next.last() == records@[done as int]);
                    }
                    done = done + 1;
                }
                assert(records@.take(done as int) =~= records@);
                assert(out@ =~= self@.bytes());
            },
        }
        proof {
            lemma_server_bytes_len(self@);
        }
        frame(&out)
    }

    /// The message that `slice` starts with. Bytes after the message are not
    /// read.
    pub fn decode(slice: &[u8]) -> (decoded: Result<ServerMessage, DecodeError>)
        ensures
            match decoded {
                Ok(m) => ServerMessageView::parse(slice@) == Ok::<ServerMessageView, DecodeError>(
                    m@,
                ),
                Err(e) => ServerMessageView::parse(slice@) == Err::<ServerMessageView, DecodeError>(
                    e,
                ),
            },
    {
        if slice.len() < 1 {
            return Err(DecodeError::Truncated);
        }
        let tag: u8 = slice[0];
        if tag == 0 {
            if slice.len() < 17 {
                return Err(DecodeError::Truncated);
            }
            let id: u128 = get_le(slice, 1, 16);
            Ok(ServerMessage::Accepted(id))
        } else if tag == 1 {
            if slice.len() < HEADER_LEN {
                return Err(DecodeError::Truncated);
            }
            let count: u128 = get_le(slice, 1, 2);
            if count > ENEMIES_PER_PACKAGE as u128 {
                return Err(DecodeError::TooManyRecords);
            }
            let count: usize = count as usize;
            if slice.len() < HEADER_LEN + ENEMY_RECORD_LEN * count {
                return Err(DecodeError::Truncated);
            }
            let mut records: Vec<EnemyPackage> = Vec::new();
            let mut done: usize = 0;
            while done < count
                invariant
                    done <= count <= ENEMIES_PER_PACKAGE,
                    HEADER_LEN + ENEMY_RECORD_LEN * count <= slice.len(),
                    records@ == EnemyPackage::parse_all_at(slice@, HEADER_LEN as int, done as nat),
                decreases count - done,
            {
                let record: EnemyPackage = get_enemy(slice, HEADER_LEN + ENEMY_RECORD_LEN * done);
                records.push(record);
                done = done + 1;
                assert(records@ =~= EnemyPackage::parse_all_at(
                    slice@,
                    HEADER_LEN as int,
                    done as nat,
                ));
            }
            Ok(ServerMessage::UpdateEnemies(records))
        } else if tag == 2 {
            if slice.len() < HEADER_LEN {
                return Err(DecodeError::Truncated);
            }
            let count: u128 = get_le(slice, 1, 2);
            if count > PLAYERS_PER_PACKAGE as u128 {
                return Err(DecodeError::TooManyRecords);
            }
            let count: usize = count as usize;
            if slice.len() < HEADER_LEN + PLAYER_RECORD_LEN * count {
                return Err(DecodeError::Truncated);
            }
            let mut records: Vec<PlayerPackage> = Vec::new();
            let mut done: usize = 0;
            while done < count
                invariant
                    done <= count <= PLAYERS_PER_PACKAGE,
                    HEADER_LEN + PLAYER_RECORD_LEN * count <= slice.len(),
                    records@ == PlayerPackage::parse_all_at(slice@, HEADER_LEN as int, done as nat),
                decreases count - done,
            {
                let record: PlayerPackage = get_player(
                    slice,
                    HEADER_LEN + PLAYER_RECORD_LEN * done,
                );
                records.push(record);
                done = done + 1;
                assert(records@ =~= PlayerPackage::parse_all_at(
                    slice@,
                    HEADER_LEN as int,
                    done as nat,
                ));
            }
            Ok(ServerMessage::UpdatePlayers(records))
        } else {
            Err(DecodeError::UnknownTag)
        }
    }
}

impl ClientMessage {
    /// The datagram that carries this message.
    pub fn encode(&self) -> (datagram: [u8; 1000])
        ensures
            datagram@ == padded(self.bytes()),
    {
        let mut out: Vec<u8> = Vec::new();
        match self {
            ClientMessage::Login => {
                out.push(0u8);
                assert(out@ =~= self.bytes());
            },
            ClientMessage::SetVelocity(id, velocity) => {
                out.push(1u8);
                put_le(&mut out, *id, 16);
                put_vec2(&mut out, velocity);
                assert(out@ =~= self.bytes());
            },
        }
        proof {
            lemma_client_bytes_len(*self);
        }
        frame(&out)
    }

    /// The message that `slice` starts with. Bytes after the message are not
    /// read.
    pub fn decode(slice: &[u8]) -> (decoded: Result<ClientMessage, DecodeError>)
        ensures
            decoded == ClientMessage::parse(slice@),
    {
        if slice.len() < 1 {
            return Err(DecodeError::Truncated);
        }
        let tag: u8 = slice[0];
        if tag == 0 {
            Ok(ClientMessage::Login)
        } else if tag == 1 {
            if slice.len() < 25 {
                return Err(DecodeError::Truncated);
            }
            let id: u128 = get_le(slice, 1, 16);
            let velocity: MyVec2 = get_vec2(slice, 17);
            Ok(ClientMessage::SetVelocity(id, velocity))
        } else {
            Err(DecodeError::UnknownTag)
        }
    }
}

} // verus!
