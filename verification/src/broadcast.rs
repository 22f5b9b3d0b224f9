//! The state broadcast of one simulation tick.
//!
//! Each session is sent the autonomous objects near its player; every session
//! is sent all players. A batch that is too large for one datagram goes out in
//! several.

use vstd::prelude::*;
use vstd::arithmetic::div_mod::lemma_fundamental_div_mod_converse;
use crate::chunking::{chunk_at, chunk_count, chunks_joined, copy_chunk, count_chunks};
use crate::chunking::{lemma_chunk_bounds, lemma_chunks_cover};
use crate::interest::{collect_nearby, collect_players, nearby, reported, PlayerSample, Sighting};
use crate::messages::{ServerMessage, ServerMessageView, ENEMIES_PER_PACKAGE, PLAYERS_PER_PACKAGE};
use crate::records::{EnemyPackage, PlayerPackage};
use crate::server::{PeerAddr, Server, Session};

verus! {

/// Addressed messages as mathematical values.
pub open spec fn sent_view(sent: Seq<(PeerAddr, ServerMessage)>) -> Seq<
    (PeerAddr, ServerMessageView),
> {
    Seq::new(sent.len(), |k: int| (sent[k].0, sent[k].1@))
}

/// The datagrams that report `records` to `to`: chunk after chunk.
pub open spec fn enemy_broadcast(to: PeerAddr, records: Seq<EnemyPackage>) -> Seq<
    (PeerAddr, ServerMessageView),
> {
    Seq::new(
        chunk_count(records.len(), ENEMIES_PER_PACKAGE as nat),
        |c: int|
            (
                to,
                ServerMessageView::UpdateEnemies(
                    chunk_at(records, ENEMIES_PER_PACKAGE as nat, c as nat),
                ),
            ),
    )
}

/// The datagrams that report `records` to all of `sessions`: chunk after
/// chunk, and each chunk to session after session.
pub open spec fn player_broadcast(sessions: Seq<Session>, records: Seq<PlayerPackage>) -> Seq<
    (PeerAddr, ServerMessageView),
> {
    Seq::new(
        chunk_count(records.len(), PLAYERS_PER_PACKAGE as nat) * sessions.len(),
        |k: int|
            (
                sessions[k % (sessions.len() as int)].addr,
                ServerMessageView::UpdatePlayers(
                    chunk_at(
                        records,
                        PLAYERS_PER_PACKAGE as nat,
                        (k / (sessions.len() as int)) as nat,
                    ),
                ),
            ),
    )
}

/// The enemy records that `sent` carries, in the order sent.
pub open spec fn enemy_records(sent: Seq<(PeerAddr, ServerMessageView)>) -> Seq<EnemyPackage>
    decreases sent.len(),
{
    if sent.len() == 0 {
        Seq::empty()
    } else {
        enemy_records(sent.drop_last()) + (match sent.last().1 {
            ServerMessageView::UpdateEnemies(records) => records,
            _ => Seq::empty(),
        })
    }
}

/// Chunking is complete: `K` records go out in `K / P` datagrams, rounded up,
/// where `P` is what one datagram holds; each datagram carries at least one
/// record and at most `P`, all to the one session; and the records of all
/// the datagrams together are the `K` records, each once and none else, so the
/// identifiers sent are exactly the identifiers that qualified.
pub proof fn lemma_chunking_complete(to: PeerAddr, records: Seq<EnemyPackage>)
    ensures
        enemy_broadcast(to, records).len() == chunk_count(
            records.len(),
            ENEMIES_PER_PACKAGE as nat,
        ),
        records.len() == 0 ==> enemy_broadcast(to, records).len() == 0,
        forall|c: int|
            0 <= c < enemy_broadcast(to, records).len() ==> {
                let sent = #[trigger] enemy_broadcast(to, records)[c];
                &&& sent.0 == to
                &&& sent.1 is UpdateEnemies
                &&& 1 <= sent.1->UpdateEnemies_0.len() <= ENEMIES_PER_PACKAGE
                &&& sent.1.fits()
            },
        enemy_records(enemy_broadcast(to, records)) == records,
        enemy_records(enemy_broadcast(to, records)).map_values(|r: EnemyPackage| r.net_id).to_set()
            == records.map_values(|r: EnemyPackage| r.net_id).to_set(),
{
    let per = ENEMIES_PER_PACKAGE as nat;
    let all = enemy_broadcast(to, records);
    assert forall|c: int| 0 <= c < all.len() implies {
        let sent = #[trigger] all[c];
        &&& sent.0 == to
        &&& sent.1 is UpdateEnemies
        &&& 1 <= sent.1->UpdateEnemies_0.len() <= ENEMIES_PER_PACKAGE
        &&& sent.1.fits()
    } by {
        lemma_chunk_bounds(records.len(), per, c as nat);
    }
    lemma_enemy_records_prefix(to, records, all.len());
    assert(all.take(all.len() as int) =~= all);
    lemma_chunks_cover(records, per);
}

proof fn lemma_enemy_records_prefix(to: PeerAddr, records: Seq<EnemyPackage>, chunks: nat)
    requires
        chunks <= enemy_broadcast(to, records).len(),
    ensures
        enemy_records(enemy_broadcast(to, records).take(chunks as int)) == chunks_joined(
            records,
            ENEMIES_PER_PACKAGE as nat,
            chunks,
        ),
    decreases chunks,
{
    let all = enemy_broadcast(to, records);
    if chunks > 0 {
        lemma_enemy_records_prefix(to, records, (chunks - 1) as nat);
        assert(all.take(chunks as int).drop_last() =~= all.take(chunks - 1));
        assert(all.take(chunks as int).last() == all[chunks - 1]);
    }
}

impl Server {
    /// The datagrams that tell the session at `to` about the autonomous
    /// objects near its player. `sightings` holds every autonomous object with
    /// its squared distance from that player. Those within the interest
    /// radius that have an identifier are reported, in their order; no
    /// object near means no datagram.
    pub fn broadcast_enemies(&self, to: PeerAddr, sightings: &Vec<Sighting>) -> (sent: Vec<
        (PeerAddr, ServerMessage),
    >)
        ensures
            sent_view(sent@) == enemy_broadcast(to, nearby(sightings@, self.handles())),
    {
        let records: Vec<EnemyPackage> = collect_nearby(self.registry(), sightings);
        let chunks: usize = count_chunks(records.len(), ENEMIES_PER_PACKAGE);
        let mut sent: Vec<(PeerAddr, ServerMessage)> = Vec::new();
        let mut chunk: usize = 0;
        while chunk < chunks
            invariant
                chunk <= chunks,
                chunks == chunk_count(records@.len(), ENEMIES_PER_PACKAGE as nat),
                sent@.len() == chunk,
                forall|c: int|
                    0 <= c < chunk ==> (#[trigger] sent@[c]).0 == to && sent@[c].1@
                        == ServerMessageView::UpdateEnemies(
                        chunk_at(records@, ENEMIES_PER_PACKAGE as nat, c as nat),
                    ),
            decreases chunks - chunk,
        {
            let part: Vec<EnemyPackage> = copy_chunk(&records, ENEMIES_PER_PACKAGE, chunk);
            sent.push((to, ServerMessage::UpdateEnemies(part)));
            chunk = chunk + 1;
        }
        assert(sent_view(sent@) =~= enemy_broadcast(to, records@));
        sent
    }

    /// The datagrams that tell every session about all players. The players
    /// of `samples` that have an identifier are reported, in their order,
    /// whatever their distance from anyone.
    pub fn broadcast_players(&self, samples: &Vec<PlayerSample>) -> (sent: Vec<
        (PeerAddr, ServerMessage),
    >)
        ensures
            sent_view(sent@) == player_broadcast(
                self.sessions(),
                reported(samples@, self.handles()),
            ),
    {
        let records: Vec<PlayerPackage> = collect_players(self.registry(), samples);
        let chunks: usize = count_chunks(records.len(), PLAYERS_PER_PACKAGE);
        let peers: usize = self.session_count();
        let mut sent: Vec<(PeerAddr, ServerMessage)> = Vec::new();
        let mut chunk: usize = 0;
        while chunk < chunks
            invariant
                chunk <= chunks,
                chunks == chunk_count(records@.len(), PLAYERS_PER_PACKAGE as nat),
                peers == self.sessions().len(),
                sent@.len() == chunk * peers,
                forall|k: int|
                    0 <= k < sent@.len() ==> (#[trigger] sent@[k]).0 == self.sessions()[k % (
                    peers as int)].addr && sent@[k].1@ == ServerMessageView::UpdatePlayers(
                        chunk_at(records@, PLAYERS_PER_PACKAGE as nat, (k / (peers as int)) as nat),
                    ),
            decreases chunks - chunk,
        {
            let mut peer: usize = 0;
            while peer < peers
                invariant
                    chunk < chunks,
                    chunks == chunk_count(records@.len(), PLAYERS_PER_PACKAGE as nat),
                    peer <= peers,
                    peers == self.sessions().len(),
                    sent@.len() == chunk * peers + peer,
                    forall|k: int|
                        0 <= k < sent@.len() ==> (#[trigger] sent@[k]).0 == self.sessions()[k % (
                        peers as int)].addr && sent@[k].1@ == ServerMessageView::UpdatePlayers(
                            chunk_at(
                                records@,
                                PLAYERS_PER_PACKAGE as nat,
                                (k / (peers as int)) as nat,
                            ),
                        ),
                decreases peers - peer,
            {
                let session: Session = self.session_at(peer);
                let part: Vec<PlayerPackage> = copy_chunk(&records, PLAYERS_PER_PACKAGE, chunk);
                proof {
                    lemma_fundamental_div_mod_converse(
                        chunk * peers + peer,
                        peers as int,
                        chunk as int,
                        peer as int,
                    );
                }
                sent.push((session.addr, ServerMessage::UpdatePlayers(part)));
                peer = peer + 1;
            }
            assert(chunk * peers + peers == (chunk + 1) * peers) by (nonlinear_arith);
            chunk = chunk + 1;
        }
        assert(sent_view(sent@) =~= player_broadcast(self.sessions(), records@));
        sent
    }
}

} // verus!
