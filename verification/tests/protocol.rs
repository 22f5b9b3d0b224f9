use dodgescrape2::chunking::{copy_chunk, count_chunks};
use dodgescrape2::client::{Client, ClientAction, ObjectKind};
use dodgescrape2::interest::{within_interest, PlayerSample, Sighting};
use dodgescrape2::interest::{INTEREST_RADIUS, INTEREST_RADIUS_SQUARED};
use dodgescrape2::messages::{ClientMessage, ServerMessage};
use dodgescrape2::messages::{ENEMIES_PER_PACKAGE, PLAYERS_PER_PACKAGE};
use dodgescrape2::records::{EnemyPackage, MyVec2, MyVec3, PlayerPackage};
use dodgescrape2::registry::RegistryError;
use dodgescrape2::server::{PeerAddr, Server, ServerAction, Session};
use dodgescrape2::transport::LinkStats;

fn peer(port: u16) -> PeerAddr {
    PeerAddr { ip: 0xFFFF_7F00_0001, port }
}

fn point(x: f32, y: f32, z: f32) -> MyVec3 {
    MyVec3 { x: x.to_bits(), y: y.to_bits(), z: z.to_bits() }
}

fn distance_squared(a: (f32, f32), b: (f32, f32)) -> u32 {
    let dx = a.0 - b.0;
    let dy = a.1 - b.1;
    (dx * dx + dy * dy).to_bits()
}

fn sighting(handle: u64, object: (f32, f32), player: (f32, f32)) -> Sighting {
    Sighting {
        handle,
        position: point(object.0, object.1, 0.0),
        radius: 20.0f32.to_bits(),
        distance_squared: distance_squared(object, player),
    }
}

fn login(server: &mut Server, from: PeerAddr, handle: u64) -> (PeerAddr, ServerMessage) {
    assert!(matches!(
        server.on_message(from, ClientMessage::Login),
        ServerAction::SpawnPlayer { .. }
    ));
    assert!(server.can_allocate());
    server.on_player_spawned(from, handle).unwrap()
}

#[test]
fn first_login_is_accepted_with_zero_and_the_second_with_one() {
    let mut server = Server::new();
    assert_eq!(login(&mut server, peer(4000), 70), (peer(4000), ServerMessage::Accepted(0)));
    assert_eq!(login(&mut server, peer(4001), 71), (peer(4001), ServerMessage::Accepted(1)));
    assert_eq!(server.session_count(), 2);
    assert_eq!(server.session_at(0), Session { addr: peer(4000), net_id: 0, handle: 70 });
    assert_eq!(server.session_at(1), Session { addr: peer(4001), net_id: 1, handle: 71 });
    assert_eq!(server.registry().lookup_by_id(1), Some(71));
    assert_eq!(server.registry().lookup_by_handle(70), Some(0));
}

#[test]
fn login_asks_for_a_player_at_the_spawn_point() {
    let server = Server::new();
    assert_eq!(
        server.on_message(peer(1), ClientMessage::Login),
        ServerAction::SpawnPlayer {
            peer: peer(1),
            position: point(200.0, 0.0, 1.0),
            radius: 20.0f32.to_bits(),
            velocity: MyVec2 { x: (-200.0f32).to_bits(), y: 0.0f32.to_bits() },
        }
    );
    assert!(!server.has_session(peer(1)));
    assert_eq!(server.session_count(), 0);
}

#[test]
fn a_repeated_login_does_nothing() {
    let mut server = Server::new();
    login(&mut server, peer(1), 70);
    assert!(server.has_session(peer(1)));
    assert_eq!(server.on_message(peer(1), ClientMessage::Login), ServerAction::Nothing);
    assert_eq!(server.session_count(), 1);
    assert_eq!(login(&mut server, peer(2), 71).1, ServerMessage::Accepted(1));
}

#[test]
fn a_spawn_report_for_a_known_peer_or_handle_is_refused() {
    let mut server = Server::new();
    login(&mut server, peer(1), 70);
    assert_eq!(server.on_player_spawned(peer(1), 90), Err(RegistryError::DuplicateBinding));
    assert_eq!(server.on_player_spawned(peer(2), 70), Err(RegistryError::DuplicateBinding));
    assert_eq!(server.session_count(), 1);
    assert_eq!(server.registry().len(), 1);
    assert_eq!(login(&mut server, peer(2), 71).1, ServerMessage::Accepted(1));
}

#[test]
fn autonomous_objects_share_the_counter_with_players() {
    let mut server = Server::new();
    assert_eq!(server.register_autonomous(500), Ok(0));
    assert_eq!(server.register_autonomous(501), Ok(1));
    assert_eq!(server.register_autonomous(500), Err(RegistryError::DuplicateBinding));
    assert_eq!(login(&mut server, peer(1), 70).1, ServerMessage::Accepted(2));
    assert_eq!(server.register_autonomous(502), Ok(3));
    assert_eq!(server.session_count(), 1);
    assert_eq!(server.registry().lookup_by_handle(501), Some(1));
}

#[test]
fn an_intent_is_passed_on_as_received() {
    let mut server = Server::new();
    login(&mut server, peer(1), 70);
    login(&mut server, peer(2), 71);
    let velocity = MyVec2 { x: 1.0f32.to_bits(), y: 0.0f32.to_bits() };
    assert_eq!(
        server.on_message(peer(2), ClientMessage::SetVelocity(1, velocity)),
        ServerAction::SetVelocity { net_id: 1, handle: 71, velocity }
    );
    assert_eq!(
        server.on_message(peer(2), ClientMessage::SetVelocity(0, velocity)),
        ServerAction::SetVelocity { net_id: 0, handle: 70, velocity }
    );
}

#[test]
fn an_intent_moves_the_player_when_the_simulation_integrates() {
    let mut server = Server::new();
    let accepted = login(&mut server, peer(1), 70).1;
    let mut client = Client::new();
    match accepted {
        ServerMessage::Accepted(id) => client.on_accepted(id),
        _ => panic!("no identity"),
    }
    let wanted = MyVec2 { x: 1.0f32.to_bits(), y: 0.0f32.to_bits() };
    let message = client.intent(wanted).unwrap();
    let datagram = message.encode();
    let received = ClientMessage::decode(&datagram).unwrap();
    let mut x = 200.0f32;
    let before = x;
    match server.on_message(peer(1), received) {
        ServerAction::SetVelocity { handle, velocity, .. } => {
            assert_eq!(handle, 70);
            x += f32::from_bits(velocity.x) * 0.016;
        }
        other => panic!("unexpected action {:?}", other),
    }
    assert!(x > before);
}

#[test]
fn an_intent_for_an_unknown_identifier_asks_nothing() {
    let mut server = Server::new();
    login(&mut server, peer(1), 70);
    let velocity = MyVec2 { x: 5, y: 6 };
    assert_eq!(
        server.on_message(peer(1), ClientMessage::SetVelocity(9, velocity)),
        ServerAction::Nothing
    );
    assert_eq!(server.session_count(), 1);
}

#[test]
fn a_rejected_intent_purges_the_identifier_and_its_session() {
    let mut server = Server::new();
    login(&mut server, peer(1), 70);
    login(&mut server, peer(2), 71);
    login(&mut server, peer(3), 72);
    server.on_intent_rejected(1);
    assert_eq!(server.session_count(), 2);
    assert_eq!(server.session_at(0).addr, peer(1));
    assert_eq!(server.session_at(1).addr, peer(3));
    assert_eq!(server.registry().lookup_by_id(1), None);
    assert_eq!(server.registry().lookup_by_handle(71), None);
    assert_eq!(server.registry().lookup_by_id(2), Some(72));
    assert!(!server.has_session(peer(2)));
    server.on_intent_rejected(1);
    server.on_intent_rejected(40);
    assert_eq!(server.session_count(), 2);
    assert_eq!(login(&mut server, peer(2), 73).1, ServerMessage::Accepted(3));
}

#[test]
fn interest_radius_constants_are_the_floats() {
    assert_eq!(INTEREST_RADIUS, 500.0f32.to_bits());
    assert_eq!(INTEREST_RADIUS_SQUARED, (500.0f32 * 500.0f32).to_bits());
}

#[test]
fn an_object_exactly_at_the_radius_is_within_interest() {
    assert!(within_interest(distance_squared((500.0, 0.0), (0.0, 0.0))));
    assert!(within_interest(distance_squared((300.0, 400.0), (0.0, 0.0))));
    assert!(within_interest(distance_squared((0.0, 0.0), (0.0, 0.0))));
    assert!(within_interest(INTEREST_RADIUS_SQUARED));
}

#[test]
fn an_object_just_beyond_the_radius_is_not_within_interest() {
    assert!(!within_interest(INTEREST_RADIUS_SQUARED + 1));
    assert!(!within_interest(distance_squared((500.01, 0.0), (0.0, 0.0))));
    assert!(!within_interest(distance_squared((600.0, 0.0), (0.0, 0.0))));
    assert!(!within_interest(f32::INFINITY.to_bits()));
    assert!(!within_interest(f32::NAN.to_bits()));
}

#[test]
fn a_far_object_is_reported_once_the_player_has_come_near() {
    let mut server = Server::new();
    let object = server.register_autonomous(900).unwrap();
    login(&mut server, peer(1), 70);
    let far = vec![sighting(900, (600.0, 0.0), (0.0, 0.0))];
    assert_eq!(server.broadcast_enemies(peer(1), &far), Vec::new());
    let near = vec![sighting(900, (600.0, 0.0), (150.0, 0.0))];
    assert_eq!(
        server.broadcast_enemies(peer(1), &near),
        vec![(
            peer(1),
            ServerMessage::UpdateEnemies(vec![EnemyPackage {
                net_id: object,
                position: point(600.0, 0.0, 0.0),
                radius: 20.0f32.to_bits(),
            }])
        )]
    );
}

#[test]
fn objects_without_an_identifier_are_not_reported() {
    let mut server = Server::new();
    server.register_autonomous(900).unwrap();
    let seen = vec![
        sighting(901, (1.0, 0.0), (0.0, 0.0)),
        sighting(900, (2.0, 0.0), (0.0, 0.0)),
        sighting(902, (3.0, 0.0), (0.0, 0.0)),
    ];
    let sent = server.broadcast_enemies(peer(1), &seen);
    assert_eq!(sent.len(), 1);
    match &sent[0].1 {
        ServerMessage::UpdateEnemies(records) => {
            assert_eq!(records.len(), 1);
            assert_eq!(records[0].net_id, 0);
            assert_eq!(records[0].position, point(2.0, 0.0, 0.0));
        }
        other => panic!("unexpected message {:?}", other),
    }
}

fn crowded(count: usize) -> (Server, Vec<Sighting>) {
    let mut server = Server::new();
    let mut seen = Vec::new();
    for i in 0..count {
        server.register_autonomous(1000 + i as u64).unwrap();
        seen.push(sighting(1000 + i as u64, (i as f32 * 0.1, 0.0), (0.0, 0.0)));
    }
    (server, seen)
}

fn enemy_ids(sent: &[(PeerAddr, ServerMessage)]) -> Vec<u128> {
    let mut ids = Vec::new();
    for (_, message) in sent {
        match message {
            ServerMessage::UpdateEnemies(records) => {
                assert!(!records.is_empty());
                assert!(records.len() <= ENEMIES_PER_PACKAGE);
                ids.extend(records.iter().map(|record| record.net_id));
            }
            other => panic!("unexpected message {:?}", other),
        }
    }
    ids
}

#[test]
fn a_full_datagram_of_objects_goes_out_in_one() {
    let (server, seen) = crowded(ENEMIES_PER_PACKAGE);
    let sent = server.broadcast_enemies(peer(9), &seen);
    assert_eq!(sent.len(), 1);
    assert!(sent.iter().all(|(to, message)| *to == peer(9) && message.fits()));
    assert_eq!(enemy_ids(&sent), (0..ENEMIES_PER_PACKAGE as u128).collect::<Vec<u128>>());
}

#[test]
fn one_object_more_needs_a_second_datagram() {
    let (server, seen) = crowded(ENEMIES_PER_PACKAGE + 1);
    let sent = server.broadcast_enemies(peer(9), &seen);
    assert_eq!(sent.len(), 2);
    assert!(sent.iter().all(|(to, message)| *to == peer(9) && message.fits()));
    assert_eq!(enemy_ids(&sent), (0..ENEMIES_PER_PACKAGE as u128 + 1).collect::<Vec<u128>>());
    for (_, message) in &sent {
        assert_eq!(ServerMessage::decode(&message.encode()).as_ref(), Ok(message));
    }
}

#[test]
fn many_objects_go_out_in_the_rounded_up_number_of_datagrams() {
    for count in [0usize, 1, 30, 31, 32, 62, 63, 100, 5000] {
        let (server, seen) = crowded(count);
        let sent = server.broadcast_enemies(peer(9), &seen);
        assert_eq!(sent.len(), (count + ENEMIES_PER_PACKAGE - 1) / ENEMIES_PER_PACKAGE);
        assert_eq!(enemy_ids(&sent), (0..count as u128).collect::<Vec<u128>>());
    }
}

#[test]
fn chunk_counts_round_up() {
    assert_eq!(count_chunks(0, 31), 0);
    assert_eq!(count_chunks(1, 31), 1);
    assert_eq!(count_chunks(31, 31), 1);
    assert_eq!(count_chunks(32, 31), 2);
    assert_eq!(count_chunks(93, 31), 3);
    assert_eq!(count_chunks(7, 1), 7);
    assert_eq!(count_chunks(usize::MAX, 1), usize::MAX);
    assert_eq!(count_chunks(usize::MAX, 2), usize::MAX / 2 + 1);
}

#[test]
fn chunks_are_consecutive_stretches() {
    let records: Vec<u32> = (0..10).collect();
    assert_eq!(copy_chunk(&records, 4, 0), vec![0, 1, 2, 3]);
    assert_eq!(copy_chunk(&records, 4, 1), vec![4, 5, 6, 7]);
    assert_eq!(copy_chunk(&records, 4, 2), vec![8, 9]);
    assert_eq!(copy_chunk(&records, 10, 0), records);
    assert_eq!(copy_chunk(&records, 11, 0), records);
}

#[test]
fn all_players_go_to_every_session() {
    let mut server = Server::new();
    login(&mut server, peer(1), 70);
    login(&mut server, peer(2), 71);
    let samples = vec![
        PlayerSample { handle: 70, position: point(0.0, 0.0, 1.0) },
        PlayerSample { handle: 71, position: point(90000.0, 0.0, 1.0) },
        PlayerSample { handle: 99, position: point(1.0, 1.0, 1.0) },
    ];
    let records = vec![
        PlayerPackage { net_id: 0, position: point(0.0, 0.0, 1.0) },
        PlayerPackage { net_id: 1, position: point(90000.0, 0.0, 1.0) },
    ];
    assert_eq!(
        server.broadcast_players(&samples),
        vec![
            (peer(1), ServerMessage::UpdatePlayers(records.clone())),
            (peer(2), ServerMessage::UpdatePlayers(records)),
        ]
    );
}

#[test]
fn many_players_go_out_chunk_by_chunk_to_session_after_session() {
    let mut server = Server::new();
    let mut samples = Vec::new();
    let count = PLAYERS_PER_PACKAGE + 1;
    for i in 0..count {
        login(&mut server, peer(i as u16), 70 + i as u64);
        samples.push(PlayerSample { handle: 70 + i as u64, position: point(i as f32, 0.0, 1.0) });
    }
    let sent = server.broadcast_players(&samples);
    assert_eq!(sent.len(), 2 * count);
    for (k, (to, message)) in sent.iter().enumerate() {
        assert_eq!(*to, peer((k % count) as u16));
        assert!(message.fits());
        match message {
            ServerMessage::UpdatePlayers(records) => {
                if k < count {
                    assert_eq!(records.len(), PLAYERS_PER_PACKAGE);
                    assert_eq!(records[0].net_id, 0);
                } else {
                    assert_eq!(records.len(), 1);
                    assert_eq!(records[0].net_id, PLAYERS_PER_PACKAGE as u128);
                }
            }
            other => panic!("unexpected message {:?}", other),
        }
    }
}

#[test]
fn no_session_means_no_player_datagram() {
    let mut server = Server::new();
    server.register_autonomous(5).unwrap();
    let samples = vec![PlayerSample { handle: 5, position: point(0.0, 0.0, 0.0) }];
    assert_eq!(server.broadcast_players(&samples), Vec::new());
    login(&mut server, peer(1), 70);
    assert_eq!(server.broadcast_players(&Vec::new()), Vec::new());
}

#[test]
fn a_client_learns_its_identity_from_the_reply() {
    let mut client = Client::new();
    assert_eq!(client.my_id(), None);
    assert_eq!(client.intent(MyVec2 { x: 1, y: 2 }), None);
    client.on_accepted(17);
    assert_eq!(client.my_id(), Some(17));
    assert_eq!(
        client.intent(MyVec2 { x: 1, y: 2 }),
        Some(ClientMessage::SetVelocity(17, MyVec2 { x: 1, y: 2 }))
    );
}

#[test]
fn a_first_seen_object_is_created_and_then_moved() {
    let mut client = Client::new();
    let record = EnemyPackage { net_id: 4, position: point(1.0, 2.0, 0.0), radius: 7 };
    assert_eq!(
        client.reconcile_enemy(&record),
        ClientAction::Create {
            kind: ObjectKind::Autonomous,
            net_id: 4,
            position: point(1.0, 2.0, 0.0),
            radius: Some(7),
        }
    );
    assert_eq!(client.on_created(4, 300), Ok(()));
    let moved = EnemyPackage { net_id: 4, position: point(5.0, 6.0, 0.0), radius: 7 };
    assert_eq!(
        client.reconcile_enemy(&moved),
        ClientAction::MoveTo { handle: 300, position: point(5.0, 6.0, 0.0) }
    );
    let player = PlayerPackage { net_id: 8, position: point(0.0, 0.0, 1.0) };
    assert_eq!(
        client.reconcile_player(&player),
        ClientAction::Create {
            kind: ObjectKind::Player,
            net_id: 8,
            position: point(0.0, 0.0, 1.0),
            radius: None,
        }
    );
    assert_eq!(client.on_created(8, 301), Ok(()));
    assert_eq!(
        client.reconcile_player(&player),
        ClientAction::MoveTo { handle: 301, position: point(0.0, 0.0, 1.0) }
    );
    assert_eq!(client.registry().lookup_by_handle(301), Some(8));
}

#[test]
fn a_client_refuses_a_second_binding() {
    let mut client = Client::new();
    assert_eq!(client.on_created(4, 300), Ok(()));
    assert_eq!(client.on_created(4, 301), Err(RegistryError::DuplicateBinding));
    assert_eq!(client.on_created(5, 300), Err(RegistryError::DuplicateBinding));
    assert_eq!(client.registry().len(), 1);
}

#[test]
fn malformed_datagrams_are_dropped_and_counted() {
    let mut stats = LinkStats::new();
    let login = ClientMessage::Login.encode();
    assert_eq!(stats.receive_client_message(&login), Some(ClientMessage::Login));
    assert_eq!(stats, LinkStats { malformed: 0, unsent: 0 });
    assert_eq!(stats.receive_client_message(&[9, 9, 9]), None);
    assert_eq!(stats.receive_client_message(&[]), None);
    assert_eq!(stats, LinkStats { malformed: 2, unsent: 0 });
    let accepted = ServerMessage::Accepted(3);
    assert_eq!(stats.receive_server_message(&accepted.encode()), Some(accepted));
    assert_eq!(stats.receive_server_message(&[1, 5]), None);
    assert_eq!(stats, LinkStats { malformed: 3, unsent: 0 });
}

#[test]
fn counters_stop_at_the_largest_number() {
    let mut stats = LinkStats { malformed: u64::MAX, unsent: u64::MAX - 1 };
    assert_eq!(stats.receive_client_message(&[]), None);
    assert!(!stats.record_send(1000, None));
    assert!(!stats.record_send(1000, None));
    assert_eq!(stats, LinkStats { malformed: u64::MAX, unsent: u64::MAX });
}

#[test]
fn a_send_is_delivered_only_when_whole() {
    let mut stats = LinkStats::new();
    assert!(stats.record_send(1000, Some(1000)));
    assert_eq!(stats.unsent, 0);
    assert!(!stats.record_send(1000, Some(999)));
    assert!(!stats.record_send(1000, None));
    assert!(!stats.record_send(0, Some(1)));
    assert_eq!(stats, LinkStats { malformed: 0, unsent: 3 });
}
