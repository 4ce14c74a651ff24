use multi_chess::actor::arena::LobbyArena;
use multi_chess::actor::lobby::Lobby;
use multi_chess::actor::lobby::LobbyError;
use multi_chess::actor::lobby::LobbyMessage;
use multi_chess::actor::lobby::LobbyResponse;
use multi_chess::actor::lobby_manager::LobbyManager;
use multi_chess::actor::lobby_manager::LobbyManagerError;
use multi_chess::actor::lobby_manager::LobbyManagerMessage;
use multi_chess::actor::lobby_manager::LobbyManagerResponse;
use multi_chess::actor::session::IdCounter;
use multi_chess::actor::session::Session;
use multi_chess::messages::NetworkMessage;

fn server_error(text: &str) -> Option<NetworkMessage> {
    Some(NetworkMessage::ServerError(text.into()))
}

#[test]
fn create_lobby_twice_name_taken() {
    // two different sessions race for one name: the first creation wins,
    // the second fails with name-taken, and the name still maps to the
    // first lobby
    let mut manager = LobbyManager::new();
    let mut arena = LobbyArena::new();

    let first = manager.handle(
        LobbyManagerMessage::CreateLobby {
            name: "X".into(),
            creating_session: 1,
        },
        &mut arena,
    );
    let first_id = match first {
        Ok(LobbyManagerResponse::CreatedLobby { lobby }) => lobby,
        other => panic!("unexpected reply: {:?}", other),
    };

    let second = manager.handle(
        LobbyManagerMessage::CreateLobby {
            name: "X".into(),
            creating_session: 2,
        },
        &mut arena,
    );
    assert_eq!(Err(LobbyManagerError::LobbyNameTaken), second);

    assert_eq!(Ok(first_id), manager.get_lobby(&"X".into(), &arena));
    let lobby = arena.lobby(first_id).unwrap();
    assert_eq!((Some(1), None), lobby.players());
}

#[test]
fn third_join_fails_lobby_full() {
    let mut lobby = Lobby::new(1);
    assert_eq!(Ok(()), lobby.add_player(2));
    assert_eq!((Some(1), Some(2)), lobby.players());

    assert_eq!(Err(LobbyError::LobbyFull), lobby.add_player(3));
    assert_eq!((Some(1), Some(2)), lobby.players());

    assert_eq!(
        Err(LobbyError::LobbyFull),
        lobby.handle(LobbyMessage::JoinLobby(4))
    );
    assert_eq!((Some(1), Some(2)), lobby.players());
}

#[test]
fn start_game_twice_fails_already_started() {
    let mut lobby = Lobby::new(1);
    assert_eq!(Ok(()), lobby.add_player(2));

    assert!(!lobby.game_started());
    assert_eq!(Ok(()), lobby.start_game());
    assert!(lobby.game_started());
    assert_eq!(Err(LobbyError::GameAlreadyStarted), lobby.start_game());
    assert!(lobby.game_started());
}

#[test]
fn start_game_needs_two_players() {
    let mut lobby = Lobby::new(1);
    assert_eq!(Err(LobbyError::NotEnoughPlayers), lobby.start_game());
    assert!(!lobby.game_started());
}

#[test]
fn four_sessions_one_room() {
    // session A names itself and creates "room1"; B joins it; C is turned
    // away, the room being full; D asks for the list and sees ["room1"]
    let mut manager = LobbyManager::new();
    let mut arena = LobbyArena::new();
    let mut counter = IdCounter::new();
    let mut a = Session::new(counter.get_id());
    let mut b = Session::new(counter.get_id());
    let mut c = Session::new(counter.get_id());
    let mut d = Session::new(counter.get_id());

    let out = a.handle(
        Ok(NetworkMessage::SetUsername {
            name: "alice".into(),
        }),
        &mut manager,
        &mut arena,
    );
    assert_eq!(None, out);
    let out = a.handle(
        Ok(NetworkMessage::CreateLobby {
            name: "room1".into(),
        }),
        &mut manager,
        &mut arena,
    );
    assert_eq!(None, out);

    let out = b.handle(
        Ok(NetworkMessage::SetUsername { name: "bob".into() }),
        &mut manager,
        &mut arena,
    );
    assert_eq!(None, out);
    let out = b.handle(
        Ok(NetworkMessage::JoinLobby {
            name: "room1".into(),
        }),
        &mut manager,
        &mut arena,
    );
    assert_eq!(None, out);

    let out = c.handle(
        Ok(NetworkMessage::SetUsername {
            name: "carol".into(),
        }),
        &mut manager,
        &mut arena,
    );
    assert_eq!(None, out);
    let out = c.handle(
        Ok(NetworkMessage::JoinLobby {
            name: "room1".into(),
        }),
        &mut manager,
        &mut arena,
    );
    assert_eq!(server_error("Lobby is full"), out);

    let out = d.handle(
        Ok(NetworkMessage::ListLobbiesRequest),
        &mut manager,
        &mut arena,
    );
    assert_eq!(
        Some(NetworkMessage::ListLobbiesResponse {
            lobbies: vec!["room1".into()],
        }),
        out
    );

    // the room holds its creator and the one joiner, and both of them
    // hold its handle; C holds none
    let id = manager.get_lobby(&"room1".into(), &arena).unwrap();
    let lobby = arena.lobby(id).unwrap();
    assert_eq!((Some(1), Some(2)), lobby.players());
    assert_eq!(Some(id), a.lobby());
    assert_eq!(Some(id), b.lobby());
    assert_eq!(None, c.lobby());
}

#[test]
fn set_username_last_write_wins() {
    let mut manager = LobbyManager::new();
    let mut arena = LobbyArena::new();
    let mut s = Session::new(1);
    assert_eq!(None, s.username());
    s.handle(
        Ok(NetworkMessage::SetUsername {
            name: "first".into(),
        }),
        &mut manager,
        &mut arena,
    );
    s.handle(
        Ok(NetworkMessage::SetUsername {
            name: "second".into(),
        }),
        &mut manager,
        &mut arena,
    );
    assert_eq!(Some(&"second".to_string()), s.username());
}

#[test]
fn join_unknown_lobby_does_not_exist() {
    // a name that was never registered: the join is refused
    let mut manager = LobbyManager::new();
    let mut arena = LobbyArena::new();
    let mut counter = IdCounter::new();
    let mut e = Session::new(counter.get_id());

    let out = e.handle(
        Ok(NetworkMessage::SetUsername { name: "eve".into() }),
        &mut manager,
        &mut arena,
    );
    assert_eq!(None, out);
    let out = e.handle(
        Ok(NetworkMessage::JoinLobby {
            name: "ghost".into(),
        }),
        &mut manager,
        &mut arena,
    );
    assert_eq!(server_error("Unable to join lobby"), out);
}

#[test]
fn lobby_operations_need_username() {
    let mut manager = LobbyManager::new();
    let mut arena = LobbyArena::new();
    let mut s = Session::new(7);

    let out = s.handle(
        Ok(NetworkMessage::CreateLobby { name: "a".into() }),
        &mut manager,
        &mut arena,
    );
    assert_eq!(server_error("Cannot create lobby without username"), out);

    let out = s.handle(
        Ok(NetworkMessage::JoinLobby { name: "a".into() }),
        &mut manager,
        &mut arena,
    );
    assert_eq!(server_error("Cannot join lobby without username"), out);
}

#[test]
fn join_while_in_lobby_is_refused_locally() {
    let mut manager = LobbyManager::new();
    let mut arena = LobbyArena::new();
    let mut counter = IdCounter::new();
    let mut a = Session::new(counter.get_id());
    let mut b = Session::new(counter.get_id());

    a.handle(
        Ok(NetworkMessage::SetUsername {
            name: "alice".into(),
        }),
        &mut manager,
        &mut arena,
    );
    a.handle(
        Ok(NetworkMessage::CreateLobby { name: "one".into() }),
        &mut manager,
        &mut arena,
    );
    b.handle(
        Ok(NetworkMessage::SetUsername { name: "bob".into() }),
        &mut manager,
        &mut arena,
    );
    b.handle(
        Ok(NetworkMessage::CreateLobby { name: "two".into() }),
        &mut manager,
        &mut arena,
    );

    // b already has a lobby: the join is refused without touching the
    // directory
    let out = b.handle(
        Ok(NetworkMessage::JoinLobby { name: "one".into() }),
        &mut manager,
        &mut arena,
    );
    assert_eq!(server_error("Cannot join lobby when already in lobby."), out);
    let id = manager.get_lobby(&"one".into(), &arena).unwrap();
    assert_eq!((Some(1), None), arena.lobby(id).unwrap().players());
}

#[test]
fn stale_name_is_free_after_lobby_terminates() {
    // the registry holds weak handles: once the lobby behind "X" is gone,
    // a join reports does-not-exist and the name can be registered anew
    let mut manager = LobbyManager::new();
    let mut arena = LobbyArena::new();

    let first = manager.handle(
        LobbyManagerMessage::CreateLobby {
            name: "X".into(),
            creating_session: 1,
        },
        &mut arena,
    );
    let first_id = match first {
        Ok(LobbyManagerResponse::CreatedLobby { lobby }) => lobby,
        other => panic!("unexpected reply: {:?}", other),
    };

    arena.stop(first_id);
    assert_eq!(
        Err(LobbyManagerError::LobbyDoesNotExist),
        manager.get_lobby(&"X".into(), &arena)
    );
    assert_eq!(
        Err(LobbyManagerError::LobbyDoesNotExist),
        manager.handle(
            LobbyManagerMessage::ToLobby {
                name: "X".into(),
                message: LobbyMessage::JoinLobby(5),
            },
            &mut arena,
        )
    );

    let again = manager.handle(
        LobbyManagerMessage::CreateLobby {
            name: "X".into(),
            creating_session: 2,
        },
        &mut arena,
    );
    let second_id = match again {
        Ok(LobbyManagerResponse::CreatedLobby { lobby }) => lobby,
        other => panic!("unexpected reply: {:?}", other),
    };
    assert_ne!(first_id, second_id);
    assert_eq!(Ok(second_id), manager.get_lobby(&"X".into(), &arena));
    assert_eq!((Some(2), None), arena.lobby(second_id).unwrap().players());
}

#[test]
fn route_join_through_manager() {
    let mut manager = LobbyManager::new();
    let mut arena = LobbyArena::new();

    manager
        .handle(
            LobbyManagerMessage::CreateLobby {
                name: "X".into(),
                creating_session: 1,
            },
            &mut arena,
        )
        .unwrap();

    let reply = manager.handle(
        LobbyManagerMessage::ToLobby {
            name: "X".into(),
            message: LobbyMessage::JoinLobby(2),
        },
        &mut arena,
    );
    match reply {
        Ok(LobbyManagerResponse::LobbyResponse {
            response,
            lobby: _,
            name,
        }) => {
            assert_eq!(Ok(LobbyResponse::Accepted), response);
            assert_eq!("X", name);
        }
        other => panic!("unexpected reply: {:?}", other),
    }
}

#[test]
fn list_lobbies_in_insertion_order() {
    let mut manager = LobbyManager::new();
    let mut arena = LobbyArena::new();
    for name in ["c", "a", "b"] {
        manager
            .handle(
                LobbyManagerMessage::CreateLobby {
                    name: name.into(),
                    creating_session: 9,
                },
                &mut arena,
            )
            .unwrap();
    }
    let reply = manager.handle(LobbyManagerMessage::ListLobbies, &mut arena);
    assert_eq!(
        Ok(LobbyManagerResponse::LobbiesList {
            lobbies: vec!["c".into(), "a".into(), "b".into()],
        }),
        reply
    );
}

#[test]
fn undecodable_item_is_reported_to_peer() {
    let mut manager = LobbyManager::new();
    let mut arena = LobbyArena::new();
    let mut s = Session::new(3);
    let out = s.handle(
        Err(multi_chess::codec::CodecError::MsgPackDeserializationError),
        &mut manager,
        &mut arena,
    );
    assert_eq!(server_error("Malformed message"), out);
}

#[test]
fn id_counter_hands_out_fresh_ids() {
    let mut counter = IdCounter::new();
    let a = counter.get_id();
    let b = counter.get_id();
    let c = counter.get_id();
    assert_eq!((1, 2, 3), (a, b, c));
}
