use multi_chess::game::Game;
use multi_chess::game::GameError;
use multi_chess::game::Position;
use multi_chess::game::Space;
use multi_chess::message::game::GameMessage;
use multi_chess::message::lobby::LobbyMessage;
use multi_chess::peer::Frame;
use multi_chess::peer::Peer;
use multi_chess::server_state::ServerState;

#[test]
fn move_pawn_onto_empty_square() {
    let mut game = Game::new();
    let r = game.move_piece(Position { x: 0, y: 6 }, Position { x: 0, y: 5 });
    assert_eq!(Ok(()), r);
    // the pawn cannot be moved onto an occupied square
    let r = game.move_piece(Position { x: 0, y: 5 }, Position { x: 1, y: 6 });
    assert!(matches!(r, Err(GameError::InvalidMove { .. })));
}

#[test]
fn move_from_empty_square_is_invalid() {
    let mut game = Game::new();
    let r = game.move_piece(Position { x: 4, y: 4 }, Position { x: 4, y: 3 });
    match r {
        Err(GameError::InvalidMove { from, to }) => {
            assert_eq!((4, 4), (from.0.x, from.0.y));
            assert!(matches!(from.1, Space::Empty));
            assert_eq!((4, 3), (to.0.x, to.0.y));
        }
        other => panic!("unexpected result: {:?}", other),
    }
}

#[test]
fn move_out_of_bounds_is_rejected() {
    let mut game = Game::new();
    let r = game.move_piece(Position { x: 0, y: 8 }, Position { x: 0, y: 5 });
    assert!(matches!(r, Err(GameError::OutOfBoundsMove)));
    let r = game.move_piece(Position { x: 0, y: 6 }, Position { x: 9, y: 5 });
    assert!(matches!(r, Err(GameError::OutOfBoundsMove)));
}

#[test]
fn board_renders_eight_lines() {
    let game = Game::new();
    let text = game.board_string();
    let lines: Vec<&str> = text.lines().collect();
    assert_eq!(8, lines.len());
    assert_eq!("♜♞♝♛♚♝♞♜", lines[0]);
    assert_eq!("♙♙♙♙♙♙♙♙", lines[6]);
    assert_eq!("■■■■■■■■", lines[2]);
}

#[test]
fn peer_ignores_moves_out_of_lobby() {
    let mut peer = Peer::new(ServerState::new());
    let outcome = peer.process_frame(Frame::Game(GameMessage::MovePiece {
        player: multi_chess::game::Color::W,
        from: Position { x: 0, y: 6 },
        to: Position { x: 0, y: 5 },
    }));
    assert_eq!(None, outcome);
}

#[test]
fn peer_moves_once_in_lobby() {
    let mut peer = Peer::new(ServerState::new());
    let outcome = peer.process_frame(Frame::Lobby(LobbyMessage::CreateLobby {
        name: "room".into(),
    }));
    assert_eq!(None, outcome);
    let outcome = peer.process_frame(Frame::Game(GameMessage::MovePiece {
        player: multi_chess::game::Color::W,
        from: Position { x: 0, y: 6 },
        to: Position { x: 0, y: 5 },
    }));
    assert_eq!(Some(Ok(())), outcome);
}
