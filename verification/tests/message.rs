use bytes::BufMut;
use bytes::BytesMut;

use multi_chess::game::Color;
use multi_chess::game::Position;
use multi_chess::message::game::position_to_byte;
use multi_chess::message::game::GameMessage;
use multi_chess::message::game::GameMessageError;
use multi_chess::message::lobby::LobbyMessage;
use multi_chess::message::lobby::LobbyMessageError;

#[test]
fn game_test_position_to_byte() {
    let p1 = Position { x: 1, y: 1 };
    let p2 = Position { x: 8, y: 5 };
    assert_eq!(position_to_byte(&p1), 0x11u8);
    assert_eq!(position_to_byte(&p2), 0x85u8);
}

#[test]
fn lobby_test_create_lobby_codec() {
    let create_lobby = LobbyMessage::CreateLobby {
        name: "My Lobby".into(),
    };

    let bytes = &mut BytesMut::new();
    let encoded_frame = LobbyMessage::encode(create_lobby, bytes);

    assert_eq!(encoded_frame, Ok(()));

    let decoded_frame = LobbyMessage::decode(bytes);

    assert_eq!(
        Ok(Some(LobbyMessage::CreateLobby {
            name: "My Lobby".into(),
        })),
        decoded_frame
    );
}

#[test]
fn lobby_test_create_lobby_too_long() {
    let create_lobby = LobbyMessage::CreateLobby {
        name: ['a'; 256].iter().cloned().collect(),
    };

    let bytes = &mut BytesMut::new();
    let encoded_frame = LobbyMessage::encode(create_lobby, bytes);
    assert_eq!(encoded_frame, Err(LobbyMessageError::LobbyNameTooLong))
}

#[test]
fn game_message_round_trip() {
    let mv = GameMessage::MovePiece {
        player: Color::W,
        from: Position { x: 4, y: 6 },
        to: Position { x: 4, y: 4 },
    };
    let bytes = &mut BytesMut::new();
    assert_eq!(Ok(()), GameMessage::encode(mv, bytes));
    assert_eq!(&[0x01u8, 0x01, 0x46, 0x44][..], &bytes[..]);
    let decoded = GameMessage::decode(bytes);
    assert_eq!(Ok(Some(mv)), decoded);
    assert_eq!(0, bytes.len());
}

#[test]
fn game_message_bad_color_byte() {
    let bytes = &mut BytesMut::new();
    let raw: &[u8] = &[0x01, 0x09, 0x11, 0x12];
    bytes.put(raw);
    let decoded = GameMessage::decode(bytes);
    assert_eq!(Err(GameMessageError::InvalidColorByte(0x09)), decoded);
}

#[test]
fn game_message_wrong_tag() {
    let bytes = &mut BytesMut::new();
    let raw: &[u8] = &[0x10, 0x02];
    bytes.put(raw);
    let decoded = GameMessage::decode(bytes);
    assert_eq!(Err(GameMessageError::CannotDecodeNonGameMessage), decoded);
    assert_eq!(2, bytes.len());
}

#[test]
fn lobby_message_wrong_tag() {
    let bytes = &mut BytesMut::new();
    let raw: &[u8] = &[0x01, 0x01, 0x11, 0x12];
    bytes.put(raw);
    let decoded = LobbyMessage::decode(bytes);
    assert_eq!(
        Err(LobbyMessageError::CannotDecodeNonLobbyMessage),
        decoded
    );
    assert_eq!(4, bytes.len());
}

#[test]
fn lobby_message_bad_name_bytes() {
    let bytes = &mut BytesMut::new();
    let raw: &[u8] = &[0x10, 0x02, 0xc3, 0x28];
    bytes.put(raw);
    let decoded = LobbyMessage::decode(bytes);
    assert_eq!(Err(LobbyMessageError::LobbyNameUtf8Error), decoded);
    assert_eq!(0, bytes.len());
}
