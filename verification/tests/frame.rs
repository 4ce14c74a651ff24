use bytes::BufMut;
use bytes::BytesMut;

use multi_chess::frame::position_to_byte;
use multi_chess::frame::Frame;
use multi_chess::frame::FrameCodec;
use multi_chess::frame::FrameError;
use multi_chess::frame::LobbyAction;
use multi_chess::frame::LobbyActionError;
use multi_chess::frame::PlayerAction;
use multi_chess::frame::PlayerActionError;
use multi_chess::game::Color;
use multi_chess::game::Position;

#[test]
fn frame_test_position_to_byte() {
    let p1 = Position { x: 1, y: 1 };
    let p2 = Position { x: 8, y: 5 };
    assert_eq!(position_to_byte(&p1), 0x11u8);
    assert_eq!(position_to_byte(&p2), 0x85u8);
}

#[test]
fn frame_test_create_lobby_codec() {
    let create_lobby = Frame::Lobby(LobbyAction::CreateLobby {
        name: "My Lobby".into(),
    });

    let bytes = &mut BytesMut::new();
    let mut codec = FrameCodec {};
    let encoded_frame = codec.encode(create_lobby, bytes);

    assert_eq!(encoded_frame, Ok(()));

    let decoded_frame = codec.decode(bytes);

    assert_eq!(
        Ok(Some(Frame::Lobby(LobbyAction::CreateLobby {
            name: "My Lobby".into(),
        }))),
        decoded_frame
    );
}

#[test]
fn frame_test_create_lobby_too_long() {
    let create_lobby = Frame::Lobby(LobbyAction::CreateLobby {
        name: ['a'; 256].iter().cloned().collect(),
    });

    let bytes = &mut BytesMut::new();
    let mut codec = FrameCodec {};
    let encoded_frame = codec.encode(create_lobby, bytes);
    assert_eq!(
        encoded_frame,
        Err(FrameError::InvalidLobbyFrameData(
            LobbyActionError::LobbyNameTooLong
        ))
    )
}

#[test]
fn frame_move_round_trip() {
    let mv = Frame::PlayerAction(PlayerAction::MovePiece {
        player: Color::B,
        from: Position { x: 1, y: 6 },
        to: Position { x: 1, y: 4 },
    });
    let bytes = &mut BytesMut::new();
    let mut codec = FrameCodec {};
    assert_eq!(Ok(()), codec.encode(mv, bytes));
    assert_eq!(&[0x01u8, 0x02, 0x16, 0x14][..], &bytes[..]);
    let decoded = codec.decode(bytes);
    assert_eq!(
        Ok(Some(Frame::PlayerAction(PlayerAction::MovePiece {
            player: Color::B,
            from: Position { x: 1, y: 6 },
            to: Position { x: 1, y: 4 },
        }))),
        decoded
    );
    assert_eq!(0, bytes.len());
}

#[test]
fn frame_decode_bad_color_byte() {
    let bytes = &mut BytesMut::new();
    let raw: &[u8] = &[0x01, 0x07, 0x11, 0x12];
    bytes.put(raw);
    let mut codec = FrameCodec {};
    let decoded = codec.decode(bytes);
    assert_eq!(
        Err(FrameError::InvalidPlayerFrameData(
            PlayerActionError::InvalidColorByte(0x07)
        )),
        decoded
    );
    assert_eq!(0, bytes.len());
}

#[test]
fn frame_decode_unknown_tag() {
    let bytes = &mut BytesMut::new();
    let raw: &[u8] = &[0x42, 0x01];
    bytes.put(raw);
    let mut codec = FrameCodec {};
    let decoded = codec.decode(bytes);
    assert_eq!(Err(FrameError::InvalidFrameType(0x42)), decoded);
    assert_eq!(1, bytes.len());
}

#[test]
fn frame_decode_bad_name_bytes() {
    let bytes = &mut BytesMut::new();
    let raw: &[u8] = &[0x10, 0x02, 0xff, 0xfe];
    bytes.put(raw);
    let mut codec = FrameCodec {};
    let decoded = codec.decode(bytes);
    assert_eq!(
        Err(FrameError::InvalidLobbyFrameData(
            LobbyActionError::LobbyNameUtf8Error
        )),
        decoded
    );
    assert_eq!(0, bytes.len());
}

#[test]
fn frame_decode_incomplete_buffers() {
    let mut codec = FrameCodec {};
    let cases: Vec<Vec<u8>> = vec![
        vec![],
        vec![0x01],
        vec![0x01, 0x01, 0x11],
        vec![0x10],
        vec![0x10, 0x03, 0x61],
    ];
    for raw in cases {
        let bytes = &mut BytesMut::new();
        bytes.put(&raw[..]);
        let before = bytes.len();
        assert_eq!(Ok(None), codec.decode(bytes));
        assert_eq!(before, bytes.len());
    }
}
