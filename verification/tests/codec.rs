use bytes::BufMut;
use bytes::BytesMut;

use multi_chess::codec::encode_netstring;
use multi_chess::codec::netstring_parser;
use multi_chess::codec::CodecError;
use multi_chess::codec::MessageCodec;
use multi_chess::game::Color;
use multi_chess::game::Position;
use multi_chess::messages::NetworkMessage;

#[test]
fn test_netstring_parser() -> Result<(), CodecError> {
    let ns: &[u8] = &[
        0x00, 0x0c, 0x3a, 0x68, 0x65, 0x6c, 0x6c, 0x6f, 0x20, 0x77, 0x6f, 0x72, 0x6c, 0x64, 0x21,
        0x2c,
    ];
    let bytes = &mut BytesMut::with_capacity(16);
    bytes.put(ns);

    let result = netstring_parser(bytes)?;

    let expected: Vec<u8> = vec![
        0x68, 0x65, 0x6c, 0x6c, 0x6f, 0x20, 0x77, 0x6f, 0x72, 0x6c, 0x64, 0x21,
    ];
    assert_eq!(Some(expected), result);
    Ok(())
}

#[test]
fn test_encode_netstring() {
    let item = vec![
        0x68, 0x65, 0x6c, 0x6c, 0x6f, 0x20, 0x77, 0x6f, 0x72, 0x6c, 0x64, 0x21,
    ];
    let dst = &mut BytesMut::with_capacity(16);
    encode_netstring(&item, dst).unwrap();

    let ns: &[u8] = &[
        0x00, 0x0c, 0x3a, 0x68, 0x65, 0x6c, 0x6c, 0x6f, 0x20, 0x77, 0x6f, 0x72, 0x6c, 0x64, 0x21,
        0x2c,
    ];
    let bytes = &mut BytesMut::with_capacity(16);
    bytes.put(ns);

    assert_eq!(bytes, dst);
}

#[test]
fn test_netstring_round_trip_various_payloads() {
    let payloads: Vec<Vec<u8>> = vec![
        vec![],
        vec![0x00],
        vec![0xff; 300],
        (0u16..1000).map(|i| (i % 256) as u8).collect(),
    ];
    for item in payloads {
        let dst = &mut BytesMut::new();
        encode_netstring(&item, dst).unwrap();
        let decoded = netstring_parser(dst).unwrap();
        assert_eq!(Some(item), decoded);
        assert_eq!(0, dst.len());
    }
}

#[test]
fn test_netstring_parser_missing_trailing_bytes() {
    // a valid frame with k >= 1 trailing bytes missing: need more data,
    // nothing consumed
    let item: Vec<u8> = vec![1, 2, 3, 4, 5];
    for k in 1..=9 {
        let dst = &mut BytesMut::new();
        encode_netstring(&item, dst).unwrap();
        dst.truncate(dst.len() - k);
        let before = dst.len();
        let decoded = netstring_parser(dst).unwrap();
        assert_eq!(None, decoded);
        assert_eq!(before, dst.len());
    }
}

#[test]
fn test_netstring_parser_bad_header() {
    let dst = &mut BytesMut::new();
    let bad: &[u8] = &[0x00, 0x01, 0x3b, 0x41, 0x2c];
    dst.put(bad);
    let result = netstring_parser(dst);
    assert_eq!(Err(CodecError::NetstringParseError), result);
    assert_eq!(5, dst.len());
}

#[test]
fn test_netstring_parser_bad_trailer() {
    let dst = &mut BytesMut::new();
    let bad: &[u8] = &[0x00, 0x01, 0x3a, 0x41, 0x2e];
    dst.put(bad);
    let result = netstring_parser(dst);
    assert_eq!(Err(CodecError::NetstringParseError), result);
    assert_eq!(5, dst.len());
}

#[test]
fn test_encode_decode() -> Result<(), CodecError> {
    let mut codec = MessageCodec {};
    let encoded = &mut BytesMut::with_capacity(0);
    codec.encode(NetworkMessage::CreateLobby { name: "Foo".into() }, encoded)?;

    let decoded = codec.decode(encoded)?;
    assert_eq!(
        Some(NetworkMessage::CreateLobby { name: "Foo".into() }),
        decoded
    );
    assert_eq!(0, encoded.len());

    Ok(())
}

#[test]
fn test_decode_empty() -> Result<(), CodecError> {
    let mut codec = MessageCodec {};
    let encoded = &mut BytesMut::with_capacity(0);

    let decoded = codec.decode(encoded)?;
    assert_eq!(None, decoded);
    assert_eq!(0, encoded.len());

    Ok(())
}

#[test]
fn test_decode_partial() -> Result<(), CodecError> {
    let mut codec = MessageCodec {};
    let encoded = &mut BytesMut::new();
    codec.encode(NetworkMessage::CreateLobby { name: "Foo".into() }, encoded)?;

    encoded.truncate(encoded.len() - 3);
    let prev_len = encoded.len();

    let decoded = codec.decode(encoded)?;

    assert_eq!(prev_len, encoded.len());
    assert_eq!(None, decoded);

    Ok(())
}

#[test]
fn test_decode_whole_and_partial() -> Result<(), CodecError> {
    let mut codec = MessageCodec {};
    let encoded = &mut BytesMut::new();
    codec.encode(NetworkMessage::CreateLobby { name: "Foo".into() }, encoded)?;
    let first_msg_len = encoded.len();
    codec.encode(NetworkMessage::CreateLobby { name: "Bar".into() }, encoded)?;

    encoded.truncate(encoded.len() - 3);
    let prev_len = encoded.len();

    let decoded = codec.decode(encoded)?;

    assert_eq!(prev_len - first_msg_len, encoded.len());
    assert_eq!(
        Some(NetworkMessage::CreateLobby { name: "Foo".into() }),
        decoded
    );

    Ok(())
}

#[test]
fn test_all_message_kinds_round_trip() -> Result<(), CodecError> {
    let messages = vec![
        NetworkMessage::SetUsername { name: "alice".into() },
        NetworkMessage::CreateLobby { name: "".into() },
        NetworkMessage::JoinLobby { name: "Überraum".into() },
        NetworkMessage::ListLobbiesRequest,
        NetworkMessage::ListLobbiesResponse { lobbies: vec![] },
        NetworkMessage::ListLobbiesResponse {
            lobbies: vec!["a".into(), "room two".into(), "".into()],
        },
        NetworkMessage::MovePiece {
            player: Color::W,
            from: Position { x: 1, y: 6 },
            to: Position { x: 1, y: 5 },
        },
        NetworkMessage::MovePiece {
            player: Color::B,
            from: Position { x: 255, y: 0 },
            to: Position { x: 7, y: 7 },
        },
        NetworkMessage::ServerError("boom".into()),
    ];
    for message in messages {
        let mut codec = MessageCodec {};
        let encoded = &mut BytesMut::new();
        let expected = format!("{:?}", message);
        codec.encode(message, encoded)?;
        let decoded = codec.decode(encoded)?;
        assert_eq!(expected, format!("{:?}", decoded.unwrap()));
        assert_eq!(0, encoded.len());
    }
    Ok(())
}

#[test]
fn test_decode_bad_payload_consumes_frame() {
    let mut codec = MessageCodec {};
    let encoded = &mut BytesMut::new();
    // a well-formed frame whose payload is no message: unknown tag 99
    let raw: &[u8] = &[0x00, 0x01, 0x3a, 99, 0x2c];
    encoded.put(raw);
    let result = codec.decode(encoded);
    assert_eq!(Err(CodecError::MsgPackDeserializationError), result);
    assert_eq!(0, encoded.len());
}

#[test]
fn test_encode_too_large_message_is_refused() {
    let mut codec = MessageCodec {};
    let encoded = &mut BytesMut::new();
    let name: String = "a".repeat(70_000);
    let result = codec.encode(NetworkMessage::CreateLobby { name: name.clone() }, encoded);
    assert_eq!(
        Err(CodecError::MsgPackSerializationError(
            NetworkMessage::CreateLobby { name }
        )),
        result
    );
    assert_eq!(0, encoded.len());
}
