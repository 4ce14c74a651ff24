//! An earlier, raw binary frame encoding: one tag byte, then fixed fields.
//! A move travels as four bytes (tag, color, packed from, packed to); a
//! lobby creation as a tag, a 1-byte name length and the name's UTF-8 bytes.
use vstd::prelude::*;

use bytes::BytesMut;

use crate::buffer::buf_advance;
use crate::buffer::buf_byte;
use crate::buffer::buf_bytes;
use crate::buffer::buf_extend;
use crate::buffer::buf_len;
use crate::buffer::buf_split_to;
use crate::codec::bytes_to_string;
use crate::codec::color_byte;
use crate::game::Color;
use crate::game::Position;

verus! {

use vstd::utf8::decode_utf8;
use vstd::utf8::encode_utf8;
use vstd::utf8::valid_utf8;

#[derive(Debug, PartialEq, Eq, Copy, Clone)]
pub enum PlayerAction {
    MovePiece { player: Color, from: Position, to: Position },
}

#[derive(Debug, PartialEq, Eq)]
pub enum PlayerActionError {
    InvalidColorByte(u8),
}

#[derive(Debug, PartialEq, Eq)]
pub enum LobbyAction {
    CreateLobby { name: String },
}

#[derive(Debug, PartialEq, Eq)]
pub enum LobbyActionError {
    LobbyNameTooLong,
    LobbyNameUtf8Error,
}

#[derive(Debug, PartialEq, Eq)]
pub enum FrameError {
    InvalidFrameType(u8),
    InvalidPlayerFrameData(PlayerActionError),
    InvalidLobbyFrameData(LobbyActionError),
    Incomplete,
}

#[derive(Debug, PartialEq, Eq)]
pub enum Frame {
    PlayerAction(PlayerAction),
    Lobby(LobbyAction),
}

pub struct FrameCodec {}

/// The tag byte that opens a move frame.
pub const MOVE_FRAME_TAG: u8 = 1;

/// The tag byte that opens a lobby-creation frame.
pub const LOBBY_FRAME_TAG: u8 = 16;

/// The position packed into one byte: x in the high nibble, y in the low.
pub open spec fn spec_unpack_position(b: u8) -> Position {
    Position { x: b >> 4, y: b & 0x0F }
}

/// One byte holding a position: x in the high nibble, y in the low.
pub open spec fn spec_position_byte(p: Position) -> u8 {
    (p.x << 4) | p.y
}

pub fn position_to_byte(p: &Position) -> (r: u8)
    ensures
        r == spec_position_byte(*p),
{
    (p.x << 4) | p.y
}

/// The move frame built from a color and the two packed position bytes.
pub open spec fn spec_move_frame(color: Color, from: u8, to: u8) -> Frame {
    Frame::PlayerAction(
        PlayerAction::MovePiece {
            player: color,
            from: spec_unpack_position(from),
            to: spec_unpack_position(to),
        },
    )
}

pub fn make_move_frame(color: Color, from: u8, to: u8) -> (r: Frame)
    ensures
        r == spec_move_frame(color, from, to),
{
    let from_x: u8 = from >> 4;
    let from_y: u8 = from & 0x0F;
    let to_x: u8 = to >> 4;
    let to_y: u8 = to & 0x0F;
    Frame::PlayerAction(
        PlayerAction::MovePiece {
            player: color,
            from: Position { x: from_x, y: from_y },
            to: Position { x: to_x, y: to_y },
        },
    )
}

/// Not enough bytes yet to decode the frame at the head of the buffer.
pub open spec fn frame_incomplete(b: Seq<u8>) -> bool {
    b.len() == 0 || (b[0] == MOVE_FRAME_TAG && b.len() < 4) || (b[0] == LOBBY_FRAME_TAG && (
    b.len() < 2 || b.len() < b[1] + 2))
}

/// The bytes of one encoded frame.
pub open spec fn spec_frame_bytes(f: Frame) -> Seq<u8> {
    match f {
        Frame::PlayerAction(PlayerAction::MovePiece { player, from, to }) => seq![
            MOVE_FRAME_TAG,
            color_byte(player),
            spec_position_byte(from),
            spec_position_byte(to),
        ],
        Frame::Lobby(LobbyAction::CreateLobby { name }) => seq![
            LOBBY_FRAME_TAG,
            encode_utf8(name@).len() as u8,
        ] + encode_utf8(name@),
    }
}

/// The 1-byte length prefix bounds a lobby name to 255 bytes.
pub open spec fn spec_frame_encodable(f: Frame) -> bool {
    match f {
        Frame::PlayerAction(_) => true,
        Frame::Lobby(LobbyAction::CreateLobby { name }) => encode_utf8(name@).len() <= 255,
    }
}

impl FrameCodec {
    /// Takes one frame off the front of the buffer, if enough bytes are
    /// there. A recognized frame is consumed even when its data is bad; an
    /// unknown tag consumes one byte.
    pub fn decode(&mut self, src: &mut BytesMut) -> (r: Result<Option<Frame>, FrameError>)
        ensures
            ({
                let b0 = buf_bytes(*old(src));
                let b1 = buf_bytes(*final(src));
                match r {
                    Ok(None) => frame_incomplete(b0) && b1 == b0,
                    Ok(Some(f)) => (b0.len() >= 4 && b0[0] == MOVE_FRAME_TAG && (b0[1] == 1 || b0[1]
                        == 2) && f == spec_move_frame(
                        if b0[1] == 1 {
                            Color::W
                        } else {
                            Color::B
                        },
                        b0[2],
                        b0[3],
                    ) && b1 == b0.skip(4)) || (b0.len() >= 2 && b0[0] == LOBBY_FRAME_TAG && b0.len()
                        >= b0[1] + 2 && valid_utf8(b0.subrange(2, 2 + b0[1])) && (f matches
                    Frame::Lobby(LobbyAction::CreateLobby { name }) && name@ == decode_utf8(
                        b0.subrange(2, 2 + b0[1]),
                    )) && b1 == b0.skip(2 + b0[1])),
                    Err(e) => match e {
                        FrameError::InvalidFrameType(t) => b0.len() >= 1 && b0[0] != MOVE_FRAME_TAG
                            && b0[0] != LOBBY_FRAME_TAG && t == b0[0] && b1 == b0.skip(1),
                        FrameError::InvalidPlayerFrameData(pe) => b0.len() >= 4 && b0[0]
                            == MOVE_FRAME_TAG && b0[1] != 1 && b0[1] != 2 && pe
                            == PlayerActionError::InvalidColorByte(b0[1]) && b1 == b0.skip(4),
                        FrameError::InvalidLobbyFrameData(le) => le
                            == LobbyActionError::LobbyNameUtf8Error && b0.len() >= 2 && b0[0]
                            == LOBBY_FRAME_TAG && b0.len() >= b0[1] + 2 && !valid_utf8(
                            b0.subrange(2, 2 + b0[1]),
                        ) && b1 == b0.skip(2 + b0[1]),
                        FrameError::Incomplete => false,
                    },
                }
            }),
    {
        let len0 = buf_len(src);
        if len0 == 0 {
            return Ok(None);
        }
        let tag = buf_byte(src, 0);
        if tag == MOVE_FRAME_TAG {
            if len0 < 4 {
                return Ok(None);
            }
            let color_b = buf_byte(src, 1);
            let from_b = buf_byte(src, 2);
            let to_b = buf_byte(src, 3);
            buf_advance(src, 4);
            if color_b == 1 {
                Ok(Some(make_move_frame(Color::W, from_b, to_b)))
            } else if color_b == 2 {
                Ok(Some(make_move_frame(Color::B, from_b, to_b)))
            } else {
                Err(FrameError::InvalidPlayerFrameData(PlayerActionError::InvalidColorByte(
                    color_b,
                )))
            }
        } else if tag == LOBBY_FRAME_TAG {
            if len0 < 2 {
                return Ok(None);
            }
            let name_len = buf_byte(src, 1);
            if len0 < name_len as usize + 2 {
                return Ok(None);
            }
            let ghost b0 = buf_bytes(*src);
            buf_advance(src, 2);
            let name_bytes = buf_split_to(src, name_len as usize);
            proof {
                assert(name_bytes@ =~= b0.subrange(2, 2 + name_len));
                assert(buf_bytes(*src) =~= b0.skip(2 + name_len));
            }
            match bytes_to_string(name_bytes) {
                Some(name) => Ok(Some(Frame::Lobby(LobbyAction::CreateLobby { name }))),
                None => Err(FrameError::InvalidLobbyFrameData(LobbyActionError::LobbyNameUtf8Error)),
            }
        } else {
            buf_advance(src, 1);
            Err(FrameError::InvalidFrameType(tag))
        }
    }

    /// Appends the encoding of `item` to `dst`; a lobby name longer than
    /// 255 bytes is refused with nothing written.
    pub fn encode(&mut self, item: Frame, dst: &mut BytesMut) -> (r: Result<(), FrameError>)
        ensures
            spec_frame_encodable(item) ==> r == Ok::<(), FrameError>(()) && buf_bytes(*final(dst))
                == buf_bytes(*old(dst)) + spec_frame_bytes(item),
            !spec_frame_encodable(item) ==> r == Err::<(), FrameError>(
                FrameError::InvalidLobbyFrameData(LobbyActionError::LobbyNameTooLong),
            ) && buf_bytes(*final(dst)) == buf_bytes(*old(dst)),
    {
        match item {
            Frame::PlayerAction(a) => match a {
                PlayerAction::MovePiece { player, from, to } => {
                    let color_b: u8 = match player {
                        Color::W => 1,
                        Color::B => 2,
                    };
                    let mut frame: Vec<u8> = Vec::new();
                    frame.push(MOVE_FRAME_TAG);
                    frame.push(color_b);
                    frame.push(position_to_byte(&from));
                    frame.push(position_to_byte(&to));
                    buf_extend(dst, frame.as_slice());
                    proof {
                        assert(frame@ =~= spec_frame_bytes(item));
                    }
                    Ok(())
                },
            },
            Frame::Lobby(a) => match a {
                LobbyAction::CreateLobby { name } => {
                    let bs = name.as_str().as_bytes();
                    if bs.len() > 255 {
                        return Err(FrameError::InvalidLobbyFrameData(
                            LobbyActionError::LobbyNameTooLong,
                        ));
                    }
                    let mut frame: Vec<u8> = Vec::new();
                    frame.push(LOBBY_FRAME_TAG);
                    frame.push(bs.len() as u8);
                    let mut j: usize = 0;
                    while j < bs.len()
                        invariant
                            j <= bs@.len() <= 255,
                            bs@ == encode_utf8(name@),
                            frame@ == seq![LOBBY_FRAME_TAG, bs@.len() as u8] + bs@.take(j as int),
                        decreases bs@.len() - j,
                    {
                        frame.push(bs[j]);
                        proof {
                            assert(frame@ =~= seq![LOBBY_FRAME_TAG, bs@.len() as u8] + bs@.take(
                                j + 1,
                            ));
                        }
                        j = j + 1;
                    }
                    buf_extend(dst, frame.as_slice());
                    proof {
                        assert(frame@ =~= spec_frame_bytes(item));
                    }
                    Ok(())
                },
            },
        }
    }
}

} // verus!
