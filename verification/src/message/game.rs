//! The raw binary encoding of a game message: tag byte, color byte, and
//! the two positions packed one byte each.
use vstd::prelude::*;

use bytes::BytesMut;

use crate::buffer::buf_advance;
use crate::buffer::buf_byte;
use crate::buffer::buf_bytes;
use crate::buffer::buf_extend;
use crate::buffer::buf_len;
use crate::codec::color_byte;
use crate::game::Color;
use crate::game::Position;

verus! {

#[derive(Debug, PartialEq, Eq, Copy, Clone)]
pub enum GameMessage {
    MovePiece { player: Color, from: Position, to: Position },
}

#[derive(Debug, PartialEq, Eq)]
pub enum GameMessageError {
    InvalidColorByte(u8),
    CannotDecodeNonGameMessage,
}

/// The tag byte that opens a move message.
pub const MOVE_MESSAGE_TAG: u8 = 1;

/// The position packed into one byte: x in the high nibble, y in the low.
pub open spec fn spec_unpack_position(b: u8) -> Position {
    Position { x: b >> 4, y: b & 0x0F }
}

/// One byte holding a position: x in the high nibble, y in the low.
pub open spec fn spec_position_byte(p: Position) -> u8 {
    (p.x << 4) | p.y
}

pub fn position_to_byte(p: &Position) -> (r: u8)
    ensures
        r == spec_position_byte(*p),
{
    (p.x << 4) | p.y
}

/// The move message built from a color and the two packed position bytes.
pub open spec fn spec_move_message(color: Color, from: u8, to: u8) -> GameMessage {
    GameMessage::MovePiece {
        player: color,
        from: spec_unpack_position(from),
        to: spec_unpack_position(to),
    }
}

pub fn make_move_frame(color: Color, from: u8, to: u8) -> (r: GameMessage)
    ensures
        r == spec_move_message(color, from, to),
{
    let from_x: u8 = from >> 4;
    let from_y: u8 = from & 0x0F;
    let to_x: u8 = to >> 4;
    let to_y: u8 = to & 0x0F;
    GameMessage::MovePiece {
        player: color,
        from: Position { x: from_x, y: from_y },
        to: Position { x: to_x, y: to_y },
    }
}

/// The four bytes of one encoded move message.
pub open spec fn spec_message_bytes(m: GameMessage) -> Seq<u8> {
    match m {
        GameMessage::MovePiece { player, from, to } => seq![
            MOVE_MESSAGE_TAG,
            color_byte(player),
            spec_position_byte(from),
            spec_position_byte(to),
        ],
    }
}

impl GameMessage {
    /// Takes one move message off the front of the buffer. A buffer that
    /// opens with another tag is not a game message and nothing is
    /// consumed; a bad color byte consumes the whole 4-byte message.
    pub fn decode(src: &mut BytesMut) -> (r: Result<Option<GameMessage>, GameMessageError>)
        ensures
            ({
                let b0 = buf_bytes(*old(src));
                let b1 = buf_bytes(*final(src));
                match r {
                    Ok(None) => (b0.len() == 0 || (b0[0] == MOVE_MESSAGE_TAG && b0.len() < 4)) && b1
                        == b0,
                    Ok(Some(m)) => b0.len() >= 4 && b0[0] == MOVE_MESSAGE_TAG && (b0[1] == 1 || b0[1]
                        == 2) && m == spec_move_message(
                        if b0[1] == 1 {
                            Color::W
                        } else {
                            Color::B
                        },
                        b0[2],
                        b0[3],
                    ) && b1 == b0.skip(4),
                    Err(e) => match e {
                        GameMessageError::InvalidColorByte(cb) => b0.len() >= 4 && b0[0]
                            == MOVE_MESSAGE_TAG && cb == b0[1] && cb != 1 && cb != 2 && b1
                            == b0.skip(4),
                        GameMessageError::CannotDecodeNonGameMessage => b0.len() >= 1 && b0[0]
                            != MOVE_MESSAGE_TAG && b1 == b0,
                    },
                }
            }),
    {
        let len0 = buf_len(src);
        if len0 == 0 {
            return Ok(None);
        }
        let tag = buf_byte(src, 0);
        if tag == MOVE_MESSAGE_TAG {
            if len0 < 4 {
                return Ok(None);
            }
            let color_b = buf_byte(src, 1);
            let from_b = buf_byte(src, 2);
            let to_b = buf_byte(src, 3);
            buf_advance(src, 4);
            if color_b == 1 {
                Ok(Some(make_move_frame(Color::W, from_b, to_b)))
            } else if color_b == 2 {
                Ok(Some(make_move_frame(Color::B, from_b, to_b)))
            } else {
                Err(GameMessageError::InvalidColorByte(color_b))
            }
        } else {
            Err(GameMessageError::CannotDecodeNonGameMessage)
        }
    }

    /// Appends the four bytes of `item` to `dst`.
    pub fn encode(item: GameMessage, dst: &mut BytesMut) -> (r: Result<(), GameMessageError>)
        ensures
            r == Ok::<(), GameMessageError>(()),
            buf_bytes(*final(dst)) == buf_bytes(*old(dst)) + spec_message_bytes(item),
    {
        match item {
            GameMessage::MovePiece { player, from, to } => {
                let color_b: u8 = match player {
                    Color::W => 1,
                    Color::B => 2,
                };
                let mut frame: Vec<u8> = Vec::new();
                frame.push(MOVE_MESSAGE_TAG);
                frame.push(color_b);
                frame.push(position_to_byte(&from));
                frame.push(position_to_byte(&to));
                buf_extend(dst, frame.as_slice());
                proof {
                    assert(frame@ =~= spec_message_bytes(item));
                }
                Ok(())
            },
        }
    }
}

} // verus!
