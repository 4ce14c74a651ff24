//! The raw binary encoding of a lobby message: tag byte, a 1-byte name
//! length, and the name's UTF-8 bytes.
use vstd::prelude::*;

use bytes::BytesMut;

use crate::buffer::buf_advance;
use crate::buffer::buf_byte;
use crate::buffer::buf_bytes;
use crate::buffer::buf_extend;
use crate::buffer::buf_len;
use crate::buffer::buf_split_to;
use crate::codec::bytes_to_string;

verus! {

use vstd::utf8::decode_utf8;
use vstd::utf8::encode_utf8;
use vstd::utf8::valid_utf8;

#[derive(Debug, PartialEq, Eq)]
pub enum LobbyMessage {
    CreateLobby { name: String },
}

#[derive(Debug, PartialEq, Eq)]
pub enum LobbyMessageError {
    LobbyNameTooLong,
    LobbyNameUtf8Error,
    CannotDecodeNonLobbyMessage,
}

/// The tag byte that opens a lobby-creation message.
pub const CREATE_LOBBY_TAG: u8 = 16;

/// The bytes of one encoded lobby message.
pub open spec fn spec_message_bytes(m: LobbyMessage) -> Seq<u8> {
    match m {
        LobbyMessage::CreateLobby { name } => seq![CREATE_LOBBY_TAG, encode_utf8(name@).len() as u8]
            + encode_utf8(name@),
    }
}

/// The 1-byte length prefix bounds a lobby name to 255 bytes.
pub open spec fn spec_message_encodable(m: LobbyMessage) -> bool {
    match m {
        LobbyMessage::CreateLobby { name } => encode_utf8(name@).len() <= 255,
    }
}

impl LobbyMessage {
    /// Takes one lobby message off the front of the buffer. A buffer that
    /// opens with another tag is not a lobby message and nothing is
    /// consumed; a name that is not UTF-8 consumes the whole message.
    pub fn decode(src: &mut BytesMut) -> (r: Result<Option<LobbyMessage>, LobbyMessageError>)
        ensures
            ({
                let b0 = buf_bytes(*old(src));
                let b1 = buf_bytes(*final(src));
                match r {
                    Ok(None) => (b0.len() == 0 || (b0[0] == CREATE_LOBBY_TAG && (b0.len() < 2
                        || b0.len() < b0[1] + 2))) && b1 == b0,
                    Ok(Some(m)) => b0.len() >= 2 && b0[0] == CREATE_LOBBY_TAG && b0.len() >= b0[1]
                        + 2 && valid_utf8(b0.subrange(2, 2 + b0[1])) && (m matches
                    LobbyMessage::CreateLobby { name } && name@ == decode_utf8(
                        b0.subrange(2, 2 + b0[1]),
                    )) && b1 == b0.skip(2 + b0[1]),
                    Err(e) => match e {
                        LobbyMessageError::LobbyNameUtf8Error => b0.len() >= 2 && b0[0]
                            == CREATE_LOBBY_TAG && b0.len() >= b0[1] + 2 && !valid_utf8(
                            b0.subrange(2, 2 + b0[1]),
                        ) && b1 == b0.skip(2 + b0[1]),
                        LobbyMessageError::CannotDecodeNonLobbyMessage => b0.len() >= 1 && b0[0]
                            != CREATE_LOBBY_TAG && b1 == b0,
                        LobbyMessageError::LobbyNameTooLong => false,
                    },
                }
            }),
    {
        let len0 = buf_len(src);
        if len0 == 0 {
            return Ok(None);
        }
        let tag = buf_byte(src, 0);
        if tag == CREATE_LOBBY_TAG {
            if len0 < 2 {
                return Ok(None);
            }
            let name_len = buf_byte(src, 1);
            if len0 < name_len as usize + 2 {
                return Ok(None);
            }
            let ghost b0 = buf_bytes(*src);
            buf_advance(src, 2);
            let name_bytes = buf_split_to(src, name_len as usize);
            proof {
                assert(name_bytes@ =~= b0.subrange(2, 2 + name_len));
                assert(buf_bytes(*src) =~= b0.skip(2 + name_len));
            }
            match bytes_to_string(name_bytes) {
                Some(name) => Ok(Some(LobbyMessage::CreateLobby { name })),
                None => Err(LobbyMessageError::LobbyNameUtf8Error),
            }
        } else {
            Err(LobbyMessageError::CannotDecodeNonLobbyMessage)
        }
    }

    /// Appends the encoding of `item` to `dst`; a name longer than 255
    /// bytes is refused with nothing written.
    pub fn encode(item: LobbyMessage, dst: &mut BytesMut) -> (r: Result<(), LobbyMessageError>)
        ensures
            spec_message_encodable(item) ==> r == Ok::<(), LobbyMessageError>(()) && buf_bytes(
                *final(dst),
            ) == buf_bytes(*old(dst)) + spec_message_bytes(item),
            !spec_message_encodable(item) ==> r == Err::<(), LobbyMessageError>(
                LobbyMessageError::LobbyNameTooLong,
            ) && buf_bytes(*final(dst)) == buf_bytes(*old(dst)),
    {
        match item {
            LobbyMessage::CreateLobby { name } => {
                let bs = name.as_str().as_bytes();
                if bs.len() > 255 {
                    return Err(LobbyMessageError::LobbyNameTooLong);
                }
                let mut frame: Vec<u8> = Vec::new();
                frame.push(CREATE_LOBBY_TAG);
                frame.push(bs.len() as u8);
                let mut j: usize = 0;
                while j < bs.len()
                    invariant
                        j <= bs@.len() <= 255,
                        bs@ == encode_utf8(name@),
                        frame@ == seq![CREATE_LOBBY_TAG, bs@.len() as u8] + bs@.take(j as int),
                    decreases bs@.len() - j,
                {
                    frame.push(bs[j]);
                    proof {
                        assert(frame@ =~= seq![CREATE_LOBBY_TAG, bs@.len() as u8] + bs@.take(j + 1));
                    }
                    j = j + 1;
                }
                buf_extend(dst, frame.as_slice());
                proof {
                    assert(frame@ =~= spec_message_bytes(item));
                }
                Ok(())
            },
        }
    }
}

} // verus!
