//! The wire codec: a netstring-style envelope around a tagged payload
//! encoding of `NetworkMessage`.
//!
//! A frame is: a 2-byte big-endian payload length `L`, the byte `:`,
//! exactly `L` payload bytes, and the byte `,`. The reader can therefore
//! tell from the first 3 bytes how many more it must buffer before it
//! attempts to decode, which is what makes partial reads cheap to handle.
use vstd::prelude::*;

use bytes::BytesMut;

use crate::buffer::buf_advance;
use crate::buffer::buf_byte;
use crate::buffer::buf_bytes;
use crate::buffer::buf_extend;
use crate::buffer::buf_len;
use crate::buffer::buf_split_to;
use crate::game::Color;
use crate::messages::NetworkMessage;

verus! {

use vstd::utf8::decode_utf8;
use vstd::utf8::decode_utf8_encode_utf8;
use vstd::utf8::encode_utf8;
use vstd::utf8::encode_utf8_valid_utf8;
use vstd::utf8::valid_utf8;

#[derive(Debug, PartialEq, Eq)]
pub enum CodecError {
    NetstringParseError,
    MsgPackDeserializationError,
    MsgPackSerializationError(NetworkMessage),
}

pub struct MessageCodec;

/// The colon that ends the length header.
pub const HEADER_MARK: u8 = 58;

/// The comma that ends a frame.
pub const TRAILER_MARK: u8 = 44;

/// The value of a 2-byte big-endian length header.
pub open spec fn u16_val(p: Seq<u8>) -> int
    recommends
        p.len() >= 2,
{
    p[0] * 256 + p[1]
}

/// The 2-byte big-endian encoding of `n`.
pub open spec fn u16_be(n: int) -> Seq<u8> {
    seq![(n / 256 % 256) as u8, (n % 256) as u8]
}

pub proof fn lemma_u16_be_val(n: int)
    requires
        0 <= n <= 65535,
    ensures
        u16_val(u16_be(n)) == n,
{
    assert(n / 256 <= 255) by (nonlinear_arith)
        requires 0 <= n <= 65535;
    assert(n / 256 * 256 + n % 256 == n) by (nonlinear_arith)
        requires n >= 0;
}

pub proof fn lemma_u16_val_be(a: u8, b: u8)
    ensures
        u16_be(a * 256 + b) =~= seq![a, b],
{
    assert((a * 256 + b) / 256 == a as int && (a * 256 + b) % 256 == b as int)
        by (nonlinear_arith)
        requires a <= 255 && b <= 255;
}

/// The full frame that carries payload `p`.
pub open spec fn netstring_frame(p: Seq<u8>) -> Seq<u8>
    recommends
        p.len() <= 65535,
{
    u16_be(p.len() as int) + seq![HEADER_MARK] + p + seq![TRAILER_MARK]
}

/// The payload length a buffer declares in its header.
pub open spec fn ns_len(buf: Seq<u8>) -> int
    recommends
        buf.len() >= 2,
{
    u16_val(buf)
}

/// The buffer is a prefix of some frame: more bytes must arrive before
/// anything can be decoded.
pub open spec fn ns_incomplete(buf: Seq<u8>) -> bool {
    buf.len() < 3 || (buf[2] == HEADER_MARK && buf.len() < ns_len(buf) + 4)
}

/// The buffer starts with one whole well-formed frame.
pub open spec fn ns_complete(buf: Seq<u8>) -> bool {
    buf.len() >= 3 && buf[2] == HEADER_MARK && buf.len() >= ns_len(buf) + 4 && buf[ns_len(buf)
        + 3] == TRAILER_MARK
}

/// Enough bytes are there to decide, and the delimiters do not match the
/// grammar: the stream cannot be trusted past this point.
pub open spec fn ns_malformed(buf: Seq<u8>) -> bool {
    buf.len() >= 3 && (buf[2] != HEADER_MARK || (buf.len() >= ns_len(buf) + 4 && buf[ns_len(buf)
        + 3] != TRAILER_MARK))
}

/// Every buffer is in exactly one of the three framing states.
pub proof fn lemma_ns_cases(buf: Seq<u8>)
    ensures
        ns_incomplete(buf) || ns_complete(buf) || ns_malformed(buf),
        !(ns_incomplete(buf) && ns_complete(buf)),
        !(ns_incomplete(buf) && ns_malformed(buf)),
        !(ns_complete(buf) && ns_malformed(buf)),
{
}

/// The payload of the frame at the head of the buffer.
pub open spec fn ns_payload(buf: Seq<u8>) -> Seq<u8>
    recommends
        ns_complete(buf),
{
    buf.subrange(3, 3 + ns_len(buf))
}

/// How many bytes the frame at the head of the buffer occupies.
pub open spec fn ns_consumed(buf: Seq<u8>) -> int
    recommends
        ns_complete(buf),
{
    ns_len(buf) + 4
}

/// Tries to take one frame off the front of the buffer.
///
/// Consumes nothing unless a whole well-formed frame is present; then it
/// consumes exactly that frame and returns its payload.
pub fn netstring_parser(i: &mut BytesMut) -> (r: Result<Option<Vec<u8>>, CodecError>)
    ensures
        ({
            let b0 = buf_bytes(*old(i));
            match r {
                Ok(None) => ns_incomplete(b0) && buf_bytes(*final(i)) == b0,
                Ok(Some(v)) => ns_complete(b0) && v@ == ns_payload(b0) && buf_bytes(*final(i))
                    == b0.skip(ns_consumed(b0)),
                Err(e) => e == CodecError::NetstringParseError && ns_malformed(b0) && buf_bytes(
                    *final(i),
                ) == b0,
            }
        }),
{
    let len0 = buf_len(i);
    if len0 < 3 {
        return Ok(None);
    }
    let hi = buf_byte(i, 0);
    let lo = buf_byte(i, 1);
    let declared: usize = (hi as usize) * 256 + (lo as usize);
    if buf_byte(i, 2) != HEADER_MARK {
        return Err(CodecError::NetstringParseError);
    }
    if len0 < declared + 4 {
        return Ok(None);
    }
    if buf_byte(i, declared + 3) != TRAILER_MARK {
        return Err(CodecError::NetstringParseError);
    }
    let ghost b0 = buf_bytes(*i);
    buf_advance(i, 3);
    let payload = buf_split_to(i, declared);
    buf_advance(i, 1);
    proof {
        assert(payload@ =~= ns_payload(b0));
        assert(buf_bytes(*i) =~= b0.skip(ns_consumed(b0)));
    }
    Ok(Some(payload))
}

/// Appends the frame that carries `item` to `dst`.
///
/// The payload must fit the 2-byte length header; `MessageCodec::encode`
/// guarantees that before calling.
pub fn encode_netstring(item: &Vec<u8>, dst: &mut BytesMut) -> (r: Result<(), CodecError>)
    requires
        item@.len() <= 65535,
    ensures
        r == Ok::<(), CodecError>(()),
        buf_bytes(*final(dst)) == buf_bytes(*old(dst)) + netstring_frame(item@),
{
    let l = item.len();
    let mut frame: Vec<u8> = Vec::new();
    proof {
        assert(l / 256 <= 255) by (nonlinear_arith)
            requires l <= 65535;
    }
    frame.push((l / 256) as u8);
    frame.push((l % 256) as u8);
    frame.push(HEADER_MARK);
    let mut j: usize = 0;
    while j < item.len()
        invariant
            j <= item@.len(),
            item@.len() == l,
            l <= 65535,
            frame@ == u16_be(l as int) + seq![HEADER_MARK] + item@.take(j as int),
        decreases item@.len() - j,
    {
        frame.push(item[j]);
        proof {
            assert(frame@ =~= u16_be(l as int) + seq![HEADER_MARK] + item@.take(j + 1));
        }
        j = j + 1;
    }
    frame.push(TRAILER_MARK);
    buf_extend(dst, frame.as_slice());
    proof {
        assert(frame@ =~= netstring_frame(item@));
    }
    Ok(())
}

// ---------------------------------------------------------------------------
// Payload encoding: a tag byte, then the variant's fields. Strings travel as
// a 2-byte big-endian byte count followed by their UTF-8 bytes.
// ---------------------------------------------------------------------------

pub const TAG_SET_USERNAME: u8 = 1;

pub const TAG_CREATE_LOBBY: u8 = 2;

pub const TAG_JOIN_LOBBY: u8 = 3;

pub const TAG_LIST_LOBBIES_REQUEST: u8 = 4;

pub const TAG_LIST_LOBBIES_RESPONSE: u8 = 5;

pub const TAG_MOVE_PIECE: u8 = 6;

pub const TAG_SERVER_ERROR: u8 = 7;

/// The wire byte for a color.
pub open spec fn color_byte(c: Color) -> u8 {
    match c {
        Color::W => 1,
        Color::B => 2,
    }
}

/// The length-prefixed encoding of one string.
pub open spec fn spec_string_block(s: Seq<char>) -> Seq<u8> {
    u16_be(encode_utf8(s).len() as int) + encode_utf8(s)
}

/// The concatenated encodings of a list of strings.
pub open spec fn spec_lobbies_blocks(l: Seq<Seq<char>>) -> Seq<u8>
    decreases l.len(),
{
    if l.len() == 0 {
        Seq::empty()
    } else {
        spec_string_block(l[0]) + spec_lobbies_blocks(l.drop_first())
    }
}

/// The payload bytes that carry a message.
pub open spec fn spec_payload(m: NetworkMessage) -> Seq<u8> {
    match m {
        NetworkMessage::SetUsername { name } => seq![TAG_SET_USERNAME] + spec_string_block(name@),
        NetworkMessage::CreateLobby { name } => seq![TAG_CREATE_LOBBY] + spec_string_block(name@),
        NetworkMessage::JoinLobby { name } => seq![TAG_JOIN_LOBBY] + spec_string_block(name@),
        NetworkMessage::ListLobbiesRequest => seq![TAG_LIST_LOBBIES_REQUEST],
        NetworkMessage::ListLobbiesResponse { lobbies } => seq![TAG_LIST_LOBBIES_RESPONSE] + u16_be(
            lobbies@.len() as int,
        ) + spec_lobbies_blocks(lobbies.deep_view()),
        NetworkMessage::MovePiece { player, from, to } => seq![
            TAG_MOVE_PIECE,
            color_byte(player),
            from.x,
            from.y,
            to.x,
            to.y,
        ],
        NetworkMessage::ServerError(text) => seq![TAG_SERVER_ERROR] + spec_string_block(text@),
    }
}

/// Every string of the message fits the 2-byte length prefix.
pub open spec fn strings_fit(m: NetworkMessage) -> bool {
    match m {
        NetworkMessage::SetUsername { name } => encode_utf8(name@).len() <= 65535,
        NetworkMessage::CreateLobby { name } => encode_utf8(name@).len() <= 65535,
        NetworkMessage::JoinLobby { name } => encode_utf8(name@).len() <= 65535,
        NetworkMessage::ListLobbiesRequest => true,
        NetworkMessage::ListLobbiesResponse { lobbies } => lobbies@.len() <= 65535 && (forall|
            i: int,
        |
            0 <= i < lobbies@.len() ==> #[trigger] encode_utf8(lobbies@[i]@).len() <= 65535),
        NetworkMessage::MovePiece { .. } => true,
        NetworkMessage::ServerError(text) => encode_utf8(text@).len() <= 65535,
    }
}

/// The message can be serialized and framed: its strings fit their length
/// prefixes and the whole payload fits the frame's length header.
pub open spec fn spec_encodable(m: NetworkMessage) -> bool {
    strings_fit(m) && spec_payload(m).len() <= 65535
}

/// A length-prefixed string block starts at the head of `p`.
pub open spec fn head_block_ok(p: Seq<u8>) -> bool {
    p.len() >= 2 && p.len() >= 2 + u16_val(p) && valid_utf8(p.subrange(2, 2 + u16_val(p)))
}

/// The bytes the head block occupies.
pub open spec fn head_block_size(p: Seq<u8>) -> int
    recommends
        p.len() >= 2,
{
    2 + u16_val(p)
}

/// `p` is exactly `n` string blocks, nothing more.
pub open spec fn valid_blocks(p: Seq<u8>, n: int) -> bool
    decreases n,
{
    if n <= 0 {
        p.len() == 0
    } else {
        head_block_ok(p) && valid_blocks(p.skip(head_block_size(p)), n - 1)
    }
}

/// `p` is the payload of some message.
pub open spec fn payload_valid(p: Seq<u8>) -> bool {
    p.len() >= 1 && {
        if p[0] == TAG_SET_USERNAME || p[0] == TAG_CREATE_LOBBY || p[0] == TAG_JOIN_LOBBY || p[0]
            == TAG_SERVER_ERROR {
            head_block_ok(p.skip(1)) && p.len() == 1 + head_block_size(p.skip(1))
        } else if p[0] == TAG_LIST_LOBBIES_REQUEST {
            p.len() == 1
        } else if p[0] == TAG_LIST_LOBBIES_RESPONSE {
            p.len() >= 3 && valid_blocks(p.skip(3), u16_val(p.skip(1)))
        } else if p[0] == TAG_MOVE_PIECE {
            p.len() == 6 && (p[1] == 1 || p[1] == 2)
        } else {
            false
        }
    }
}

/// Relies on `String::from_utf8`: succeeds exactly on valid UTF-8 and
/// decodes those bytes to the characters they encode.
#[verifier::external_body]
pub(crate) fn bytes_to_string(v: Vec<u8>) -> (r: Option<String>)
    ensures
        match r {
            Some(s) => valid_utf8(v@) && s@ == decode_utf8(v@),
            None => !valid_utf8(v@),
        },
{
    match String::from_utf8(v) {
        Ok(s) => Some(s),
        Err(_) => None,
    }
}

/// Appends the length-prefixed block for `s`, refusing a string whose UTF-8
/// bytes outrun the 2-byte prefix.
fn push_string_block(out: &mut Vec<u8>, s: &str) -> (ok: bool)
    ensures
        ok ==> encode_utf8(s@).len() <= 65535 && final(out)@ == old(out)@ + spec_string_block(s@),
        !ok ==> encode_utf8(s@).len() > 65535 && final(out)@ == old(out)@,
{
    let bs = s.as_bytes();
    let n = bs.len();
    if n > 65535 {
        return false;
    }
    let ghost start = out@;
    proof {
        assert(n / 256 <= 255) by (nonlinear_arith)
            requires n <= 65535;
    }
    out.push((n / 256) as u8);
    out.push((n % 256) as u8);
    let mut j: usize = 0;
    while j < bs.len()
        invariant
            j <= bs@.len(),
            bs@ == encode_utf8(s@),
            bs@.len() == n <= 65535,
            out@ == start + u16_be(n as int) + bs@.take(j as int),
        decreases bs@.len() - j,
    {
        out.push(bs[j]);
        proof {
            assert(out@ =~= start + u16_be(n as int) + bs@.take(j + 1));
        }
        j = j + 1;
    }
    proof {
        assert(out@ =~= start + spec_string_block(s@));
    }
    true
}

/// Serializes a message to its payload bytes; `None` when the message is
/// too large for the wire format.
pub fn encode_payload(item: &NetworkMessage) -> (r: Option<Vec<u8>>)
    ensures
        match r {
            Some(v) => spec_encodable(*item) && v@ == spec_payload(*item),
            None => !spec_encodable(*item),
        },
{
    let mut out: Vec<u8> = Vec::new();
    match item {
        NetworkMessage::SetUsername { name } => {
            out.push(TAG_SET_USERNAME);
            if !push_string_block(&mut out, name.as_str()) {
                return None;
            }
        },
        NetworkMessage::CreateLobby { name } => {
            out.push(TAG_CREATE_LOBBY);
            if !push_string_block(&mut out, name.as_str()) {
                return None;
            }
        },
        NetworkMessage::JoinLobby { name } => {
            out.push(TAG_JOIN_LOBBY);
            if !push_string_block(&mut out, name.as_str()) {
                return None;
            }
        },
        NetworkMessage::ListLobbiesRequest => {
            out.push(TAG_LIST_LOBBIES_REQUEST);
        },
        NetworkMessage::ListLobbiesResponse { lobbies } => {
            if lobbies.len() > 65535 {
                return None;
            }
            let n = lobbies.len();
            out.push(TAG_LIST_LOBBIES_RESPONSE);
            proof {
                assert(n / 256 <= 255) by (nonlinear_arith)
                    requires n <= 65535;
            }
            out.push((n / 256) as u8);
            out.push((n % 256) as u8);
            let ghost header = out@;
            let mut i: usize = 0;
            while i < lobbies.len()
                invariant
                    *item == (NetworkMessage::ListLobbiesResponse { lobbies: *lobbies }),
                    i <= lobbies@.len(),
                    lobbies@.len() == n <= 65535,
                    header == seq![TAG_LIST_LOBBIES_RESPONSE] + u16_be(n as int),
                    out@ == header + spec_lobbies_blocks(lobbies.deep_view().take(i as int)),
                    forall|k: int|
                        0 <= k < i ==> #[trigger] encode_utf8(lobbies@[k]@).len() <= 65535,
                decreases lobbies@.len() - i,
            {
                if !push_string_block(&mut out, lobbies[i].as_str()) {
                    proof {
                        assert(encode_utf8(lobbies@[i as int]@).len() > 65535);
                        assert(!strings_fit(*item));
                    }
                    return None;
                }
                proof {
                    lemma_blocks_push(lobbies.deep_view().take(i as int), lobbies.deep_view()[i as int]);
                    assert(lobbies.deep_view().take(i + 1) =~= lobbies.deep_view().take(
                        i as int,
                    ).push(lobbies.deep_view()[i as int]));
                    assert(out@ =~= header + spec_lobbies_blocks(lobbies.deep_view().take(i + 1)));
                }
                i = i + 1;
            }
            proof {
                assert(lobbies.deep_view().take(n as int) =~= lobbies.deep_view());
            }
        },
        NetworkMessage::MovePiece { player, from, to } => {
            out.push(TAG_MOVE_PIECE);
            match player {
                Color::W => out.push(1),
                Color::B => out.push(2),
            }
            out.push(from.x);
            out.push(from.y);
            out.push(to.x);
            out.push(to.y);
            proof {
                assert(out@ =~= spec_payload(*item));
            }
        },
        NetworkMessage::ServerError(text) => {
            out.push(TAG_SERVER_ERROR);
            if !push_string_block(&mut out, text.as_str()) {
                return None;
            }
        },
    }
    proof {
        assert(out@ =~= spec_payload(*item));
    }
    if out.len() > 65535 {
        return None;
    }
    Some(out)
}

/// Parses the length-prefixed string block that starts at `pos`.
fn parse_string_block(p: &Vec<u8>, pos: usize) -> (r: Option<(String, usize)>)
    requires
        pos <= p@.len(),
        p@.len() <= 65535,
    ensures
        ({
            let tail = p@.skip(pos as int);
            match r {
                Some((s, newpos)) => head_block_ok(tail) && newpos == pos + head_block_size(tail)
                    && pos < newpos <= p@.len() && encode_utf8(s@).len() <= 65535
                    && spec_string_block(s@) == p@.subrange(pos as int, newpos as int),
                None => !head_block_ok(tail),
            }
        }),
{
    if p.len() < pos + 2 {
        return None;
    }
    let hi = p[pos];
    let lo = p[pos + 1];
    let l: usize = (hi as usize) * 256 + (lo as usize);
    proof {
        assert(p@.skip(pos as int)[0] == p@[pos as int]);
        assert(p@.skip(pos as int)[1] == p@[pos as int + 1]);
    }
    if p.len() < pos + 2 + l {
        return None;
    }
    let mut bs: Vec<u8> = Vec::new();
    let mut j: usize = 0;
    while j < l
        invariant
            j <= l,
            pos + 2 + l <= p@.len() <= 65535,
            bs@ == p@.subrange(pos + 2, pos + 2 + j),
        decreases l - j,
    {
        bs.push(p[pos + 2 + j]);
        proof {
            assert(bs@ =~= p@.subrange(pos + 2, pos + 2 + (j + 1)));
        }
        j = j + 1;
    }
    proof {
        assert(p@.skip(pos as int).subrange(2, 2 + u16_val(p@.skip(pos as int))) =~= p@.subrange(
            pos + 2,
            pos + 2 + l,
        ));
    }
    match bytes_to_string(bs) {
        None => None,
        Some(s) => {
            proof {
                decode_utf8_encode_utf8(p@.subrange(pos + 2, pos + 2 + l));
                lemma_u16_val_be(hi, lo);
                assert(spec_string_block(s@) =~= p@.subrange(pos as int, pos + 2 + l));
            }
            Some((s, pos + 2 + l))
        },
    }
}

/// Deserializes payload bytes; fails exactly on bytes that are no
/// message's payload.
pub fn decode_payload(p: &Vec<u8>) -> (r: Result<NetworkMessage, CodecError>)
    requires
        p@.len() <= 65535,
    ensures
        match r {
            Ok(m) => payload_valid(p@) && spec_payload(m) == p@ && spec_encodable(m),
            Err(e) => e == CodecError::MsgPackDeserializationError && !payload_valid(p@),
        },
{
    if p.len() == 0 {
        return Err(CodecError::MsgPackDeserializationError);
    }
    let tag = p[0];
    if tag == TAG_SET_USERNAME || tag == TAG_CREATE_LOBBY || tag == TAG_JOIN_LOBBY || tag
        == TAG_SERVER_ERROR {
        match parse_string_block(p, 1) {
            None => Err(CodecError::MsgPackDeserializationError),
            Some((s, newpos)) => {
                if newpos != p.len() {
                    return Err(CodecError::MsgPackDeserializationError);
                }
                let m = if tag == TAG_SET_USERNAME {
                    NetworkMessage::SetUsername { name: s }
                } else if tag == TAG_CREATE_LOBBY {
                    NetworkMessage::CreateLobby { name: s }
                } else if tag == TAG_JOIN_LOBBY {
                    NetworkMessage::JoinLobby { name: s }
                } else {
                    NetworkMessage::ServerError(s)
                };
                proof {
                    assert(spec_payload(m) =~= p@);
                }
                Ok(m)
            },
        }
    } else if tag == TAG_LIST_LOBBIES_REQUEST {
        if p.len() != 1 {
            return Err(CodecError::MsgPackDeserializationError);
        }
        proof {
            assert(spec_payload(NetworkMessage::ListLobbiesRequest) =~= p@);
        }
        Ok(NetworkMessage::ListLobbiesRequest)
    } else if tag == TAG_LIST_LOBBIES_RESPONSE {
        if p.len() < 3 {
            return Err(CodecError::MsgPackDeserializationError);
        }
        let n: usize = (p[1] as usize) * 256 + (p[2] as usize);
        proof {
            assert(p@.skip(1)[0] == p@[1] && p@.skip(1)[1] == p@[2]);
        }
        let mut lobbies: Vec<String> = Vec::new();
        let mut pos: usize = 3;
        let mut i: usize = 0;
        while i < n
            invariant
                i <= n <= 65535,
                3 <= pos <= p@.len() <= 65535,
                p@[0] == TAG_LIST_LOBBIES_RESPONSE,
                n == u16_val(p@.skip(1)),
                lobbies@.len() == i,
                valid_blocks(p@.skip(3), n as int) <==> valid_blocks(
                    p@.skip(pos as int),
                    n - i,
                ),
                spec_lobbies_blocks(lobbies.deep_view()) == p@.subrange(3, pos as int),
                forall|k: int| 0 <= k < i ==> #[trigger] encode_utf8(lobbies@[k]@).len() <= 65535,
            decreases n - i,
        {
            match parse_string_block(p, pos) {
                None => {
                    proof {
                        assert(!valid_blocks(p@.skip(pos as int), n - i));
                        assert(!valid_blocks(p@.skip(3), n as int));
                    }
                    return Err(CodecError::MsgPackDeserializationError);
                },
                Some((s, newpos)) => {
                    let ghost old_dv = lobbies.deep_view();
                    let ghost old_pos = pos;
                    let ghost old_i = i;
                    lobbies.push(s);
                    pos = newpos;
                    i = i + 1;
                    proof {
                        let tail = p@.skip(old_pos as int);
                        assert(lobbies.deep_view() =~= old_dv.push(s@));
                        lemma_blocks_push(old_dv, s@);
                        assert(tail.skip(head_block_size(tail)) =~= p@.skip(pos as int));
                        assert(valid_blocks(tail, n - old_i) <==> valid_blocks(
                            p@.skip(pos as int),
                            n - i,
                        ));
                        assert(spec_lobbies_blocks(lobbies.deep_view()) =~= p@.subrange(
                            3,
                            pos as int,
                        ));
                    }
                },
            }
        }
        if pos != p.len() {
            proof {
                assert(p@.skip(pos as int).len() != 0);
                assert(!valid_blocks(p@.skip(pos as int), 0));
                assert(!valid_blocks(p@.skip(3), n as int));
            }
            return Err(CodecError::MsgPackDeserializationError);
        }
        let m = NetworkMessage::ListLobbiesResponse { lobbies };
        proof {
            assert(valid_blocks(p@.skip(pos as int), 0));
            assert(payload_valid(p@));
            lemma_u16_val_be(p@[1], p@[2]);
            assert(spec_payload(m) =~= p@);
        }
        Ok(m)
    } else if tag == TAG_MOVE_PIECE {
        if p.len() != 6 {
            return Err(CodecError::MsgPackDeserializationError);
        }
        let color_b = p[1];
        if color_b != 1 && color_b != 2 {
            return Err(CodecError::MsgPackDeserializationError);
        }
        let player = if color_b == 1 {
            Color::W
        } else {
            Color::B
        };
        let m = NetworkMessage::MovePiece {
            player,
            from: crate::game::Position { x: p[2], y: p[3] },
            to: crate::game::Position { x: p[4], y: p[5] },
        };
        proof {
            assert(spec_payload(m) =~= p@);
        }
        Ok(m)
    } else {
        Err(CodecError::MsgPackDeserializationError)
    }
}

impl MessageCodec {
    /// Takes one whole frame off the front of `src`, if one is there, and
    /// deserializes its payload. An incomplete frame consumes nothing; a
    /// malformed frame consumes nothing and reports a framing error; a whole
    /// frame with an undecodable payload is consumed and reported as a
    /// deserialization error.
    pub fn decode(&mut self, src: &mut BytesMut) -> (r: Result<
        Option<NetworkMessage>,
        CodecError,
    >)
        ensures
            ({
                let b0 = buf_bytes(*old(src));
                match r {
                    Ok(None) => ns_incomplete(b0) && buf_bytes(*final(src)) == b0,
                    Ok(Some(m)) => ns_complete(b0) && payload_valid(ns_payload(b0))
                        && spec_payload(m) == ns_payload(b0) && spec_encodable(m) && buf_bytes(
                        *final(src),
                    ) == b0.skip(ns_consumed(b0)),
                    Err(e) => match e {
                        CodecError::NetstringParseError => ns_malformed(b0) && buf_bytes(
                            *final(src),
                        ) == b0,
                        CodecError::MsgPackDeserializationError => ns_complete(b0)
                            && !payload_valid(ns_payload(b0)) && buf_bytes(*final(src)) == b0.skip(
                            ns_consumed(b0),
                        ),
                        CodecError::MsgPackSerializationError(_) => false,
                    },
                }
            }),
    {
        if buf_len(src) == 0 {
            return Ok(None);
        }
        match netstring_parser(src) {
            Ok(None) => Ok(None),
            Err(e) => Err(e),
            Ok(Some(payload)) => match decode_payload(&payload) {
                Ok(m) => Ok(Some(m)),
                Err(e) => Err(e),
            },
        }
    }

    /// Serializes `item` and appends its frame to `dst`; a message too large
    /// for the wire format is handed back inside the error, with nothing
    /// written.
    pub fn encode(&mut self, item: NetworkMessage, dst: &mut BytesMut) -> (r: Result<
        (),
        CodecError,
    >)
        ensures
            spec_encodable(item) ==> r == Ok::<(), CodecError>(()) && buf_bytes(*final(dst))
                == buf_bytes(*old(dst)) + netstring_frame(spec_payload(item)),
            !spec_encodable(item) ==> r == Err::<(), CodecError>(
                CodecError::MsgPackSerializationError(item),
            ) && buf_bytes(*final(dst)) == buf_bytes(*old(dst)),
    {
        match encode_payload(&item) {
            None => Err(CodecError::MsgPackSerializationError(item)),
            Some(payload) => match encode_netstring(&payload, dst) {
                Ok(()) => Ok(()),
                Err(e) => Err(e),
            },
        }
    }
}

// ---------------------------------------------------------------------------
// Laws of the framing.
// ---------------------------------------------------------------------------

/// Law: framing a payload of at most 65535 bytes and parsing the result
/// yields that payload back, consuming exactly the whole frame.
pub proof fn lemma_netstring_round_trip(p: Seq<u8>)
    requires
        p.len() <= 65535,
    ensures
        ns_complete(netstring_frame(p)),
        ns_payload(netstring_frame(p)) == p,
        ns_consumed(netstring_frame(p)) == netstring_frame(p).len(),
{
    let f = netstring_frame(p);
    lemma_u16_be_val(p.len() as int);
    assert(f[0] == u16_be(p.len() as int)[0]);
    assert(f[1] == u16_be(p.len() as int)[1]);
    assert(ns_len(f) == p.len());
    assert(f[2] == HEADER_MARK);
    assert(f.len() == p.len() + 4);
    assert(f[ns_len(f) + 3] == TRAILER_MARK);
    assert(ns_payload(f) =~= p);
}

/// Law: a frame with at least one trailing byte missing parses to "need
/// more data", whatever the missing count.
pub proof fn lemma_truncated_frame_incomplete(p: Seq<u8>, k: int)
    requires
        p.len() <= 65535,
        1 <= k <= netstring_frame(p).len(),
    ensures
        ns_incomplete(netstring_frame(p).take(netstring_frame(p).len() - k)),
{
    let f = netstring_frame(p);
    let t = f.take(f.len() - k);
    if t.len() >= 3 {
        lemma_u16_be_val(p.len() as int);
        assert(t[0] == f[0] && t[1] == f[1] && t[2] == f[2]);
        assert(f[0] == u16_be(p.len() as int)[0]);
        assert(f[1] == u16_be(p.len() as int)[1]);
        assert(ns_len(t) == p.len());
        assert(f[2] == HEADER_MARK);
    }
}

/// Law: when a whole frame is followed by further bytes, say a truncated
/// second frame, parsing yields exactly the first payload and leaves the
/// remainder buffered.
pub proof fn lemma_first_frame_of_concat(p: Seq<u8>, rest: Seq<u8>)
    requires
        p.len() <= 65535,
    ensures
        ns_complete(netstring_frame(p) + rest),
        ns_payload(netstring_frame(p) + rest) == p,
        ns_consumed(netstring_frame(p) + rest) == netstring_frame(p).len(),
        (netstring_frame(p) + rest).skip(ns_consumed(netstring_frame(p) + rest)) == rest,
{
    let f = netstring_frame(p);
    let buf = f + rest;
    lemma_netstring_round_trip(p);
    assert(buf[0] == f[0] && buf[1] == f[1] && buf[2] == f[2]);
    assert(ns_len(buf) == p.len());
    assert(buf[p.len() as int + 3] == f[p.len() as int + 3]);
    assert(ns_payload(buf) =~= p);
    assert(buf.skip(p.len() as int + 4) =~= rest);
}

/// A block that fits the prefix is well formed on its own.
proof fn lemma_block_head_ok(s: Seq<char>)
    requires
        encode_utf8(s).len() <= 65535,
    ensures
        head_block_ok(spec_string_block(s)),
        head_block_size(spec_string_block(s)) == spec_string_block(s).len() as int,
{
    let b = spec_string_block(s);
    let el = encode_utf8(s).len() as int;
    lemma_u16_be_val(el);
    assert(b[0] == u16_be(el)[0] && b[1] == u16_be(el)[1]);
    assert(u16_val(b) == el);
    assert(b.subrange(2, 2 + el) =~= encode_utf8(s));
    encode_utf8_valid_utf8(s);
}

/// The concatenated blocks of `l` strings are exactly `l` valid blocks.
proof fn lemma_blocks_valid(l: Seq<Seq<char>>)
    requires
        forall|i: int| 0 <= i < l.len() ==> #[trigger] encode_utf8(l[i]).len() <= 65535,
    ensures
        valid_blocks(spec_lobbies_blocks(l), l.len() as int),
    decreases l.len(),
{
    if l.len() == 0 {
    } else {
        let b = spec_lobbies_blocks(l);
        let blk = spec_string_block(l[0]);
        let rest = spec_lobbies_blocks(l.drop_first());
        lemma_block_head_ok(l[0]);
        let el = encode_utf8(l[0]).len() as int;
        assert(b[0] == blk[0] && b[1] == blk[1]);
        assert(u16_val(b) == u16_val(blk));
        assert(b.subrange(2, 2 + u16_val(b)) =~= blk.subrange(2, 2 + u16_val(blk)));
        assert(head_block_ok(b));
        assert(b.skip(head_block_size(b)) =~= rest);
        assert forall|i: int|
            0 <= i < l.drop_first().len() implies #[trigger] encode_utf8(
            l.drop_first()[i],
        ).len() <= 65535 by {
            assert(l.drop_first()[i] == l[i + 1]);
        }
        lemma_blocks_valid(l.drop_first());
        assert(valid_blocks(b, l.len() as int));
    }
}

/// Law: the payload of any message the codec agrees to serialize is decoded
/// again as a message; the peer can always read back what was written.
pub proof fn lemma_encodable_payload_valid(m: NetworkMessage)
    requires
        spec_encodable(m),
    ensures
        payload_valid(spec_payload(m)),
{
    let p = spec_payload(m);
    match m {
        NetworkMessage::SetUsername { name } => {
            lemma_string_payload_valid(TAG_SET_USERNAME, name@, p);
        },
        NetworkMessage::CreateLobby { name } => {
            lemma_string_payload_valid(TAG_CREATE_LOBBY, name@, p);
        },
        NetworkMessage::JoinLobby { name } => {
            lemma_string_payload_valid(TAG_JOIN_LOBBY, name@, p);
        },
        NetworkMessage::ListLobbiesRequest => {
        },
        NetworkMessage::ListLobbiesResponse { lobbies } => {
            let dv = lobbies.deep_view();
            lemma_u16_be_val(lobbies@.len() as int);
            assert(p[0] == TAG_LIST_LOBBIES_RESPONSE);
            assert(p[1] == u16_be(lobbies@.len() as int)[0]);
            assert(p[2] == u16_be(lobbies@.len() as int)[1]);
            assert(p.skip(1)[0] == p[1] && p.skip(1)[1] == p[2]);
            assert(u16_val(p.skip(1)) == lobbies@.len());
            assert forall|i: int| 0 <= i < dv.len() implies #[trigger] encode_utf8(
                dv[i],
            ).len() <= 65535 by {
                assert(dv[i] == lobbies@[i]@);
                assert(encode_utf8(lobbies@[i]@).len() <= 65535);
            }
            lemma_blocks_valid(dv);
            assert(p.skip(3) =~= spec_lobbies_blocks(dv));
        },
        NetworkMessage::MovePiece { player, from, to } => {
            assert(p.len() == 6);
            assert(p[1] == color_byte(player));
        },
        NetworkMessage::ServerError(text) => {
            lemma_string_payload_valid(TAG_SERVER_ERROR, text@, p);
        },
    }
}

/// Law: the frame written for any message the codec agrees to serialize
/// is read back as one whole frame carrying exactly that message's
/// payload, and that payload decodes again as a message; nothing a peer
/// is sent can fail to be read back.
pub proof fn lemma_message_frame_round_trip(m: NetworkMessage)
    requires
        spec_encodable(m),
    ensures
        ns_complete(netstring_frame(spec_payload(m))),
        ns_payload(netstring_frame(spec_payload(m))) == spec_payload(m),
        ns_consumed(netstring_frame(spec_payload(m))) == netstring_frame(spec_payload(m)).len(),
        payload_valid(spec_payload(m)),
{
    lemma_netstring_round_trip(spec_payload(m));
    lemma_encodable_payload_valid(m);
}

/// Helper for the single-string payloads: tag byte, then one block.
proof fn lemma_string_payload_valid(tag: u8, s: Seq<char>, p: Seq<u8>)
    requires
        encode_utf8(s).len() <= 65535,
        p == seq![tag] + spec_string_block(s),
        tag == TAG_SET_USERNAME || tag == TAG_CREATE_LOBBY || tag == TAG_JOIN_LOBBY || tag
            == TAG_SERVER_ERROR,
    ensures
        payload_valid(p),
{
    lemma_block_head_ok(s);
    assert(p[0] == tag);
    assert(p.skip(1) =~= spec_string_block(s));
    assert(head_block_ok(p.skip(1)));
    assert(p.len() == 1 + head_block_size(p.skip(1)));
}

/// Blocks of a list grown at its end: the new block lands at the end of the
/// byte sequence.
pub proof fn lemma_blocks_push(l: Seq<Seq<char>>, s: Seq<char>)
    ensures
        spec_lobbies_blocks(l.push(s)) == spec_lobbies_blocks(l) + spec_string_block(s),
    decreases l.len(),
{
    if l.len() == 0 {
        assert(l.push(s)[0] == s);
        assert(l.push(s).drop_first() =~= Seq::<Seq<char>>::empty());
        assert(spec_lobbies_blocks(l) == Seq::<u8>::empty());
        assert(spec_lobbies_blocks(l.push(s)) == spec_string_block(s) + spec_lobbies_blocks(
            l.push(s).drop_first(),
        ));
        assert(spec_lobbies_blocks(l.push(s).drop_first()) == Seq::<u8>::empty());
        assert(spec_lobbies_blocks(l.push(s)) =~= spec_lobbies_blocks(l) + spec_string_block(s));
    } else {
        lemma_blocks_push(l.drop_first(), s);
        assert(l.push(s)[0] == l[0]);
        assert(l.push(s).drop_first() =~= l.drop_first().push(s));
        assert(spec_lobbies_blocks(l.push(s)) == spec_string_block(l[0]) + spec_lobbies_blocks(
            l.drop_first().push(s),
        ));
        assert(spec_lobbies_blocks(l) == spec_string_block(l[0]) + spec_lobbies_blocks(
            l.drop_first(),
        ));
        assert(spec_string_block(l[0]) + (spec_lobbies_blocks(l.drop_first())
            + spec_string_block(s)) =~= (spec_string_block(l[0]) + spec_lobbies_blocks(
            l.drop_first(),
        )) + spec_string_block(s));
        assert(spec_lobbies_blocks(l.push(s)) =~= spec_lobbies_blocks(l) + spec_string_block(s));
    }
}

} // verus!

