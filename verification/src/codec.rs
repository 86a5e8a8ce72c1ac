//! The wire codec: one fixed binary framing for the messages exchanged over a
//! streaming connection.
//!
//! A frame is a tagged union: a 32-bit big-endian discriminant naming the
//! variant, followed by the variant's fields in fixed big-endian byte order;
//! a string field is prefixed by its byte length as a 64-bit big-endian
//! integer and carried as UTF-8. Liveness probe and acknowledgment frames are
//! a separate control-frame kind of the transport and never enter this union.
//!
//! The decoders reject truncated, oversized and unrecognized frames with a
//! [`DecodeError`]; they never panic and never tear down a connection.

use vstd::prelude::*;
use vstd::string::StrSliceExecFns;
use vstd::utf8::{
    decode_utf8, decode_utf8_encode_utf8, encode_utf8, encode_utf8_decode_utf8,
    encode_utf8_valid_utf8, valid_utf8,
};

use crate::errors::DecodeError;
use crate::{Color, Coord};

verus! {

// ---------------------------------------------------------------------------
// Big-endian byte order
// ---------------------------------------------------------------------------
/// The two bytes of `v`, most significant first.
pub open spec fn u16_be(v: u16) -> Seq<u8> {
    seq![(v >> 8) as u8, v as u8]
}

/// The four bytes of `v`, most significant first.
pub open spec fn u32_be(v: u32) -> Seq<u8> {
    seq![(v >> 24) as u8, (v >> 16) as u8, (v >> 8) as u8, v as u8]
}

/// The eight bytes of `v`, most significant first.
pub open spec fn u64_be(v: u64) -> Seq<u8> {
    seq![
        (v >> 56) as u8,
        (v >> 48) as u8,
        (v >> 40) as u8,
        (v >> 32) as u8,
        (v >> 24) as u8,
        (v >> 16) as u8,
        (v >> 8) as u8,
        v as u8,
    ]
}

/// The value whose big-endian bytes are `b0 b1`.
pub open spec fn u16_from_be(b0: u8, b1: u8) -> u16 {
    ((b0 as u16) << 8) | (b1 as u16)
}

/// The value whose big-endian bytes are `b0 b1 b2 b3`.
pub open spec fn u32_from_be(b0: u8, b1: u8, b2: u8, b3: u8) -> u32 {
    ((b0 as u32) << 24) | ((b1 as u32) << 16) | ((b2 as u32) << 8) | (b3 as u32)
}

/// The value whose big-endian bytes are `b0 .. b7`.
pub open spec fn u64_from_be(
    b0: u8,
    b1: u8,
    b2: u8,
    b3: u8,
    b4: u8,
    b5: u8,
    b6: u8,
    b7: u8,
) -> u64 {
    ((b0 as u64) << 56) | ((b1 as u64) << 48) | ((b2 as u64) << 40) | ((b3 as u64) << 32) | (
    (b4 as u64) << 24) | ((b5 as u64) << 16) | ((b6 as u64) << 8) | (b7 as u64)
}

/// Splitting a 16-bit value into big-endian bytes and reassembling it is the
/// identity.
pub proof fn lemma_u16_be_round_trip(v: u16)
    ensures
        u16_from_be((v >> 8) as u8, v as u8) == v,
{
    assert(((((v >> 8) as u8) as u16) << 8) | ((v as u8) as u16) == v) by (bit_vector);
}

/// Reassembling two bytes into a 16-bit value and splitting it again is the
/// identity.
pub proof fn lemma_u16_from_be_bytes(b0: u8, b1: u8)
    ensures
        (u16_from_be(b0, b1) >> 8) as u8 == b0,
        u16_from_be(b0, b1) as u8 == b1,
{
    assert((((((b0 as u16) << 8) | (b1 as u16)) >> 8) as u8) == b0) by (bit_vector);
    assert(((((b0 as u16) << 8) | (b1 as u16)) as u8) == b1) by (bit_vector);
}

/// Splitting a 32-bit value into big-endian bytes and reassembling it is the
/// identity.
pub proof fn lemma_u32_be_round_trip(v: u32)
    ensures
        u32_from_be((v >> 24) as u8, (v >> 16) as u8, (v >> 8) as u8, v as u8) == v,
{
    assert((((v >> 24) as u8) as u32) << 24 | (((v >> 16) as u8) as u32) << 16 | (((v
        >> 8) as u8) as u32) << 8 | ((v as u8) as u32) == v) by (bit_vector);
}

/// Reassembling four bytes into a 32-bit value and splitting it again is the
/// identity.
pub proof fn lemma_u32_from_be_bytes(b0: u8, b1: u8, b2: u8, b3: u8)
    ensures
        (u32_from_be(b0, b1, b2, b3) >> 24) as u8 == b0,
        (u32_from_be(b0, b1, b2, b3) >> 16) as u8 == b1,
        (u32_from_be(b0, b1, b2, b3) >> 8) as u8 == b2,
        u32_from_be(b0, b1, b2, b3) as u8 == b3,
{
    let v = u32_from_be(b0, b1, b2, b3);
    assert((v >> 24) as u8 == b0 && (v >> 16) as u8 == b1 && (v >> 8) as u8 == b2 && v as u8 == b3)
        by (bit_vector)
        requires
            v == ((b0 as u32) << 24) | ((b1 as u32) << 16) | ((b2 as u32) << 8) | (b3 as u32),
    ;
}

/// Splitting a 64-bit value into big-endian bytes and reassembling it is the
/// identity.
pub proof fn lemma_u64_be_round_trip(v: u64)
    ensures
        u64_from_be(
            (v >> 56) as u8,
            (v >> 48) as u8,
            (v >> 40) as u8,
            (v >> 32) as u8,
            (v >> 24) as u8,
            (v >> 16) as u8,
            (v >> 8) as u8,
            v as u8,
        ) == v,
{
    assert((((v >> 56) as u8) as u64) << 56 | (((v >> 48) as u8) as u64) << 48 | (((v
        >> 40) as u8) as u64) << 40 | (((v >> 32) as u8) as u64) << 32 | (((v
        >> 24) as u8) as u64) << 24 | (((v >> 16) as u8) as u64) << 16 | (((v
        >> 8) as u8) as u64) << 8 | ((v as u8) as u64) == v) by (bit_vector);
}

/// Reassembling eight bytes into a 64-bit value and splitting it again is the
/// identity.
pub proof fn lemma_u64_from_be_bytes(b0: u8, b1: u8, b2: u8, b3: u8, b4: u8, b5: u8, b6: u8, b7: u8)
    ensures
        (u64_from_be(b0, b1, b2, b3, b4, b5, b6, b7) >> 56) as u8 == b0,
        (u64_from_be(b0, b1, b2, b3, b4, b5, b6, b7) >> 48) as u8 == b1,
        (u64_from_be(b0, b1, b2, b3, b4, b5, b6, b7) >> 40) as u8 == b2,
        (u64_from_be(b0, b1, b2, b3, b4, b5, b6, b7) >> 32) as u8 == b3,
        (u64_from_be(b0, b1, b2, b3, b4, b5, b6, b7) >> 24) as u8 == b4,
        (u64_from_be(b0, b1, b2, b3, b4, b5, b6, b7) >> 16) as u8 == b5,
        (u64_from_be(b0, b1, b2, b3, b4, b5, b6, b7) >> 8) as u8 == b6,
        u64_from_be(b0, b1, b2, b3, b4, b5, b6, b7) as u8 == b7,
{
    let v = u64_from_be(b0, b1, b2, b3, b4, b5, b6, b7);
    assert((v >> 56) as u8 == b0 && (v >> 48) as u8 == b1 && (v >> 40) as u8 == b2 && (v
        >> 32) as u8 == b3 && (v >> 24) as u8 == b4 && (v >> 16) as u8 == b5 && (v >> 8) as u8
        == b6 && v as u8 == b7) by (bit_vector)
        requires
            v == ((b0 as u64) << 56) | ((b1 as u64) << 48) | ((b2 as u64) << 40) | ((b3 as u64)
                << 32) | ((b4 as u64) << 24) | ((b5 as u64) << 16) | ((b6 as u64) << 8) | (
            b7 as u64),
    ;
}

/// Appends the big-endian bytes of `v` to `out`.
fn push_u16_be(out: &mut Vec<u8>, v: u16)
    ensures
        final(out)@ == old(out)@ + u16_be(v),
{
    out.push((v >> 8) as u8);
    out.push(#[verifier::truncate] (v as u8));
    proof {
        assert(out@ =~= old(out)@ + u16_be(v));
    }
}

/// Appends the big-endian bytes of `v` to `out`.
fn push_u32_be(out: &mut Vec<u8>, v: u32)
    ensures
        final(out)@ == old(out)@ + u32_be(v),
{
    out.push((v >> 24) as u8);
    out.push(#[verifier::truncate] ((v >> 16) as u8));
    out.push(#[verifier::truncate] ((v >> 8) as u8));
    out.push(#[verifier::truncate] (v as u8));
    proof {
        assert(out@ =~= old(out)@ + u32_be(v));
    }
}

/// Appends the big-endian bytes of `v` to `out`.
fn push_u64_be(out: &mut Vec<u8>, v: u64)
    ensures
        final(out)@ == old(out)@ + u64_be(v),
{
    out.push((v >> 56) as u8);
    out.push(#[verifier::truncate] ((v >> 48) as u8));
    out.push(#[verifier::truncate] ((v >> 40) as u8));
    out.push(#[verifier::truncate] ((v >> 32) as u8));
    out.push(#[verifier::truncate] ((v >> 24) as u8));
    out.push(#[verifier::truncate] ((v >> 16) as u8));
    out.push(#[verifier::truncate] ((v >> 8) as u8));
    out.push(#[verifier::truncate] (v as u8));
    proof {
        assert(out@ =~= old(out)@ + u64_be(v));
    }
}

// ---------------------------------------------------------------------------
// Requests (client to server)
// ---------------------------------------------------------------------------
/// One decoded request frame.
#[derive(Clone, Copy, PartialEq, Eq, Structural, Debug)]
pub enum RequestPacket {
    /// Read one cell.
    GetCell { x: Coord, y: Coord },
    /// Write one cell.
    SetCell { x: Coord, y: Coord, color: Color },
}

/// The discriminant of a request variant on the wire.
pub open spec fn request_tag(p: RequestPacket) -> u32 {
    match p {
        RequestPacket::GetCell { .. } => 0,
        RequestPacket::SetCell { .. } => 1,
    }
}

/// The exact frame bytes of a request.
pub open spec fn encode_request_spec(p: RequestPacket) -> Seq<u8> {
    match p {
        RequestPacket::GetCell { x, y } => u32_be(0) + u16_be(x) + u16_be(y),
        RequestPacket::SetCell { x, y, color } => u32_be(1) + u16_be(x) + u16_be(y) + seq![color],
    }
}

/// The one request a byte sequence is a frame of, or why it is none.
pub open spec fn decode_request_spec(b: Seq<u8>) -> Result<RequestPacket, DecodeError> {
    if b.len() < 4 {
        Err(DecodeError::Truncated)
    } else {
        let tag = u32_from_be(b[0], b[1], b[2], b[3]);
        if tag == 0 {
            if b.len() < 8 {
                Err(DecodeError::Truncated)
            } else if b.len() > 8 {
                Err(DecodeError::Trailing)
            } else {
                Ok(
                    RequestPacket::GetCell {
                        x: u16_from_be(b[4], b[5]),
                        y: u16_from_be(b[6], b[7]),
                    },
                )
            }
        } else if tag == 1 {
            if b.len() < 9 {
                Err(DecodeError::Truncated)
            } else if b.len() > 9 {
                Err(DecodeError::Trailing)
            } else {
                Ok(
                    RequestPacket::SetCell {
                        x: u16_from_be(b[4], b[5]),
                        y: u16_from_be(b[6], b[7]),
                        color: b[8],
                    },
                )
            }
        } else {
            Err(DecodeError::UnknownTag { tag })
        }
    }
}

/// Every encoded request decodes back to itself.
pub proof fn lemma_request_round_trip(p: RequestPacket)
    ensures
        decode_request_spec(encode_request_spec(p)) == Ok::<RequestPacket, DecodeError>(p),
{
    let b = encode_request_spec(p);
    match p {
        RequestPacket::GetCell { x, y } => {
            assert(b.len() == 8);
            lemma_u32_be_round_trip(0);
            assert(u32_from_be(b[0], b[1], b[2], b[3]) == 0);
            lemma_u16_be_round_trip(x);
            lemma_u16_be_round_trip(y);
            assert(b[4] == (x >> 8) as u8 && b[5] == x as u8);
            assert(b[6] == (y >> 8) as u8 && b[7] == y as u8);
        },
        RequestPacket::SetCell { x, y, color } => {
            assert(b.len() == 9);
            lemma_u32_be_round_trip(1);
            assert(u32_from_be(b[0], b[1], b[2], b[3]) == 1);
            assert(u32_from_be(b[0], b[1], b[2], b[3]) != 0) by {
                assert((1u32 >> 24) as u8 == 0 && (1u32 >> 16) as u8 == 0 && (1u32 >> 8) as u8 == 0
                    && 1u32 as u8 == 1) by (bit_vector);
            };
            lemma_u16_be_round_trip(x);
            lemma_u16_be_round_trip(y);
            assert(b[4] == (x >> 8) as u8 && b[5] == x as u8);
            assert(b[6] == (y >> 8) as u8 && b[7] == y as u8);
            assert(b[8] == color);
        },
    }
}

/// A byte sequence that decodes to a request is exactly that request's frame:
/// the codec accepts no junk, and encodings are unique.
pub proof fn lemma_request_decode_exact(b: Seq<u8>, p: RequestPacket)
    requires
        decode_request_spec(b) == Ok::<RequestPacket, DecodeError>(p),
    ensures
        encode_request_spec(p) == b,
{
    let tag = u32_from_be(b[0], b[1], b[2], b[3]);
    lemma_u32_from_be_bytes(b[0], b[1], b[2], b[3]);
    if tag == 0 {
        let x = u16_from_be(b[4], b[5]);
        let y = u16_from_be(b[6], b[7]);
        lemma_u16_from_be_bytes(b[4], b[5]);
        lemma_u16_from_be_bytes(b[6], b[7]);
        assert(encode_request_spec(p) =~= b);
    } else {
        let x = u16_from_be(b[4], b[5]);
        let y = u16_from_be(b[6], b[7]);
        lemma_u16_from_be_bytes(b[4], b[5]);
        lemma_u16_from_be_bytes(b[6], b[7]);
        assert(encode_request_spec(p) =~= b);
    }
}

/// Encodes a request as its frame bytes.
pub fn encode_request(p: RequestPacket) -> (out: Vec<u8>)
    ensures
        out@ == encode_request_spec(p),
{
    let mut out: Vec<u8> = Vec::new();
    match p {
        RequestPacket::GetCell { x, y } => {
            push_u32_be(&mut out, 0);
            push_u16_be(&mut out, x);
            push_u16_be(&mut out, y);
        },
        RequestPacket::SetCell { x, y, color } => {
            push_u32_be(&mut out, 1);
            push_u16_be(&mut out, x);
            push_u16_be(&mut out, y);
            out.push(color);
        },
    }
    proof {
        assert(out@ =~= encode_request_spec(p));
    }
    out
}

/// Decodes one request frame, or says why the bytes are no frame.
pub fn decode_request(bytes: &[u8]) -> (r: Result<RequestPacket, DecodeError>)
    ensures
        r == decode_request_spec(bytes@),
{
    let n = bytes.len();
    if n < 4 {
        return Err(DecodeError::Truncated);
    }
    let tag = u32_from_be_exec(bytes[0], bytes[1], bytes[2], bytes[3]);
    if tag == 0 {
        if n < 8 {
            Err(DecodeError::Truncated)
        } else if n > 8 {
            Err(DecodeError::Trailing)
        } else {
            let x = u16_from_be_exec(bytes[4], bytes[5]);
            let y = u16_from_be_exec(bytes[6], bytes[7]);
            Ok(RequestPacket::GetCell { x, y })
        }
    } else if tag == 1 {
        if n < 9 {
            Err(DecodeError::Truncated)
        } else if n > 9 {
            Err(DecodeError::Trailing)
        } else {
            let x = u16_from_be_exec(bytes[4], bytes[5]);
            let y = u16_from_be_exec(bytes[6], bytes[7]);
            Ok(RequestPacket::SetCell { x, y, color: bytes[8] })
        }
    } else {
        Err(DecodeError::UnknownTag { tag })
    }
}

// ---------------------------------------------------------------------------
// Responses (server to client)
// ---------------------------------------------------------------------------
/// One response frame. Not in one-to-one correspondence with requests:
/// `CellUpdated` is pushed whenever any client's write succeeds, independent
/// of this connection's own traffic.
#[derive(Clone, Debug)]
pub enum ResponsePacket {
    /// A request was rejected; carries the human-readable reason.
    Error { message: String },
    /// The answer to a `GetCell` request.
    CellData { x: Coord, y: Coord, color: Color },
    /// A broadcast: some client's write succeeded.
    CellUpdated { x: Coord, y: Coord, color: Color },
}

/// The mathematical shape of a response: the message as its characters.
pub enum ResponseView {
    Error { message: Seq<char> },
    CellData { x: Coord, y: Coord, color: Color },
    CellUpdated { x: Coord, y: Coord, color: Color },
}

impl View for ResponsePacket {
    type V = ResponseView;

    open spec fn view(&self) -> ResponseView {
        match self {
            ResponsePacket::Error { message } => ResponseView::Error { message: message@ },
            ResponsePacket::CellData { x, y, color } => ResponseView::CellData {
                x: *x,
                y: *y,
                color: *color,
            },
            ResponsePacket::CellUpdated { x, y, color } => ResponseView::CellUpdated {
                x: *x,
                y: *y,
                color: *color,
            },
        }
    }
}

/// The discriminant of a response variant on the wire.
pub open spec fn response_tag(w: ResponseView) -> u32 {
    match w {
        ResponseView::Error { .. } => 0,
        ResponseView::CellData { .. } => 1,
        ResponseView::CellUpdated { .. } => 2,
    }
}

/// The exact frame bytes of a response. The message travels as its UTF-8
/// bytes behind a 64-bit big-endian length prefix.
pub open spec fn encode_response_spec(w: ResponseView) -> Seq<u8> {
    match w {
        ResponseView::Error { message } => u32_be(0) + u64_be(
            encode_utf8(message).len() as u64,
        ) + encode_utf8(message),
        ResponseView::CellData { x, y, color } => u32_be(1) + u16_be(x) + u16_be(y) + seq![color],
        ResponseView::CellUpdated { x, y, color } => u32_be(2) + u16_be(x) + u16_be(y)
            + seq![color],
    }
}

/// The one response a byte sequence is a frame of, or why it is none.
pub open spec fn decode_response_spec(b: Seq<u8>) -> Result<ResponseView, DecodeError> {
    if b.len() < 4 {
        Err(DecodeError::Truncated)
    } else {
        let tag = u32_from_be(b[0], b[1], b[2], b[3]);
        if tag == 0 {
            if b.len() < 12 {
                Err(DecodeError::Truncated)
            } else {
                let len = u64_from_be(b[4], b[5], b[6], b[7], b[8], b[9], b[10], b[11]);
                if b.len() - 12 < len {
                    Err(DecodeError::Truncated)
                } else if b.len() - 12 > len {
                    Err(DecodeError::Trailing)
                } else {
                    let payload = b.subrange(12, b.len() as int);
                    if valid_utf8(payload) {
                        Ok(ResponseView::Error { message: decode_utf8(payload) })
                    } else {
                        Err(DecodeError::InvalidUtf8)
                    }
                }
            }
        } else if tag == 1 || tag == 2 {
            if b.len() < 9 {
                Err(DecodeError::Truncated)
            } else if b.len() > 9 {
                Err(DecodeError::Trailing)
            } else {
                let x = u16_from_be(b[4], b[5]);
                let y = u16_from_be(b[6], b[7]);
                if tag == 1 {
                    Ok(ResponseView::CellData { x, y, color: b[8] })
                } else {
                    Ok(ResponseView::CellUpdated { x, y, color: b[8] })
                }
            }
        } else {
            Err(DecodeError::UnknownTag { tag })
        }
    }
}

/// Every encoded response decodes back to itself. The length bound on the
/// message is a fact of every real string, whose byte length fits the
/// 64-bit length prefix.
pub proof fn lemma_response_round_trip(w: ResponseView)
    requires
        w matches ResponseView::Error { message } ==> encode_utf8(message).len()
            < 0x10000000000000000,
    ensures
        decode_response_spec(encode_response_spec(w)) == Ok::<ResponseView, DecodeError>(w),
{
    let b = encode_response_spec(w);
    match w {
        ResponseView::Error { message } => {
            let payload = encode_utf8(message);
            let len = payload.len() as u64;
            assert(b.len() == 12 + payload.len());
            lemma_u32_be_round_trip(0);
            assert(u32_from_be(b[0], b[1], b[2], b[3]) == 0);
            lemma_u64_be_round_trip(len);
            assert(b[4] == (len >> 56) as u8 && b[5] == (len >> 48) as u8 && b[6] == (len
                >> 40) as u8 && b[7] == (len >> 32) as u8 && b[8] == (len >> 24) as u8 && b[9] == (
            len >> 16) as u8 && b[10] == (len >> 8) as u8 && b[11] == len as u8);
            assert(u64_from_be(b[4], b[5], b[6], b[7], b[8], b[9], b[10], b[11]) == len);
            assert(b.subrange(12, b.len() as int) =~= payload);
            broadcast use encode_utf8_valid_utf8, encode_utf8_decode_utf8;

            assert(decode_utf8(payload) == message);
        },
        ResponseView::CellData { x, y, color } => {
            assert(b.len() == 9);
            lemma_u32_be_round_trip(1);
            assert(u32_from_be(b[0], b[1], b[2], b[3]) == 1);
            assert(u32_from_be(b[0], b[1], b[2], b[3]) != 0) by {
                assert((1u32 >> 24) as u8 == 0 && (1u32 >> 16) as u8 == 0 && (1u32 >> 8) as u8 == 0
                    && 1u32 as u8 == 1) by (bit_vector);
            };
            lemma_u16_be_round_trip(x);
            lemma_u16_be_round_trip(y);
            assert(b[4] == (x >> 8) as u8 && b[5] == x as u8);
            assert(b[6] == (y >> 8) as u8 && b[7] == y as u8);
            assert(b[8] == color);
        },
        ResponseView::CellUpdated { x, y, color } => {
            assert(b.len() == 9);
            lemma_u32_be_round_trip(2);
            assert(u32_from_be(b[0], b[1], b[2], b[3]) == 2);
            assert(u32_from_be(b[0], b[1], b[2], b[3]) != 0) by {
                assert((2u32 >> 24) as u8 == 0 && (2u32 >> 16) as u8 == 0 && (2u32 >> 8) as u8 == 0
                    && 2u32 as u8 == 2) by (bit_vector);
            };
            lemma_u16_be_round_trip(x);
            lemma_u16_be_round_trip(y);
            assert(b[4] == (x >> 8) as u8 && b[5] == x as u8);
            assert(b[6] == (y >> 8) as u8 && b[7] == y as u8);
            assert(b[8] == color);
        },
    }
}

/// A byte sequence that decodes to a response is exactly that response's
/// frame: the codec accepts no junk, and encodings are unique.
pub proof fn lemma_response_decode_exact(b: Seq<u8>, w: ResponseView)
    requires
        decode_response_spec(b) == Ok::<ResponseView, DecodeError>(w),
    ensures
        encode_response_spec(w) == b,
{
    let tag = u32_from_be(b[0], b[1], b[2], b[3]);
    lemma_u32_from_be_bytes(b[0], b[1], b[2], b[3]);
    if tag == 0 {
        let len = u64_from_be(b[4], b[5], b[6], b[7], b[8], b[9], b[10], b[11]);
        lemma_u64_from_be_bytes(b[4], b[5], b[6], b[7], b[8], b[9], b[10], b[11]);
        let payload = b.subrange(12, b.len() as int);
        broadcast use decode_utf8_encode_utf8;

        assert(encode_utf8(decode_utf8(payload)) == payload);
        assert(payload.len() == len);
        assert(encode_response_spec(w) =~= b);
    } else {
        let x = u16_from_be(b[4], b[5]);
        let y = u16_from_be(b[6], b[7]);
        lemma_u16_from_be_bytes(b[4], b[5]);
        lemma_u16_from_be_bytes(b[6], b[7]);
        assert(encode_response_spec(w) =~= b);
    }
}

/// Encodes a response as its frame bytes.
pub fn encode_response(p: &ResponsePacket) -> (out: Vec<u8>)
    ensures
        out@ == encode_response_spec(p@),
{
    let mut out: Vec<u8> = Vec::new();
    match p {
        ResponsePacket::Error { message } => {
            push_u32_be(&mut out, 0);
            let mut payload = message.as_str().as_bytes_vec();
            push_u64_be(&mut out, payload.len() as u64);
            out.append(&mut payload);
        },
        ResponsePacket::CellData { x, y, color } => {
            push_u32_be(&mut out, 1);
            push_u16_be(&mut out, *x);
            push_u16_be(&mut out, *y);
            out.push(*color);
        },
        ResponsePacket::CellUpdated { x, y, color } => {
            push_u32_be(&mut out, 2);
            push_u16_be(&mut out, *x);
            push_u16_be(&mut out, *y);
            out.push(*color);
        },
    }
    proof {
        assert(out@ =~= encode_response_spec(p@));
    }
    out
}

/// Decodes one response frame, or says why the bytes are no frame.
pub fn decode_response(bytes: &[u8]) -> (r: Result<ResponsePacket, DecodeError>)
    ensures
        r matches Ok(p) ==> decode_response_spec(bytes@) == Ok::<ResponseView, DecodeError>(p@),
        r matches Err(e) ==> decode_response_spec(bytes@) == Err::<ResponseView, DecodeError>(e),
{
    let n = bytes.len();
    if n < 4 {
        return Err(DecodeError::Truncated);
    }
    let tag = u32_from_be_exec(bytes[0], bytes[1], bytes[2], bytes[3]);
    if tag == 0 {
        if n < 12 {
            return Err(DecodeError::Truncated);
        }
        let len = u64_from_be_exec(
            bytes[4],
            bytes[5],
            bytes[6],
            bytes[7],
            bytes[8],
            bytes[9],
            bytes[10],
            bytes[11],
        );
        let rem = (n - 12) as u64;
        if rem < len {
            Err(DecodeError::Truncated)
        } else if rem > len {
            Err(DecodeError::Trailing)
        } else {
            let payload = vstd::slice::slice_subrange(bytes, 12, n);
            let owned = vstd::slice::slice_to_vec(payload);
            match vec_to_string(owned) {
                Some(message) => {
                    proof {
                        broadcast use encode_utf8_valid_utf8, encode_utf8_decode_utf8;

                    }
                    Ok(ResponsePacket::Error { message })
                },
                None => Err(DecodeError::InvalidUtf8),
            }
        }
    } else if tag == 1 || tag == 2 {
        if n < 9 {
            Err(DecodeError::Truncated)
        } else if n > 9 {
            Err(DecodeError::Trailing)
        } else {
            let x = u16_from_be_exec(bytes[4], bytes[5]);
            let y = u16_from_be_exec(bytes[6], bytes[7]);
            if tag == 1 {
                Ok(ResponsePacket::CellData { x, y, color: bytes[8] })
            } else {
                Ok(ResponsePacket::CellUpdated { x, y, color: bytes[8] })
            }
        }
    } else {
        Err(DecodeError::UnknownTag { tag })
    }
}

/// Relies on `String::from_utf8`: it returns `Ok` exactly when the bytes are
/// valid UTF-8, and then the returned string's bytes are the input bytes.
#[verifier::external_body]
fn vec_to_string(bytes: Vec<u8>) -> (r: Option<String>)
    ensures
        r matches Some(s) ==> encode_utf8(s@) == bytes@,
        r is Some <==> valid_utf8(bytes@),
{
    match String::from_utf8(bytes) {
        Ok(s) => Some(s),
        Err(_) => None,
    }
}

/// Reassembles two big-endian bytes.
fn u16_from_be_exec(b0: u8, b1: u8) -> (v: u16)
    ensures
        v == u16_from_be(b0, b1),
{
    ((b0 as u16) << 8) | (b1 as u16)
}

/// Reassembles four big-endian bytes.
fn u32_from_be_exec(b0: u8, b1: u8, b2: u8, b3: u8) -> (v: u32)
    ensures
        v == u32_from_be(b0, b1, b2, b3),
{
    ((b0 as u32) << 24) | ((b1 as u32) << 16) | ((b2 as u32) << 8) | (b3 as u32)
}

/// Reassembles eight big-endian bytes.
fn u64_from_be_exec(b0: u8, b1: u8, b2: u8, b3: u8, b4: u8, b5: u8, b6: u8, b7: u8) -> (v: u64)
    ensures
        v == u64_from_be(b0, b1, b2, b3, b4, b5, b6, b7),
{
    ((b0 as u64) << 56) | ((b1 as u64) << 48) | ((b2 as u64) << 40) | ((b3 as u64) << 32) | (
    (b4 as u64) << 24) | ((b5 as u64) << 16) | ((b6 as u64) << 8) | (b7 as u64)
}

} // verus!
