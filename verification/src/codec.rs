//! The RCON frame codec.
//!
//! A frame travels on the wire as `[u32 LE length][i32 LE id][i32 LE kind]
//! [body bytes, UTF-8][0x00][0x00]`, where `length` counts everything after
//! the length field itself. The total encoded size (length field included)
//! may never exceed `MAX_FRAME_LEN` bytes; an oversized frame is rejected
//! outright, never truncated.
//!
//! Decoding works against an accumulating buffer: it consumes exactly one
//! frame when enough bytes have arrived and otherwise reports "need more
//! data", so a caller can feed it a live, partially-filled buffer across
//! any number of reads.

use vstd::prelude::*;
use vstd::bytes::{spec_u32_from_le_bytes, spec_u32_to_le_bytes, u32_from_le_bytes, u32_to_le_bytes,
    lemma_auto_spec_u32_to_from_le_bytes};
use vstd::utf8::{valid_utf8, decode_utf8, encode_utf8, encode_utf8_valid_utf8,
    encode_utf8_decode_utf8};
use vstd::slice::{slice_subrange, slice_to_vec};
use vstd::string::StrSliceExecFns;

verus! {

/// Hard cap on the total encoded size of one frame, in bytes.
pub const MAX_FRAME_LEN: usize = 4096;

/// Frame kind sent to authenticate.
pub const SERVERDATA_AUTH: i32 = 3;

/// Frame kind of the server's reply to an authentication request. It shares
/// its numeric value with `SERVERDATA_EXECCOMMAND`; direction and protocol
/// phase disambiguate the two.
pub const SERVERDATA_AUTH_RESPONSE: i32 = 2;

/// Frame kind sent to execute a command.
pub const SERVERDATA_EXECCOMMAND: i32 = 2;

/// Frame kind of the server's reply to an executed command.
pub const SERVERDATA_RESPONSE_VALUE: i32 = 0;

/// One frame of the RCON wire protocol.
#[derive(Debug, PartialEq)]
pub struct Frame {
    /// Correlates a reply with its request during authentication.
    pub id: i32,
    /// What the frame means; one of the `SERVERDATA_*` codes.
    pub kind: i32,
    /// The frame's text payload.
    pub body: String,
}

/// Mathematical model of a frame: the two codes and the body's characters.
pub struct FrameModel {
    pub id: i32,
    pub kind: i32,
    pub body: Seq<char>,
}

impl View for Frame {
    type V = FrameModel;

    open spec fn view(&self) -> FrameModel {
        FrameModel { id: self.id, kind: self.kind, body: self.body@ }
    }
}

/// The errors of the RCON codec and connection.
#[derive(Debug, PartialEq)]
pub enum RconError {
    /// The frame's encoded size exceeds `MAX_FRAME_LEN`, on encode or decode.
    FrameTooLarge,
    /// A decoded frame's body is not valid UTF-8.
    InvalidBody,
    /// The authentication handshake got no reply, or a reply whose id or
    /// kind does not match the request.
    AuthenticationFailed,
    /// A reply to an executed command had an unexpected kind; the offending
    /// frame is attached for diagnostics.
    ProtocolViolation(Frame),
    /// The transport closed while a reply was expected.
    ConnectionReset,
}

/// The bytes of a frame's body on the wire: its text, UTF-8 encoded.
pub open spec fn spec_body_bytes(m: FrameModel) -> Seq<u8> {
    encode_utf8(m.body)
}

/// The value of a frame's length field: id, kind, body and the two
/// terminator bytes (the length field itself is not counted).
pub open spec fn spec_wire_len(m: FrameModel) -> int {
    10 + spec_body_bytes(m).len() as int
}

/// Whether a frame fits under the size cap: its length field — id, kind,
/// body and terminator together — may not exceed `MAX_FRAME_LEN`.
pub open spec fn fits_frame(m: FrameModel) -> bool {
    spec_wire_len(m) <= MAX_FRAME_LEN
}

/// The unsigned 32-bit value with the same bit pattern as `x`.
pub open spec fn i32_bits(x: i32) -> u32 {
    if x >= 0 {
        x as u32
    } else {
        (x + 0x1_0000_0000) as u32
    }
}

/// The signed 32-bit value with the same bit pattern as `x`.
pub open spec fn u32_as_i32(x: u32) -> i32 {
    if x <= 0x7fff_ffff {
        x as i32
    } else {
        (x - 0x1_0000_0000) as i32
    }
}

/// Reading back the bit pattern of an `i32` restores it.
pub proof fn lemma_i32_bits_round_trip(x: i32)
    ensures
        u32_as_i32(i32_bits(x)) == x,
{
}

/// The exact bytes a fitting frame takes on the wire.
pub open spec fn spec_encode(m: FrameModel) -> Seq<u8> {
    spec_u32_to_le_bytes(spec_wire_len(m) as u32) + spec_u32_to_le_bytes(i32_bits(m.id))
        + spec_u32_to_le_bytes(i32_bits(m.kind)) + spec_body_bytes(m) + seq![0u8, 0u8]
}

/// What one decoding attempt against a buffer does.
pub enum DecodeStep {
    /// Too few bytes for a whole frame; nothing is consumed.
    NeedMore,
    /// The declared length exceeds the cap; nothing is consumed.
    TooLarge,
    /// A whole frame was consumed but its body is not valid UTF-8.
    BadBody { consumed: int },
    /// A whole frame was consumed and decoded.
    Decoded { frame: FrameModel, consumed: int },
}

/// The length a buffer's first four bytes declare for the frame they open.
pub open spec fn spec_decl_len(b: Seq<u8>) -> int {
    spec_u32_from_le_bytes(b.subrange(0, 4)) as int
}

/// A complete buffered frame whose declared length leaves no room for the
/// id, kind and terminator fields. Decoding such a buffer is undefined (the
/// body length would be negative); `decode_frame` refuses it up front.
pub open spec fn decode_would_underflow(b: Seq<u8>) -> bool {
    b.len() >= 4 && spec_decl_len(b) < 10 && b.len() >= 4 + spec_decl_len(b)
}

/// What decoding one frame from the front of `b` yields.
pub open spec fn spec_decode(b: Seq<u8>) -> DecodeStep {
    if b.len() < 4 {
        DecodeStep::NeedMore
    } else {
        let l = spec_decl_len(b);
        if l > MAX_FRAME_LEN as int {
            DecodeStep::TooLarge
        } else if b.len() < 4 + l {
            DecodeStep::NeedMore
        } else {
            let body = b.subrange(12, 4 + l - 2);
            if valid_utf8(body) {
                DecodeStep::Decoded {
                    frame: FrameModel {
                        id: u32_as_i32(spec_u32_from_le_bytes(b.subrange(4, 8))),
                        kind: u32_as_i32(spec_u32_from_le_bytes(b.subrange(8, 12))),
                        body: decode_utf8(body),
                    },
                    consumed: 4 + l,
                }
            } else {
                DecodeStep::BadBody { consumed: 4 + l }
            }
        }
    }
}

/// Relies on `String::from_utf8`: it succeeds exactly on valid UTF-8 input,
/// and then returns the string those bytes encode.
#[verifier::external_body]
fn string_from_utf8(bytes: Vec<u8>) -> (r: Option<String>)
    ensures
        r is Some <==> valid_utf8(bytes@),
        r matches Some(s) ==> s@ == decode_utf8(bytes@),
{
    String::from_utf8(bytes).ok()
}

/// The bit pattern of `x`, as the wire carries it.
fn i32_to_wire(x: i32) -> (r: u32)
    ensures
        r == i32_bits(x),
{
    if x >= 0 {
        x as u32
    } else {
        (((x as i64) + 0x1_0000_0000) as u64) as u32
    }
}

/// The signed value whose bit pattern the wire carried.
fn wire_to_i32(x: u32) -> (r: i32)
    ensures
        r == u32_as_i32(x),
{
    if x <= 0x7fff_ffff {
        x as i32
    } else {
        ((x as i64) - 0x1_0000_0000) as i32
    }
}

/// Reads the little-endian `u32` at `pos`.
fn read_le_u32(buf: &Vec<u8>, pos: usize) -> (x: u32)
    requires
        pos + 4 <= buf@.len(),
    ensures
        x == spec_u32_from_le_bytes(buf@.subrange(pos as int, pos + 4)),
{
    // Pinning the buffer's length to a machine word keeps the index
    // arithmetic below in range.
    let n: usize = buf.len();
    let window = slice_subrange(buf.as_slice(), pos, pos + 4);
    u32_from_le_bytes(window)
}

/// Appends the encoding of `frame` to `dst`.
///
/// A frame that fits under the cap is written whole: length, id and kind as
/// little-endian 32-bit fields, the body's UTF-8 bytes, then two zero
/// bytes. A frame that does not fit is rejected as `FrameTooLarge` with
/// `dst` untouched — an oversized frame is never truncated and never
/// partially written.
pub fn encode_frame(frame: &Frame, dst: &mut Vec<u8>) -> (r: Result<(), RconError>)
    ensures
        fits_frame(frame@) ==> r is Ok && final(dst)@ == old(dst)@ + spec_encode(frame@),
        !fits_frame(frame@) ==> (r matches Err(e) && e is FrameTooLarge && final(dst)@ == old(dst)@),
{
    let body: Vec<u8> = frame.body.as_str().as_bytes_vec();
    if body.len() > MAX_FRAME_LEN - 10 {
        return Err(RconError::FrameTooLarge);
    }
    let wire_len: u32 = (body.len() + 10) as u32;
    let mut field = u32_to_le_bytes(wire_len);
    dst.append(&mut field);
    let mut field = u32_to_le_bytes(i32_to_wire(frame.id));
    dst.append(&mut field);
    let mut field = u32_to_le_bytes(i32_to_wire(frame.kind));
    dst.append(&mut field);
    let mut body = body;
    dst.append(&mut body);
    dst.push(0u8);
    dst.push(0u8);
    proof {
        assert(dst@ =~= old(dst)@ + spec_encode(frame@));
    }
    Ok(())
}

/// Attempts to extract one frame from the front of the accumulating buffer.
///
/// With fewer than four bytes buffered, or with fewer bytes than the
/// declared length calls for, nothing is consumed and `Ok(None)` asks for
/// more data; decoding can resume on the same buffer after the next read.
/// A declared length over the cap is `FrameTooLarge` with nothing consumed.
/// Otherwise the whole frame's bytes are consumed; a body that is not valid
/// UTF-8 is `InvalidBody`, and a valid one yields the decoded frame.
pub fn decode_frame(buf: &mut Vec<u8>) -> (r: Result<Option<Frame>, RconError>)
    requires
        !decode_would_underflow(old(buf)@),
    ensures
        spec_decode(old(buf)@) is NeedMore ==> (r matches Ok(f) && f is None && final(buf)@ == old(
            buf,
        )@),
        spec_decode(old(buf)@) is TooLarge ==> (r matches Err(e) && e is FrameTooLarge && final(buf)@
            == old(buf)@),
        spec_decode(old(buf)@) matches DecodeStep::BadBody { consumed } ==> (r matches Err(e)
            && e is InvalidBody && final(buf)@ == old(buf)@.skip(consumed)),
        spec_decode(old(buf)@) matches DecodeStep::Decoded { frame, consumed } ==> (r matches Ok(
            f,
        ) && f matches Some(df) && df@ == frame && final(buf)@ == old(buf)@.skip(consumed)),
{
    if buf.len() < 4 {
        return Ok(None);
    }
    let length = read_le_u32(buf, 0) as usize;
    if length > MAX_FRAME_LEN {
        return Err(RconError::FrameTooLarge);
    }
    if buf.len() < 4 + length {
        buf.reserve(4 + length - buf.len());
        return Ok(None);
    }
    let id = wire_to_i32(read_le_u32(buf, 4));
    let kind = wire_to_i32(read_le_u32(buf, 8));
    let body_bytes: Vec<u8> = slice_to_vec(slice_subrange(buf.as_slice(), 12, 4 + length - 2));
    let rest: Vec<u8> = slice_to_vec(slice_subrange(buf.as_slice(), 4 + length, buf.len()));
    *buf = rest;
    match string_from_utf8(body_bytes) {
        Some(body) => Ok(Some(Frame { id, kind, body })),
        None => Err(RconError::InvalidBody),
    }
}

/// Whether the buffer's leading frame, if complete, declares a length that
/// `decode_frame` accepts. A caller reading from an untrusted peer tests
/// this before decoding.
pub fn buffered_frame_well_sized(buf: &Vec<u8>) -> (b: bool)
    ensures
        b == !decode_would_underflow(buf@),
{
    if buf.len() < 4 {
        return true;
    }
    let length = read_le_u32(buf, 0) as usize;
    if length >= 10 {
        return true;
    }
    buf.len() < 4 + length
}

/// Round trip: decoding the encoding of any fitting frame yields that frame
/// back — same id, same kind, same body — and consumes exactly its bytes.
pub proof fn lemma_round_trip(m: FrameModel)
    requires
        fits_frame(m),
    ensures
        spec_encode(m).len() == 4 + spec_wire_len(m),
        spec_decode(spec_encode(m)) == (DecodeStep::Decoded {
            frame: m,
            consumed: spec_encode(m).len() as int,
        }),
{
    lemma_auto_spec_u32_to_from_le_bytes();
    let e = spec_encode(m);
    let bb = spec_body_bytes(m);
    let wire = spec_wire_len(m);
    assert(e.len() == 4 + wire);
    assert(e.subrange(0, 4) =~= spec_u32_to_le_bytes(wire as u32));
    assert(spec_decl_len(e) == wire);
    assert(e.subrange(4, 8) =~= spec_u32_to_le_bytes(i32_bits(m.id)));
    assert(e.subrange(8, 12) =~= spec_u32_to_le_bytes(i32_bits(m.kind)));
    assert(e.subrange(12, 4 + wire - 2) =~= bb);
    broadcast use encode_utf8_valid_utf8;

    encode_utf8_decode_utf8(m.body);
    lemma_i32_bits_round_trip(m.id);
    lemma_i32_bits_round_trip(m.kind);
}

/// Partial delivery: every proper prefix of an encoded frame decodes to
/// "need more data"; only the complete encoding yields the frame (which
/// `lemma_round_trip` states).
pub proof fn lemma_partial_delivery(m: FrameModel, n: int)
    requires
        fits_frame(m),
        0 <= n < spec_encode(m).len(),
    ensures
        spec_decode(spec_encode(m).subrange(0, n)) is NeedMore,
{
    lemma_auto_spec_u32_to_from_le_bytes();
    let e = spec_encode(m);
    let p = e.subrange(0, n);
    if n >= 4 {
        assert(p.subrange(0, 4) =~= spec_u32_to_le_bytes(spec_wire_len(m) as u32));
        assert(spec_decl_len(p) == spec_wire_len(m));
        assert(e.len() == 4 + spec_wire_len(m));
    }
}

} // verus!
