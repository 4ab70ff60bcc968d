//! The multiplexed frame format:
//! `[1 byte type][4 bytes session_id][2 bytes payload_len][payload]`,
//! with multi-byte integers in network (big-endian) order.

use vstd::prelude::*;

verus! {

/// Length of the fixed frame header.
pub const HEADER_LEN: usize = 7;

/// Largest payload that the two-byte length field can describe.
pub const MAX_PAYLOAD_LEN: usize = 65535;

/// The kind of a frame.
#[derive(Clone, Copy, Debug, PartialEq, Eq, Structural)]
pub enum FrameType {
    /// Request a connection to `host:port` (code `0x01`).
    Connect,
    /// The connection succeeded (code `0x02`).
    ConnectOk,
    /// The connection failed; the payload is a UTF-8 reason (code `0x03`).
    ConnectErr,
    /// Session data, in either direction (code `0x04`).
    Data,
    /// Close the session (code `0x05`).
    Close,
}

/// The wire code of a frame type.
pub open spec fn type_code(t: FrameType) -> u8 {
    match t {
        FrameType::Connect => 1,
        FrameType::ConnectOk => 2,
        FrameType::ConnectErr => 3,
        FrameType::Data => 4,
        FrameType::Close => 5,
    }
}

/// The frame type with a given wire code, if any.
pub open spec fn type_of_code(b: u8) -> Option<FrameType> {
    if b == 1 {
        Some(FrameType::Connect)
    } else if b == 2 {
        Some(FrameType::ConnectOk)
    } else if b == 3 {
        Some(FrameType::ConnectErr)
    } else if b == 4 {
        Some(FrameType::Data)
    } else if b == 5 {
        Some(FrameType::Close)
    } else {
        None
    }
}

impl FrameType {
    /// The wire code of this frame type.
    pub fn to_u8(self) -> (b: u8)
        ensures
            b == type_code(self),
    {
        match self {
            FrameType::Connect => 1,
            FrameType::ConnectOk => 2,
            FrameType::ConnectErr => 3,
            FrameType::Data => 4,
            FrameType::Close => 5,
        }
    }

    /// The frame type with wire code `b`; `None` for an unknown code.
    pub fn from_u8(b: u8) -> (r: Option<FrameType>)
        ensures
            r == type_of_code(b),
    {
        if b == 1 {
            Some(FrameType::Connect)
        } else if b == 2 {
            Some(FrameType::ConnectOk)
        } else if b == 3 {
            Some(FrameType::ConnectErr)
        } else if b == 4 {
            Some(FrameType::Data)
        } else if b == 5 {
            Some(FrameType::Close)
        } else {
            None
        }
    }
}

/// Decoding a code gives back the type that was encoded.
pub proof fn lemma_type_code_roundtrip(t: FrameType)
    ensures
        type_of_code(type_code(t)) == Some(t),
{
}

/// The mathematical value of a frame.
pub struct SpecFrame {
    pub frame_type: FrameType,
    pub session_id: u32,
    pub payload: Seq<u8>,
}

/// One multiplexed frame.
#[derive(Debug, PartialEq, Eq)]
pub struct Frame {
    pub frame_type: FrameType,
    pub session_id: u32,
    pub payload: Vec<u8>,
}

impl View for Frame {
    type V = SpecFrame;

    open spec fn view(&self) -> SpecFrame {
        SpecFrame { frame_type: self.frame_type, session_id: self.session_id, payload: self.payload@ }
    }
}

impl Frame {
    /// Builds a frame from its parts.
    pub fn new(frame_type: FrameType, session_id: u32, payload: Vec<u8>) -> (f: Frame)
        ensures
            f@ == (SpecFrame { frame_type, session_id, payload: payload@ }),
    {
        Frame { frame_type, session_id, payload }
    }

    /// A copy of this frame.
    pub fn duplicate(&self) -> (f: Frame)
        ensures
            f@ == self@,
    {
        Frame {
            frame_type: self.frame_type,
            session_id: self.session_id,
            payload: vstd::slice::slice_to_vec(self.payload.as_slice()),
        }
    }
}

/// Big-endian bytes of a 32-bit integer.
pub open spec fn be32(n: u32) -> Seq<u8> {
    seq![
        (n / 0x100_0000) as u8,
        ((n / 0x1_0000) % 0x100) as u8,
        ((n / 0x100) % 0x100) as u8,
        (n % 0x100) as u8,
    ]
}

/// Big-endian bytes of a 16-bit integer.
pub open spec fn be16(n: nat) -> Seq<u8> {
    seq![((n / 0x100) % 0x100) as u8, (n % 0x100) as u8]
}

/// The session id read from header bytes 1..5.
pub open spec fn header_session_id(b: Seq<u8>) -> u32 {
    (b[1] * 0x100_0000 + b[2] * 0x1_0000 + b[3] * 0x100 + b[4]) as u32
}

/// The payload length read from header bytes 5..7.
pub open spec fn header_payload_len(b: Seq<u8>) -> nat {
    (b[5] * 0x100 + b[6]) as nat
}

/// The bytes of a frame on the wire.
pub open spec fn encode_spec(f: SpecFrame) -> Seq<u8> {
    seq![type_code(f.frame_type)] + be32(f.session_id) + be16(f.payload.len()) + f.payload
}

/// Whether a frame fits the format (its payload length fits the length field).
pub open spec fn encodable(f: SpecFrame) -> bool {
    f.payload.len() <= MAX_PAYLOAD_LEN
}

/// Errors of frame encoding.
#[derive(Clone, Copy, Debug, PartialEq, Eq, Structural)]
pub enum FrameError {
    /// The payload is longer than the length field can describe.
    PayloadTooLarge,
}

/// Encodes a frame; fails exactly when its payload is longer than
/// `MAX_PAYLOAD_LEN`.
pub fn encode_frame(f: &Frame) -> (r: Result<Vec<u8>, FrameError>)
    ensures
        encodable(f@) <==> r is Ok,
        r matches Ok(bytes) ==> bytes@ == encode_spec(f@),
        r matches Err(e) ==> e == FrameError::PayloadTooLarge,
{
    let len = f.payload.len();
    if len > MAX_PAYLOAD_LEN {
        return Err(FrameError::PayloadTooLarge);
    }
    let sid = f.session_id;
    let mut out: Vec<u8> = Vec::with_capacity(HEADER_LEN + len);
    out.push(f.frame_type.to_u8());
    out.push((sid / 0x100_0000) as u8);
    out.push(((sid / 0x1_0000) % 0x100) as u8);
    out.push(((sid / 0x100) % 0x100) as u8);
    out.push((sid % 0x100) as u8);
    out.push(((len / 0x100) % 0x100) as u8);
    out.push((len % 0x100) as u8);
    let ghost header = out@;
    assert(header =~= seq![type_code(f.frame_type)] + be32(sid) + be16(len as nat));
    let mut i: usize = 0;
    while i < len
        invariant
            i <= len,
            len == f.payload@.len(),
            out@ =~= header + f.payload@.subrange(0, i as int),
        decreases len - i,
    {
        out.push(f.payload[i]);
        i = i + 1;
    }
    assert(f.payload@.subrange(0, len as int) =~= f.payload@);
    Ok(out)
}

} // verus!
