//! The rules of relaying a session's data between its TCP connection and
//! the link, shared by client and server.

use vstd::prelude::*;
use crate::frame::{FrameType, MAX_PAYLOAD_LEN};

verus! {

/// How many bytes are read from a TCP connection at once; each read fits
/// one DATA frame.
pub const RELAY_READ_SIZE: usize = 16384;

/// A read fits one frame.
pub proof fn lemma_read_fits_frame()
    ensures
        RELAY_READ_SIZE <= MAX_PAYLOAD_LEN,
{
}

/// What a frame from the link means for the TCP side of a session.
#[derive(Clone, Copy, Debug, PartialEq, Eq, Structural)]
pub enum RelayStep {
    /// Write the frame's payload to the TCP connection.
    Write,
    /// The remote side closed: stop relaying.
    Stop,
    /// Nothing to do.
    Ignore,
}

/// DATA is written out, CLOSE stops relaying, anything else is ignored.
pub fn relay_step(frame_type: FrameType) -> (r: RelayStep)
    ensures
        frame_type == FrameType::Data ==> r == RelayStep::Write,
        frame_type == FrameType::Close ==> r == RelayStep::Stop,
        frame_type != FrameType::Data && frame_type != FrameType::Close ==> r == RelayStep::Ignore,
{
    match frame_type {
        FrameType::Data => RelayStep::Write,
        FrameType::Close => RelayStep::Stop,
        _ => RelayStep::Ignore,
    }
}

/// The frame that a TCP read of `n` bytes is sent as: end of stream (0
/// bytes) is sent as CLOSE, anything else as DATA.
pub fn frame_for_read(n: usize) -> (t: FrameType)
    ensures
        n == 0 ==> t == FrameType::Close,
        n > 0 ==> t == FrameType::Data,
{
    if n == 0 {
        FrameType::Close
    } else {
        FrameType::Data
    }
}

} // verus!
