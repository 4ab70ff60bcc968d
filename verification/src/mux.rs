//! The multiplexer of one RNS link: which link it speaks on, the table of
//! open sessions, the session id counter, and the receive buffer that
//! reassembles frames from link packets.

use vstd::prelude::*;
use std::collections::HashSet;
use crate::event::LinkId;
use crate::frame::{encode_frame, encode_spec, encodable, Frame, FrameError, FrameType, SpecFrame};
use crate::stream::{
    frames_view, lemma_rest_incomplete, packets_spec, packets_view, reassemble, split_packets,
    stream_frames, stream_rest, LINK_MDU,
};

verus! {

broadcast use vstd::std_specs::hash::group_hash_axioms;

/// The mathematical state of a multiplexer.
pub struct MuxView {
    pub link: Option<LinkId>,
    pub next_sid: u32,
    pub sessions: Set<u32>,
    pub rx: Seq<u8>,
}

/// The session id that follows `sid`: ids count up from 1 and wrap around
/// to 1, never giving 0.
pub open spec fn following_sid(sid: u32) -> u32 {
    if sid == u32::MAX {
        1
    } else {
        (sid + 1) as u32
    }
}

impl MuxView {
    /// The state of a new multiplexer.
    pub open spec fn initial() -> MuxView {
        MuxView { link: None, next_sid: 1, sessions: Set::empty(), rx: Seq::empty() }
    }

    /// Whether a link is set.
    pub open spec fn connected(self) -> bool {
        self.link is Some
    }

    /// After the link is lost: no link, no session, nothing buffered; the
    /// id counter goes on.
    pub open spec fn after_reset(self) -> MuxView {
        MuxView { link: None, sessions: Set::empty(), rx: Seq::empty(), ..self }
    }

    /// After `data` arrived: the buffer keeps what is incomplete.
    pub open spec fn after_receive(self, data: Seq<u8>) -> MuxView {
        MuxView { rx: stream_rest(self.rx + data), ..self }
    }

    /// Whether a frame is handed to a session: exactly when its session is open.
    pub open spec fn delivers(self, f: SpecFrame) -> bool {
        self.sessions.contains(f.session_id)
    }

    /// After a frame was dispatched: a delivered CLOSE closes its session.
    pub open spec fn after_dispatch(self, f: SpecFrame) -> MuxView {
        if self.delivers(f) && f.frame_type == FrameType::Close {
            MuxView { sessions: self.sessions.remove(f.session_id), ..self }
        } else {
            self
        }
    }

    /// After a session was opened: it is registered and the counter moves on.
    pub open spec fn after_open(self) -> MuxView {
        MuxView {
            sessions: self.sessions.insert(self.next_sid),
            next_sid: following_sid(self.next_sid),
            ..self
        }
    }
}

/// The multiplexer of one link.
pub struct MuxHandle {
    link: Option<LinkId>,
    last_sid: u32,
    sessions: HashSet<u32>,
    rx: Vec<u8>,
}

impl View for MuxHandle {
    type V = MuxView;

    closed spec fn view(&self) -> MuxView {
        MuxView {
            link: self.link,
            next_sid: following_sid(self.last_sid), sessions: self.sessions@, rx: self.rx@ }
    }
}

/// Why a frame could not be turned into packets.
#[derive(Clone, Copy, Debug, PartialEq, Eq, Structural)]
pub enum SendError {
    /// No link is set.
    NotConnected,
    /// The payload does not fit a frame.
    PayloadTooLarge,
}

impl MuxHandle {
    /// A multiplexer with no link, no session and an empty buffer.
    pub fn new() -> (m: MuxHandle)
        ensures
            m@ == MuxView::initial(),
    {
        let m = MuxHandle { link: None, last_sid: 0, sessions: HashSet::new(), rx: Vec::new() };
        assert(m.rx@ =~= Seq::<u8>::empty());
        m
    }

    /// Sets the link on which this multiplexer speaks.
    pub fn set_link_id(&mut self, link_id: LinkId)
        ensures
            final(self)@ == (MuxView { link: Some(link_id), ..old(self)@ }),
    {
        self.link = Some(link_id);
    }

    /// The link on which this multiplexer speaks, if any.
    pub fn link_id(&self) -> (r: Option<LinkId>)
        ensures
            r == self@.link,
    {
        self.link
    }

    /// Whether a link is set.
    pub fn is_connected(&self) -> (r: bool)
        ensures
            r == self@.connected(),
    {
        self.link.is_some()
    }

    /// Takes the next session id: ids count up from 1 and wrap to 1.
    pub fn next_session_id(&mut self) -> (sid: u32)
        ensures
            sid == old(self)@.next_sid,
            sid != 0,
            final(self)@ == (MuxView { next_sid: following_sid(old(self)@.next_sid), ..old(self)@ }),
    {
        let sid = if self.last_sid == u32::MAX {
            1
        } else {
            self.last_sid + 1
        };
        self.last_sid = sid;
        sid
    }

    /// Registers an open session.
    pub fn register_session(&mut self, sid: u32)
        ensures
            final(self)@ == (MuxView { sessions: old(self)@.sessions.insert(sid), ..old(self)@ }),
    {
        self.sessions.insert(sid);
    }

    /// Forgets a session.
    pub fn drop_session(&mut self, sid: u32)
        ensures
            final(self)@ == (MuxView { sessions: old(self)@.sessions.remove(sid), ..old(self)@ }),
    {
        self.sessions.remove(&sid);
    }

    /// Whether a session is open.
    pub fn has_session(&self, sid: u32) -> (r: bool)
        ensures
            r == self@.sessions.contains(sid),
    {
        self.sessions.contains(&sid)
    }

    /// Forgets the link, every session and whatever is buffered.
    pub fn reset(&mut self)
        ensures
            final(self)@ == old(self)@.after_reset(),
    {
        self.link = None;
        self.sessions.clear();
        self.rx = Vec::new();
        assert(self.rx@ =~= Seq::<u8>::empty());
    }

    /// Opens a session for a new local connection: refused (`None`, nothing
    /// changed) when no link is set; otherwise the next id, now registered.
    pub fn open_session(&mut self) -> (r: Option<u32>)
        ensures
            !old(self)@.connected() ==> r is None && final(self)@ == old(self)@,
            old(self)@.connected() ==> r == Some(old(self)@.next_sid) && final(self)@
                == old(self)@.after_open(),
    {
        if !self.is_connected() {
            return None;
        }
        let sid = self.next_session_id();
        self.register_session(sid);
        Some(sid)
    }

    /// Takes in bytes that arrived on the link and returns the complete
    /// frames, in order; an incomplete tail waits for more bytes.
    pub fn receive_data(&mut self, data: &[u8]) -> (frames: Vec<Frame>)
        ensures
            frames_view(frames@) == stream_frames(old(self)@.rx + data@),
            final(self)@ == old(self)@.after_receive(data@),
    {
        let mut rx = Vec::new();
        std::mem::swap(&mut rx, &mut self.rx);
        let frames = reassemble(&mut rx, data);
        proof {
            lemma_rest_incomplete(old(self)@.rx + data@);
        }
        self.rx = rx;
        frames
    }

    /// Decides what becomes of a received frame: it is delivered (`true`)
    /// exactly when its session is open, and a delivered CLOSE closes the
    /// session.
    pub fn dispatch(&mut self, frame: &Frame) -> (delivered: bool)
        ensures
            delivered == old(self)@.delivers(frame@),
            final(self)@ == old(self)@.after_dispatch(frame@),
    {
        let sid = frame.session_id;
        if !self.sessions.contains(&sid) {
            return false;
        }
        if frame.frame_type == FrameType::Close {
            self.sessions.remove(&sid);
        }
        true
    }

    /// The link packets that carry a frame: refused when no link is set or
    /// the payload does not fit; otherwise the encoded frame cut into
    /// packets of at most `LINK_MDU` bytes.
    pub fn send(&self, frame_type: FrameType, sid: u32, payload: Vec<u8>) -> (r: Result<
        Vec<Vec<u8>>,
        SendError,
    >)
        ensures
            !self@.connected() ==> r == Err::<Vec<Vec<u8>>, SendError>(SendError::NotConnected),
            self@.connected() && !encodable(SpecFrame { frame_type, session_id: sid, payload: payload@ })
                ==> r == Err::<Vec<Vec<u8>>, SendError>(SendError::PayloadTooLarge),
            r matches Ok(packets) ==> self@.connected() && packets_view(packets@) == packets_spec(
                encode_spec(SpecFrame { frame_type, session_id: sid, payload: payload@ }),
                LINK_MDU as nat,
            ),
            self@.connected() && encodable(SpecFrame { frame_type, session_id: sid, payload: payload@ })
                ==> r is Ok,
    {
        if self.link.is_none() {
            return Err(SendError::NotConnected);
        }
        let frame = Frame::new(frame_type, sid, payload);
        match encode_frame(&frame) {
            Ok(bytes) => Ok(split_packets(bytes.as_slice())),
            Err(FrameError::PayloadTooLarge) => Err(SendError::PayloadTooLarge),
        }
    }
}


/// The session id given out after `k` more ids were taken from `start`.
pub open spec fn sid_after(start: u32, k: nat) -> u32
    decreases k,
{
    if k == 0 {
        start
    } else {
        following_sid(sid_after(start, (k - 1) as nat))
    }
}

/// Session ids count up modulo `u32::MAX`, skipping 0.
proof fn lemma_sid_after_closed_form(start: u32, k: nat)
    requires
        start != 0,
    ensures
        sid_after(start, k) == ((start - 1 + k) % 0xFFFF_FFFF) + 1,
    decreases k,
{
    if k > 0 {
        lemma_sid_after_closed_form(start, (k - 1) as nat);
        let a: int = start - 1 + k - 1;
        assert(a >= 0);
        assert((a + 1) % 0xFFFF_FFFF == if a % 0xFFFF_FFFF == 0xFFFF_FFFE {
            0
        } else {
            a % 0xFFFF_FFFF + 1
        }) by (nonlinear_arith)
            requires
                a >= 0,
        ;
    }
}

/// Session ids are never 0, and no id comes back before `u32::MAX - 1`
/// further ids were given out: sessions opened on a multiplexer get
/// distinct ids.
pub proof fn lemma_session_ids_distinct(start: u32, i: nat, j: nat)
    requires
        start != 0,
        i < j < u32::MAX,
    ensures
        sid_after(start, i) != 0,
        sid_after(start, i) != sid_after(start, j),
{
    lemma_sid_after_closed_form(start, i);
    lemma_sid_after_closed_form(start, j);
    let a: int = start - 1 + i;
    let d: int = j - i;
    assert((a + d) % 0xFFFF_FFFF != a % 0xFFFF_FFFF) by (nonlinear_arith)
        requires
            a >= 0,
            0 < d < 0xFFFF_FFFF,
    ;
}

/// A session opened while a link is set receives the frames addressed to it.
pub proof fn lemma_open_then_delivers(v: MuxView, f: SpecFrame)
    requires
        f.session_id == v.next_sid,
    ensures
        v.after_open().delivers(f),
{
}

/// Once a CLOSE was delivered to a session, nothing more is delivered to it.
pub proof fn lemma_close_ends_session(v: MuxView, f: SpecFrame, g: SpecFrame)
    requires
        v.delivers(f),
        f.frame_type == FrameType::Close,
        g.session_id == f.session_id,
    ensures
        !v.after_dispatch(f).delivers(g),
{
}

/// Frames other than CLOSE leave the session table as it was.
pub proof fn lemma_non_close_keeps_sessions(v: MuxView, f: SpecFrame)
    requires
        f.frame_type != FrameType::Close,
    ensures
        v.after_dispatch(f) == v,
{
}

/// After the link is lost nothing is delivered, no link is set and nothing
/// stays buffered.
pub proof fn lemma_reset_forgets_all(v: MuxView, f: SpecFrame)
    ensures
        !v.after_reset().delivers(f),
        !v.after_reset().connected(),
        v.after_reset().rx.len() == 0,
{
}

/// Receiving `a` and then `b` delivers the same frames, and leaves the same
/// state, as receiving `a + b` at once.
pub proof fn lemma_receive_in_two(v: MuxView, a: Seq<u8>, b: Seq<u8>)
    ensures
        stream_frames(v.rx + a) + stream_frames(v.after_receive(a).rx + b) == stream_frames(
            v.rx + (a + b),
        ),
        v.after_receive(a).after_receive(b) == v.after_receive(a + b),
{
    crate::stream::lemma_stream_split(v.rx + a, b);
    assert(v.rx + (a + b) =~= (v.rx + a) + b);
}

} // verus!
