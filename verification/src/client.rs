//! The client's decisions on RNS events: while a link is being set up, and
//! while its link is up (dispatching frames to sessions).

use vstd::prelude::*;
use crate::event::{LinkId, ProxyEvent};
use crate::frame::{encodable, encode_spec, Frame, FrameType, SpecFrame};
use crate::mux::{MuxHandle, MuxView};
use crate::stream::{frames_view, stream_frames};

verus! {

/// How long the client waits for a new link to come up, in seconds.
pub const LINK_ESTABLISH_TIMEOUT_SECS: u64 = 15;

/// How long the client first looks for a path to the server, in seconds.
pub const INITIAL_PATH_TIMEOUT_SECS: u64 = 30;

/// How long a SOCKS session waits for the server's answer to CONNECT, in
/// seconds.
pub const CONNECT_TIMEOUT_SECS: u64 = 15;

/// The progress of setting up a link.
#[derive(Clone, Copy, Debug, PartialEq, Eq, Structural)]
pub enum LinkSetup {
    /// The link that was asked for is up, initiated by this side.
    Established,
    /// The link that was asked for closed before it came up.
    Failed,
    /// Nothing decided yet; keep waiting.
    Pending,
}

/// What an event means for the set-up of the link `expected`.
pub open spec fn link_setup_spec(expected: LinkId, e: ProxyEvent) -> LinkSetup {
    match e {
        ProxyEvent::LinkEstablished { link_id, is_initiator } => if link_id == expected
            && is_initiator {
            LinkSetup::Established
        } else {
            LinkSetup::Pending
        },
        ProxyEvent::LinkClosed { link_id } => if link_id == expected {
            LinkSetup::Failed
        } else {
            LinkSetup::Pending
        },
        _ => LinkSetup::Pending,
    }
}

/// Takes an event while the link `expected` is being set up. When it is
/// established, the multiplexer speaks on it from now on; otherwise the
/// multiplexer is untouched.
pub fn link_setup_step(mux: &mut MuxHandle, expected: LinkId, event: &ProxyEvent) -> (r: LinkSetup)
    ensures
        r == link_setup_spec(expected, *event),
        r == LinkSetup::Established ==> final(mux)@ == (MuxView {
            link: Some(expected),
            ..old(mux)@
        }),
        r != LinkSetup::Established ==> final(mux)@ == old(mux)@,
{
    match event {
        ProxyEvent::LinkEstablished { link_id, is_initiator } => {
            if *link_id == expected && *is_initiator {
                mux.set_link_id(expected);
                LinkSetup::Established
            } else {
                LinkSetup::Pending
            }
        },
        ProxyEvent::LinkClosed { link_id } => {
            if *link_id == expected {
                LinkSetup::Failed
            } else {
                LinkSetup::Pending
            }
        },
        _ => LinkSetup::Pending,
    }
}

/// The frames that dispatching `fs` in order delivers, and the state after.
pub open spec fn dispatch_all(v: MuxView, fs: Seq<SpecFrame>) -> (Seq<SpecFrame>, MuxView)
    decreases fs.len(),
{
    if fs.len() == 0 {
        (Seq::empty(), v)
    } else {
        let rest = dispatch_all(v.after_dispatch(fs[0]), fs.drop_first());
        (if v.delivers(fs[0]) { seq![fs[0]] + rest.0 } else { rest.0 }, rest.1)
    }
}

/// Dispatches the frames in order and returns those that were delivered.
pub fn dispatch_frames(mux: &mut MuxHandle, frames: &Vec<Frame>) -> (delivered: Vec<Frame>)
    ensures
        frames_view(delivered@) == dispatch_all(old(mux)@, frames_view(frames@)).0,
        final(mux)@ == dispatch_all(old(mux)@, frames_view(frames@)).1,
{
    let ghost fs = frames_view(frames@);
    let mut out: Vec<Frame> = Vec::new();
    let mut i: usize = 0;
    assert(fs.skip(0) =~= fs);
    while i < frames.len()
        invariant
            i <= frames@.len(),
            fs == frames_view(frames@),
            dispatch_all(old(mux)@, fs).0 == frames_view(out@) + dispatch_all(mux@, fs.skip(i as int)).0,
            dispatch_all(old(mux)@, fs).1 == dispatch_all(mux@, fs.skip(i as int)).1,
        decreases frames@.len() - i,
    {
        let ghost before = mux@;
        let ghost out_before = frames_view(out@);
        let ghost t = fs.skip(i as int);
        assert(t[0] == frames[i as int]@);
        assert(t.drop_first() =~= fs.skip(i + 1));
        if mux.dispatch(&frames[i]) {
            out.push(frames[i].duplicate());
            assert(frames_view(out@) =~= out_before + seq![t[0]]);
        } else {
            assert(frames_view(out@) =~= out_before);
        }
        i = i + 1;
    }
    assert(fs.skip(i as int) =~= Seq::<SpecFrame>::empty());
    assert(frames_view(out@) + Seq::<SpecFrame>::empty() =~= frames_view(out@));
    out
}

/// What the client does next while its link is up.
#[derive(Clone, Copy, Debug, PartialEq, Eq, Structural)]
pub enum ClientDispatch {
    /// Keep dispatching.
    Continue,
    /// The link is lost: reconnect; `transport_dead` when the connection to
    /// the RNS daemon went down too.
    LinkLost { transport_dead: bool },
}

/// Takes an event while the link is up. Link data is reassembled into
/// frames, which are dispatched to their sessions (the delivered ones are
/// returned); a closed link or a dead transport resets the multiplexer and
/// ends dispatching; other events change nothing.
pub fn client_dispatch(mux: &mut MuxHandle, event: ProxyEvent) -> (r: (Vec<Frame>, ClientDispatch))
    ensures
        match event {
            ProxyEvent::LinkData { data, .. } => {
                let fs = stream_frames(old(mux)@.rx + data@);
                let d = dispatch_all(old(mux)@.after_receive(data@), fs);
                &&& frames_view(r.0@) == d.0
                &&& final(mux)@ == d.1
                &&& r.1 == ClientDispatch::Continue
            },
            ProxyEvent::LinkClosed { .. } => {
                &&& r.0@.len() == 0
                &&& final(mux)@ == old(mux)@.after_reset()
                &&& r.1 == ClientDispatch::LinkLost { transport_dead: false }
            },
            ProxyEvent::InterfaceDown => {
                &&& r.0@.len() == 0
                &&& final(mux)@ == old(mux)@.after_reset()
                &&& r.1 == ClientDispatch::LinkLost { transport_dead: true }
            },
            _ => {
                &&& r.0@.len() == 0
                &&& final(mux)@ == old(mux)@
                &&& r.1 == ClientDispatch::Continue
            },
        },
{
    match event {
        ProxyEvent::LinkData { data, .. } => {
            let frames = mux.receive_data(data.as_slice());
            let delivered = dispatch_frames(mux, &frames);
            (delivered, ClientDispatch::Continue)
        },
        ProxyEvent::LinkClosed { .. } => {
            mux.reset();
            (Vec::new(), ClientDispatch::LinkLost { transport_dead: false })
        },
        ProxyEvent::InterfaceDown => {
            mux.reset();
            (Vec::new(), ClientDispatch::LinkLost { transport_dead: true })
        },
        _ => (Vec::new(), ClientDispatch::Continue),
    }
}

/// Seconds between attempts to recall the server's identity at start-up.
pub const RECALL_RETRY_SECS: u64 = 1;

/// What the client does next while it first looks for the server.
#[derive(Clone, Copy, Debug, PartialEq, Eq, Structural)]
pub enum PathWaitAction {
    /// Look for a path to the server, waiting at most this long.
    EnsurePath { timeout_secs: u64 },
    /// Recall the server's signing key from its announced identity.
    RecallIdentity,
    /// Wait this many seconds.
    Sleep { secs: u64 },
    /// The server's identity is known: set up the link.
    Found,
}

/// Which action's outcome is awaited.
#[derive(Clone, Copy, Debug, PartialEq, Eq, Structural)]
pub enum PathWaitStage {
    LookingForPath,
    Recalling,
    Pausing,
    Found,
}

/// The next stage and action, given whether the pending action succeeded:
/// the path is looked for once (its outcome does not matter), then the
/// identity is recalled every second until that succeeds.
pub open spec fn path_wait_step_spec(stage: PathWaitStage, ok: bool) -> (PathWaitStage, PathWaitAction) {
    match stage {
        PathWaitStage::LookingForPath => (PathWaitStage::Recalling, PathWaitAction::RecallIdentity),
        PathWaitStage::Recalling => if ok {
            (PathWaitStage::Found, PathWaitAction::Found)
        } else {
            (PathWaitStage::Pausing, PathWaitAction::Sleep { secs: RECALL_RETRY_SECS })
        },
        PathWaitStage::Pausing => (PathWaitStage::Recalling, PathWaitAction::RecallIdentity),
        PathWaitStage::Found => (PathWaitStage::Found, PathWaitAction::Found),
    }
}

/// The client's first search for the server.
pub struct PathWait {
    pub stage: PathWaitStage,
}

impl PathWait {
    /// Begins by looking for a path, for at most `INITIAL_PATH_TIMEOUT_SECS`.
    pub fn start() -> (r: (PathWait, PathWaitAction))
        ensures
            r.0.stage == PathWaitStage::LookingForPath,
            r.1 == (PathWaitAction::EnsurePath { timeout_secs: INITIAL_PATH_TIMEOUT_SECS }),
    {
        (
            PathWait { stage: PathWaitStage::LookingForPath },
            PathWaitAction::EnsurePath { timeout_secs: INITIAL_PATH_TIMEOUT_SECS },
        )
    }

    /// Takes the outcome of the pending action and returns the next action.
    pub fn step(&mut self, ok: bool) -> (a: PathWaitAction)
        ensures
            (final(self).stage, a) == path_wait_step_spec(old(self).stage, ok),
    {
        match self.stage {
            PathWaitStage::LookingForPath => {
                self.stage = PathWaitStage::Recalling;
                PathWaitAction::RecallIdentity
            },
            PathWaitStage::Recalling => {
                if ok {
                    self.stage = PathWaitStage::Found;
                    PathWaitAction::Found
                } else {
                    self.stage = PathWaitStage::Pausing;
                    PathWaitAction::Sleep { secs: RECALL_RETRY_SECS }
                }
            },
            PathWaitStage::Pausing => {
                self.stage = PathWaitStage::Recalling;
                PathWaitAction::RecallIdentity
            },
            PathWaitStage::Found => PathWaitAction::Found,
        }
    }
}

/// The search ends only on a successful recall, and the path is looked for
/// only at the start.
pub proof fn lemma_path_wait_found_after_recall(stage: PathWaitStage, ok: bool)
    ensures
        stage != PathWaitStage::Found && path_wait_step_spec(stage, ok).1 == PathWaitAction::Found
            ==> stage == PathWaitStage::Recalling && ok,
        !(path_wait_step_spec(stage, ok).1 is EnsurePath),
{
}

/// Dispatching one frame delivers it exactly when its session is open,
/// whatever its type (DATA, CONN_OK, CONN_ERR or CLOSE alike); a frame of a
/// closed or unknown session is dropped and changes nothing.
pub proof fn lemma_dispatch_one(v: MuxView, f: SpecFrame)
    ensures
        v.sessions.contains(f.session_id) ==> dispatch_all(v, seq![f]).0 == seq![f],
        !v.sessions.contains(f.session_id) ==> dispatch_all(v, seq![f]).0 == Seq::<SpecFrame>::empty()
            && dispatch_all(v, seq![f]).1 == v,
        f.frame_type != FrameType::Close ==> dispatch_all(v, seq![f]).1 == v,
        f.frame_type == FrameType::Close && v.sessions.contains(f.session_id) ==> dispatch_all(
            v,
            seq![f],
        ).1 == (MuxView { sessions: v.sessions.remove(f.session_id), ..v }),
{
    let e = Seq::<SpecFrame>::empty();
    assert(seq![f].drop_first() =~= e);
    assert(dispatch_all(v.after_dispatch(f), e) == (e, v.after_dispatch(f)));
    assert(seq![f] + e =~= seq![f]);
}

/// Dispatching two runs of frames one after the other delivers what each run
/// delivers, in order, the second run starting from the state the first
/// left.
pub proof fn lemma_dispatch_append(v: MuxView, fs: Seq<SpecFrame>, gs: Seq<SpecFrame>)
    ensures
        dispatch_all(v, fs + gs).0 == dispatch_all(v, fs).0 + dispatch_all(dispatch_all(v, fs).1, gs).0,
        dispatch_all(v, fs + gs).1 == dispatch_all(dispatch_all(v, fs).1, gs).1,
    decreases fs.len(),
{
    if fs.len() == 0 {
        assert(fs + gs =~= gs);
        assert(dispatch_all(v, fs).0 + dispatch_all(v, gs).0 =~= dispatch_all(v, gs).0);
    } else {
        assert((fs + gs)[0] == fs[0]);
        assert((fs + gs).drop_first() =~= fs.drop_first() + gs);
        lemma_dispatch_append(v.after_dispatch(fs[0]), fs.drop_first(), gs);
        let d = dispatch_all(v, fs + gs).0;
        let e = dispatch_all(v, fs).0 + dispatch_all(dispatch_all(v, fs).1, gs).0;
        assert(d =~= e);
    }
}

/// Without CLOSE frames the session table stays as it is, and the frames
/// delivered are exactly those whose session is open, in their order.
pub proof fn lemma_dispatch_without_close(v: MuxView, fs: Seq<SpecFrame>)
    requires
        forall|i: int| 0 <= i < fs.len() ==> #[trigger] fs[i].frame_type != FrameType::Close,
    ensures
        dispatch_all(v, fs).0 == fs.filter(|f: SpecFrame| v.sessions.contains(f.session_id)),
        dispatch_all(v, fs).1 == v,
    decreases fs.len(),
{
    reveal_with_fuel(Seq::<_>::filter, 1);
    if fs.len() == 0 {
        assert(dispatch_all(v, fs).0 =~= fs.filter(|f: SpecFrame| v.sessions.contains(f.session_id)));
    } else {
        let init = fs.drop_last();
        let last = fs.last();
        assert forall|i: int| 0 <= i < init.len() implies #[trigger] init[i].frame_type
            != FrameType::Close by {
            assert(init[i] == fs[i]);
        }
        lemma_dispatch_without_close(v, init);
        assert(fs =~= init + seq![last]);
        lemma_dispatch_append(v, init, seq![last]);
        lemma_dispatch_one(v, last);
        assert(last.frame_type != FrameType::Close);
        let got = dispatch_all(v, fs).0;
        let want = fs.filter(|f: SpecFrame| v.sessions.contains(f.session_id));
        if v.sessions.contains(last.session_id) {
            assert(got =~= want);
        } else {
            assert(got =~= want);
        }
    }
}

/// Whatever a frame's type, when it arrives whole in one chunk on a link
/// whose receive buffer is empty and its session is open, the client hands
/// exactly that frame to the session.
pub proof fn lemma_client_delivers_received_frame(v: MuxView, f: SpecFrame)
    requires
        v.rx.len() == 0,
        encodable(f),
        v.sessions.contains(f.session_id),
    ensures
        dispatch_all(v.after_receive(encode_spec(f)), stream_frames(v.rx + encode_spec(f))).0
            == seq![f],
{
    let e = Seq::<u8>::empty();
    crate::stream::lemma_encoded_frame_parses(f, e);
    assert(v.rx + encode_spec(f) =~= encode_spec(f) + e);
    assert(!crate::stream::starts_with_frame(e));
    assert(stream_frames(e) =~= Seq::<SpecFrame>::empty());
    assert(stream_frames(v.rx + encode_spec(f)) =~= seq![f]);
    lemma_dispatch_one(v.after_receive(encode_spec(f)), f);
}

/// A link set-up succeeds exactly on the establishment, initiated by this
/// side, of the link that was asked for, and fails exactly when that link
/// closes; any other event keeps it waiting.
pub proof fn lemma_link_setup_outcomes(expected: LinkId, e: ProxyEvent)
    ensures
        link_setup_spec(expected, e) == LinkSetup::Established <==> (e matches ProxyEvent::LinkEstablished {
            link_id,
            is_initiator,
        } && link_id == expected && is_initiator),
        link_setup_spec(expected, e) == LinkSetup::Failed <==> (e matches ProxyEvent::LinkClosed {
            link_id,
        } && link_id == expected),
{
}

} // verus!
