//! The server's decisions: one multiplexer per incoming link, CONNECT
//! frames that open sessions, data and close frames routed to their
//! sessions.

use vstd::prelude::*;
use std::collections::HashMap;
use crate::event::{LinkId, ProxyEvent};
use crate::frame::{encodable, encode_spec, Frame, FrameType, SpecFrame};
use crate::mux::{MuxHandle, MuxView, SendError};
use crate::payload::{decode_connect_payload, decode_connect_spec};
use crate::stream::{frames_view, packets_spec, packets_view, stream_frames, stream_rest, LINK_MDU};

verus! {

broadcast use vstd::std_specs::hash::group_hash_axioms;

/// RNS application name of the proxy destination.
pub const APP_NAME: &'static str = "rns_socks";

/// RNS aspect of the proxy destination.
pub const APP_ASPECT: &'static str = "proxy";

/// Seconds between the server's announces.
pub const ANNOUNCE_INTERVAL_SECS: u64 = 60;

/// Seconds before a server session whose transport died is restarted.
pub const SESSION_RESTART_SECS: u64 = 5;

/// The reason sent back for a CONNECT whose payload is not `host:port`.
pub open spec fn invalid_payload_reason() -> Seq<u8> {
    seq![105u8, 110, 118, 97, 108, 105, 100, 32, 112, 97, 121, 108, 111, 97, 100]
}

/// What the server is to do.
#[derive(Debug)]
pub enum ServerAction {
    /// Open a TCP connection to `host:port` for a new session.
    OpenConnection { link_id: LinkId, session_id: u32, host: String, port: u16 },
    /// Hand a frame to its session.
    Deliver { link_id: LinkId, frame: Frame },
    /// Send a frame over the link.
    SendFrame { link_id: LinkId, frame: Frame },
}

/// The mathematical value of an action.
pub enum SpecServerAction {
    OpenConnection { link_id: LinkId, session_id: u32, host: Seq<char>, port: u16 },
    Deliver { link_id: LinkId, frame: SpecFrame },
    SendFrame { link_id: LinkId, frame: SpecFrame },
}

impl View for ServerAction {
    type V = SpecServerAction;

    open spec fn view(&self) -> SpecServerAction {
        match self {
            ServerAction::OpenConnection { link_id, session_id, host, port } =>
                SpecServerAction::OpenConnection {
                link_id: *link_id,
                session_id: *session_id,
                host: host@,
                port: *port,
            },
            ServerAction::Deliver { link_id, frame } => SpecServerAction::Deliver {
                link_id: *link_id,
                frame: frame@,
            },
            ServerAction::SendFrame { link_id, frame } => SpecServerAction::SendFrame {
                link_id: *link_id,
                frame: frame@,
            },
        }
    }
}

/// The views of a sequence of actions.
pub open spec fn server_actions_view(v: Seq<ServerAction>) -> Seq<SpecServerAction> {
    v.map_values(|a: ServerAction| a@)
}

/// What one received frame leads to on the link `link`.
pub open spec fn server_frame_spec(link: LinkId, v: MuxView, f: SpecFrame) -> (
    Seq<SpecServerAction>,
    MuxView,
) {
    match f.frame_type {
        FrameType::Connect => match decode_connect_spec(f.payload) {
            Some((host, port)) => (
                seq![
                    SpecServerAction::OpenConnection {
                        link_id: link,
                        session_id: f.session_id,
                        host,
                        port,
                    },
                ],
                MuxView { sessions: v.sessions.insert(f.session_id), ..v },
            ),
            None => (
                seq![
                    SpecServerAction::SendFrame {
                        link_id: link,
                        frame: SpecFrame {
                            frame_type: FrameType::ConnectErr,
                            session_id: f.session_id,
                            payload: invalid_payload_reason(),
                        },
                    },
                ],
                v,
            ),
        },
        FrameType::Data | FrameType::Close => if v.delivers(f) {
            (seq![SpecServerAction::Deliver { link_id: link, frame: f }], v.after_dispatch(f))
        } else {
            (Seq::empty(), v)
        },
        _ => (Seq::empty(), v),
    }
}

/// What received frames lead to, in order, and the multiplexer after.
pub open spec fn server_frames_spec(link: LinkId, v: MuxView, fs: Seq<SpecFrame>) -> (
    Seq<SpecServerAction>,
    MuxView,
)
    decreases fs.len(),
{
    if fs.len() == 0 {
        (Seq::empty(), v)
    } else {
        let first = server_frame_spec(link, v, fs[0]);
        let rest = server_frames_spec(link, first.1, fs.drop_first());
        (first.0 + rest.0, rest.1)
    }
}

/// Whether the server goes on after an event.
#[derive(Clone, Copy, Debug, PartialEq, Eq, Structural)]
pub enum ServerControl {
    /// Keep handling events.
    Continue,
    /// The connection to the RNS daemon died: every link is dropped and the
    /// server session must be restarted.
    TransportLost,
}

/// The multiplexer of a new incoming link.
pub open spec fn link_mux_spec(link: LinkId) -> MuxView {
    MuxView { link: Some(link), ..MuxView::initial() }
}

/// The per-link state of the server.
pub struct ServerLinks {
    links: HashMap<u128, MuxHandle>,
}

impl View for ServerLinks {
    type V = Map<u128, MuxView>;

    closed spec fn view(&self) -> Map<u128, MuxView> {
        Map::new(|k: u128| self.links@.contains_key(k), |k: u128| self.links@[k]@)
    }
}

/// The state after the server took an event.
pub open spec fn server_event_spec(m: Map<u128, MuxView>, e: ProxyEvent) -> (
    Map<u128, MuxView>,
    Seq<SpecServerAction>,
    ServerControl,
) {
    match e {
        ProxyEvent::LinkEstablished { link_id, is_initiator } => if is_initiator {
            (m, Seq::empty(), ServerControl::Continue)
        } else {
            (m.insert(link_id.value, link_mux_spec(link_id)), Seq::empty(), ServerControl::Continue)
        },
        ProxyEvent::LinkClosed { link_id } => (
            m.remove(link_id.value),
            Seq::empty(),
            ServerControl::Continue,
        ),
        ProxyEvent::LinkData { link_id, data } => if m.contains_key(link_id.value) {
            let v = m[link_id.value];
            let r = server_frames_spec(
                link_id,
                v.after_receive(data@),
                stream_frames(v.rx + data@),
            );
            (m.insert(link_id.value, r.1), r.0, ServerControl::Continue)
        } else {
            (m, Seq::empty(), ServerControl::Continue)
        },
        ProxyEvent::InterfaceDown => (Map::empty(), Seq::empty(), ServerControl::TransportLost),
        ProxyEvent::PathUpdated => (m, Seq::empty(), ServerControl::Continue),
    }
}

/// The reason sent back for an invalid CONNECT payload.
fn invalid_payload() -> (v: Vec<u8>)
    ensures
        v@ == invalid_payload_reason(),
{
    let v = vec![105u8, 110, 118, 97, 108, 105, 100, 32, 112, 97, 121, 108, 111, 97, 100];
    assert(v@ =~= invalid_payload_reason());
    v
}

/// Handles the frames received on one link, in order.
fn handle_frames(link_id: LinkId, mux: &mut MuxHandle, frames: Vec<Frame>) -> (actions: Vec<ServerAction>)
    ensures
        server_actions_view(actions@) == server_frames_spec(link_id, old(mux)@, frames_view(frames@)).0,
        final(mux)@ == server_frames_spec(link_id, old(mux)@, frames_view(frames@)).1,
{
    let ghost fs = frames_view(frames@);
    let mut out: Vec<ServerAction> = Vec::new();
    let mut i: usize = 0;
    assert(fs.skip(0) =~= fs);
    while i < frames.len()
        invariant
            i <= frames@.len(),
            fs == frames_view(frames@),
            server_frames_spec(link_id, old(mux)@, fs).0 == server_actions_view(out@)
                + server_frames_spec(link_id, mux@, fs.skip(i as int)).0,
            server_frames_spec(link_id, old(mux)@, fs).1 == server_frames_spec(
                link_id,
                mux@,
                fs.skip(i as int),
            ).1,
        decreases frames@.len() - i,
    {
        let ghost before = mux@;
        let ghost out_before = server_actions_view(out@);
        let ghost t = fs.skip(i as int);
        let frame = &frames[i];
        assert(t[0] == frame@);
        assert(t.drop_first() =~= fs.skip(i + 1));
        let sid = frame.session_id;
        match frame.frame_type {
            FrameType::Connect => {
                match decode_connect_payload(frame.payload.as_slice()) {
                    Some((host, port)) => {
                        mux.register_session(sid);
                        out.push(ServerAction::OpenConnection { link_id, session_id: sid, host, port });
                    },
                    None => {
                        let reply = Frame::new(FrameType::ConnectErr, sid, invalid_payload());
                        out.push(ServerAction::SendFrame { link_id, frame: reply });
                    },
                }
            },
            FrameType::Data | FrameType::Close => {
                if mux.dispatch(frame) {
                    out.push(ServerAction::Deliver { link_id, frame: frame.duplicate() });
                }
            },
            _ => {},
        }
        assert(server_actions_view(out@) =~= out_before + server_frame_spec(link_id, before, t[0]).0);
        i = i + 1;
    }
    assert(fs.skip(i as int) =~= Seq::<SpecFrame>::empty());
    assert(server_actions_view(out@) + Seq::<SpecServerAction>::empty() =~= server_actions_view(out@));
    out
}

impl ServerLinks {
    /// No link yet.
    pub fn new() -> (s: ServerLinks)
        ensures
            s@ == Map::<u128, MuxView>::empty(),
    {
        let s = ServerLinks { links: HashMap::new() };
        assert(s@ =~= Map::<u128, MuxView>::empty());
        s
    }

    /// Whether the server has a multiplexer for a link.
    pub fn has_link(&self, link_id: LinkId) -> (r: bool)
        ensures
            r == self@.contains_key(link_id.value),
    {
        self.links.contains_key(&link_id.value)
    }

    /// Whether a session of a link is open.
    pub fn has_session(&self, link_id: LinkId, sid: u32) -> (r: bool)
        ensures
            r == (self@.contains_key(link_id.value) && self@[link_id.value].sessions.contains(sid)),
    {
        match self.links.get(&link_id.value) {
            Some(mux) => mux.has_session(sid),
            None => false,
        }
    }

    /// Takes an event: an incoming link gets a fresh multiplexer (replacing
    /// any for the same link), a closed link loses its multiplexer, link
    /// data is reassembled and its frames handled, and a dead transport
    /// drops every link and ends the server session.
    pub fn handle_event(&mut self, event: ProxyEvent) -> (r: (Vec<ServerAction>, ServerControl))
        ensures
            final(self)@ == server_event_spec(old(self)@, event).0,
            server_actions_view(r.0@) == server_event_spec(old(self)@, event).1,
            r.1 == server_event_spec(old(self)@, event).2,
    {
        match event {
            ProxyEvent::LinkEstablished { link_id, is_initiator } => {
                if is_initiator {
                    return (Vec::new(), ServerControl::Continue);
                }
                let mut mux = MuxHandle::new();
                mux.set_link_id(link_id);
                self.links.insert(link_id.value, mux);
                assert(self@ =~= old(self)@.insert(link_id.value, link_mux_spec(link_id)));
                (Vec::new(), ServerControl::Continue)
            },
            ProxyEvent::LinkClosed { link_id } => {
                self.links.remove(&link_id.value);
                assert(self@ =~= old(self)@.remove(link_id.value));
                (Vec::new(), ServerControl::Continue)
            },
            ProxyEvent::LinkData { link_id, data } => {
                match self.links.remove(&link_id.value) {
                    Some(mut mux) => {
                        let ghost v = mux@;
                        assert(v == old(self)@[link_id.value]);
                        let frames = mux.receive_data(data.as_slice());
                        let actions = handle_frames(link_id, &mut mux, frames);
                        let ghost after = mux@;
                        self.links.insert(link_id.value, mux);
                        assert(self@ =~= old(self)@.insert(link_id.value, after));
                        (actions, ServerControl::Continue)
                    },
                    None => {
                        assert(self@ =~= old(self)@);
                        (Vec::new(), ServerControl::Continue)
                    },
                }
            },
            ProxyEvent::InterfaceDown => {
                self.links.clear();
                assert(self@ =~= Map::<u128, MuxView>::empty());
                (Vec::new(), ServerControl::TransportLost)
            },
            ProxyEvent::PathUpdated => (Vec::new(), ServerControl::Continue),
        }
    }

    /// The link packets that carry a frame of a session on `link_id`:
    /// refused when the server has no multiplexer for the link; otherwise as
    /// the link's multiplexer sends it.
    pub fn send_frame(&self, link_id: LinkId, frame_type: FrameType, sid: u32, payload: Vec<u8>) -> (r:
        Result<Vec<Vec<u8>>, SendError>)
        ensures
            !self@.contains_key(link_id.value) ==> r == Err::<Vec<Vec<u8>>, SendError>(
                SendError::NotConnected,
            ),
            self@.contains_key(link_id.value) ==> {
                let v = self@[link_id.value];
                let f = SpecFrame { frame_type, session_id: sid, payload: payload@ };
                &&& !v.connected() ==> r == Err::<Vec<Vec<u8>>, SendError>(SendError::NotConnected)
                &&& v.connected() && !encodable(f) ==> r == Err::<Vec<Vec<u8>>, SendError>(
                    SendError::PayloadTooLarge,
                )
                &&& v.connected() && encodable(f) ==> (r matches Ok(packets) && packets_view(
                    packets@,
                ) == packets_spec(encode_spec(f), LINK_MDU as nat))
            },
    {
        match self.links.get(&link_id.value) {
            Some(mux) => mux.send(frame_type, sid, payload),
            None => Err(SendError::NotConnected),
        }
    }

    /// Forgets a session of a link (nothing happens when the link is gone).
    pub fn drop_session(&mut self, link_id: LinkId, sid: u32)
        ensures
            old(self)@.contains_key(link_id.value) ==> final(self)@ == old(self)@.insert(
                link_id.value,
                MuxView {
                    sessions: old(self)@[link_id.value].sessions.remove(sid),
                    ..old(self)@[link_id.value]
                },
            ),
            !old(self)@.contains_key(link_id.value) ==> final(self)@ == old(self)@,
    {
        match self.links.remove(&link_id.value) {
            Some(mut mux) => {
                mux.drop_session(sid);
                let ghost after = mux@;
                self.links.insert(link_id.value, mux);
                assert(self@ =~= old(self)@.insert(link_id.value, after));
            },
            None => {
                assert(self@ =~= old(self)@);
            },
        }
    }
}


/// A CONNECT frame that the client builds for `host:port` makes the server
/// open a connection to exactly that host and port, and register the
/// session.
pub proof fn lemma_client_connect_opens(link: LinkId, v: MuxView, sid: u32, host: Seq<char>, port: u16)
    ensures
        server_frame_spec(
            link,
            v,
            SpecFrame {
                frame_type: FrameType::Connect,
                session_id: sid,
                payload: crate::payload::connect_payload_spec(host, port),
            },
        ) == (
            seq![SpecServerAction::OpenConnection { link_id: link, session_id: sid, host, port }],
            MuxView { sessions: v.sessions.insert(sid), ..v },
        ),
{
    crate::payload::lemma_connect_payload_roundtrip(host, port);
}

/// Data for a link that the server does not know is ignored.
pub proof fn lemma_unknown_link_ignored(m: Map<u128, MuxView>, link: LinkId, data: Vec<u8>)
    requires
        !m.contains_key(link.value),
    ensures
        server_event_spec(m, ProxyEvent::LinkData { link_id: link, data }).0 == m,
        server_event_spec(m, ProxyEvent::LinkData { link_id: link, data }).1.len() == 0,
{
}

/// Every multiplexer the server holds speaks on the link it is kept for.
pub open spec fn links_consistent(m: Map<u128, MuxView>) -> bool {
    forall|k: u128| m.contains_key(k) ==> #[trigger] m[k].link == Some(LinkId { value: k })
}

/// The server's links after a sequence of events, in order.
pub open spec fn server_events_spec(m: Map<u128, MuxView>, es: Seq<ProxyEvent>) -> Map<u128, MuxView>
    decreases es.len(),
{
    if es.len() == 0 {
        m
    } else {
        server_events_spec(server_event_spec(m, es[0]).0, es.drop_first())
    }
}

/// Whether link `k` is open after the event `e`, given whether it was
/// before: an incoming link that came up opens it; its closing, or the loss
/// of the transport, closes it.
pub open spec fn open_after_event(open: bool, k: u128, e: ProxyEvent) -> bool {
    match e {
        ProxyEvent::LinkEstablished { link_id, is_initiator } => if link_id.value == k
            && !is_initiator {
            true
        } else {
            open
        },
        ProxyEvent::LinkClosed { link_id } => if link_id.value == k {
            false
        } else {
            open
        },
        ProxyEvent::InterfaceDown => false,
        _ => open,
    }
}

/// Whether link `k` is open after the events `es`, in order.
pub open spec fn link_open_after(open: bool, k: u128, es: Seq<ProxyEvent>) -> bool
    decreases es.len(),
{
    if es.len() == 0 {
        open
    } else {
        link_open_after(open_after_event(open, k, es[0]), k, es.drop_first())
    }
}

/// Handling frames changes only the session table, never the link.
proof fn lemma_frames_keep_link(link: LinkId, v: MuxView, fs: Seq<SpecFrame>)
    ensures
        server_frames_spec(link, v, fs).1.link == v.link,
    decreases fs.len(),
{
    if fs.len() > 0 {
        lemma_frames_keep_link(link, server_frame_spec(link, v, fs[0]).1, fs.drop_first());
    }
}

/// One event keeps the links consistent and opens or closes links as
/// `link_open_after` says.
proof fn lemma_server_event_links(m: Map<u128, MuxView>, e: ProxyEvent)
    requires
        links_consistent(m),
    ensures
        links_consistent(server_event_spec(m, e).0),
        forall|k: u128|
            #[trigger] server_event_spec(m, e).0.contains_key(k) == open_after_event(
                m.contains_key(k),
                k,
                e,
            ),
{
    match e {
        ProxyEvent::LinkData { link_id, data } => {
            if m.contains_key(link_id.value) {
                let v = m[link_id.value];
                lemma_frames_keep_link(link_id, v.after_receive(data@), stream_frames(v.rx + data@));
            }
        },
        _ => {},
    }
}

/// Over any sequence of events, starting from consistent links: the server
/// holds at most one multiplexer per link id (it is a map), the multiplexer
/// held for a link speaks on that link, and a link is held exactly when an
/// incoming link with that id came up and neither its closing nor the loss
/// of the transport has happened since.
pub proof fn lemma_server_links(m: Map<u128, MuxView>, es: Seq<ProxyEvent>)
    requires
        links_consistent(m),
    ensures
        links_consistent(server_events_spec(m, es)),
        forall|k: u128|
            #[trigger] server_events_spec(m, es).contains_key(k) == link_open_after(
                m.contains_key(k),
                k,
                es,
            ),
    decreases es.len(),
{
    if es.len() > 0 {
        let m1 = server_event_spec(m, es[0]).0;
        lemma_server_event_links(m, es[0]);
        lemma_server_links(m1, es.drop_first());
        assert forall|k: u128| #[trigger] server_events_spec(m, es).contains_key(k)
            == link_open_after(m.contains_key(k), k, es) by {
            assert(m1.contains_key(k) == open_after_event(m.contains_key(k), k, es[0]));
        }
    }
}

/// A new server holds consistent links, and after the transport is lost it
/// holds none.
pub proof fn lemma_transport_loss_drops_all(m: Map<u128, MuxView>)
    ensures
        links_consistent(Map::<u128, MuxView>::empty()),
        server_event_spec(m, ProxyEvent::InterfaceDown).0 == Map::<u128, MuxView>::empty(),
        server_event_spec(m, ProxyEvent::InterfaceDown).2 == ServerControl::TransportLost,
{
}

/// Handling frames reads and changes only the session table: the receive
/// buffer neither matters nor changes.
proof fn lemma_frames_rx_independent(link: LinkId, w: MuxView, r: Seq<u8>, fs: Seq<SpecFrame>)
    ensures
        server_frames_spec(link, MuxView { rx: r, ..w }, fs) == (
            server_frames_spec(link, w, fs).0,
            MuxView { rx: r, ..server_frames_spec(link, w, fs).1 },
        ),
        server_frames_spec(link, w, fs).1.rx == w.rx,
    decreases fs.len(),
{
    if fs.len() > 0 {
        let w1 = server_frame_spec(link, w, fs[0]).1;
        lemma_frames_rx_independent(link, w1, r, fs.drop_first());
        assert(server_frame_spec(link, MuxView { rx: r, ..w }, fs[0]) == (
            server_frame_spec(link, w, fs[0]).0,
            MuxView { rx: r, ..w1 },
        ));
    }
}

/// Handling two runs of frames one after the other gives the actions of
/// each, in order.
proof fn lemma_frames_append(link: LinkId, w: MuxView, fs: Seq<SpecFrame>, gs: Seq<SpecFrame>)
    ensures
        server_frames_spec(link, w, fs + gs) == (
            server_frames_spec(link, w, fs).0 + server_frames_spec(
                link,
                server_frames_spec(link, w, fs).1,
                gs,
            ).0,
            server_frames_spec(link, server_frames_spec(link, w, fs).1, gs).1,
        ),
    decreases fs.len(),
{
    if fs.len() == 0 {
        assert(fs + gs =~= gs);
        assert(Seq::<SpecServerAction>::empty() + server_frames_spec(link, w, gs).0 =~= server_frames_spec(link, w, gs).0);
    } else {
        assert((fs + gs)[0] == fs[0]);
        assert((fs + gs).drop_first() =~= fs.drop_first() + gs);
        let first = server_frame_spec(link, w, fs[0]);
        lemma_frames_append(link, first.1, fs.drop_first(), gs);
        let a = server_frames_spec(link, w, fs + gs).0;
        let b = server_frames_spec(link, w, fs).0 + server_frames_spec(
            link,
            server_frames_spec(link, w, fs).1,
            gs,
        ).0;
        assert(a =~= b);
    }
}

/// The actions the server takes over a sequence of events, in order.
pub open spec fn server_events_actions(m: Map<u128, MuxView>, es: Seq<ProxyEvent>) -> Seq<SpecServerAction>
    decreases es.len(),
{
    if es.len() == 0 {
        Seq::empty()
    } else {
        server_event_spec(m, es[0]).1 + server_events_actions(server_event_spec(m, es[0]).0, es.drop_first())
    }
}

/// Whether the events `es` bring, one by one, the chunks `cs` on `link`.
pub open spec fn link_data_events(link: LinkId, es: Seq<ProxyEvent>, cs: Seq<Seq<u8>>) -> bool {
    &&& es.len() == cs.len()
    &&& forall|i: int|
        0 <= i < es.len() ==> (#[trigger] es[i] matches ProxyEvent::LinkData { link_id, data }
            && link_id == link && data@ == cs[i])
}

/// The server keeps what a link brought incomplete: after link data, the
/// link's receive buffer holds the incomplete tail of what it held and what
/// came, and the frames handled are the complete frames of both together.
pub proof fn lemma_server_keeps_tail(m: Map<u128, MuxView>, link: LinkId, data: Vec<u8>)
    requires
        m.contains_key(link.value),
    ensures
        ({
            let v = m[link.value];
            let r = server_event_spec(m, ProxyEvent::LinkData { link_id: link, data });
            &&& r.0.contains_key(link.value)
            &&& r.0[link.value].rx == stream_rest(v.rx + data@)
            &&& r.1 == server_frames_spec(link, v, stream_frames(v.rx + data@)).0
        }),
{
    let v = m[link.value];
    lemma_frames_rx_independent(link, v, stream_rest(v.rx + data@), stream_frames(v.rx + data@));
    assert(v.after_receive(data@) == MuxView { rx: stream_rest(v.rx + data@), ..v });
}

/// Link data that arrives in chunks is handled as if it had arrived at once:
/// feeding the chunks `cs` on a known link, one event after another, gives
/// the actions of the complete frames of the whole stream, in order, and
/// leaves its incomplete tail in the link's buffer.
pub proof fn lemma_server_feed(m: Map<u128, MuxView>, link: LinkId, es: Seq<ProxyEvent>, cs: Seq<Seq<u8>>)
    requires
        m.contains_key(link.value),
        !crate::stream::starts_with_frame(m[link.value].rx),
        link_data_events(link, es, cs),
    ensures
        ({
            let v = m[link.value];
            let all = v.rx + crate::stream::concat_all(cs);
            let r = server_frames_spec(link, v, stream_frames(all));
            &&& server_events_actions(m, es) == r.0
            &&& server_events_spec(m, es).contains_key(link.value)
            &&& server_events_spec(m, es)[link.value] == (MuxView { rx: crate::stream::stream_rest(all), ..r.1 })
        }),
    decreases es.len(),
{
    let k = link.value;
    let v = m[k];
    if es.len() == 0 {
        let all = v.rx + crate::stream::concat_all(cs);
        assert(all =~= v.rx);
        assert(stream_frames(v.rx) =~= Seq::<SpecFrame>::empty());
        assert(server_events_actions(m, es) =~= Seq::<SpecServerAction>::empty());
    } else {
        let c0 = cs[0];
        let rest_cs = cs.drop_first();
        let e0 = es[0];
        assert(e0 matches ProxyEvent::LinkData { link_id, data } && link_id == link && data@ == c0);
        let f0 = stream_frames(v.rx + c0);
        let t0 = stream_rest(v.rx + c0);
        let r0 = server_frames_spec(link, v, f0);
        lemma_frames_rx_independent(link, v, t0, f0);
        assert(v.after_receive(c0) == MuxView { rx: t0, ..v });
        let m1 = server_event_spec(m, e0).0;
        assert(m1 == m.insert(k, MuxView { rx: t0, ..r0.1 }));
        assert(server_event_spec(m, e0).1 == r0.0);
        crate::stream::lemma_rest_incomplete(v.rx + c0);
        assert(link_data_events(link, es.drop_first(), rest_cs)) by {
            assert forall|i: int| 0 <= i < es.drop_first().len() implies (
            #[trigger] es.drop_first()[i] matches ProxyEvent::LinkData { link_id, data } && link_id
                == link && data@ == rest_cs[i]) by {
                assert(es.drop_first()[i] == es[i + 1]);
            }
        }
        lemma_server_feed(m1, link, es.drop_first(), rest_cs);
        let v1 = m1[k];
        let tail = crate::stream::concat_all(rest_cs);
        let f1 = stream_frames(v1.rx + tail);
        lemma_frames_rx_independent(link, r0.1, t0, f1);
        assert(v.rx + crate::stream::concat_all(cs) =~= (v.rx + c0) + tail);
        crate::stream::lemma_stream_split(v.rx + c0, tail);
        lemma_frames_append(link, v, f0, f1);
    }
}

/// A DATA or CLOSE frame of an open session, cut into link packets and fed
/// to the server packet by packet on a link with an empty buffer, is
/// delivered exactly once, whole, to its session, and the buffer ends empty.
pub proof fn lemma_server_reassembles_frame(
    m: Map<u128, MuxView>,
    link: LinkId,
    f: SpecFrame,
    es: Seq<ProxyEvent>,
)
    requires
        m.contains_key(link.value),
        m[link.value].rx.len() == 0,
        m[link.value].sessions.contains(f.session_id),
        f.frame_type == FrameType::Data || f.frame_type == FrameType::Close,
        encodable(f),
        link_data_events(link, es, packets_spec(encode_spec(f), LINK_MDU as nat)),
    ensures
        server_events_actions(m, es) == seq![SpecServerAction::Deliver { link_id: link, frame: f }],
        server_events_spec(m, es)[link.value].rx.len() == 0,
{
    let v = m[link.value];
    let cs = packets_spec(encode_spec(f), LINK_MDU as nat);
    let e = Seq::<u8>::empty();
    assert(!crate::stream::starts_with_frame(v.rx));
    lemma_server_feed(m, link, es, cs);
    crate::stream::lemma_packets_spec(encode_spec(f), LINK_MDU as nat);
    crate::stream::lemma_encoded_frame_parses(f, e);
    assert(!crate::stream::starts_with_frame(e));
    assert(stream_frames(e) =~= Seq::<SpecFrame>::empty());
    assert(v.rx + crate::stream::concat_all(cs) =~= encode_spec(f) + e);
    assert(stream_frames(encode_spec(f) + e) =~= seq![f]);
    let r1 = server_frame_spec(link, v, f);
    assert(seq![f].drop_first() =~= Seq::<SpecFrame>::empty());
    assert(server_frames_spec(link, r1.1, Seq::<SpecFrame>::empty()).0 =~= Seq::<SpecServerAction>::empty());
    assert(server_frames_spec(link, v, seq![f]).0 =~= seq![SpecServerAction::Deliver { link_id: link, frame: f }]);
}

/// A CONNECT whose payload is not `host:port` is answered on its link with
/// CONN_ERR "invalid payload" for the same session, and opens nothing; a
/// DATA or CLOSE frame of a session that is not open is dropped.
pub proof fn lemma_server_rejects(link: LinkId, v: MuxView, f: SpecFrame)
    ensures
        f.frame_type == FrameType::Connect && decode_connect_spec(f.payload) is None
            ==> server_frame_spec(link, v, f) == (
            seq![
                SpecServerAction::SendFrame {
                    link_id: link,
                    frame: SpecFrame {
                        frame_type: FrameType::ConnectErr,
                        session_id: f.session_id,
                        payload: invalid_payload_reason(),
                    },
                },
            ],
            v,
        ),
        (f.frame_type == FrameType::Data || f.frame_type == FrameType::Close)
            && !v.sessions.contains(f.session_id) ==> server_frame_spec(link, v, f) == (
            Seq::<SpecServerAction>::empty(),
            v,
        ),
        f.frame_type == FrameType::ConnectOk || f.frame_type == FrameType::ConnectErr
            ==> server_frame_spec(link, v, f) == (Seq::<SpecServerAction>::empty(), v),
{
}

} // verus!
