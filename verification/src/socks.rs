//! One SOCKS5 session on the client, from the client's CONNECT command to
//! the start of data relaying, as a state machine: the caller performs the
//! returned actions (SOCKS replies, frames on the multiplexer) and reports
//! the events.

use vstd::prelude::*;
use crate::frame::{Frame, FrameType};
use crate::payload::{connect_payload_spec, encode_connect_payload};

verus! {

/// The SOCKS5 reply sent to the local client.
#[derive(Clone, Copy, Debug, PartialEq, Eq, Structural)]
pub enum SocksReply {
    /// The connection is made.
    Succeeded,
    /// Only TCP CONNECT is supported.
    CommandNotSupported,
    /// The remote side could not connect.
    GeneralFailure,
    /// The remote side did not answer in time.
    TtlExpired,
}

/// What happened in a SOCKS session.
#[derive(Debug)]
pub enum SocksEvent {
    /// The local client sent its command; `tcp_connect` when it is TCP
    /// CONNECT, with the target host and port.
    Command { tcp_connect: bool, host: String, port: u16 },
    /// A frame arrived for this session.
    SessionFrame { frame: Frame },
    /// The session's frame channel closed.
    ChannelClosed,
    /// No answer to CONNECT came in time.
    TimedOut,
    /// The success reply was sent (`ok`) or failed to be sent.
    ReplySent { ok: bool },
}

/// What the caller is to do.
#[derive(Debug)]
pub enum SocksAction {
    /// Send this SOCKS reply to the local client.
    Reply { reply: SocksReply },
    /// Send a frame of this session over the link.
    SendFrame { frame_type: FrameType, payload: Vec<u8> },
    /// Forget this session in the multiplexer.
    DropSession,
    /// Relay data between the local client and the link.
    Relay,
}

/// The mathematical value of an action.
pub enum SpecSocksAction {
    Reply { reply: SocksReply },
    SendFrame { frame_type: FrameType, payload: Seq<u8> },
    DropSession,
    Relay,
}

impl View for SocksAction {
    type V = SpecSocksAction;

    open spec fn view(&self) -> SpecSocksAction {
        match self {
            SocksAction::Reply { reply } => SpecSocksAction::Reply { reply: *reply },
            SocksAction::SendFrame { frame_type, payload } => SpecSocksAction::SendFrame {
                frame_type: *frame_type,
                payload: payload@,
            },
            SocksAction::DropSession => SpecSocksAction::DropSession,
            SocksAction::Relay => SpecSocksAction::Relay,
        }
    }
}

/// The views of a sequence of actions.
pub open spec fn actions_view(v: Seq<SocksAction>) -> Seq<SpecSocksAction> {
    v.map_values(|a: SocksAction| a@)
}

/// Where a SOCKS session stands.
#[derive(Clone, Copy, Debug, PartialEq, Eq, Structural)]
pub enum SocksStage {
    /// Waiting for the local client's command.
    AwaitCommand,
    /// CONNECT was sent over the link; waiting for CONN_OK or CONN_ERR.
    AwaitConnectResult,
    /// The success reply is being sent.
    AwaitReplySent,
    /// Data is relayed.
    Relaying,
    /// The session is over.
    Finished,
}

/// The next stage and the actions, for a stage and an event.
pub open spec fn socks_step_spec(stage: SocksStage, e: SocksEvent) -> (SocksStage, Seq<SpecSocksAction>) {
    match (stage, e) {
        (SocksStage::AwaitCommand, SocksEvent::Command { tcp_connect, host, port }) => if !tcp_connect {
            (
                SocksStage::Finished,
                seq![SpecSocksAction::Reply { reply: SocksReply::CommandNotSupported }],
            )
        } else {
            (
                SocksStage::AwaitConnectResult,
                seq![
                    SpecSocksAction::SendFrame {
                        frame_type: FrameType::Connect,
                        payload: connect_payload_spec(host@, port),
                    },
                ],
            )
        },
        (SocksStage::AwaitConnectResult, SocksEvent::SessionFrame { frame }) => {
            if frame.frame_type == FrameType::ConnectOk {
                (
                    SocksStage::AwaitReplySent,
                    seq![SpecSocksAction::Reply { reply: SocksReply::Succeeded }],
                )
            } else if frame.frame_type == FrameType::ConnectErr {
                (
                    SocksStage::Finished,
                    seq![
                        SpecSocksAction::Reply { reply: SocksReply::GeneralFailure },
                        SpecSocksAction::DropSession,
                    ],
                )
            } else {
                (stage, Seq::empty())
            }
        },
        (SocksStage::AwaitConnectResult, SocksEvent::ChannelClosed) => (
            SocksStage::Finished,
            seq![
                SpecSocksAction::Reply { reply: SocksReply::GeneralFailure },
                SpecSocksAction::DropSession,
            ],
        ),
        (SocksStage::AwaitConnectResult, SocksEvent::TimedOut) => (
            SocksStage::Finished,
            seq![
                SpecSocksAction::Reply { reply: SocksReply::TtlExpired },
                SpecSocksAction::DropSession,
            ],
        ),
        (SocksStage::AwaitReplySent, SocksEvent::ReplySent { ok }) => if ok {
            (SocksStage::Relaying, seq![SpecSocksAction::Relay])
        } else {
            (
                SocksStage::Finished,
                seq![
                    SpecSocksAction::SendFrame { frame_type: FrameType::Close, payload: Seq::empty() },
                    SpecSocksAction::DropSession,
                ],
            )
        },
        _ => (stage, Seq::empty()),
    }
}

/// A SOCKS session of the client.
pub struct SocksSession {
    /// The multiplexer session id.
    pub session_id: u32,
    /// Where it stands.
    pub stage: SocksStage,
}

impl SocksSession {
    /// A session that waits for its command.
    pub fn new(session_id: u32) -> (s: SocksSession)
        ensures
            s.session_id == session_id,
            s.stage == SocksStage::AwaitCommand,
    {
        SocksSession { session_id, stage: SocksStage::AwaitCommand }
    }

    /// Takes an event and returns the actions to perform, in order.
    pub fn step(&mut self, event: SocksEvent) -> (actions: Vec<SocksAction>)
        ensures
            final(self).session_id == old(self).session_id,
            final(self).stage == socks_step_spec(old(self).stage, event).0,
            actions_view(actions@) == socks_step_spec(old(self).stage, event).1,
    {
        let mut out: Vec<SocksAction> = Vec::new();
        match (self.stage, event) {
            (SocksStage::AwaitCommand, SocksEvent::Command { tcp_connect, host, port }) => {
                if !tcp_connect {
                    self.stage = SocksStage::Finished;
                    out.push(SocksAction::Reply { reply: SocksReply::CommandNotSupported });
                } else {
                    self.stage = SocksStage::AwaitConnectResult;
                    let payload = encode_connect_payload(host.as_str(), port);
                    out.push(SocksAction::SendFrame { frame_type: FrameType::Connect, payload });
                }
            },
            (SocksStage::AwaitConnectResult, SocksEvent::SessionFrame { frame }) => {
                if frame.frame_type == FrameType::ConnectOk {
                    self.stage = SocksStage::AwaitReplySent;
                    out.push(SocksAction::Reply { reply: SocksReply::Succeeded });
                } else if frame.frame_type == FrameType::ConnectErr {
                    self.stage = SocksStage::Finished;
                    out.push(SocksAction::Reply { reply: SocksReply::GeneralFailure });
                    out.push(SocksAction::DropSession);
                }
            },
            (SocksStage::AwaitConnectResult, SocksEvent::ChannelClosed) => {
                self.stage = SocksStage::Finished;
                out.push(SocksAction::Reply { reply: SocksReply::GeneralFailure });
                out.push(SocksAction::DropSession);
            },
            (SocksStage::AwaitConnectResult, SocksEvent::TimedOut) => {
                self.stage = SocksStage::Finished;
                out.push(SocksAction::Reply { reply: SocksReply::TtlExpired });
                out.push(SocksAction::DropSession);
            },
            (SocksStage::AwaitReplySent, SocksEvent::ReplySent { ok }) => {
                if ok {
                    self.stage = SocksStage::Relaying;
                    out.push(SocksAction::Relay);
                } else {
                    self.stage = SocksStage::Finished;
                    out.push(SocksAction::SendFrame { frame_type: FrameType::Close, payload: Vec::new() });
                    out.push(SocksAction::DropSession);
                }
            },
            _ => {},
        }
        assert(actions_view(out@) =~= socks_step_spec(old(self).stage, event).1);
        out
    }
}


/// A session that ends after CONNECT was sent is always forgotten in the
/// multiplexer, whatever ended it.
pub proof fn lemma_session_dropped_when_finished(stage: SocksStage, e: SocksEvent)
    requires
        stage == SocksStage::AwaitConnectResult || stage == SocksStage::AwaitReplySent,
        socks_step_spec(stage, e).0 == SocksStage::Finished,
    ensures
        socks_step_spec(stage, e).1.contains(SpecSocksAction::DropSession),
{
    let acts = socks_step_spec(stage, e).1;
    assert(acts[1] == SpecSocksAction::DropSession);
}

/// The local client is told of success only in answer to CONN_OK, and data
/// is relayed only after that reply went out.
pub proof fn lemma_success_only_after_conn_ok(stage: SocksStage, e: SocksEvent)
    ensures
        socks_step_spec(stage, e).1.contains(SpecSocksAction::Reply { reply: SocksReply::Succeeded })
            ==> stage == SocksStage::AwaitConnectResult && (e matches SocksEvent::SessionFrame {
            frame,
        } && frame.frame_type == FrameType::ConnectOk),
        stage != SocksStage::Relaying && socks_step_spec(stage, e).0 == SocksStage::Relaying
            ==> stage == SocksStage::AwaitReplySent
            && e == (SocksEvent::ReplySent { ok: true }),
{
    let r = socks_step_spec(stage, e);
    if r.1.contains(SpecSocksAction::Reply { reply: SocksReply::Succeeded }) {
        let k = choose|k: int| 0 <= k < r.1.len() && r.1[k] == SpecSocksAction::Reply {
            reply: SocksReply::Succeeded,
        };
        assert(r.1[k] == SpecSocksAction::Reply { reply: SocksReply::Succeeded });
    }
}

/// The answers a session gives: CONNECT goes out as the `host:port` payload
/// that the server reads back; CONN_ERR and a closed channel are answered at
/// once with a general failure, a timeout with TTL expired, and any command
/// other than TCP CONNECT with command not supported.
pub proof fn lemma_socks_answers(frame: Frame, host: String, port: u16, tcp_connect: bool)
    ensures
        ({
            let r = socks_step_spec(
                SocksStage::AwaitCommand,
                SocksEvent::Command { tcp_connect, host, port },
            );
            &&& !tcp_connect ==> r.1 == seq![
                SpecSocksAction::Reply { reply: SocksReply::CommandNotSupported },
            ]
            &&& tcp_connect ==> r.1.len() == 1 && (r.1[0] matches SpecSocksAction::SendFrame {
                frame_type,
                payload,
            } && frame_type == FrameType::Connect && crate::payload::decode_connect_spec(payload)
                == Some((host@, port)))
        }),
        frame.frame_type == FrameType::ConnectErr ==> socks_step_spec(
            SocksStage::AwaitConnectResult,
            SocksEvent::SessionFrame { frame },
        ).1[0] == (SpecSocksAction::Reply { reply: SocksReply::GeneralFailure }),
        socks_step_spec(SocksStage::AwaitConnectResult, SocksEvent::ChannelClosed).1[0] == (
        SpecSocksAction::Reply { reply: SocksReply::GeneralFailure }),
        socks_step_spec(SocksStage::AwaitConnectResult, SocksEvent::TimedOut).1[0] == (
        SpecSocksAction::Reply { reply: SocksReply::TtlExpired }),
{
    crate::payload::lemma_connect_payload_roundtrip(host@, port);
}

} // verus!
