//! The client's reconnection procedure after its link was lost, as a state
//! machine: the caller performs each action that `step` returns and reports
//! whether it succeeded.
//!
//! The procedure: when too many attempts in a row have failed (or the
//! transport to the RNS daemon died), the RNS node is recreated first,
//! retrying every few seconds until that works. Then it waits, makes sure a
//! path to the server exists, recalls the server's identity and establishes
//! a new link. A failed step doubles the wait, up to a cap, and counts as
//! one more consecutive failure.

use vstd::prelude::*;

verus! {

/// Consecutive failed attempts after which the RNS node is recreated.
pub const MAX_LINK_FAILURES_BEFORE_NODE_RECREATE: u32 = 3;

/// Cap of the wait between attempts, in seconds.
pub const MAX_RECONNECT_DELAY_SECS: u64 = 30;

/// Wait before trying again to recreate the RNS node, in seconds.
pub const NODE_RECREATE_RETRY_SECS: u64 = 5;

/// How long to look for a path to the server when reconnecting, in seconds.
pub const RECONNECT_PATH_TIMEOUT_SECS: u64 = 15;

/// What the caller is to do next.
#[derive(Clone, Copy, Debug, PartialEq, Eq, Structural)]
pub enum ReconnectAction {
    /// Create a fresh RNS node (a new connection to the daemon).
    RecreateNode,
    /// Wait this many seconds.
    Sleep { secs: u64 },
    /// Make sure a path to the server exists, waiting at most this long.
    EnsurePath { timeout_secs: u64 },
    /// Recall the server's signing key from its announced identity.
    RecallIdentity,
    /// Create a link to the server and wait until it is established.
    EstablishLink,
    /// The link is back: return to dispatching.
    Reconnected,
}

/// Which action is pending.
#[derive(Clone, Copy, Debug, PartialEq, Eq, Structural)]
pub enum ReconnectStage {
    RecreatingNode,
    PausingAfterRecreateFailure,
    Waiting,
    CheckingPath,
    RecallingIdentity,
    EstablishingLink,
    Done,
}

/// The state of a reconnection.
#[derive(Clone, Copy, Debug, PartialEq, Eq, Structural)]
pub struct Reconnect {
    /// The wait before the next attempt, in seconds.
    pub delay: u64,
    /// Attempts that failed in a row since the node was last (re)created.
    pub consecutive_failures: u32,
    /// The action whose outcome is awaited.
    pub stage: ReconnectStage,
}

/// `2^n` for the failure counts that occur.
pub open spec fn backoff_delay(n: u32) -> u64 {
    if n == 0 {
        1
    } else if n == 1 {
        2
    } else if n == 2 {
        4
    } else {
        8
    }
}

/// Whether a stage is one of those that recreate the node.
pub open spec fn is_recreate_stage(s: ReconnectStage) -> bool {
    s == ReconnectStage::RecreatingNode || s == ReconnectStage::PausingAfterRecreateFailure
}

impl Reconnect {
    /// The states that the procedure goes through: fewer failures than the
    /// limit except while the node is recreated, and the wait is `2^failures`
    /// seconds, or one second right after the transport died.
    pub open spec fn wf(self) -> bool {
        &&& self.consecutive_failures <= MAX_LINK_FAILURES_BEFORE_NODE_RECREATE
        &&& (self.delay == backoff_delay(self.consecutive_failures) || (self.consecutive_failures
            == MAX_LINK_FAILURES_BEFORE_NODE_RECREATE && self.delay == 1))
        &&& is_recreate_stage(self.stage) ==> self.consecutive_failures
            == MAX_LINK_FAILURES_BEFORE_NODE_RECREATE
        &&& !is_recreate_stage(self.stage) && self.stage != ReconnectStage::Done
            ==> self.consecutive_failures < MAX_LINK_FAILURES_BEFORE_NODE_RECREATE
    }
}

/// The first action of an attempt round: recreate the node once the failure
/// limit is reached, otherwise wait `delay` seconds.
pub open spec fn round_spec(delay: u64, failures: u32) -> (Reconnect, ReconnectAction) {
    if failures >= MAX_LINK_FAILURES_BEFORE_NODE_RECREATE {
        (
            Reconnect { delay, consecutive_failures: failures, stage: ReconnectStage::RecreatingNode },
            ReconnectAction::RecreateNode,
        )
    } else {
        (
            Reconnect { delay, consecutive_failures: failures, stage: ReconnectStage::Waiting },
            ReconnectAction::Sleep { secs: delay },
        )
    }
}

/// After a failed attempt: the wait doubles up to the cap, one more failure
/// is counted, and a new round begins.
pub open spec fn backoff_spec(s: Reconnect) -> (Reconnect, ReconnectAction) {
    let d = if 2 * s.delay <= MAX_RECONNECT_DELAY_SECS {
        (2 * s.delay) as u64
    } else {
        MAX_RECONNECT_DELAY_SECS
    };
    round_spec(d, (s.consecutive_failures + 1) as u32)
}

/// How a reconnection starts: no failure counted (or the limit, when the
/// transport died) and a wait of one second.
pub open spec fn start_spec(transport_dead: bool) -> (Reconnect, ReconnectAction) {
    round_spec(1, if transport_dead { MAX_LINK_FAILURES_BEFORE_NODE_RECREATE } else { 0 })
}

/// The next state and action, given whether the pending action succeeded.
pub open spec fn step_spec(s: Reconnect, ok: bool) -> (Reconnect, ReconnectAction) {
    match s.stage {
        ReconnectStage::RecreatingNode => if ok {
            (
                Reconnect { delay: 1, consecutive_failures: 0, stage: ReconnectStage::Waiting },
                ReconnectAction::Sleep { secs: 1 },
            )
        } else {
            (
                Reconnect { stage: ReconnectStage::PausingAfterRecreateFailure, ..s },
                ReconnectAction::Sleep { secs: NODE_RECREATE_RETRY_SECS },
            )
        },
        ReconnectStage::PausingAfterRecreateFailure => round_spec(s.delay, s.consecutive_failures),
        ReconnectStage::Waiting => (
            Reconnect { stage: ReconnectStage::CheckingPath, ..s },
            ReconnectAction::EnsurePath { timeout_secs: RECONNECT_PATH_TIMEOUT_SECS },
        ),
        ReconnectStage::CheckingPath => if ok {
            (
                Reconnect { stage: ReconnectStage::RecallingIdentity, ..s },
                ReconnectAction::RecallIdentity,
            )
        } else {
            backoff_spec(s)
        },
        ReconnectStage::RecallingIdentity => if ok {
            (
                Reconnect { stage: ReconnectStage::EstablishingLink, ..s },
                ReconnectAction::EstablishLink,
            )
        } else {
            backoff_spec(s)
        },
        ReconnectStage::EstablishingLink => if ok {
            (Reconnect { stage: ReconnectStage::Done, ..s }, ReconnectAction::Reconnected)
        } else {
            backoff_spec(s)
        },
        ReconnectStage::Done => (s, ReconnectAction::Reconnected),
    }
}

impl Reconnect {
    fn round(delay: u64, failures: u32) -> (r: (Reconnect, ReconnectAction))
        ensures
            r == round_spec(delay, failures),
    {
        if failures >= MAX_LINK_FAILURES_BEFORE_NODE_RECREATE {
            (
                Reconnect {
                    delay,
                    consecutive_failures: failures,
                    stage: ReconnectStage::RecreatingNode,
                },
                ReconnectAction::RecreateNode,
            )
        } else {
            (
                Reconnect { delay, consecutive_failures: failures, stage: ReconnectStage::Waiting },
                ReconnectAction::Sleep { secs: delay },
            )
        }
    }

    /// Begins a reconnection after the link was lost; `transport_dead` when
    /// the connection to the RNS daemon went down, which makes the node be
    /// recreated first.
    pub fn start(transport_dead: bool) -> (r: (Reconnect, ReconnectAction))
        ensures
            r == start_spec(transport_dead),
            r.0.wf(),
    {
        let failures = if transport_dead {
            MAX_LINK_FAILURES_BEFORE_NODE_RECREATE
        } else {
            0
        };
        Self::round(1, failures)
    }

    fn backoff(&mut self) -> (a: ReconnectAction)
        requires
            old(self).delay <= MAX_RECONNECT_DELAY_SECS,
            old(self).consecutive_failures < MAX_LINK_FAILURES_BEFORE_NODE_RECREATE,
        ensures
            (*final(self), a) == backoff_spec(*old(self)),
    {
        let d = if 2 * self.delay <= MAX_RECONNECT_DELAY_SECS {
            2 * self.delay
        } else {
            MAX_RECONNECT_DELAY_SECS
        };
        let (s, a) = Self::round(d, self.consecutive_failures + 1);
        *self = s;
        a
    }

    /// Takes the outcome of the pending action (`ok` when it succeeded; a
    /// wait always does) and returns the next action.
    pub fn step(&mut self, ok: bool) -> (a: ReconnectAction)
        requires
            old(self).wf(),
        ensures
            (*final(self), a) == step_spec(*old(self), ok),
            final(self).wf(),
    {
        match self.stage {
            ReconnectStage::RecreatingNode => {
                if ok {
                    *self = Reconnect {
                        delay: 1,
                        consecutive_failures: 0,
                        stage: ReconnectStage::Waiting,
                    };
                    ReconnectAction::Sleep { secs: 1 }
                } else {
                    self.stage = ReconnectStage::PausingAfterRecreateFailure;
                    ReconnectAction::Sleep { secs: NODE_RECREATE_RETRY_SECS }
                }
            },
            ReconnectStage::PausingAfterRecreateFailure => {
                let (s, a) = Self::round(self.delay, self.consecutive_failures);
                *self = s;
                a
            },
            ReconnectStage::Waiting => {
                self.stage = ReconnectStage::CheckingPath;
                ReconnectAction::EnsurePath { timeout_secs: RECONNECT_PATH_TIMEOUT_SECS }
            },
            ReconnectStage::CheckingPath => {
                if ok {
                    self.stage = ReconnectStage::RecallingIdentity;
                    ReconnectAction::RecallIdentity
                } else {
                    self.backoff()
                }
            },
            ReconnectStage::RecallingIdentity => {
                if ok {
                    self.stage = ReconnectStage::EstablishingLink;
                    ReconnectAction::EstablishLink
                } else {
                    self.backoff()
                }
            },
            ReconnectStage::EstablishingLink => {
                if ok {
                    self.stage = ReconnectStage::Done;
                    ReconnectAction::Reconnected
                } else {
                    self.backoff()
                }
            },
            ReconnectStage::Done => ReconnectAction::Reconnected,
        }
    }
}

/// Every state of the procedure keeps its invariant.
pub proof fn lemma_step_keeps_wf(s: Reconnect, ok: bool)
    requires
        s.wf(),
    ensures
        step_spec(s, ok).0.wf(),
{
}

/// The wait between attempts never exceeds eight seconds: the node is
/// recreated, and the wait starts over, before doubling could reach the cap.
pub proof fn lemma_delay_bound(s: Reconnect, ok: bool)
    requires
        s.wf(),
    ensures
        1 <= s.delay <= 8,
        step_spec(s, ok).1 matches ReconnectAction::Sleep { secs } ==> 1 <= secs <= 8 || secs
            == NODE_RECREATE_RETRY_SECS,
{
}

/// The node is recreated only after the limit of consecutive failures was
/// reached (or the transport died, which counts as reaching it).
pub proof fn lemma_recreate_only_at_limit(s: Reconnect, ok: bool)
    requires
        s.wf(),
        step_spec(s, ok).1 == ReconnectAction::RecreateNode,
    ensures
        step_spec(s, ok).0.consecutive_failures == MAX_LINK_FAILURES_BEFORE_NODE_RECREATE,
{
}

/// When every action succeeds, a reconnection that is waiting gets its link
/// back in four steps.
pub proof fn lemma_success_path(s: Reconnect)
    requires
        s.wf(),
        s.stage == ReconnectStage::Waiting,
    ensures
        ({
            let s1 = step_spec(s, true).0;
            let s2 = step_spec(s1, true).0;
            let s3 = step_spec(s2, true).0;
            &&& step_spec(s3, true).1 == ReconnectAction::Reconnected
            &&& step_spec(s3, true).0.stage == ReconnectStage::Done
        }),
{
}

/// A failed attempt counts one more failure; the third failure in a row
/// makes the node be recreated next.
pub proof fn lemma_failure_counts(s: Reconnect)
    requires
        s.wf(),
        s.stage == ReconnectStage::CheckingPath || s.stage == ReconnectStage::RecallingIdentity
            || s.stage == ReconnectStage::EstablishingLink,
    ensures
        step_spec(s, false).0.consecutive_failures == s.consecutive_failures + 1,
        step_spec(s, false).1 == ReconnectAction::RecreateNode <==> s.consecutive_failures + 1
            == MAX_LINK_FAILURES_BEFORE_NODE_RECREATE,
{
}

/// A failed attempt that leaves fewer failures than the limit is followed,
/// whichever step failed (path, identity or link), by a wait of twice the
/// previous delay and then a whole new round: the path is checked and the
/// server's identity recalled again before the next link attempt.
pub proof fn lemma_failed_attempt_starts_new_round(s: Reconnect)
    requires
        s.wf(),
        s.stage == ReconnectStage::CheckingPath || s.stage == ReconnectStage::RecallingIdentity
            || s.stage == ReconnectStage::EstablishingLink,
        s.consecutive_failures + 1 < MAX_LINK_FAILURES_BEFORE_NODE_RECREATE,
    ensures
        step_spec(s, false).1 == (ReconnectAction::Sleep { secs: (2 * s.delay) as u64 }),
        step_spec(s, false).0 == (Reconnect {
            delay: (2 * s.delay) as u64,
            consecutive_failures: (s.consecutive_failures + 1) as u32,
            stage: ReconnectStage::Waiting,
        }),
        ({
            let w = step_spec(s, false).0;
            let p = step_spec(w, true);
            &&& p.1 == (ReconnectAction::EnsurePath { timeout_secs: RECONNECT_PATH_TIMEOUT_SECS })
            &&& step_spec(p.0, true).1 == ReconnectAction::RecallIdentity
            &&& step_spec(step_spec(p.0, true).0, true).1 == ReconnectAction::EstablishLink
        }),
{
}

/// A reconnection starts with a one second wait and no failure counted, or,
/// when the transport died, by recreating the node.
pub proof fn lemma_start_values()
    ensures
        start_spec(false).1 == (ReconnectAction::Sleep { secs: 1 }),
        start_spec(false).0 == (Reconnect {
            delay: 1,
            consecutive_failures: 0,
            stage: ReconnectStage::Waiting,
        }),
        start_spec(true).1 == ReconnectAction::RecreateNode,
{
}

/// Recreating the node: success starts over (no failure, one second wait);
/// failure waits five seconds and then tries to recreate the node again,
/// keeping the count and the delay.
pub proof fn lemma_recreate_outcomes(s: Reconnect)
    requires
        s.wf(),
        s.stage == ReconnectStage::RecreatingNode,
    ensures
        step_spec(s, true) == (
            Reconnect { delay: 1, consecutive_failures: 0, stage: ReconnectStage::Waiting },
            ReconnectAction::Sleep { secs: 1 },
        ),
        step_spec(s, false).1 == (ReconnectAction::Sleep { secs: NODE_RECREATE_RETRY_SECS }),
        step_spec(step_spec(s, false).0, true).1 == ReconnectAction::RecreateNode,
        step_spec(step_spec(s, false).0, false).1 == ReconnectAction::RecreateNode,
        step_spec(step_spec(s, false).0, true).0 == s,
{
}

} // verus!
