//! The stream session manager, as a pure state machine.  The driver that
//! owns the transport performs each returned action and feeds the next
//! event back in; every decision — what to request, when a block is new,
//! how long to back off, when to give up — is taken here, under contract.
//!
//! The cursor invariant: the session's cursor advances only through
//! `commit`, which the driver calls after a block's projection writes have
//! all been applied.  A reconnect therefore resumes from the last fully
//! committed block, and a redelivered height is never processed twice.

use vstd::prelude::*;

verus! {

/// Reconnect delays start here.
pub const BACKOFF_BASE_MS: u64 = 500;

/// Reconnect delays never pass this.
pub const BACKOFF_CAP_MS: u64 = 45000;

/// Where the session stands.
#[derive(Clone, Copy, Debug, PartialEq, Eq, Structural)]
pub enum Phase {
    /// A subscription request should be, or has just been, issued.
    Connecting,
    /// Block responses are being consumed.
    Streaming,
    /// A transient failure happened; reconnect after the delay.
    Backoff,
    /// The requested range was fully delivered.
    Done,
    /// A non-retryable failure; the session is over.
    Failed,
}

/// What the transport reported.
#[derive(Clone, Debug, PartialEq, Eq)]
pub enum SessionEvent {
    /// The subscription is established.
    Connected,
    /// One block response, with the cursor the feed issued for it.
    Block { height: u64, cursor: String },
    /// The transport failed in a way worth retrying.
    TransportFailure,
    /// The feed rejected the session; retrying cannot help.
    FatalFailure,
    /// The requested end height was reached.
    RangeEnd,
}

/// What the driver must do next.
#[derive(Clone, Copy, Debug, PartialEq, Eq, Structural)]
pub enum SessionAction {
    /// Nothing; wait for the next event.
    Continue,
    /// Decode and project this block, then call `commit`.
    ProcessBlock,
    /// Drop this block: it was already committed, or lies outside the
    /// range.
    SkipBlock,
    /// Wait this many milliseconds, then issue `subscription_request`
    /// again.
    Backoff { delay_ms: u64 },
    /// The range is complete; release the transport.
    Finish,
    /// Surface the failure and stop; continuing would corrupt the
    /// projection.
    Abort,
}

/// The resumable feed subscription's state.
pub struct Session {
    pub endpoint: String,
    pub auth_token: Option<String>,
    pub module_name: String,
    pub start_height: u64,
    pub end_height: u64,
    pub last_committed_height: Option<u64>,
    pub last_committed_cursor: Option<String>,
    pub retries: u32,
    pub phase: Phase,
}

/// What the driver should send to the feed: the block range still owed
/// for the module, resumed at the last committed cursor.
pub struct SubscriptionRequest {
    pub endpoint: String,
    pub auth_token: Option<String>,
    pub module_name: String,
    pub start_height: u64,
    pub end_height: u64,
    pub cursor: Option<String>,
}

/// An option of a string, seen as an option of its characters.
pub open spec fn cursor_view(c: Option<String>) -> Option<Seq<char>> {
    match c {
        Some(s) => Some(s@),
        None => None,
    }
}

impl Session {
    /// Heights make sense: the range is ordered and leaves room for a
    /// successor height, and a committed height lies inside it, with its
    /// cursor.
    pub open spec fn wf(&self) -> bool {
        &&& self.start_height <= self.end_height
        &&& self.end_height < u64::MAX
        &&& (self.last_committed_height is Some <==> self.last_committed_cursor is Some)
        &&& (self.last_committed_height matches Some(h) ==> self.start_height <= h
            <= self.end_height)
    }

    /// The height the next subscription should start at.
    pub open spec fn spec_next_height(&self) -> u64 {
        match self.last_committed_height {
            Some(h) => (h + 1) as u64,
            None => self.start_height,
        }
    }

    /// Whether a delivered block is new work: above everything committed,
    /// inside the requested range.
    pub open spec fn spec_should_process(&self, height: u64) -> bool {
        &&& self.spec_next_height() <= height <= self.end_height
        &&& self.phase is Streaming
    }

    /// Open a fresh or resumed session.  `resume_cursor` is `None` on a
    /// fresh projection, else the persisted cursor of the last committed
    /// height.
    pub fn open(
        endpoint: String,
        auth_token: Option<String>,
        module_name: String,
        start_height: u64,
        end_height: u64,
        resume_height: Option<u64>,
        resume_cursor: Option<String>,
    ) -> (s: Session)
        requires
            start_height <= end_height,
            end_height < u64::MAX,
            resume_height is Some <==> resume_cursor is Some,
            resume_height matches Some(h) ==> start_height <= h <= end_height,
        ensures
            s.wf(),
            s.endpoint == endpoint,
            s.auth_token == auth_token,
            s.module_name == module_name,
            s.start_height == start_height,
            s.end_height == end_height,
            s.last_committed_height == resume_height,
            s.last_committed_cursor == resume_cursor,
            s.retries == 0,
            s.phase is Connecting,
    {
        Session {
            endpoint,
            auth_token,
            module_name,
            start_height,
            end_height,
            last_committed_height: resume_height,
            last_committed_cursor: resume_cursor,
            retries: 0,
            phase: Phase::Connecting,
        }
    }

    /// The request the driver should send: the block range still owed,
    /// resumed at the last committed cursor.
    pub fn subscription_request(&self) -> (r: SubscriptionRequest)
        requires
            self.wf(),
        ensures
            r.endpoint@ == self.endpoint@,
            cursor_view(r.auth_token) == cursor_view(self.auth_token),
            r.module_name@ == self.module_name@,
            r.start_height == self.spec_next_height(),
            r.end_height == self.end_height,
            cursor_view(r.cursor) == cursor_view(self.last_committed_cursor),
    {
        let start = match &self.last_committed_height {
            Some(h) => *h + 1,
            None => self.start_height,
        };
        let cursor = match &self.last_committed_cursor {
            Some(c) => Some(c.clone()),
            None => None,
        };
        let auth_token = match &self.auth_token {
            Some(t) => Some(t.clone()),
            None => None,
        };
        SubscriptionRequest {
            endpoint: self.endpoint.clone(),
            auth_token,
            module_name: self.module_name.clone(),
            start_height: start,
            end_height: self.end_height,
            cursor,
        }
    }

    /// Record that every projection write of this block has been applied:
    /// only now does the cursor move.  Heights commit in strictly
    /// increasing order.
    pub fn commit(&mut self, height: u64, cursor: String)
        requires
            old(self).wf(),
            old(self).spec_next_height() <= height <= old(self).end_height,
        ensures
            final(self).wf(),
            final(self).last_committed_height == Some(height),
            final(self).last_committed_cursor == Some(cursor),
            final(self).spec_next_height() == height + 1,
            final(self).module_name == old(self).module_name,
            final(self).start_height == old(self).start_height,
            final(self).end_height == old(self).end_height,
            final(self).retries == old(self).retries,
            final(self).phase == old(self).phase,
    {
        self.last_committed_height = Some(height);
        self.last_committed_cursor = Some(cursor);
    }

    /// Advance the machine on one transport event and say what to do.
    /// The session state other than phase and retry count never moves
    /// here; in particular no event, in any order, can move the cursor.
    pub fn on_event(&mut self, event: &SessionEvent) -> (a: SessionAction)
        requires
            old(self).wf(),
        ensures
            final(self).wf(),
            final(self).module_name == old(self).module_name,
            final(self).start_height == old(self).start_height,
            final(self).end_height == old(self).end_height,
            final(self).last_committed_height == old(self).last_committed_height,
            final(self).last_committed_cursor == old(self).last_committed_cursor,
            match event {
                SessionEvent::Connected => {
                    &&& final(self).phase is Streaming
                    &&& final(self).retries == 0
                    &&& a is Continue
                },
                SessionEvent::Block { height, cursor } => {
                    &&& final(self).phase == old(self).phase
                    &&& final(self).retries == old(self).retries
                    &&& (a is ProcessBlock <==> old(self).spec_should_process(*height))
                    &&& (a is ProcessBlock || a is SkipBlock)
                },
                SessionEvent::TransportFailure => {
                    let retryable = old(self).phase is Streaming || old(self).phase is Connecting
                        || old(self).phase is Backoff;
                    &&& retryable ==> {
                        &&& final(self).phase is Backoff
                        &&& (a matches SessionAction::Backoff { delay_ms } && delay_ms
                            <= BACKOFF_CAP_MS)
                    }
                    &&& old(self).phase is Done ==> {
                        &&& final(self).phase is Done
                        &&& final(self).retries == old(self).retries
                        &&& a is Continue
                    }
                    &&& old(self).phase is Failed ==> {
                        &&& final(self).phase is Failed
                        &&& final(self).retries == old(self).retries
                        &&& a is Abort
                    }
                },
                SessionEvent::FatalFailure => final(self).phase is Failed && a is Abort,
                SessionEvent::RangeEnd => final(self).phase is Done && a is Finish,
            },
    {
        match event {
            SessionEvent::Connected => {
                self.phase = Phase::Streaming;
                self.retries = 0;
                SessionAction::Continue
            },
            SessionEvent::Block { height, cursor } => {
                let streaming = match self.phase {
                    Phase::Streaming => true,
                    _ => false,
                };
                let above = match &self.last_committed_height {
                    Some(h) => *height > *h,
                    None => *height >= self.start_height,
                };
                if streaming && above && *height <= self.end_height {
                    SessionAction::ProcessBlock
                } else {
                    SessionAction::SkipBlock
                }
            },
            SessionEvent::TransportFailure => {
                match self.phase {
                    Phase::Done => SessionAction::Continue,
                    Phase::Failed => SessionAction::Abort,
                    _ => {
                        if self.retries < u32::MAX {
                            self.retries = self.retries + 1;
                        }
                        self.phase = Phase::Backoff;
                        SessionAction::Backoff {
                            delay_ms: backoff_delay_ms(
                                BACKOFF_BASE_MS,
                                BACKOFF_CAP_MS,
                                self.retries,
                                0,
                            ),
                        }
                    },
                }
            },
            SessionEvent::FatalFailure => {
                self.phase = Phase::Failed;
                SessionAction::Abort
            },
            SessionEvent::RangeEnd => {
                self.phase = Phase::Done;
                SessionAction::Finish
            },
        }
    }
}

/// Bounded, jittered exponential backoff: `base_ms * 2^retries` plus the
/// caller's jitter, saturating, never above `cap_ms`.  The jitter is an
/// input: the driver draws it, so the delay stays exactly pinned here
/// while still varying between retries.
pub fn backoff_delay_ms(base_ms: u64, cap_ms: u64, retries: u32, jitter_ms: u64) -> (delay: u64)
    ensures
        delay <= cap_ms,
        delay == if base_ms * vstd::arithmetic::power2::pow2(retries as nat) + jitter_ms
            > cap_ms {
            cap_ms
        } else {
            (base_ms * vstd::arithmetic::power2::pow2(retries as nat) + jitter_ms) as u64
        },
{
    let shifted: u64 = if retries >= 64 {
        proof {
            vstd::arithmetic::power2::lemma_pow2_unfold(retries as nat);
            lemma_pow2_ge_width(retries as nat);
            if base_ms == 0 {
                assert(base_ms * vstd::arithmetic::power2::pow2(retries as nat) == 0);
            } else {
                assert(base_ms * vstd::arithmetic::power2::pow2(retries as nat)
                    >= vstd::arithmetic::power2::pow2(retries as nat)) by (nonlinear_arith)
                    requires
                        base_ms >= 1,
                ;
            }
        }
        if base_ms == 0 {
            0
        } else {
            u64::MAX
        }
    } else {
        let factor: u64 = 1u64 << retries;
        proof {
            assert(factor == vstd::arithmetic::power2::pow2(retries as nat)) by {
                lemma_pow2_le_max64(retries as nat);
                assert(1u64 * vstd::arithmetic::power2::pow2(retries as nat)
                    == vstd::arithmetic::power2::pow2(retries as nat));
                vstd::bits::lemma_u64_shl_is_mul(1u64, retries as u64);
            }
        }
        match base_ms.checked_mul(factor) {
            Some(p) => p,
            None => u64::MAX,
        }
    };
    let padded = shifted.saturating_add(jitter_ms);
    if padded > cap_ms {
        cap_ms
    } else {
        padded
    }
}

/// For widths past the machine word, the power passes the word's maximum.
proof fn lemma_pow2_ge_width(n: nat)
    ensures
        n >= 64 ==> vstd::arithmetic::power2::pow2(n) > u64::MAX,
{
    if n >= 64 {
        vstd::arithmetic::power2::lemma2_to64();
        vstd::arithmetic::power2::lemma2_to64_rest();
        if n > 64 {
            vstd::arithmetic::power2::lemma_pow2_strictly_increases(64, n);
        }
    }
}

/// Below the machine word, the power fits it.
proof fn lemma_pow2_le_max64(n: nat)
    ensures
        n < 64 ==> vstd::arithmetic::power2::pow2(n) <= u64::MAX,
{
    if n < 64 {
        vstd::arithmetic::power2::lemma2_to64();
        vstd::arithmetic::power2::lemma2_to64_rest();
        if n < 63 {
            vstd::arithmetic::power2::lemma_pow2_strictly_increases(n, 63);
        }
    }
}

/// Resume without duplication: once a block is committed, a transport
/// failure and reconnect resume at exactly the committed cursor, the next
/// request begins one past the committed height, and no height at or
/// below it counts as new work again.
pub proof fn lemma_resume_without_duplication(s: Session, height: u64, cursor: String)
    requires
        s.wf(),
        s.spec_next_height() <= height <= s.end_height,
    ensures
        ({
            let committed = Session {
                last_committed_height: Some(height),
                last_committed_cursor: Some(cursor),
                ..s
            };
            &&& cursor_view(committed.last_committed_cursor) == Some(cursor@)
            &&& committed.spec_next_height() == height + 1
            &&& forall|h2: u64| h2 <= height ==> !committed.spec_should_process(h2)
        }),
{
}

} // verus!
