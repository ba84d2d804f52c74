//! The decisions of one `send` call, as a state machine.
//!
//! The caller connects, writes, waits and sleeps as the returned actions say,
//! and reports what happened as events. A call starts by connecting to its
//! current endpoint. Transport faults are retried on the next endpoint after
//! a backoff while attempts remain; a reply that cannot be read ends the call
//! at once; a reply to another request is ignored; the call's deadline ends
//! it with a timeout whatever it was doing.
//!
//! Delivery is at least once: a call that times out or loses its connection
//! after writing its request may still have been stored by the broker, and a
//! retry or a new send can store the message again.
use vstd::prelude::*;
use crate::codec::{decode_reply, decode_spec, encode_request, request_bytes, ReplyOutcome};
use crate::error::ClientError;
use crate::message::Message;
use crate::producer::SendReceipt;
use crate::retry::{backoff_spec, RetryPolicy};

verus! {

/// Where a call stands.
#[derive(Clone, Copy, Debug, PartialEq, Eq, Structural)]
pub enum Phase {
    /// Waiting for the connection to the current endpoint.
    Connecting,
    /// The request was written; waiting for its reply.
    AwaitingResponse,
    /// Waiting out the delay before the next attempt.
    BackingOff,
    /// The call has completed.
    Done,
}

/// What happened since the last action.
pub enum Event {
    /// The connection to the current endpoint is ready.
    Connected,
    /// The current endpoint could not be reached.
    ConnectFailed { cause: String },
    /// Writing the request, or the transport after it, failed.
    ConnectionLost { cause: String },
    /// A reply frame arrived on the connection.
    Response { bytes: Vec<u8> },
    /// The clock reads `now_ms`.
    Tick { now_ms: u64 },
    /// The backoff delay has passed.
    BackoffElapsed,
}

/// What to do next.
#[derive(Debug, PartialEq, Eq)]
pub enum Action {
    /// Acquire a ready connection to this endpoint.
    Connect { endpoint: usize },
    /// Write the call's request on the connection to this endpoint.
    Write { endpoint: usize },
    /// Nothing to do: wait for the next event.
    Await,
    /// Wait this many milliseconds, then report `BackoffElapsed`.
    Sleep { ms: u64 },
    /// The call is over, with this result.
    Complete { result: Result<SendReceipt, ClientError> },
}

/// One `send` in flight.
pub struct SendCall {
    correlation_id: u64,
    request: Vec<u8>,
    endpoints: Vec<String>,
    endpoint: usize,
    attempts: u32,
    policy: RetryPolicy,
    deadline_ms: u64,
    jitter: u64,
    phase: Phase,
}

/// The state of a call.
pub ghost struct CallView {
    pub correlation_id: u64,
    pub request: Seq<u8>,
    pub endpoints: Seq<String>,
    /// Index of the endpoint of the current attempt.
    pub endpoint: int,
    /// Attempts begun so far.
    pub attempts: u32,
    pub policy: RetryPolicy,
    pub deadline_ms: u64,
    pub jitter: u64,
    pub phase: Phase,
}

impl View for SendCall {
    type V = CallView;

    closed spec fn view(&self) -> CallView {
        CallView {
            correlation_id: self.correlation_id,
            request: self.request@,
            endpoints: self.endpoints@,
            endpoint: self.endpoint as int,
            attempts: self.attempts,
            policy: self.policy,
            deadline_ms: self.deadline_ms,
            jitter: self.jitter,
            phase: self.phase,
        }
    }
}

/// A call's state is consistent: its endpoint exists and its attempts are
/// within the policy.
pub open spec fn call_wf(s: CallView) -> bool {
    &&& s.endpoints.len() > 0
    &&& 0 <= s.endpoint < s.endpoints.len()
    &&& 1 <= s.attempts <= s.policy.max_attempts
}

/// The endpoint of the current attempt.
pub open spec fn current_endpoint(s: CallView) -> String {
    s.endpoints[s.endpoint]
}

/// The deadline of a call begun at `now_ms` with `timeout_ms` to run.
pub open spec fn deadline_of(now_ms: u64, timeout_ms: u64) -> u64 {
    if now_ms + timeout_ms <= u64::MAX {
        (now_ms + timeout_ms) as u64
    } else {
        u64::MAX
    }
}

/// The state `s` with a new phase.
pub open spec fn with_phase(s: CallView, phase: Phase) -> CallView {
    CallView { phase, ..s }
}

/// After a transient fault `err`: back off and move to the next endpoint
/// while attempts remain, else complete with `ExhaustedRetries` over `err`.
pub open spec fn after_fault(s: CallView, err: ClientError, t: CallView, r: Action) -> bool {
    if s.attempts < s.policy.max_attempts {
        &&& t == CallView {
            phase: Phase::BackingOff,
            attempts: (s.attempts + 1) as u32,
            endpoint: (s.endpoint + 1) % s.endpoints.len() as int,
            ..s
        }
        &&& r == Action::Sleep {
            ms: backoff_spec(
                s.policy.base_backoff_ms,
                s.policy.max_backoff_ms,
                s.attempts,
                s.jitter,
            ) as u64,
        }
    } else {
        &&& t == with_phase(s, Phase::Done)
        &&& r matches Action::Complete {
            result: Err(ClientError::ExhaustedRetries { attempts, last }),
        }
        &&& attempts == s.attempts
        &&& *last == err
    }
}

/// The call leaves `s` unchanged and waits.
pub open spec fn ignored(s: CallView, t: CallView, r: Action) -> bool {
    t == s && r == Action::Await
}

/// How a call in state `s` (not yet done) answers event `e`: `t` is the
/// next state and `r` the action.
pub open spec fn transition(s: CallView, e: Event, t: CallView, r: Action) -> bool {
    match e {
        Event::Tick { now_ms } => if now_ms >= s.deadline_ms {
            &&& t == with_phase(s, Phase::Done)
            &&& r matches Action::Complete { result: Err(ClientError::Timeout { endpoint }) }
            &&& endpoint == current_endpoint(s)
        } else {
            ignored(s, t, r)
        },
        Event::Connected => if s.phase == Phase::Connecting {
            t == with_phase(s, Phase::AwaitingResponse) && r == Action::Write {
                endpoint: s.endpoint as usize,
            }
        } else {
            ignored(s, t, r)
        },
        Event::ConnectFailed { cause } => if s.phase == Phase::Connecting {
            after_fault(s, ClientError::ConnectError { endpoint: current_endpoint(s), cause }, t, r)
        } else {
            ignored(s, t, r)
        },
        Event::ConnectionLost { cause } => if s.phase == Phase::AwaitingResponse {
            after_fault(
                s,
                ClientError::ConnectionLost { endpoint: current_endpoint(s), cause },
                t,
                r,
            )
        } else {
            ignored(s, t, r)
        },
        Event::Response { bytes } => if s.phase == Phase::AwaitingResponse {
            match decode_spec(bytes@) {
                Err(de) => {
                    &&& t == with_phase(s, Phase::Done)
                    &&& r matches Action::Complete {
                        result: Err(ClientError::DecodeError { endpoint, error }),
                    }
                    &&& endpoint == current_endpoint(s)
                    &&& error == de
                },
                Ok(v) => if v.correlation_id != s.correlation_id {
                    ignored(s, t, r)
                } else if v.accepted {
                    &&& t == with_phase(s, Phase::Done)
                    &&& r matches Action::Complete {
                        result: Ok(SendReceipt::Success { message_id }),
                    }
                    &&& message_id@ == v.text
                } else {
                    &&& t == with_phase(s, Phase::Done)
                    &&& r matches Action::Complete {
                        result: Ok(SendReceipt::Failure { cause, target_host }),
                    }
                    &&& cause@ == v.text
                    &&& target_host == current_endpoint(s)
                },
            }
        } else {
            ignored(s, t, r)
        },
        Event::BackoffElapsed => if s.phase == Phase::BackingOff {
            t == with_phase(s, Phase::Connecting) && r == Action::Connect {
                endpoint: s.endpoint as usize,
            }
        } else {
            ignored(s, t, r)
        },
    }
}

impl SendCall {
    /// A call that sends `message` under `correlation_id` to the first of
    /// `endpoints`, begun at `now_ms`, that may run for `timeout_ms`.
    pub fn new(
        correlation_id: u64,
        message: &Message,
        endpoints: Vec<String>,
        policy: RetryPolicy,
        now_ms: u64,
        timeout_ms: u64,
        jitter: u64,
    ) -> (r: SendCall)
        requires
            message.well_formed(),
            endpoints@.len() > 0,
            policy.max_attempts >= 1,
        ensures
            r@ == (CallView {
                correlation_id,
                request: request_bytes(correlation_id, *message),
                endpoints: endpoints@,
                endpoint: 0,
                attempts: 1,
                policy,
                deadline_ms: deadline_of(now_ms, timeout_ms),
                jitter,
                phase: Phase::Connecting,
            }),
            call_wf(r@),
    {
        let deadline_ms = if now_ms <= u64::MAX - timeout_ms {
            now_ms + timeout_ms
        } else {
            u64::MAX
        };
        SendCall {
            correlation_id,
            request: encode_request(correlation_id, message),
            endpoints,
            endpoint: 0,
            attempts: 1,
            policy,
            deadline_ms,
            jitter,
            phase: Phase::Connecting,
        }
    }

    pub fn correlation_id(&self) -> (r: u64)
        ensures
            r == self@.correlation_id,
    {
        self.correlation_id
    }

    /// The request frame to write.
    pub fn request(&self) -> (r: &Vec<u8>)
        ensures
            r@ == self@.request,
    {
        &self.request
    }

    /// Index of the endpoint of the current attempt.
    pub fn endpoint(&self) -> (r: usize)
        ensures
            r == self@.endpoint,
    {
        self.endpoint
    }

    /// The address of the endpoint of the current attempt.
    pub fn endpoint_address(&self) -> (r: &String)
        requires
            call_wf(self@),
        ensures
            *r == current_endpoint(self@),
    {
        &self.endpoints[self.endpoint]
    }

    pub fn attempts(&self) -> (r: u32)
        ensures
            r == self@.attempts,
    {
        self.attempts
    }

    pub fn deadline_ms(&self) -> (r: u64)
        ensures
            r == self@.deadline_ms,
    {
        self.deadline_ms
    }

    pub fn phase(&self) -> (r: Phase)
        ensures
            r == self@.phase,
    {
        self.phase
    }

    pub fn is_done(&self) -> (r: bool)
        ensures
            r == (self@.phase == Phase::Done),
    {
        self.phase == Phase::Done
    }

    fn fault(&mut self, err: ClientError) -> (r: Action)
        requires
            call_wf(old(self)@),
            err.is_transient(),
        ensures
            call_wf(final(self)@),
            after_fault(old(self)@, err, final(self)@, r),
    {
        if self.policy.should_retry(self.attempts, &err) {
            let ms = self.policy.backoff(self.attempts, self.jitter);
            self.attempts = self.attempts + 1;
            self.endpoint = RetryPolicy::next_endpoint(self.endpoint, self.endpoints.len());
            self.phase = Phase::BackingOff;
            Action::Sleep { ms }
        } else {
            self.phase = Phase::Done;
            Action::Complete {
                result: Err(ClientError::ExhaustedRetries { attempts: self.attempts, last: Box::new(err) }),
            }
        }
    }

    /// Answers one event.
    pub fn step(&mut self, event: Event) -> (r: Action)
        requires
            call_wf(old(self)@),
            old(self)@.phase != Phase::Done,
        ensures
            call_wf(final(self)@),
            transition(old(self)@, event, final(self)@, r),
    {
        match event {
            Event::Tick { now_ms } => {
                if now_ms >= self.deadline_ms {
                    self.phase = Phase::Done;
                    let endpoint = self.endpoints[self.endpoint].clone();
                    Action::Complete { result: Err(ClientError::Timeout { endpoint }) }
                } else {
                    Action::Await
                }
            },
            Event::Connected => {
                if self.phase == Phase::Connecting {
                    self.phase = Phase::AwaitingResponse;
                    Action::Write { endpoint: self.endpoint }
                } else {
                    Action::Await
                }
            },
            Event::ConnectFailed { cause } => {
                if self.phase == Phase::Connecting {
                    let endpoint = self.endpoints[self.endpoint].clone();
                    self.fault(ClientError::ConnectError { endpoint, cause })
                } else {
                    Action::Await
                }
            },
            Event::ConnectionLost { cause } => {
                if self.phase == Phase::AwaitingResponse {
                    let endpoint = self.endpoints[self.endpoint].clone();
                    self.fault(ClientError::ConnectionLost { endpoint, cause })
                } else {
                    Action::Await
                }
            },
            Event::Response { bytes } => {
                if self.phase == Phase::AwaitingResponse {
                    match decode_reply(bytes.as_slice()) {
                        Err(error) => {
                            self.phase = Phase::Done;
                            let endpoint = self.endpoints[self.endpoint].clone();
                            Action::Complete {
                                result: Err(ClientError::DecodeError { endpoint, error }),
                            }
                        },
                        Ok(reply) => {
                            if reply.correlation_id != self.correlation_id {
                                Action::Await
                            } else {
                                self.phase = Phase::Done;
                                match reply.outcome {
                                    ReplyOutcome::Accepted { message_id } => Action::Complete {
                                        result: Ok(SendReceipt::Success { message_id }),
                                    },
                                    ReplyOutcome::Rejected { reason } => {
                                        let target_host = self.endpoints[self.endpoint].clone();
                                        Action::Complete {
                                            result: Ok(
                                                SendReceipt::Failure { cause: reason, target_host },
                                            ),
                                        }
                                    },
                                }
                            }
                        },
                    }
                } else {
                    Action::Await
                }
            },
            Event::BackoffElapsed => {
                if self.phase == Phase::BackingOff {
                    self.phase = Phase::Connecting;
                    Action::Connect { endpoint: self.endpoint }
                } else {
                    Action::Await
                }
            },
        }
    }
}

/// A step keeps a call consistent, and keeps what it was configured with.
pub proof fn lemma_transition_keeps(s: CallView, e: Event, t: CallView, r: Action)
    requires
        call_wf(s),
        s.phase != Phase::Done,
        transition(s, e, t, r),
    ensures
        call_wf(t),
        t.correlation_id == s.correlation_id,
        t.request == s.request,
        t.endpoints == s.endpoints,
        t.policy == s.policy,
        t.deadline_ms == s.deadline_ms,
        s.attempts <= t.attempts,
{
    vstd::arithmetic::div_mod::lemma_mod_bound(s.endpoint + 1, s.endpoints.len() as int);
}

/// Each event of a trace is one step of the call.
pub open spec fn is_trace(states: Seq<CallView>, events: Seq<Event>, actions: Seq<Action>) -> bool {
    &&& states.len() == events.len() + 1
    &&& actions.len() == events.len()
    &&& forall|i: int|
        #![trigger events[i]]
        0 <= i < events.len() ==> states[i].phase != Phase::Done && transition(
            states[i],
            events[i],
            states[i + 1],
            actions[i],
        )
}

proof fn lemma_trace_keeps(states: Seq<CallView>, events: Seq<Event>, actions: Seq<Action>, k: int)
    requires
        is_trace(states, events, actions),
        call_wf(states[0]),
        0 <= k <= events.len(),
    ensures
        call_wf(states[k]),
        states[k].policy == states[0].policy,
        states[k].correlation_id == states[0].correlation_id,
    decreases k,
{
    if k > 0 {
        lemma_trace_keeps(states, events, actions, k - 1);
        let _ = events[k - 1];
        lemma_transition_keeps(states[k - 1], events[k - 1], states[k], actions[k - 1]);
    }
}

/// Against an endpoint that is never reached, a call can only end by
/// exhausting its retries, and the error counts exactly the attempts that
/// the policy allows.
pub proof fn lemma_unreachable_exhausts(
    states: Seq<CallView>,
    events: Seq<Event>,
    actions: Seq<Action>,
)
    requires
        events.len() > 0,
        is_trace(states, events, actions),
        call_wf(states[0]),
        forall|i: int|
            0 <= i < events.len() ==> #[trigger] events[i] is ConnectFailed || events[i] is BackoffElapsed,
        states.last().phase == Phase::Done,
    ensures
        actions.last() matches Action::Complete {
            result: Err(ClientError::ExhaustedRetries { attempts, last }),
        } && attempts == states[0].policy.max_attempts && *last is ConnectError,
{
    let n = events.len() - 1;
    lemma_trace_keeps(states, events, actions, n);
    let _ = events[n];
    assert(states[n + 1] == states.last());
}

/// A reply that cannot be read ends the call at once: no further attempt.
pub proof fn lemma_decode_error_not_retried(s: CallView, bytes: Vec<u8>, t: CallView, r: Action)
    requires
        call_wf(s),
        s.phase == Phase::AwaitingResponse,
        decode_spec(bytes@) is Err,
        transition(s, Event::Response { bytes }, t, r),
    ensures
        t.phase == Phase::Done,
        t.attempts == s.attempts,
        r matches Action::Complete { result: Err(ClientError::DecodeError { .. }) },
{
}

/// A call completes with a receipt only on a reply that carries its own
/// correlation identifier; a reply to another request leaves it unchanged.
pub proof fn lemma_receipt_correlated(s: CallView, e: Event, t: CallView, r: Action)
    requires
        transition(s, e, t, r),
    ensures
        r matches Action::Complete { result: Ok(_) } ==> (e matches Event::Response { bytes }
            && decode_spec(bytes@) matches Ok(v) && v.correlation_id == s.correlation_id),
        e matches Event::Response { bytes } ==> (decode_spec(bytes@) matches Ok(v)
            && v.correlation_id != s.correlation_id ==> t == s && r == Action::Await),
{
}

/// Once the deadline has passed, the call ends with a timeout, whatever it
/// was waiting for; before it, the clock alone changes nothing.
pub proof fn lemma_deadline_times_out(s: CallView, now_ms: u64, t: CallView, r: Action)
    requires
        transition(s, Event::Tick { now_ms }, t, r),
    ensures
        now_ms >= s.deadline_ms ==> t.phase == Phase::Done && r matches Action::Complete {
            result: Err(ClientError::Timeout { .. }),
        },
        now_ms < s.deadline_ms ==> t == s && r == Action::Await,
{
}

/// Every connection attempt fails, and each backoff is waited out.
pub open spec fn connects_always_fail(events: Seq<Event>) -> bool {
    forall|i: int|
        0 <= i < events.len() ==> if i % 2 == 0 {
            #[trigger] events[i] is ConnectFailed
        } else {
            events[i] is BackoffElapsed
        }
}

proof fn lemma_failing_prefix(
    states: Seq<CallView>,
    events: Seq<Event>,
    actions: Seq<Action>,
    k: int,
)
    requires
        is_trace(states, events, actions),
        call_wf(states[0]),
        states[0].phase == Phase::Connecting,
        connects_always_fail(events),
        0 <= k <= events.len(),
    ensures
        call_wf(states[k]),
        states[k].policy == states[0].policy,
        k % 2 == 0 ==> states[k].phase == Phase::Connecting && states[k].attempts
            == states[0].attempts + k / 2,
        k % 2 == 1 ==> (states[k].phase == Phase::BackingOff && states[k].attempts
            == states[0].attempts + (k + 1) / 2) || (states[k].phase == Phase::Done && k
            == events.len() && states[k].attempts == states[0].attempts + (k - 1) / 2
            && states[k].attempts == states[0].policy.max_attempts),
    decreases k,
{
    if k > 0 {
        lemma_failing_prefix(states, events, actions, k - 1);
        let _ = events[k - 1];
        lemma_transition_keeps(states[k - 1], events[k - 1], states[k], actions[k - 1]);
        if states[k].phase == Phase::Done && k < events.len() {
            let _ = events[k];
        }
    }
}

/// Against an endpoint that is never reached, a fresh call makes exactly the
/// attempts that its policy allows: after the last one fails it ends with
/// `ExhaustedRetries`, and no trace of such a call runs longer.
pub proof fn lemma_unreachable_attempt_count(
    states: Seq<CallView>,
    events: Seq<Event>,
    actions: Seq<Action>,
)
    requires
        is_trace(states, events, actions),
        call_wf(states[0]),
        states[0].phase == Phase::Connecting,
        states[0].attempts == 1,
        connects_always_fail(events),
    ensures
        events.len() <= 2 * states[0].policy.max_attempts - 1,
        events.len() == 2 * states[0].policy.max_attempts - 1 ==> (actions.last() matches Action::Complete {
            result: Err(ClientError::ExhaustedRetries { attempts, .. }),
        } && attempts == states[0].policy.max_attempts && states.last().phase == Phase::Done),
{
    let n = events.len() as int;
    lemma_failing_prefix(states, events, actions, n);
    assert(states.last() == states[n]);
    if n == 2 * states[0].policy.max_attempts - 1 {
        lemma_failing_prefix(states, events, actions, n - 1);
        let _ = events[n - 1];
    }
}

} // verus!
