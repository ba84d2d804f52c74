use vstd::prelude::*;
use crate::error::ClientError;
use crate::message::Message;
use crate::retry::RetryPolicy;
use crate::send::{call_wf, deadline_of, CallView, Phase, SendCall};
use crate::codec::request_bytes;

verus! {

/// The outcome of a send that reached the broker.
#[derive(Debug, PartialEq, Eq)]
pub enum SendReceipt {
    /// The broker stored the message under this id.
    Success { message_id: String },
    /// The broker at `target_host` refused the message.
    Failure { cause: String, target_host: String },
}

/// Per-call deadline when none is set, in milliseconds.
pub const DEFAULT_TIMEOUT_MS: u64 = 3000;

/// Configuration of a producer.
pub struct ProducerBuilder {
    endpoints: Vec<String>,
    timeout_ms: u64,
    policy: RetryPolicy,
}

pub ghost struct BuilderView {
    pub endpoints: Seq<String>,
    pub timeout_ms: u64,
    pub policy: RetryPolicy,
}

impl View for ProducerBuilder {
    type V = BuilderView;

    closed spec fn view(&self) -> BuilderView {
        BuilderView { endpoints: self.endpoints@, timeout_ms: self.timeout_ms, policy: self.policy }
    }
}

/// Whether every endpoint address is non-empty.
pub open spec fn endpoints_valid(endpoints: Seq<String>) -> bool {
    forall|i: int| 0 <= i < endpoints.len() ==> (#[trigger] endpoints[i])@.len() > 0
}

/// Copies a list of addresses.
fn copy_endpoints(endpoints: &Vec<String>) -> (r: Vec<String>)
    ensures
        r@ == endpoints@,
{
    let mut r: Vec<String> = Vec::new();
    let mut i: usize = 0;
    while i < endpoints.len()
        invariant
            i <= endpoints@.len(),
            r@ == endpoints@.subrange(0, i as int),
        decreases endpoints@.len() - i,
    {
        r.push(endpoints[i].clone());
        i = i + 1;
        assert(r@ =~= endpoints@.subrange(0, i as int));
    }
    assert(endpoints@.subrange(0, i as int) =~= endpoints@);
    r
}

impl ProducerBuilder {
    /// A configuration that sends to `target`, with the default deadline and
    /// retry policy.
    pub fn new(target: &str) -> (r: ProducerBuilder)
        ensures
            r@.endpoints.len() == 1,
            r@.endpoints[0]@ == target@,
            r@.timeout_ms == DEFAULT_TIMEOUT_MS,
            r@.policy == RetryPolicy::default_spec(),
    {
        let mut endpoints: Vec<String> = Vec::new();
        endpoints.push(target.to_owned());
        ProducerBuilder { endpoints, timeout_ms: DEFAULT_TIMEOUT_MS, policy: RetryPolicy::default() }
    }

    /// Adds an endpoint, tried in turn after those before it.
    pub fn add_endpoint(self, target: &str) -> (r: ProducerBuilder)
        ensures
            r@.endpoints.len() == self@.endpoints.len() + 1,
            r@.endpoints.drop_last() == self@.endpoints,
            r@.endpoints.last()@ == target@,
            r@.timeout_ms == self@.timeout_ms,
            r@.policy == self@.policy,
    {
        let mut b = self;
        b.endpoints.push(target.to_owned());
        assert(b@.endpoints.drop_last() =~= self@.endpoints);
        b
    }

    /// Sets the deadline of each send, in milliseconds from its start.
    pub fn set_timeout(self, timeout_ms: u64) -> (r: ProducerBuilder)
        ensures
            r@ == (BuilderView { timeout_ms, ..self@ }),
    {
        let mut b = self;
        b.timeout_ms = timeout_ms;
        b
    }

    /// Replaces the retry policy.
    pub fn set_retry_policy(self, policy: RetryPolicy) -> (r: ProducerBuilder)
        ensures
            r@ == (BuilderView { policy, ..self@ }),
    {
        let mut b = self;
        b.policy = policy;
        b
    }

    /// The producer. No connection is made here: each send connects when it
    /// starts, so an unreachable broker shows in the first send's result.
    pub fn build(self) -> (r: Result<Producer, ClientError>)
        ensures
            !endpoints_valid(self@.endpoints) ==> r matches Err(ClientError::InvalidTarget),
            endpoints_valid(self@.endpoints) && self@.policy.max_attempts == 0 ==> r matches Err(
                ClientError::InvalidRetryPolicy,
            ),
            endpoints_valid(self@.endpoints) && self@.policy.max_attempts > 0 ==> (r matches Ok(p)
                && p@ == (ProducerView {
                endpoints: self@.endpoints,
                timeout_ms: self@.timeout_ms,
                policy: self@.policy,
                next_correlation_id: 0,
            })),
    {
        let mut i: usize = 0;
        while i < self.endpoints.len()
            invariant
                i <= self.endpoints@.len(),
                forall|j: int| 0 <= j < i ==> (#[trigger] self.endpoints@[j])@.len() > 0,
            decreases self.endpoints@.len() - i,
        {
            if self.endpoints[i].as_str().is_empty() {
                return Err(ClientError::InvalidTarget);
            }
            i = i + 1;
        }
        if self.policy.max_attempts == 0 {
            return Err(ClientError::InvalidRetryPolicy);
        }
        Ok(
            Producer {
                endpoints: self.endpoints,
                timeout_ms: self.timeout_ms,
                policy: self.policy,
                next_correlation_id: 0,
            },
        )
    }
}

/// A configured producer. It hands out one `SendCall` per message, each with
/// a correlation identifier of its own.
pub struct Producer {
    endpoints: Vec<String>,
    timeout_ms: u64,
    policy: RetryPolicy,
    next_correlation_id: u64,
}

pub ghost struct ProducerView {
    pub endpoints: Seq<String>,
    pub timeout_ms: u64,
    pub policy: RetryPolicy,
    /// The identifier that the next call gets.
    pub next_correlation_id: u64,
}

impl View for Producer {
    type V = ProducerView;

    closed spec fn view(&self) -> ProducerView {
        ProducerView {
            endpoints: self.endpoints@,
            timeout_ms: self.timeout_ms,
            policy: self.policy,
            next_correlation_id: self.next_correlation_id,
        }
    }
}

/// A producer as `build` makes it.
pub open spec fn producer_wf(p: ProducerView) -> bool {
    p.endpoints.len() > 0 && endpoints_valid(p.endpoints) && p.policy.max_attempts >= 1
}

/// The identifier after `id`, from the largest back to zero.
pub open spec fn next_id(id: u64) -> u64 {
    if id == u64::MAX {
        0
    } else {
        (id + 1) as u64
    }
}

impl Producer {
    pub open spec fn wf(&self) -> bool {
        producer_wf(self@)
    }

    /// Starts sending `message` at `now_ms`: a malformed message is refused,
    /// else the call gets the next correlation identifier, the request frame,
    /// every endpoint, the deadline `now_ms` plus the timeout, and `jitter`
    /// for its backoff delays.
    pub fn begin_send(&mut self, message: &Message, now_ms: u64, jitter: u64) -> (r: Result<
        SendCall,
        ClientError,
    >)
        requires
            old(self).wf(),
        ensures
            final(self).wf(),
            !message.well_formed() ==> (r matches Err(ClientError::InvalidMessage) && final(self)@
                == old(self)@),
            message.well_formed() ==> (r matches Ok(call) && call@ == (CallView {
                correlation_id: old(self)@.next_correlation_id,
                request: request_bytes(old(self)@.next_correlation_id, *message),
                endpoints: old(self)@.endpoints,
                endpoint: 0,
                attempts: 1,
                policy: old(self)@.policy,
                deadline_ms: deadline_of(now_ms, old(self)@.timeout_ms),
                jitter,
                phase: Phase::Connecting,
            }) && call_wf(call@) && final(self)@ == (ProducerView {
                next_correlation_id: next_id(old(self)@.next_correlation_id),
                ..old(self)@
            })),
    {
        if !message.is_well_formed() {
            return Err(ClientError::InvalidMessage);
        }
        let id = self.next_correlation_id;
        self.next_correlation_id = if id == u64::MAX {
            0
        } else {
            id + 1
        };
        let endpoints = copy_endpoints(&self.endpoints);
        Ok(SendCall::new(id, message, endpoints, self.policy, now_ms, self.timeout_ms, jitter))
    }

    /// The identifier that the next call gets.
    pub fn next_correlation_id(&self) -> (r: u64)
        ensures
            r == self@.next_correlation_id,
    {
        self.next_correlation_id
    }

    pub fn endpoints(&self) -> (r: &Vec<String>)
        ensures
            r@ == self@.endpoints,
    {
        &self.endpoints
    }
}

/// The identifier of the call begun `k` calls after one that got `id`.
pub open spec fn id_after(id: u64, k: nat) -> u64
    decreases k,
{
    if k == 0 {
        id
    } else {
        next_id(id_after(id, (k - 1) as nat))
    }
}

/// The number of distinct correlation identifiers.
pub open spec fn id_space() -> int {
    u64::MAX as int + 1
}

proof fn lemma_id_after_mod(id: u64, k: nat)
    ensures
        id_after(id, k) as int == (id as int + k) % id_space(),
    decreases k,
{
    let m = id_space();
    if k == 0 {
        vstd::arithmetic::div_mod::lemma_small_mod(id as nat, m as nat);
    } else {
        lemma_id_after_mod(id, (k - 1) as nat);
        let a = id as int + k - 1;
        vstd::arithmetic::div_mod::lemma_add_mod_noop(a, 1, m);
        vstd::arithmetic::div_mod::lemma_small_mod(1, m as nat);
        let x = id_after(id, (k - 1) as nat);
        if x == u64::MAX {
            vstd::arithmetic::div_mod::lemma_mod_self_0(m);
        } else {
            vstd::arithmetic::div_mod::lemma_small_mod((x + 1) as nat, m as nat);
        }
    }
}

/// Calls begun one after another on a producer carry distinct correlation
/// identifiers, as long as fewer than 2^64 are begun: no call can take
/// another call's reply for its own.
pub proof fn lemma_ids_distinct(id: u64, j: nat, k: nat)
    requires
        j < k < id_space(),
    ensures
        id_after(id, j) != id_after(id, k),
{
    let m = id_space();
    lemma_id_after_mod(id, j);
    lemma_id_after_mod(id, k);
    vstd::arithmetic::div_mod::lemma_mod_equivalence(id as int + k, id as int + j, m);
    vstd::arithmetic::div_mod::lemma_small_mod((k - j) as nat, m as nat);
}

} // verus!
