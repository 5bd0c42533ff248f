//! The application's side of the translator process: request ids, the
//! bookkeeping of pending requests, the handshake, heartbeats, and the
//! restart back-off. The process, its pipes and the timers are driven by the
//! caller; this module decides.
use vstd::prelude::*;
use std::collections::HashMap;

use crate::protocol::{protocol_version, protocol_version_spec, Response};
use crate::text::{concat, push_str, str_eq, to_string};

verus! {

broadcast use vstd::std_specs::hash::group_hash_axioms;

// ---------------------------------------------------------------------------
// Request ids
// ---------------------------------------------------------------------------

/// The low 20 bits of an id come from a counter, the bits above from the
/// time in milliseconds.
pub open spec fn id_spec(ts_millis: u64, counter: u64) -> u64 {
    ((ts_millis << 20u64) | (counter & 0xFFFFFu64)) as u64
}

/// The id for a request made at `ts_millis` with counter value `counter`.
pub fn compose_id(ts_millis: u64, counter: u64) -> (res: u64)
    ensures
        res == id_spec(ts_millis, counter),
{
    (ts_millis << 20u64) | (counter & 0xFFFFFu64)
}

/// A source of request ids.
pub struct IdGenerator {
    counter: u64,
}

impl IdGenerator {
    pub closed spec fn count(self) -> u64 {
        self.counter
    }

    pub fn new() -> (res: Self)
        ensures
            res.count() == 0,
    {
        IdGenerator { counter: 0 }
    }
}

/// The current time in milliseconds since the Unix epoch (0 when the clock
/// is before it), as `SystemTime::now` reports it.
#[verifier::external_body]
fn unix_time_millis() -> u64 {
    std::time::SystemTime::now().duration_since(std::time::UNIX_EPOCH).unwrap_or_default().as_millis() as u64
}

/// A fresh id: the current time and the generator's counter, which then
/// advances (wrapping).
pub fn generate_id(generator: &mut IdGenerator) -> (res: u64)
    ensures
        res & 0xFFFFF == old(generator).count() & 0xFFFFF,
        exists|ts: u64| res == id_spec(ts, old(generator).count()),
        final(generator).count() == old(generator).count().wrapping_add(1),
{
    let ts = unix_time_millis();
    let c = generator.counter;
    generator.counter = c.wrapping_add(1);
    let id = compose_id(ts, c);
    assert(id & 0xFFFFF == c & 0xFFFFF) by (bit_vector)
        requires
            id == ((ts << 20u64) | (c & 0xFFFFFu64)),
    ;
    id
}

/// Law: two ids drawn one after the other from the same generator differ,
/// whatever the clock says.
pub proof fn consecutive_ids_differ(c: u64, ts1: u64, ts2: u64)
    ensures
        id_spec(ts1, c) != id_spec(ts2, c.wrapping_add(1)),
{
    let d = c.wrapping_add(1);
    assert(d == (if c == 0xFFFF_FFFF_FFFF_FFFF { 0 } else { c + 1 }));
    assert(((ts1 << 20u64) | (c & 0xFFFFFu64)) != ((ts2 << 20u64) | (d & 0xFFFFFu64))) by (bit_vector)
        requires
            d == (if c == 0xFFFF_FFFF_FFFF_FFFFu64 { 0u64 } else { (c + 1) as u64 }),
    ;
}

/// Law: the time stamp stands in the bits above the counter (modulo 2^44).
pub proof fn id_holds_timestamp(ts: u64, c: u64)
    ensures
        id_spec(ts, c) >> 20u64 == ts & 0xFFF_FFFF_FFFFu64,
{
    assert((((ts << 20u64) | (c & 0xFFFFFu64)) >> 20u64) == (ts & 0xFFF_FFFF_FFFFu64)) by (bit_vector);
}

// ---------------------------------------------------------------------------
// Errors and waiting
// ---------------------------------------------------------------------------

/// Why a request to the translator failed.
#[derive(Debug, Clone, PartialEq, Eq)]
pub enum SidecarErrorType {
    NotInstalled,
    Crashed { retryable: bool },
    NotReady(String),
    Timeout(String),
    ProtocolVersionMismatch(String),
    TooManyPending,
    Sidecar(String),
    Io(String),
}

/// How the wait for a response ended.
pub enum WaitOutcome {
    /// The waiter was handed a response or an error.
    Answered(Result<Response, SidecarErrorType>),
    /// The waiter was dropped without an answer.
    Closed,
    /// The time limit passed.
    TimedOut,
}

/// The result of a translation request.
pub fn translate_result(outcome: WaitOutcome) -> (res: Result<String, SidecarErrorType>)
    ensures
        match (outcome, res) {
            (WaitOutcome::Answered(Ok(resp)), r) => match resp.error {
                Some(e) => r == Err::<String, SidecarErrorType>(SidecarErrorType::Sidecar(e.message)),
                None => match resp.translated {
                    Some(t) => r == Ok::<String, SidecarErrorType>(t),
                    None => r matches Err(SidecarErrorType::Sidecar(m)) && m@
                        == "no translated field in response"@,
                },
            },
            (WaitOutcome::Answered(Err(e)), r) => r == Err::<String, SidecarErrorType>(e),
            (WaitOutcome::Closed, r) => r == Err::<String, SidecarErrorType>(
                SidecarErrorType::Crashed { retryable: true },
            ),
            (WaitOutcome::TimedOut, r) => r matches Err(SidecarErrorType::Timeout(m)) && m@
                == "translate"@,
        },
{
    match outcome {
        WaitOutcome::Answered(Ok(resp)) => match resp.error {
            Some(e) => Err(SidecarErrorType::Sidecar(e.message)),
            None => match resp.translated {
                Some(t) => Ok(t),
                None => Err(SidecarErrorType::Sidecar(to_string("no translated field in response"))),
            },
        },
        WaitOutcome::Answered(Err(e)) => Err(e),
        WaitOutcome::Closed => Err(SidecarErrorType::Crashed { retryable: true }),
        WaitOutcome::TimedOut => Err(SidecarErrorType::Timeout(to_string("translate"))),
    }
}

/// The result of a status request.
pub fn status_result(outcome: WaitOutcome) -> (res: Result<Response, SidecarErrorType>)
    ensures
        match (outcome, res) {
            (WaitOutcome::Answered(a), r) => r == a,
            (WaitOutcome::Closed, r) => r == Err::<Response, SidecarErrorType>(
                SidecarErrorType::Crashed { retryable: true },
            ),
            (WaitOutcome::TimedOut, r) => r matches Err(SidecarErrorType::Timeout(m)) && m@
                == "status"@,
        },
{
    match outcome {
        WaitOutcome::Answered(a) => a,
        WaitOutcome::Closed => Err(SidecarErrorType::Crashed { retryable: true }),
        WaitOutcome::TimedOut => Err(SidecarErrorType::Timeout(to_string("status"))),
    }
}

// ---------------------------------------------------------------------------
// Restart back-off
// ---------------------------------------------------------------------------

/// Restarts tried in a row before giving up.
pub const MAX_RESTART_ATTEMPTS: u32 = 5;
/// The longest wait (milliseconds) before a restart.
pub const MAX_BACKOFF_MS: u64 = 60_000;
/// The first wait (milliseconds) before a restart.
pub const INITIAL_BACKOFF_MS: u64 = 1_000;

/// Failed restarts in a row and the wait before the next one.
#[derive(Debug, Clone, Copy, PartialEq, Eq)]
pub struct RestartBackoff {
    pub attempts: u32,
    pub delay_ms: u64,
}

impl RestartBackoff {
    pub open spec fn wf(self) -> bool {
        &&& self.attempts <= MAX_RESTART_ATTEMPTS
        &&& INITIAL_BACKOFF_MS <= self.delay_ms <= MAX_BACKOFF_MS
    }

    /// No failure yet; a one-second wait.
    pub fn new() -> (res: Self)
        ensures
            res.attempts == 0,
            res.delay_ms == INITIAL_BACKOFF_MS,
            res.wf(),
    {
        RestartBackoff { attempts: 0, delay_ms: INITIAL_BACKOFF_MS }
    }

    /// Whether to stop restarting.
    pub fn gives_up(&self) -> (res: bool)
        ensures
            res == (self.attempts >= MAX_RESTART_ATTEMPTS),
    {
        self.attempts >= MAX_RESTART_ATTEMPTS
    }

    /// A restart failed: one more attempt counted, the wait doubled up to
    /// the limit.
    pub fn on_failure(&mut self)
        requires
            old(self).wf(),
            old(self).attempts < MAX_RESTART_ATTEMPTS,
        ensures
            final(self).attempts == old(self).attempts + 1,
            final(self).delay_ms == if old(self).delay_ms * 2 <= MAX_BACKOFF_MS {
                old(self).delay_ms * 2
            } else {
                MAX_BACKOFF_MS as int
            },
            final(self).wf(),
    {
        self.attempts = self.attempts + 1;
        let doubled = self.delay_ms * 2;
        self.delay_ms = if doubled <= MAX_BACKOFF_MS {
            doubled
        } else {
            MAX_BACKOFF_MS
        };
    }

    /// A restart succeeded: back to the start.
    pub fn on_success(&mut self)
        ensures
            final(self).attempts == 0,
            final(self).delay_ms == INITIAL_BACKOFF_MS,
            final(self).wf(),
    {
        self.attempts = 0;
        self.delay_ms = INITIAL_BACKOFF_MS;
    }
}

/// What the supervisor found of the translator process.
#[derive(Debug, Clone, Copy, PartialEq, Eq)]
pub enum ChildStatus {
    /// It is still running.
    Running,
    /// It has exited.
    Exited,
    /// Its status could not be read.
    Unknown,
    /// There is no process.
    Missing,
}

/// What the supervisor does next.
#[derive(Debug, Clone, Copy, PartialEq, Eq)]
pub enum SupervisorStep {
    /// Nothing; look again later.
    Wait,
    /// Fail the waiting requests (they may be retried), then restart after
    /// this many milliseconds.
    RestartAfter(u64),
    /// Fail the waiting requests and stop supervising: too many restarts
    /// failed in a row.
    GiveUp,
}

/// The supervisor's decision: a running process is left alone; otherwise
/// it is restarted after the back-off delay, unless the restarts have
/// failed too often.
pub fn supervise(backoff: &RestartBackoff, status: ChildStatus) -> (res: SupervisorStep)
    ensures
        status == ChildStatus::Running ==> res == SupervisorStep::Wait,
        status != ChildStatus::Running && backoff.attempts >= MAX_RESTART_ATTEMPTS ==> res
            == SupervisorStep::GiveUp,
        status != ChildStatus::Running && backoff.attempts < MAX_RESTART_ATTEMPTS ==> res
            == SupervisorStep::RestartAfter(backoff.delay_ms),
{
    match status {
        ChildStatus::Running => SupervisorStep::Wait,
        _ => if backoff.gives_up() {
            SupervisorStep::GiveUp
        } else {
            SupervisorStep::RestartAfter(backoff.delay_ms)
        },
    }
}

// ---------------------------------------------------------------------------
// Pending requests and the translator's state
// ---------------------------------------------------------------------------

/// The most requests that may wait for an answer.
pub const MAX_PENDING: usize = 100;
/// How long (milliseconds) a request may wait before it is forgotten.
pub const PENDING_TTL_MS: u64 = 120_000;
/// How long (milliseconds) the translator may stay silent before it is
/// killed.
pub const HEARTBEAT_TIMEOUT_MS: u64 = 60_000;
/// The id under which the handshake waits.
pub const INIT_REQUEST_ID: u64 = 0;

/// A request waiting for its answer: who to hand it to, and since when.
pub struct Pending<T> {
    pub waiter: T,
    pub created_at: u64,
}

/// What the application knows of the translator process.
pub struct SidecarState<T> {
    pub pending: HashMap<u64, Pending<T>>,
    /// Whether translations may be requested.
    pub ready: bool,
    /// Whether the translator reported its models loaded.
    pub models_ready: bool,
    /// When (milliseconds) the translator was last heard from.
    pub last_heartbeat: u64,
    /// Whether silence is watched.
    pub watchdog_enabled: bool,
    /// The languages the translator reported.
    pub languages: Vec<String>,
}

/// Whether a request made at `created_at` has waited too long at `now`.
pub open spec fn expired(created_at: u64, now: u64) -> bool {
    now >= created_at && now - created_at >= PENDING_TTL_MS
}

fn expired_at(created_at: u64, now: u64) -> (res: bool)
    ensures
        res == expired(created_at, now),
{
    now >= created_at && now - created_at >= PENDING_TTL_MS
}

/// Every element of `out` is the waiter of some request of `m`.
pub open spec fn waiters_of<T>(out: Seq<T>, m: Map<u64, Pending<T>>) -> bool {
    forall|j: int|
        0 <= j < out.len() ==> exists|k: u64| m.contains_key(k) && (#[trigger] out[j]) == m[k].waiter
}

/// A response type name.
pub open spec fn type_is(resp: Response, name: Seq<char>) -> bool {
    resp.response_type matches Some(t) && t@ == name
}

/// Whether the handshake's answer `resp` is in another protocol version.
pub open spec fn version_mismatch(resp: Response) -> bool {
    resp.protocol_version matches Some(v) && v@ != protocol_version_spec()
}

/// What the handshake's answer `resp`, taken at `now`, does to the state
/// `before`, leaving `after`, with result `res`: another protocol version
/// is refused and changes nothing; otherwise the readiness and languages
/// are recorded and silence is watched from `now`. Pending requests stay.
pub open spec fn init_answered<T>(
    before: SidecarState<T>,
    after: SidecarState<T>,
    resp: Response,
    now: u64,
    res: Result<(), SidecarErrorType>,
) -> bool {
    &&& version_mismatch(resp) ==> {
        &&& res matches Err(SidecarErrorType::ProtocolVersionMismatch(m)) && m@ == "Expected "@
            + protocol_version_spec() + ", got "@ + resp.protocol_version->0@
        &&& after.ready == before.ready
        &&& after.models_ready == before.models_ready
        &&& after.watchdog_enabled == before.watchdog_enabled
        &&& after.last_heartbeat == before.last_heartbeat
        &&& after.languages == before.languages
    }
    &&& !version_mismatch(resp) ==> {
        &&& res is Ok
        &&& after.models_ready == (resp.ready == Some(true))
        &&& after.ready == after.models_ready
        &&& (resp.languages matches Some(l) ==> after.languages@ == l@)
        &&& (resp.languages is None ==> after.languages@.len() == 0)
        &&& after.watchdog_enabled
        &&& after.last_heartbeat == now
    }
    &&& after.pending@ == before.pending@
}

impl<T> SidecarState<T> {
    /// Nothing running, nothing pending.
    pub fn new(now: u64) -> (res: Self)
        ensures
            res.pending@ == Map::<u64, Pending<T>>::empty(),
            !res.ready,
            !res.models_ready,
            res.last_heartbeat == now,
            !res.watchdog_enabled,
            res.languages@.len() == 0,
    {
        SidecarState {
            pending: HashMap::new(),
            ready: false,
            models_ready: false,
            last_heartbeat: now,
            watchdog_enabled: false,
            languages: Vec::new(),
        }
    }

    /// A new process was started: nothing is ready, silence is not watched
    /// yet, and the handshake waits under `INIT_REQUEST_ID`.
    pub fn begin_spawn(&mut self, init_waiter: T, now: u64)
        ensures
            final(self).pending@ == old(self).pending@.insert(
                INIT_REQUEST_ID,
                Pending { waiter: init_waiter, created_at: now },
            ),
            !final(self).ready,
            !final(self).models_ready,
            !final(self).watchdog_enabled,
            final(self).last_heartbeat == now,
            final(self).languages == old(self).languages,
    {
        self.ready = false;
        self.models_ready = false;
        self.watchdog_enabled = false;
        self.last_heartbeat = now;
        self.pending.insert(INIT_REQUEST_ID, Pending { waiter: init_waiter, created_at: now });
    }

    /// Takes the waiter of request `id`, if it is pending.
    pub fn take_pending(&mut self, id: u64) -> (res: Option<T>)
        ensures
            final(self).pending@ == old(self).pending@.remove(id),
            old(self).pending@.contains_key(id) ==> res == Some(old(self).pending@[id].waiter),
            !old(self).pending@.contains_key(id) ==> res is None,
            final(self).ready == old(self).ready,
            final(self).models_ready == old(self).models_ready,
            final(self).watchdog_enabled == old(self).watchdog_enabled,
            final(self).last_heartbeat == old(self).last_heartbeat,
            final(self).languages == old(self).languages,
    {
        match self.pending.remove(&id) {
            Some(p) => Some(p.waiter),
            None => None,
        }
    }

    /// Handles a line read from the translator. `init` marks it ready as
    /// reported and answers the handshake; `heartbeat` records that it is
    /// alive; `shutdown` marks it not ready; any other response answers the
    /// request with its id. The result is the waiter to hand the response
    /// to.
    pub fn handle_response(&mut self, resp: &Response, now: u64) -> (res: Option<T>)
        ensures
            type_is(*resp, "init"@) ==> {
                &&& final(self).models_ready == (resp.ready == Some(true))
                &&& final(self).ready == final(self).models_ready
                &&& (resp.languages matches Some(l) ==> final(self).languages@ == l@)
                &&& (resp.languages is None ==> final(self).languages@.len() == 0)
                &&& final(self).watchdog_enabled
                &&& final(self).last_heartbeat == now
                &&& final(self).pending@ == old(self).pending@.remove(INIT_REQUEST_ID)
                &&& res == (if old(self).pending@.contains_key(INIT_REQUEST_ID) {
                    Some(old(self).pending@[INIT_REQUEST_ID].waiter)
                } else {
                    None
                })
            },
            type_is(*resp, "heartbeat"@) ==> {
                &&& final(self).last_heartbeat == now
                &&& final(self).ready == old(self).ready
                &&& final(self).pending@ == old(self).pending@
                &&& res is None
            },
            type_is(*resp, "shutdown"@) ==> {
                &&& !final(self).ready
                &&& final(self).last_heartbeat == old(self).last_heartbeat
                &&& final(self).pending@ == old(self).pending@
                &&& res is None
            },
            !type_is(*resp, "init"@) && !type_is(*resp, "heartbeat"@) && !type_is(*resp, "shutdown"@)
                ==> {
                &&& final(self).ready == old(self).ready
                &&& final(self).models_ready == old(self).models_ready
                &&& final(self).last_heartbeat == old(self).last_heartbeat
                &&& match resp.id {
                    Some(id) => {
                        &&& final(self).pending@ == old(self).pending@.remove(id)
                        &&& res == (if old(self).pending@.contains_key(id) {
                            Some(old(self).pending@[id].waiter)
                        } else {
                            None
                        })
                    },
                    None => final(self).pending@ == old(self).pending@ && res is None,
                }
            },
    {
        proof {
            reveal_strlit("init");
            reveal_strlit("heartbeat");
            reveal_strlit("shutdown");
            assert("init"@.len() != "heartbeat"@.len());
            assert("init"@.len() != "shutdown"@.len());
            assert("heartbeat"@.len() != "shutdown"@.len());
        }
        if let Some(t) = &resp.response_type {
            if str_eq(t.as_str(), "init") {
                self.models_ready = match resp.ready {
                    Some(r) => r,
                    None => false,
                };
                self.ready = self.models_ready;
                self.languages = match &resp.languages {
                    Some(l) => l.clone(),
                    None => Vec::new(),
                };
                self.watchdog_enabled = true;
                self.last_heartbeat = now;
                return self.take_pending(INIT_REQUEST_ID);
            } else if str_eq(t.as_str(), "heartbeat") {
                self.last_heartbeat = now;
                return None;
            } else if str_eq(t.as_str(), "shutdown") {
                self.ready = false;
                return None;
            }
        }
        match resp.id {
            Some(id) => self.take_pending(id),
            None => None,
        }
    }

    /// Completes the handshake with its answer: a different protocol version
    /// is an error (the caller then asks the translator to exit with reason
    /// `protocol_version_mismatch`); otherwise the translator's readiness
    /// and languages are recorded and silence is watched from `now`.
    pub fn finish_init(&mut self, resp: &Response, now: u64) -> (res: Result<(), SidecarErrorType>)
        ensures
            init_answered(*old(self), *final(self), *resp, now, res),
    {
        if let Some(v) = &resp.protocol_version {
            if !str_eq(v.as_str(), protocol_version()) {
                let mut m = concat("Expected ", protocol_version());
                push_str(&mut m, ", got ");
                push_str(&mut m, v.as_str());
                return Err(SidecarErrorType::ProtocolVersionMismatch(m));
            }
        }
        self.models_ready = match resp.ready {
            Some(r) => r,
            None => false,
        };
        self.ready = self.models_ready;
        self.languages = match &resp.languages {
            Some(l) => l.clone(),
            None => Vec::new(),
        };
        self.watchdog_enabled = true;
        self.last_heartbeat = now;
        Ok(())
    }

    /// The end of the handshake, from how the wait for its answer ended:
    /// an answer completes it as `finish_init` does; an error handed to the
    /// waiter is the result; a dropped waiter is a retryable crash; silence
    /// past the limit is a timeout of the handshake. The flag says whether
    /// to ask the translator to exit with reason `protocol_version_mismatch`,
    /// which is done when the answer is in another protocol version.
    pub fn init_result(&mut self, outcome: WaitOutcome, now: u64) -> (res: (Result<(), SidecarErrorType>, bool))
        ensures
            match outcome {
                WaitOutcome::Answered(Ok(resp)) => init_answered(*old(self), *final(self), resp, now, res.0)
                    && res.1 == version_mismatch(resp),
                WaitOutcome::Answered(Err(e)) => res == (Err::<(), SidecarErrorType>(e), false)
                    && *final(self) == *old(self),
                WaitOutcome::Closed => res == (
                    Err::<(), SidecarErrorType>(SidecarErrorType::Crashed { retryable: true }),
                    false,
                ) && *final(self) == *old(self),
                WaitOutcome::TimedOut => res.0 matches Err(SidecarErrorType::Timeout(m)) && m@
                    == "init handshake"@ && !res.1 && *final(self) == *old(self),
            },
    {
        match outcome {
            WaitOutcome::Answered(Ok(resp)) => {
                let result = self.finish_init(&resp, now);
                let exit = result.is_err();
                (result, exit)
            },
            WaitOutcome::Answered(Err(e)) => (Err(e), false),
            WaitOutcome::Closed => (Err(SidecarErrorType::Crashed { retryable: true }), false),
            WaitOutcome::TimedOut => (Err(SidecarErrorType::Timeout(to_string("init handshake"))), false),
        }
    }

    /// Whether a translation may be requested: not when the translator is
    /// not ready (its models not loaded, or not running), nor when too many
    /// requests wait.
    pub fn check_translate(&self) -> (res: Result<(), SidecarErrorType>)
        ensures
            !self.ready ==> (res matches Err(SidecarErrorType::NotReady(m)) && m@ == if !self.models_ready {
                "models not loaded"@
            } else {
                "sidecar not running"@
            }),
            self.ready && self.pending@.len() >= MAX_PENDING ==> res == Err::<(), SidecarErrorType>(
                SidecarErrorType::TooManyPending,
            ),
            self.ready && self.pending@.len() < MAX_PENDING ==> res is Ok,
    {
        if !self.ready {
            return Err(
                SidecarErrorType::NotReady(
                    if !self.models_ready {
                        to_string("models not loaded")
                    } else {
                        to_string("sidecar not running")
                    },
                ),
            );
        }
        if self.pending.len() >= MAX_PENDING {
            return Err(SidecarErrorType::TooManyPending);
        }
        Ok(())
    }

    /// Records a request that waits for its answer.
    pub fn register(&mut self, id: u64, waiter: T, now: u64)
        ensures
            final(self).pending@ == old(self).pending@.insert(id, Pending { waiter, created_at: now }),
            final(self).ready == old(self).ready,
            final(self).models_ready == old(self).models_ready,
            final(self).watchdog_enabled == old(self).watchdog_enabled,
            final(self).last_heartbeat == old(self).last_heartbeat,
            final(self).languages == old(self).languages,
    {
        self.pending.insert(id, Pending { waiter, created_at: now });
    }

    /// Whether the translator has been silent too long while ready and
    /// watched; if so it is to be killed, and it is marked not ready and no
    /// longer watched.
    pub fn watchdog_check(&mut self, now: u64) -> (res: bool)
        ensures
            res == (old(self).watchdog_enabled && old(self).ready && now > old(self).last_heartbeat
                && now - old(self).last_heartbeat > HEARTBEAT_TIMEOUT_MS),
            res ==> !final(self).ready && !final(self).watchdog_enabled,
            !res ==> final(self).ready == old(self).ready && final(self).watchdog_enabled
                == old(self).watchdog_enabled,
            final(self).pending@ == old(self).pending@,
            final(self).last_heartbeat == old(self).last_heartbeat,
    {
        if !self.watchdog_enabled || !self.ready {
            return false;
        }
        let elapsed: u64 = if now > self.last_heartbeat {
            now - self.last_heartbeat
        } else {
            0
        };
        if elapsed > HEARTBEAT_TIMEOUT_MS {
            self.ready = false;
            self.watchdog_enabled = false;
            true
        } else {
            false
        }
    }

    /// The ids of the pending requests.
    fn pending_ids(&self) -> (res: Vec<u64>)
        ensures
            res@.to_set() == self.pending@.dom(),
            res@.no_duplicates(),
    {
        let mut ids: Vec<u64> = Vec::new();
        for k in it: self.pending.keys()
            invariant
                ids@ == it.seq().unref().take(it.index() as int),
                it.seq().unref().to_set() == self.pending@.dom(),
                it.seq().unref().no_duplicates(),
            ensures
                ids@ == it.seq().unref(),
                it.seq().unref().to_set() == self.pending@.dom(),
                it.seq().unref().no_duplicates(),
        {
            ids.push(*k);
            assert(it.seq().unref().take(it.index() + 1) =~= it.seq().unref().take(
                it.index() as int,
            ).push(*k));
        }
        ids
    }

    /// Forgets the requests that have waited `PENDING_TTL_MS` or longer;
    /// returns how many were forgotten.
    pub fn cleanup_pending(&mut self, now: u64) -> (res: usize)
        ensures
            final(self).pending@ == old(self).pending@.restrict(
                old(self).pending@.dom().filter(|k: u64| !expired(old(self).pending@[k].created_at, now)),
            ),
            res == old(self).pending@.len() - final(self).pending@.len(),
            final(self).ready == old(self).ready,
            final(self).models_ready == old(self).models_ready,
            final(self).watchdog_enabled == old(self).watchdog_enabled,
            final(self).last_heartbeat == old(self).last_heartbeat,
            final(self).languages == old(self).languages,
    {
        let ids = self.pending_ids();
        let before_len = self.pending.len();
        let ghost start = self.pending@;
        let ghost keep = start.dom().filter(|k: u64| !expired(start[k].created_at, now));
        let mut i: usize = 0;
        while i < ids.len()
            invariant
                i <= ids@.len(),
                ids@.to_set() == start.dom(),
                ids@.no_duplicates(),
                start == old(self).pending@,
                keep == start.dom().filter(|k: u64| !expired(start[k].created_at, now)),
                forall|k: u64|
                    #![trigger self.pending@.contains_key(k)]
                    self.pending@.contains_key(k) <==> (start.contains_key(k) && !(ids@.take(
                        i as int,
                    ).contains(k) && expired(start[k].created_at, now))),
                forall|k: u64| #[trigger] self.pending@.contains_key(k) ==> self.pending@[k] == start[k],
                self.ready == old(self).ready,
                self.models_ready == old(self).models_ready,
                self.watchdog_enabled == old(self).watchdog_enabled,
                self.last_heartbeat == old(self).last_heartbeat,
                self.languages == old(self).languages,
            decreases ids@.len() - i,
        {
            let k = ids[i];
            proof {
                assert(ids@.take(i + 1) =~= ids@.take(i as int).push(k));
                assert(!ids@.take(i as int).contains(k)) by {
                    if ids@.take(i as int).contains(k) {
                        let j = choose|j: int| 0 <= j < i && #[trigger] ids@.take(i as int)[j] == k;
                        assert(ids@[j] == ids@[i as int]);
                    }
                }
                assert(ids@.to_set().contains(k)) by {
                    assert(ids@.contains(k));
                }
            }
            let created = match self.pending.get(&k) {
                Some(p) => p.created_at,
                None => now,
            };
            let is_expired = expired_at(created, now);
            if is_expired {
                let _ = self.pending.remove(&k);
            }
            proof {
                assert(ids@.take(i + 1)[i as int] == k);
                assert(ids@.take(i + 1).contains(k));
                assert(is_expired == expired(start[k].created_at, now));
                assert forall|x: u64|
                    #![trigger self.pending@.contains_key(x)]
                    self.pending@.contains_key(x) <==> (start.contains_key(x) && !(ids@.take(
                        i + 1,
                    ).contains(x) && expired(start[x].created_at, now))) by {
                    if x != k {
                        assert(ids@.take(i + 1).contains(x) ==> ids@.take(i as int).contains(x)) by {
                            if ids@.take(i + 1).contains(x) {
                                let j = choose|j: int| 0 <= j < i + 1 && #[trigger] ids@.take(i + 1)[j] == x;
                                assert(ids@.take(i as int)[j] == x);
                            }
                        }
                        assert(ids@.take(i as int).contains(x) ==> ids@.take(i + 1).contains(x)) by {
                            if ids@.take(i as int).contains(x) {
                                let j = choose|j: int| 0 <= j < i && #[trigger] ids@.take(i as int)[j] == x;
                                assert(ids@.take(i + 1)[j] == x);
                            }
                        }
                    }
                }
            }
            i += 1;
        }
        proof {
            assert(ids@.take(ids@.len() as int) =~= ids@);
            assert(self.pending@ =~= start.restrict(keep)) by {
                assert forall|x: u64| start.contains_key(x) implies ids@.contains(x) by {
                    assert(ids@.to_set().contains(x));
                }
            }
            assert(start.dom().finite());
            vstd::set_lib::lemma_len_subset(self.pending@.dom(), start.dom());
        }
        before_len - self.pending.len()
    }

    /// Takes the waiters of all pending requests (the caller fails each,
    /// as crashed); nothing is pending afterwards.
    pub fn take_all_pending(&mut self) -> (res: Vec<T>)
        ensures
            final(self).pending@ == Map::<u64, Pending<T>>::empty(),
            res@.len() == old(self).pending@.len(),
            waiters_of(res@, old(self).pending@),
            final(self).ready == old(self).ready,
            final(self).models_ready == old(self).models_ready,
            final(self).watchdog_enabled == old(self).watchdog_enabled,
            final(self).last_heartbeat == old(self).last_heartbeat,
            final(self).languages == old(self).languages,
    {
        let ids = self.pending_ids();
        let ghost start = self.pending@;
        let mut out: Vec<T> = Vec::new();
        let mut i: usize = 0;
        while i < ids.len()
            invariant
                i <= ids@.len(),
                ids@.to_set() == start.dom(),
                ids@.no_duplicates(),
                start == old(self).pending@,
                forall|k: u64|
                    #![trigger self.pending@.contains_key(k)]
                    self.pending@.contains_key(k) <==> (start.contains_key(k) && !ids@.take(
                        i as int,
                    ).contains(k)),
                forall|k: u64| #[trigger] self.pending@.contains_key(k) ==> self.pending@[k] == start[k],
                out@.len() + self.pending@.len() == start.len(),
                waiters_of(out@, start),
                self.ready == old(self).ready,
                self.models_ready == old(self).models_ready,
                self.watchdog_enabled == old(self).watchdog_enabled,
                self.last_heartbeat == old(self).last_heartbeat,
                self.languages == old(self).languages,
            decreases ids@.len() - i,
        {
            let k = ids[i];
            proof {
                assert(ids@.take(i + 1) =~= ids@.take(i as int).push(k));
                assert(!ids@.take(i as int).contains(k)) by {
                    if ids@.take(i as int).contains(k) {
                        let j = choose|j: int| 0 <= j < i && #[trigger] ids@.take(i as int)[j] == k;
                        assert(ids@[j] == ids@[i as int]);
                    }
                }
                assert(ids@.to_set().contains(k)) by {
                    assert(ids@.contains(k));
                }
                assert(self.pending@.contains_key(k));
            }
            let ghost before = self.pending@;
            match self.pending.remove(&k) {
                Some(p) => {
                    let ghost prev = out@;
                    out.push(p.waiter);
                    proof {
                        assert(start.contains_key(k) && out@[out@.len() - 1] == start[k].waiter);
                        assert forall|j: int| 0 <= j < out@.len() implies exists|x: u64|
                            start.contains_key(x) && (#[trigger] out@[j]) == start[x].waiter by {
                            if j < prev.len() {
                                assert(out@[j] == prev[j]);
                            } else {
                                assert(out@[j] == start[k].waiter);
                            }
                        }
                    }
                },
                None => {},
            }
            proof {
                assert(ids@.take(i + 1)[i as int] == k);
                assert(ids@.take(i + 1).contains(k));
                assert forall|x: u64|
                    #![trigger self.pending@.contains_key(x)]
                    self.pending@.contains_key(x) <==> (start.contains_key(x) && !ids@.take(
                        i + 1,
                    ).contains(x)) by {
                    if x != k {
                        assert(ids@.take(i + 1).contains(x) ==> ids@.take(i as int).contains(x)) by {
                            if ids@.take(i + 1).contains(x) {
                                let j = choose|j: int| 0 <= j < i + 1 && #[trigger] ids@.take(i + 1)[j] == x;
                                assert(ids@.take(i as int)[j] == x);
                            }
                        }
                        assert(ids@.take(i as int).contains(x) ==> ids@.take(i + 1).contains(x)) by {
                            if ids@.take(i as int).contains(x) {
                                let j = choose|j: int| 0 <= j < i && #[trigger] ids@.take(i as int)[j] == x;
                                assert(ids@.take(i + 1)[j] == x);
                            }
                        }
                    }
                }
            }
            i += 1;
        }
        proof {
            assert(ids@.take(ids@.len() as int) =~= ids@);
            assert(self.pending@ =~= Map::<u64, Pending<T>>::empty()) by {
                assert forall|x: u64| !self.pending@.contains_key(x) by {
                    if start.contains_key(x) {
                        assert(ids@.to_set().contains(x));
                    }
                }
            }
        }
        out
    }

    /// Marks the translator stopped.
    pub fn mark_stopped(&mut self)
        ensures
            !final(self).ready,
            final(self).pending@ == old(self).pending@,
    {
        self.ready = false;
    }
}

} // verus!
