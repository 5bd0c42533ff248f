//! The translator process's request handling: the handshake, translation
//! requests, status and exit, as responses to write and whether to go on.
use vstd::prelude::*;

use crate::engine::{joined, string_views, Engine};
use crate::protocol::{protocol_version, protocol_version_spec, ErrorInfo, Request, Response};
use crate::sbd::sentences_spec;
use crate::text::{concat, push_str, str_eq};

verus! {

/// The message of a refused handshake.
pub open spec fn version_mismatch_message(client: Seq<char>) -> Seq<char> {
    "Expected "@ + protocol_version_spec() + ", got "@ + client
}

/// Sentences that the model is to translate, for request `id`.
#[derive(Debug, Clone, PartialEq, Eq)]
pub struct ModelJob {
    pub id: u64,
    pub source: String,
    pub target: String,
    pub sentences: Vec<String>,
}

/// What a translation request leads to: an answer now, or a job for the
/// model whose outcome `Sidecar::finish_translate` turns into the answer.
#[derive(Debug, Clone, PartialEq, Eq)]
pub enum TranslateStep {
    Respond(Response),
    RunModel(ModelJob),
}

/// What a request leads to: responses to write, perhaps a job for the
/// model, and whether the process stops reading requests.
#[derive(Debug, Clone, PartialEq, Eq)]
pub struct RequestOutcome {
    pub responses: Vec<Response>,
    pub job: Option<ModelJob>,
    pub stop: bool,
}

/// The state of the translator process.
pub struct Sidecar {
    pub engine: Option<Engine>,
    pub init_received: bool,
    pub running: bool,
}

impl Sidecar {
    /// A process with `engine` (if it loaded), before the handshake.
    pub fn new(engine: Option<Engine>) -> (res: Self)
        ensures
            res.engine == engine,
            !res.init_received,
            res.running,
    {
        Sidecar { engine, init_received: false, running: true }
    }

    /// The covered languages (none without an engine).
    pub open spec fn languages_spec(&self) -> Seq<Seq<char>> {
        match self.engine {
            Some(e) => e.language_list(),
            None => Seq::empty(),
        }
    }

    /// Ready: an engine that covers English and Russian.
    pub open spec fn is_ready_spec(&self) -> bool {
        match self.engine {
            Some(e) => crate::engine::codes_of(e.models()).contains("en"@)
                && crate::engine::codes_of(e.models()).contains("ru"@),
            None => false,
        }
    }

    pub fn is_ready(&self) -> (res: bool)
        ensures
            res == self.is_ready_spec(),
    {
        match &self.engine {
            Some(e) => e.is_ready(),
            None => false,
        }
    }

    pub fn languages(&self) -> (res: Vec<String>)
        ensures
            string_views(res@) == self.languages_spec(),
    {
        let mut out: Vec<String> = Vec::new();
        match &self.engine {
            Some(e) => {
                let list = e.languages();
                let mut i: usize = 0;
                while i < list.len()
                    invariant
                        i <= list@.len(),
                        string_views(out@) == string_views(list@).take(i as int),
                    decreases list@.len() - i,
                {
                    let item = list[i].clone();
                    let ghost prev = out@;
                    assert(string_views(prev).len() == prev.len());
                    out.push(item);
                    proof {
                        assert(out@ == prev.push(item));
                        assert(string_views(out@).len() == out@.len());
                        assert forall|k: int| 0 <= k < i + 1 implies #[trigger] string_views(out@)[k]
                            == string_views(list@).take(i + 1)[k] by {
                            if k < i {
                                assert(out@[k] == prev[k]);
                                assert(string_views(prev)[k] == string_views(list@).take(i as int)[k]);
                            }
                        }
                        assert(string_views(out@) =~= string_views(list@).take(i + 1));
                    }
                    i += 1;
                }
                proof {
                    assert(string_views(list@).take(list@.len() as int) =~= string_views(list@));
                }
            },
            None => {
                proof {
                    assert(string_views(out@) =~= Seq::<Seq<char>>::empty());
                }
            },
        }
        out
    }

    /// The handshake: a client of another protocol version is refused and
    /// the process stops; else it learns whether the engine is ready and,
    /// when ready, its languages.
    pub fn handle_init(&mut self, client_version: &str) -> (res: Vec<Response>)
        ensures
            client_version@ != protocol_version_spec() ==> {
                &&& res@.len() == 2
                &&& is_init_error_reply(
                    res@[0],
                    "PROTOCOL_VERSION_MISMATCH"@,
                    version_mismatch_message(client_version@),
                )
                &&& is_shutdown_reply(res@[1], "protocol_version_mismatch"@)
                &&& !final(self).running
                &&& final(self).init_received == old(self).init_received
            },
            client_version@ == protocol_version_spec() ==> {
                &&& res@.len() == 1
                &&& is_init_reply(
                    res@[0],
                    old(self).is_ready_spec(),
                    if old(self).is_ready_spec() {
                        Some(old(self).languages_spec())
                    } else {
                        None
                    },
                )
                &&& final(self).running == old(self).running
                &&& final(self).init_received
            },
            final(self).engine == old(self).engine,
    {
        let mut out: Vec<Response> = Vec::new();
        if !str_eq(client_version, protocol_version()) {
            let mut message = concat("Expected ", protocol_version());
            push_str(&mut message, ", got ");
            push_str(&mut message, client_version);
            out.push(Response::init_error("PROTOCOL_VERSION_MISMATCH", message.as_str()));
            out.push(Response::shutdown("protocol_version_mismatch"));
            self.running = false;
            return out;
        }
        let ready = self.is_ready();
        let languages = if ready {
            self.languages()
        } else {
            Vec::new()
        };
        out.push(Response::init(ready, languages));
        self.init_received = true;
        out
    }

    /// A translation request: refused when a field is empty or there is no
    /// engine; else what the engine refuses, an empty translation for a text
    /// without sentences, or the sentences for the model.
    pub fn handle_translate(&self, id: u64, q: &str, source: &str, target: &str) -> (res: TranslateStep)
        ensures
            translate_request_spec(res, self.engine, id, q@, q.len() as nat, source@, target@),
    {
        if q.is_empty() || source.is_empty() || target.is_empty() {
            return TranslateStep::Respond(
                Response::translate_error(id, ErrorInfo::invalid_request("Missing required fields: q, source, target")),
            );
        }
        match &self.engine {
            None => TranslateStep::Respond(Response::translate_error(id, ErrorInfo::translation_error("Engine not loaded"))),
            Some(engine) => match engine.prepare_translation(q, source, target) {
                Err(e) => TranslateStep::Respond(Response::translate_error(id, e)),
                Ok(sentences) => {
                    if sentences.len() == 0 {
                        TranslateStep::Respond(Response::translate_result(id, String::new()))
                    } else {
                        TranslateStep::RunModel(ModelJob {
                            id,
                            source: crate::text::to_string(source),
                            target: crate::text::to_string(target),
                            sentences,
                        })
                    }
                },
            },
        }
    }

    /// The answer to request `id`, given what the model gave back.
    pub fn finish_translate(id: u64, outcome: Result<Vec<String>, String>) -> (res: Response)
        ensures
            res.id == Some(id),
            outcome is Err ==> error_answer(Some(res), id, |e: ErrorInfo| e.is_translation_error(outcome->Err_0@))
                && res.translated is None,
            outcome is Ok ==> res.error is None
                && opt_text(res.translated) == Some(joined(string_views(outcome->Ok_0@))),
    {
        match Engine::finish_translation(outcome) {
            Ok(t) => Response::translate_result(id, t),
            Err(e) => Response::translate_error(id, e),
        }
    }

    /// The answer to `status`.
    pub fn handle_status(&self, id: u64) -> (res: Response)
        ensures
            res.id == Some(id),
            res.ready == Some(self.is_ready_spec()),
            opt_list(res.languages) == Some(self.languages_spec()),
            res.error is None,
            res.response_type is None,
            res.translated is None,
            res.capabilities is None,
            res.protocol_version is None,
            res.reason is None,
    {
        Response::status(id, self.is_ready(), self.languages())
    }

    /// `exit`: the process says why it stops, and stops.
    pub fn handle_exit(&mut self, reason: &str) -> (res: Response)
        ensures
            opt_reason(res) == Some(reason@),
            opt_type(res) == Some("shutdown"@),
            !final(self).running,
            final(self).engine == old(self).engine,
            final(self).init_received == old(self).init_received,
    {
        self.running = false;
        Response::shutdown(reason)
    }

    /// One request, in the order the process reads them: `translate` and
    /// `status` before the handshake are ignored; `exit` without a reason
    /// gives "graceful"; the process stops after `exit` and after a refused
    /// handshake.
    pub fn handle_request(&mut self, req: Request) -> (res: RequestOutcome)
        ensures
            final(self).engine == old(self).engine,
            (req is Translate || req is Status) && !old(self).init_received ==> res.responses@.len() == 0
                && res.job is None && !res.stop && *final(self) == *old(self),
            req is Exit ==> res.stop && res.responses@.len() == 1 && res.job is None
                && opt_reason(res.responses@[0]) == Some(exit_reason(req->Exit_reason))
                && opt_type(res.responses@[0]) == Some("shutdown"@)
                && !final(self).running && final(self).init_received == old(self).init_received,
            req is Init ==> res.job is None
                && (res.stop <==> req->Init_protocol_version@ != protocol_version_spec())
                && init_outcome(res.responses@, *old(self), *final(self), req->Init_protocol_version@),
            req is Status && old(self).init_received ==> res.responses@.len() == 1
                && is_status_reply(res.responses@[0], req->Status_id, old(self).is_ready_spec(),
                    old(self).languages_spec())
                && res.job is None && !res.stop && *final(self) == *old(self),
            req is Translate && old(self).init_received ==> !res.stop && *final(self) == *old(self)
                && res.responses@.len() == (if res.job is Some { 0int } else { 1int })
                && translate_request_spec(
                    outcome_step(res),
                    old(self).engine,
                    req->Translate_id,
                    req->Translate_q@,
                    utf8_len(req->Translate_q@),
                    req->Translate_source@,
                    req->Translate_target@,
                ),
    {
        match req {
            Request::Init { protocol_version } => {
                let responses = self.handle_init(protocol_version.as_str());
                let stop = !str_eq(protocol_version.as_str(), crate::protocol::protocol_version());
                RequestOutcome { responses, job: None, stop }
            },
            Request::Translate { id, q, source, target } => {
                if !self.init_received {
                    return RequestOutcome { responses: Vec::new(), job: None, stop: false };
                }
                let text = q.as_str();
                proof {
                    assert(text@ == q@);
                }
                let step = self.handle_translate(id, text, source.as_str(), target.as_str());
                match step {
                    TranslateStep::Respond(r) => {
                        let mut responses = Vec::new();
                        responses.push(r);
                        let res = RequestOutcome { responses, job: None, stop: false };
                        proof {
                            assert(outcome_step(res) == step);
                        }
                        res
                    },
                    TranslateStep::RunModel(job) => {
                        let res = RequestOutcome { responses: Vec::new(), job: Some(job), stop: false };
                        proof {
                            assert(outcome_step(res) == step);
                        }
                        res
                    },
                }
            },
            Request::Status { id } => {
                if !self.init_received {
                    return RequestOutcome { responses: Vec::new(), job: None, stop: false };
                }
                let mut responses = Vec::new();
                responses.push(self.handle_status(id));
                RequestOutcome { responses, job: None, stop: false }
            },
            Request::Exit { reason } => {
                let r = match &reason {
                    Some(r) => self.handle_exit(r.as_str()),
                    None => self.handle_exit("graceful"),
                };
                let mut responses = Vec::new();
                responses.push(r);
                RequestOutcome { responses, job: None, stop: true }
            },
        }
    }
}

/// The length in bytes of the text `s`, as `str::len` gives it.
pub open spec fn utf8_len(s: Seq<char>) -> nat {
    (vstd::utf8::encode_utf8(s).len() as usize) as nat
}

/// What the handshake request with version `client` does to the process
/// `before`, leaving `after`, and the responses it writes.
pub open spec fn init_outcome(responses: Seq<Response>, before: Sidecar, after: Sidecar, client: Seq<char>) -> bool {
    &&& after.engine == before.engine
    &&& client != protocol_version_spec() ==> {
        &&& responses.len() == 2
        &&& is_init_error_reply(responses[0], "PROTOCOL_VERSION_MISMATCH"@, version_mismatch_message(client))
        &&& is_shutdown_reply(responses[1], "protocol_version_mismatch"@)
        &&& !after.running
        &&& after.init_received == before.init_received
    }
    &&& client == protocol_version_spec() ==> {
        &&& responses.len() == 1
        &&& is_init_reply(
            responses[0],
            before.is_ready_spec(),
            if before.is_ready_spec() {
                Some(before.languages_spec())
            } else {
                None
            },
        )
        &&& after.running == before.running
        &&& after.init_received
    }
}

/// The answer to `status` request `id`: the readiness and the languages,
/// and nothing else.
pub open spec fn is_status_reply(r: Response, id: u64, ready: bool, languages: Seq<Seq<char>>) -> bool {
    &&& r.id == Some(id)
    &&& r.ready == Some(ready)
    &&& opt_list(r.languages) == Some(languages)
    &&& r.error is None
    &&& r.response_type is None
    &&& r.translated is None
    &&& r.capabilities is None
    &&& r.protocol_version is None
    &&& r.reason is None
}

/// The step a request outcome amounts to: the job when there is one, else
/// its first response.
pub open spec fn outcome_step(res: RequestOutcome) -> TranslateStep {
    match res.job {
        Some(j) => TranslateStep::RunModel(j),
        None => TranslateStep::Respond(res.responses@[0]),
    }
}

/// What a translation request with text `q` of `len` bytes leads to: an
/// invalid request when a field is empty, a translation error without an
/// engine, else what the engine makes of it.
pub open spec fn translate_request_spec(
    step: TranslateStep,
    engine: Option<Engine>,
    id: u64,
    q: Seq<char>,
    len: nat,
    source: Seq<char>,
    target: Seq<char>,
) -> bool {
    if q.len() == 0 || source.len() == 0 || target.len() == 0 {
        error_answer(answer(step), id, |e: ErrorInfo| e.is_invalid_request("Missing required fields: q, source, target"@))
    } else {
        match engine {
            None => error_answer(answer(step), id, |e: ErrorInfo| e.is_translation_error("Engine not loaded"@)),
            Some(e) => translate_step_spec(step, e, id, q, len, source, target),
        }
    }
}

/// The accepted handshake's reply: an `init` response in this protocol
/// version, with the standard capabilities, the readiness `ready` and the
/// languages `languages` (present when ready), and nothing else.
pub open spec fn is_init_reply(r: Response, ready: bool, languages: Option<Seq<Seq<char>>>) -> bool {
    &&& opt_type(r) == Some("init"@)
    &&& crate::protocol::opt_seq(r.protocol_version) == Some(protocol_version_spec())
    &&& r.has_standard_capabilities()
    &&& r.ready == Some(ready)
    &&& opt_list(r.languages) == languages
    &&& r.id is None
    &&& r.translated is None
    &&& r.error is None
    &&& r.reason is None
}

/// A refused handshake's reply: an `init` response in this protocol
/// version, not ready, carrying the unrecoverable error `code`, `message`.
pub open spec fn is_init_error_reply(r: Response, code: Seq<char>, message: Seq<char>) -> bool {
    &&& opt_type(r) == Some("init"@)
    &&& crate::protocol::opt_seq(r.protocol_version) == Some(protocol_version_spec())
    &&& r.ready == Some(false)
    &&& r.error is Some
    &&& r.error->0.code@ == code
    &&& r.error->0.message@ == message
    &&& !r.error->0.recoverable
    &&& r.error->0.hint is None
    &&& r.id is None
    &&& r.translated is None
    &&& r.capabilities is None
    &&& r.languages is None
    &&& r.reason is None
}

/// A `shutdown` response giving `reason`, and nothing else.
pub open spec fn is_shutdown_reply(r: Response, reason: Seq<char>) -> bool {
    &&& opt_type(r) == Some("shutdown"@)
    &&& opt_reason(r) == Some(reason)
    &&& r.id is None
    &&& r.translated is None
    &&& r.ready is None
    &&& r.capabilities is None
    &&& r.languages is None
    &&& r.protocol_version is None
    &&& r.error is None
}

/// The answer in `step`, when it answers at once.
pub open spec fn answer(step: TranslateStep) -> Option<Response> {
    match step {
        TranslateStep::Respond(r) => Some(r),
        TranslateStep::RunModel(_) => None,
    }
}

/// The job in `step`, when it needs the model.
pub open spec fn job_of(step: TranslateStep) -> Option<ModelJob> {
    match step {
        TranslateStep::Respond(_) => None,
        TranslateStep::RunModel(j) => Some(j),
    }
}

/// `r` answers request `id` with an error that `p` describes.
pub open spec fn error_answer(r: Option<Response>, id: u64, p: spec_fn(ErrorInfo) -> bool) -> bool {
    match r {
        Some(resp) => resp.id == Some(id) && resp.translated is None && match resp.error {
            Some(e) => p(e),
            None => false,
        },
        None => false,
    }
}

/// What an engine makes of a translation request with nonempty fields: the
/// text of `len` bytes is refused when too long, then when no model covers
/// the pair; a text without sentences is answered at once with an empty
/// translation; else its sentences go to the model.
pub open spec fn translate_step_spec(
    step: TranslateStep,
    engine: Engine,
    id: u64,
    q: Seq<char>,
    len: nat,
    source: Seq<char>,
    target: Seq<char>,
) -> bool {
    if len > crate::protocol::MAX_TEXT_LENGTH {
        error_answer(answer(step), id, |e: ErrorInfo| e.is_text_too_long(len))
    } else if !engine.has_model_spec(source, target) {
        error_answer(answer(step), id, |e: ErrorInfo| e.is_model_not_found(source, target))
    } else if sentences_spec(q).len() == 0 {
        match answer(step) {
            Some(r) => r.id == Some(id) && r.error is None && opt_text(r.translated) == Some(Seq::<char>::empty()),
            None => false,
        }
    } else {
        match job_of(step) {
            Some(j) => j.id == id && j.source@ == source && j.target@ == target
                && string_views(j.sentences@) == sentences_spec(q),
            None => false,
        }
    }
}

pub open spec fn opt_text(t: Option<String>) -> Option<Seq<char>> {
    crate::protocol::opt_seq(t)
}

pub open spec fn opt_list(l: Option<Vec<String>>) -> Option<Seq<Seq<char>>> {
    match l {
        Some(v) => Some(string_views(v@)),
        None => None,
    }
}

/// The reason an `exit` gives, "graceful" when it gives none.
pub open spec fn exit_reason(reason: Option<String>) -> Seq<char> {
    match reason {
        Some(r) => r@,
        None => "graceful"@,
    }
}

pub open spec fn opt_reason(r: Response) -> Option<Seq<char>> {
    crate::protocol::opt_seq(r.reason)
}

pub open spec fn opt_type(r: Response) -> Option<Seq<char>> {
    crate::protocol::opt_seq(r.response_type)
}

} // verus!
