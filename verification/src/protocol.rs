//! The line protocol between the application and the translator process:
//! requests, responses and error descriptions.
use vstd::prelude::*;

use crate::text::{concat, decimal, decimal_string, push_str, to_string};

verus! {

/// The protocol version both sides must speak.
pub open spec fn protocol_version_spec() -> Seq<char> {
    "1.0"@
}

pub fn protocol_version() -> (res: &'static str)
    ensures
        res@ == protocol_version_spec(),
{
    "1.0"
}

/// Seconds between two heartbeats of the translator.
pub const HEARTBEAT_INTERVAL_SECS: u64 = 30;
/// The longest text (in bytes) the translator accepts.
pub const MAX_TEXT_LENGTH: usize = 10000;

/// A request to the translator.
#[derive(Debug, Clone, PartialEq, Eq)]
pub enum Request {
    Init { protocol_version: String },
    Translate { id: u64, q: String, source: String, target: String },
    Status { id: u64 },
    Exit { reason: Option<String> },
}

/// A response of the translator. Every field is optional; which are set
/// depends on the kind of response. (The heartbeat's time stamp is carried
/// outside this library.)
#[derive(Debug, Clone, PartialEq, Eq)]
pub struct Response {
    pub id: Option<u64>,
    pub response_type: Option<String>,
    pub translated: Option<String>,
    pub ready: Option<bool>,
    pub capabilities: Option<Vec<String>>,
    pub languages: Option<Vec<String>>,
    pub protocol_version: Option<String>,
    pub error: Option<ErrorInfo>,
    pub reason: Option<String>,
}

/// A described error.
#[derive(Debug, Clone, PartialEq, Eq)]
pub struct ErrorInfo {
    pub code: String,
    pub message: String,
    pub recoverable: bool,
    pub hint: Option<String>,
}

pub open spec fn opt_seq(s: Option<String>) -> Option<Seq<char>> {
    match s {
        Some(x) => Some(x@),
        None => None,
    }
}

impl ErrorInfo {
    /// The error that no model translates `source` into `target`.
    pub open spec fn is_model_not_found(self, source: Seq<char>, target: Seq<char>) -> bool {
        &&& self.code@ == "MODEL_NOT_FOUND"@
        &&& self.message@ == "Translation model "@ + source + "\u{2192}"@ + target
            + " is not installed"@
        &&& !self.recoverable
        &&& opt_seq(self.hint) == Some("Reinstall KeyTweak with translator component"@)
    }

    /// The error that a text of `len` bytes is too long.
    pub open spec fn is_text_too_long(self, len: nat) -> bool {
        &&& self.code@ == "TEXT_TOO_LONG"@
        &&& self.message@ == "Text length ("@ + decimal(len) + ") exceeds maximum ("@
            + decimal(MAX_TEXT_LENGTH as nat) + ")"@
        &&& self.recoverable
        &&& self.hint is None
    }

    /// The error that a request is invalid, saying `msg`.
    pub open spec fn is_invalid_request(self, msg: Seq<char>) -> bool {
        &&& self.code@ == "INVALID_REQUEST"@
        &&& self.message@ == msg
        &&& self.recoverable
        &&& self.hint is None
    }

    /// The error that a translation failed, saying `msg`.
    pub open spec fn is_translation_error(self, msg: Seq<char>) -> bool {
        &&& self.code@ == "TRANSLATION_ERROR"@
        &&& self.message@ == msg
        &&& self.recoverable
        &&& self.hint is None
    }

    /// No model translates `source` into `target`.
    pub fn model_not_found(source: &str, target: &str) -> (res: Self)
        ensures
            res.is_model_not_found(source@, target@),
    {
        let mut message = concat("Translation model ", source);
        push_str(&mut message, "\u{2192}");
        push_str(&mut message, target);
        push_str(&mut message, " is not installed");
        ErrorInfo {
            code: to_string("MODEL_NOT_FOUND"),
            message,
            recoverable: false,
            hint: Some(to_string("Reinstall KeyTweak with translator component")),
        }
    }

    /// The text is longer than `MAX_TEXT_LENGTH`.
    pub fn text_too_long(len: usize) -> (res: Self)
        ensures
            res.is_text_too_long(len as nat),
    {
        let mut message = to_string("Text length (");
        push_str(&mut message, decimal_string(len).as_str());
        push_str(&mut message, ") exceeds maximum (");
        push_str(&mut message, decimal_string(MAX_TEXT_LENGTH).as_str());
        push_str(&mut message, ")");
        ErrorInfo { code: to_string("TEXT_TOO_LONG"), message, recoverable: true, hint: None }
    }

    /// The request lacks what it needs.
    pub fn invalid_request(msg: &str) -> (res: Self)
        ensures
            res.is_invalid_request(msg@),
    {
        ErrorInfo {
            code: to_string("INVALID_REQUEST"),
            message: to_string(msg),
            recoverable: true,
            hint: None,
        }
    }

    /// The translation itself failed.
    pub fn translation_error(msg: &str) -> (res: Self)
        ensures
            res.is_translation_error(msg@),
    {
        ErrorInfo {
            code: to_string("TRANSLATION_ERROR"),
            message: to_string(msg),
            recoverable: true,
            hint: None,
        }
    }
}

impl Response {
    /// The translator's capabilities: `translate` and `status`.
    pub open spec fn has_standard_capabilities(self) -> bool {
        &&& self.capabilities matches Some(c)
        &&& c@.len() == 2
        &&& c@[0]@ == "translate"@
        &&& c@[1]@ == "status"@
    }

    /// The answer to `init`: ready or not, with the languages when ready.
    pub fn init(ready: bool, languages: Vec<String>) -> (res: Self)
        ensures
            opt_seq(res.response_type) == Some("init"@),
            opt_seq(res.protocol_version) == Some(protocol_version_spec()),
            res.ready == Some(ready),
            res.has_standard_capabilities(),
            ready ==> res.languages == Some(languages),
            !ready ==> res.languages is None,
            res.id is None,
            res.translated is None,
            res.error is None,
            res.reason is None,
    {
        let mut capabilities: Vec<String> = Vec::new();
        capabilities.push(to_string("translate"));
        capabilities.push(to_string("status"));
        Response {
            id: None,
            response_type: Some(to_string("init")),
            translated: None,
            ready: Some(ready),
            capabilities: Some(capabilities),
            languages: if ready {
                Some(languages)
            } else {
                None
            },
            protocol_version: Some(to_string(protocol_version())),
            error: None,
            reason: None,
        }
    }

    /// A refused `init`.
    pub fn init_error(code: &str, message: &str) -> (res: Self)
        ensures
            opt_seq(res.response_type) == Some("init"@),
            opt_seq(res.protocol_version) == Some(protocol_version_spec()),
            res.ready == Some(false),
            (res.error matches Some(e) && e.code@ == code@ && e.message@ == message@
                && !e.recoverable && e.hint is None),
            res.id is None,
            res.translated is None,
            res.capabilities is None,
            res.languages is None,
            res.reason is None,
    {
        Response {
            id: None,
            response_type: Some(to_string("init")),
            translated: None,
            ready: Some(false),
            capabilities: None,
            languages: None,
            protocol_version: Some(to_string(protocol_version())),
            error: Some(
                ErrorInfo {
                    code: to_string(code),
                    message: to_string(message),
                    recoverable: false,
                    hint: None,
                },
            ),
            reason: None,
        }
    }

    /// A translation.
    pub fn translate_result(id: u64, translated: String) -> (res: Self)
        ensures
            res == (Response {
                id: Some(id),
                response_type: None,
                translated: Some(translated),
                ready: None,
                capabilities: None,
                languages: None,
                protocol_version: None,
                error: None,
                reason: None,
            }),
    {
        Response {
            id: Some(id),
            response_type: None,
            translated: Some(translated),
            ready: None,
            capabilities: None,
            languages: None,
            protocol_version: None,
            error: None,
            reason: None,
        }
    }

    /// A failed translation.
    pub fn translate_error(id: u64, error: ErrorInfo) -> (res: Self)
        ensures
            res == (Response {
                id: Some(id),
                response_type: None,
                translated: None,
                ready: None,
                capabilities: None,
                languages: None,
                protocol_version: None,
                error: Some(error),
                reason: None,
            }),
    {
        Response {
            id: Some(id),
            response_type: None,
            translated: None,
            ready: None,
            capabilities: None,
            languages: None,
            protocol_version: None,
            error: Some(error),
            reason: None,
        }
    }

    /// The answer to `status`.
    pub fn status(id: u64, ready: bool, languages: Vec<String>) -> (res: Self)
        ensures
            res == (Response {
                id: Some(id),
                response_type: None,
                translated: None,
                ready: Some(ready),
                capabilities: None,
                languages: Some(languages),
                protocol_version: None,
                error: None,
                reason: None,
            }),
    {
        Response {
            id: Some(id),
            response_type: None,
            translated: None,
            ready: Some(ready),
            capabilities: None,
            languages: Some(languages),
            protocol_version: None,
            error: None,
            reason: None,
        }
    }

    /// The translator stops, for `reason`.
    pub fn shutdown(reason: &str) -> (res: Self)
        ensures
            opt_seq(res.response_type) == Some("shutdown"@),
            opt_seq(res.reason) == Some(reason@),
            res.id is None,
            res.translated is None,
            res.ready is None,
            res.capabilities is None,
            res.languages is None,
            res.protocol_version is None,
            res.error is None,
    {
        Response {
            id: None,
            response_type: Some(to_string("shutdown")),
            translated: None,
            ready: None,
            capabilities: None,
            languages: None,
            protocol_version: None,
            error: None,
            reason: Some(to_string(reason)),
        }
    }

    /// A heartbeat (its time stamp is added when it is written out).
    pub fn heartbeat() -> (res: Self)
        ensures
            opt_seq(res.response_type) == Some("heartbeat"@),
            res.id is None,
            res.translated is None,
            res.ready is None,
            res.capabilities is None,
            res.languages is None,
            res.protocol_version is None,
            res.error is None,
            res.reason is None,
    {
        Response {
            id: None,
            response_type: Some(to_string("heartbeat")),
            translated: None,
            ready: None,
            capabilities: None,
            languages: None,
            protocol_version: None,
            error: None,
            reason: None,
        }
    }
}

} // verus!
