//! Validation and enrichment of log lines sent in by the frontend: levels,
//! size limits, and the fallback to the request context for missing
//! identifiers. The surrounding layer decodes the HTTP payload and performs
//! the actual logging; the decisions are made here.

use vstd::prelude::*;

use crate::middleware::RequestContext;
use crate::text_grid::is_blank_char;
use crate::text_grid::lemma_trim_empty_iff_blank;
use crate::text_grid::trim;

verus! {

/// Longest accepted message, in characters.
pub const MAX_MESSAGE_LEN: usize = 2000;

/// Longest accepted serialized context, in characters.
pub const MAX_CONTEXT_LEN: usize = 10000;

/// The level a frontend log line asks for.
#[derive(Debug, Clone, Copy, PartialEq, Eq, Structural)]
pub enum FrontendLevel {
    Debug,
    Info,
    Warn,
    Error,
}

/// The level the backend logger is driven at.
#[derive(Debug, Clone, Copy, PartialEq, Eq, Structural)]
pub enum LogLevel {
    Debug,
    Info,
    Warn,
    Error,
}

impl FrontendLevel {
    /// The backend level this frontend level maps to.
    pub fn as_level(&self) -> (l: LogLevel)
        ensures
            l == (match self {
                FrontendLevel::Debug => LogLevel::Debug,
                FrontendLevel::Info => LogLevel::Info,
                FrontendLevel::Warn => LogLevel::Warn,
                FrontendLevel::Error => LogLevel::Error,
            }),
    {
        match self {
            FrontendLevel::Debug => LogLevel::Debug,
            FrontendLevel::Info => LogLevel::Info,
            FrontendLevel::Warn => LogLevel::Warn,
            FrontendLevel::Error => LogLevel::Error,
        }
    }

    /// The level's lowercase name.
    pub fn as_str(&self) -> (s: &'static str)
        ensures
            s@ == (match self {
                FrontendLevel::Debug => "debug"@,
                FrontendLevel::Info => "info"@,
                FrontendLevel::Warn => "warn"@,
                FrontendLevel::Error => "error"@,
            }),
    {
        match self {
            FrontendLevel::Debug => "debug",
            FrontendLevel::Info => "info",
            FrontendLevel::Warn => "warn",
            FrontendLevel::Error => "error",
        }
    }
}

/// A frontend log line as handed over by the transport layer, its context —
/// arbitrary JSON to the frontend — already serialized to text.
pub struct FrontendLogPayload {
    pub level: Option<FrontendLevel>,
    pub message: String,
    pub component: Option<String>,
    pub page: Option<String>,
    pub request_id: Option<String>,
    pub client_id: Option<String>,
    pub context: Option<String>,
}

/// A log line admitted for ingestion, with its derived level and
/// identifiers.
pub struct LogRecord {
    pub level: LogLevel,
    pub request_id: String,
    pub client_id: String,
}

/// What becomes of an ingested frontend log line.
pub enum IngestOutcome {
    /// The message is blank.
    BadRequest,
    /// The message or the serialized context is over its size limit.
    PayloadTooLarge,
    /// The line is accepted, with its level defaulted and its identifiers
    /// derived.
    Accepted(LogRecord),
}

/// Whether the payload's level, defaulted to `Info`, maps to `l`.
pub open spec fn derived_level(level: Option<FrontendLevel>, l: LogLevel) -> bool {
    match level {
        Some(FrontendLevel::Debug) => l == LogLevel::Debug,
        Some(FrontendLevel::Info) => l == LogLevel::Info,
        Some(FrontendLevel::Warn) => l == LogLevel::Warn,
        Some(FrontendLevel::Error) => l == LogLevel::Error,
        None => l == LogLevel::Info,
    }
}

/// Whether `id` is the payload's own identifier, or the context's where the
/// payload has none.
pub open spec fn derived_id(own: Option<String>, fallback: Seq<char>, id: Seq<char>) -> bool {
    match own {
        Some(s) => id == s@,
        None => id == fallback,
    }
}

/// Whether every character of the message is whitespace.
#[verifier::loop_isolation(false)]
fn message_is_blank(message: &str) -> (b: bool)
    ensures
        b == (trim(message@).len() == 0),
{
    proof {
        lemma_trim_empty_iff_blank(message@);
    }
    let n = message.unicode_len();
    let mut i: usize = 0;
    while i < n
        invariant
            i <= n,
            n == message@.len(),
            forall|j: int| 0 <= j < i ==> is_blank_char(#[trigger] message@[j]),
        decreases n - i,
    {
        let c = message.get_char(i);
        if !(c == ' ' || c == '\t' || c == '\r' || c == '\n') {
            return false;
        }
        i = i + 1;
    }
    true
}

/// Screens one frontend log line and derives what gets logged: a blank
/// message is rejected, an oversized message or serialized context is
/// refused, and an admitted line carries the level — defaulted to `Info` —
/// and the request and client identifiers, falling back to the request
/// context's where the payload names none.
pub fn ingest_frontend_log(payload: &FrontendLogPayload, ctx: &RequestContext) -> (r: IngestOutcome)
    ensures
        ({
            let blank = trim(payload.message@).len() == 0;
            let too_long = payload.message@.len() > MAX_MESSAGE_LEN || (payload.context matches Some(
                c,
            ) && c@.len() > MAX_CONTEXT_LEN);
            match r {
                IngestOutcome::BadRequest => blank,
                IngestOutcome::PayloadTooLarge => !blank && too_long,
                IngestOutcome::Accepted(rec) => !blank && !too_long && derived_level(
                    payload.level,
                    rec.level,
                ) && derived_id(payload.request_id, ctx.request_id@, rec.request_id@) && derived_id(
                    payload.client_id,
                    ctx.client_id@,
                    rec.client_id@,
                ),
            }
        }),
{
    if message_is_blank(payload.message.as_str()) {
        return IngestOutcome::BadRequest;
    }
    if payload.message.as_str().unicode_len() > MAX_MESSAGE_LEN {
        return IngestOutcome::PayloadTooLarge;
    }
    match &payload.context {
        Some(context) => {
            if context.as_str().unicode_len() > MAX_CONTEXT_LEN {
                return IngestOutcome::PayloadTooLarge;
            }
        },
        None => (),
    }
    let level = match &payload.level {
        Some(l) => l.as_level(),
        None => LogLevel::Info,
    };
    let request_id = match &payload.request_id {
        Some(id) => id.clone(),
        None => ctx.request_id.clone(),
    };
    let client_id = match &payload.client_id {
        Some(id) => id.clone(),
        None => ctx.client_id.clone(),
    };
    IngestOutcome::Accepted(LogRecord { level, request_id, client_id })
}

} // verus!
