//! The control pipe of the bar: one request, one response.
//!
//!   status  — answers `{"ok":true,"message":"running"}`
//!   reload  — reads the configuration again, answers ok or the error
//!   quit    — asks the bar to exit, answers ok
//!
//! The pipe, the JSON and the file system are handled outside this library;
//! `handle_request` decides the response and what the bar must do.
use vstd::prelude::*;

use crate::config::parse::{parse_kdl_config, parse_spec};
use crate::config::types::{Config, ConfigView};
use crate::text::{chars_of, contains_str, contains_text, string_of};

verus! {

/// A request of `crest-ctl`.
#[derive(Debug, Clone, Copy, PartialEq, Eq, Structural)]
pub enum CtlRequest {
    Status,
    Reload,
    Quit,
}

/// The answer to a request.
#[derive(Debug, Clone)]
pub struct CtlResponse {
    pub ok: bool,
    pub message: String,
}

/// A request together with what the bar read for it: for `reload`, the
/// text of the configuration file or the reason it could not be read.
pub enum ControlInput {
    Status,
    Reload(Result<String, String>),
    Quit,
}

/// What the bar does after answering.
pub enum ControlAction {
    Nothing,
    /// Use this configuration from now on.
    ReplaceConfig(Config),
    /// Exit.
    Quit,
}

pub open spec fn response_is(r: CtlResponse, ok: bool, message: Seq<char>) -> bool {
    r.ok == ok && r.message@ == message
}

fn text(s: &str) -> (r: String)
    ensures
        r@ == s@,
{
    string_of(&chars_of(s))
}

fn prefixed(prefix: &str, detail: &str) -> (r: String)
    ensures
        r@ == prefix@ + detail@,
{
    let mut r = text(prefix);
    r.append(detail);
    r
}

/// Answers a request.
pub fn handle_request(input: ControlInput) -> (r: (CtlResponse, ControlAction))
    ensures
        match input {
            ControlInput::Status => response_is(r.0, true, "running"@) && r.1 is Nothing,
            ControlInput::Quit => response_is(r.0, true, "quitting"@) && r.1 is Quit,
            ControlInput::Reload(Ok(src)) => response_is(r.0, true, "config reloaded"@) && (r.1 matches ControlAction::ReplaceConfig(c) && c@ == parse_spec(src@)),
            ControlInput::Reload(Err(e)) => response_is(r.0, false, "read error: "@ + e@) && r.1 is Nothing,
        },
{
    match input {
        ControlInput::Status => (CtlResponse { ok: true, message: text("running") }, ControlAction::Nothing),
        ControlInput::Quit => (CtlResponse { ok: true, message: text("quitting") }, ControlAction::Quit),
        ControlInput::Reload(Ok(src)) => match parse_kdl_config(src.as_str()) {
            Ok(cfg) => (
                CtlResponse { ok: true, message: text("config reloaded") },
                ControlAction::ReplaceConfig(cfg),
            ),
            Err(_) => (CtlResponse { ok: false, message: text("parse error") }, ControlAction::Nothing),
        },
        ControlInput::Reload(Err(e)) => (
            CtlResponse { ok: false, message: prefixed("read error: ", e.as_str()) },
            ControlAction::Nothing,
        ),
    }
}

/// The answer to a request that could not be read, with the reason.
pub fn bad_request_response(reason: &str) -> (r: CtlResponse)
    ensures
        response_is(r, false, "parse error: "@ + reason@),
{
    CtlResponse { ok: false, message: prefixed("parse error: ", reason) }
}

// ---------------------------------------------------------------------------
// The `crest-ctl` side
// ---------------------------------------------------------------------------

/// Milliseconds `crest-ctl` waits for a busy pipe.
pub const CTL_TIMEOUT_MS: u64 = 3000;

/// Why opening the control pipe failed.
#[derive(Debug, Clone, Copy, PartialEq, Eq, Structural)]
pub enum PipeOpenError {
    /// No such pipe: the bar is not running.
    NotFound,
    /// All pipe instances are busy.
    Busy,
    /// Any other error.
    Other,
}

/// What `crest-ctl` does after a failed attempt to open the pipe.
pub enum PipeOpenStep {
    /// Stop with this message.
    GiveUp(String),
    /// Wait a little and try again.
    Retry,
    /// Stop with the error itself.
    PassOn,
}

/// After a failed open at `now_ms`, with the wait ending at `deadline_ms`:
/// a missing pipe ends the attempt, a busy one is retried until the
/// deadline, any other error is passed on.
pub fn pipe_open_step(err: PipeOpenError, now_ms: u64, deadline_ms: u64) -> (r: PipeOpenStep)
    ensures
        match err {
            PipeOpenError::NotFound => r matches PipeOpenStep::GiveUp(m) && m@
                == "pipe not found: crest daemon is not running"@,
            PipeOpenError::Busy => if now_ms >= deadline_ms {
                r matches PipeOpenStep::GiveUp(m) && m@ == "pipe busy timeout after "@
                    + crate::text::decimal_text(CTL_TIMEOUT_MS as nat) + "ms"@
            } else {
                r is Retry
            },
            PipeOpenError::Other => r is PassOn,
        },
{
    match err {
        PipeOpenError::NotFound => PipeOpenStep::GiveUp(text("pipe not found: crest daemon is not running")),
        PipeOpenError::Busy => {
            if now_ms >= deadline_ms {
                let mut m = text("pipe busy timeout after ");
                crate::text::push_decimal(&mut m, CTL_TIMEOUT_MS);
                m.append("ms");
                PipeOpenStep::GiveUp(m)
            } else {
                PipeOpenStep::Retry
            }
        },
        PipeOpenError::Other => PipeOpenStep::PassOn,
    }
}

/// How a `crest-ctl` request ended.
pub enum CtlOutcome {
    /// The bar answered.
    Answered(CtlResponse),
    /// The request failed; the text of the error.
    Failed(String),
}

/// What `crest-ctl` prints and how it exits.
pub struct CtlReport {
    /// Whether the line goes to standard error (else standard output).
    pub to_stderr: bool,
    pub line: String,
    pub exit_code: i32,
}

/// The report of an outcome: `ok: <message>` and success for a positive
/// answer, `error: <message>` for a negative one, a friendly line when the
/// bar is not running, and `crest-ctl: <error>` for other failures.
pub fn ctl_report(outcome: CtlOutcome) -> (r: CtlReport)
    ensures
        match outcome {
            CtlOutcome::Answered(resp) => if resp.ok {
                !r.to_stderr && r.line@ == "ok: "@ + resp.message@ && r.exit_code == 0
            } else {
                r.to_stderr && r.line@ == "error: "@ + resp.message@ && r.exit_code == 1
            },
            CtlOutcome::Failed(e) => r.to_stderr && r.exit_code == 1 && r.line@ == (if contains_text(
                e@,
                "pipe not found"@,
            ) {
                "crest is not running (pipe not found)"@
            } else {
                "crest-ctl: "@ + e@
            }),
        },
{
    match outcome {
        CtlOutcome::Answered(resp) => {
            if resp.ok {
                CtlReport { to_stderr: false, line: prefixed("ok: ", resp.message.as_str()), exit_code: 0 }
            } else {
                CtlReport { to_stderr: true, line: prefixed("error: ", resp.message.as_str()), exit_code: 1 }
            }
        },
        CtlOutcome::Failed(e) => {
            let c = chars_of(e.as_str());
            if contains_str(&c, "pipe not found") {
                CtlReport { to_stderr: true, line: text("crest is not running (pipe not found)"), exit_code: 1 }
            } else {
                CtlReport { to_stderr: true, line: prefixed("crest-ctl: ", e.as_str()), exit_code: 1 }
            }
        },
    }
}

} // verus!
