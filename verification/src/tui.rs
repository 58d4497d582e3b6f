//! The terminal runtime's typed hand-off: options in, a report or an input
//! error out.

use vstd::prelude::*;

use crate::errors::{ViError, ViErrorView};

verus! {

/// User-visible demo tamper modes accepted by `vi tui`.
#[derive(Debug, Clone, Copy, PartialEq, Eq, Structural)]
pub enum TamperMode {
    /// Flip one receipt byte before verification.
    ByteFlip,
}

impl TamperMode {
    /// Stable CLI/API string.
    pub fn as_str(self) -> (s: &'static str)
        ensures
            s@ == "byte-flip"@,
    {
        match self {
            TamperMode::ByteFlip => "byte-flip",
        }
    }
}

/// Options handed from `vi tui` into the runtime.
#[derive(Debug, Clone, PartialEq, Eq)]
pub struct RunOptions {
    /// Provider or broker endpoint resolved from `--endpoint` or `VI_ENDPOINT`.
    pub endpoint: Option<String>,
    /// Demo tamper mode for the next request.
    pub tamper: Option<TamperMode>,
    /// Artificial verifier phase delay in milliseconds.
    pub phase_delay_ms: u64,
}

impl RunOptions {
    /// Construct runtime options.
    pub fn new(endpoint: Option<String>, tamper: Option<TamperMode>, phase_delay_ms: u64) -> (r: RunOptions)
        ensures
            r.endpoint == endpoint,
            r.tamper == tamper,
            r.phase_delay_ms == phase_delay_ms,
    {
        RunOptions { endpoint, tamper, phase_delay_ms }
    }
}

/// Report returned by the runtime.
#[derive(Debug, Clone, PartialEq, Eq)]
pub struct RunReport {
    /// Runtime status.
    pub status: &'static str,
    /// Provider or broker endpoint passed to the runtime.
    pub endpoint: Option<String>,
    /// Demo tamper mode passed to the runtime.
    pub tamper: Option<TamperMode>,
    /// Artificial verifier phase delay in milliseconds.
    pub phase_delay_ms: u64,
}

/// The error for an empty `--endpoint`.
pub open spec fn empty_endpoint_error() -> ViErrorView {
    ViErrorView::Input { arg: "--endpoint"@, reason: "endpoint cannot be empty"@, detail: None }
}

/// Enter the runtime: an empty endpoint is refused; otherwise the options
/// come back in a `stub` report.
pub fn run(options: RunOptions) -> (r: Result<RunReport, ViError>)
    ensures
        (options.endpoint matches Some(e) && e@.len() == 0) <==> r is Err,
        r matches Err(e) ==> e@ == empty_endpoint_error(),
        r matches Ok(report) ==> report.status@ == "stub"@ && report.endpoint == options.endpoint
            && report.tamper == options.tamper && report.phase_delay_ms == options.phase_delay_ms,
{
    let empty = match &options.endpoint {
        Some(e) => e.as_str().is_empty(),
        None => false,
    };
    if empty {
        return Err(
            ViError::Input {
                arg: "--endpoint".to_owned(),
                reason: "endpoint cannot be empty".to_owned(),
                detail: None,
            },
        );
    }
    Ok(
        RunReport {
            status: "stub",
            endpoint: options.endpoint,
            tamper: options.tamper,
            phase_delay_ms: options.phase_delay_ms,
        },
    )
}

/// Link-graph anchor; does nothing.
pub fn placeholder() {
}

} // verus!
