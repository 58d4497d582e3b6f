//! The decisions of the `vi` command-line boundary: dispatch of the hidden
//! test hooks, the sample errors they raise, the exit code of a run, and the
//! trace identifier and panic text of the error envelope.

use vstd::prelude::*;

use crate::errors::{IdentityFields, IdentityView, NetworkErrorKind, PhaseId, ViError, ViErrorView};
use crate::text::{decimal, push_decimal, str_eq};

verus! {

/// Subcommand name carried by boundary error envelopes.
pub const SUBCOMMAND: &'static str = "vi";

/// Environment variable that enables the hidden test hooks when set to `1`.
pub const TEST_HOOKS_ENV: &'static str = "VI_ENABLE_TEST_HOOKS";

/// Environment variable that fixes the trace identifier.
pub const TRACE_ID_ENV: &'static str = "VI_TRACE_ID";

/// Captured output from a successful command dispatch.
#[derive(Debug, Clone, PartialEq, Eq)]
pub struct Output {
    /// Optional stdout payload to print at the process boundary.
    pub stdout: Option<String>,
}

impl Default for Output {
    fn default() -> (r: Output)
        ensures
            r.stdout is None,
    {
        Output { stdout: None }
    }
}

/// Library dispatch entry point: no subcommand is wired in yet, so a run
/// succeeds with no output.
pub fn run() -> (r: Result<Output, ViError>)
    ensures
        r matches Ok(o) && o.stdout is None,
{
    crate::client::placeholder();
    crate::keygen::placeholder();
    crate::log::placeholder();
    crate::tui::placeholder();
    crate::pins::placeholder();
    Ok(Output { stdout: None })
}

/// The hidden boundary subcommands.
#[derive(Debug, Clone, PartialEq, Eq)]
pub enum BoundaryCommand {
    /// Panic deliberately, to exercise the panic hook.
    Panic,
    /// Fail with the sample error of a category.
    Error { category: String },
}

/// What a dispatch decided: panic, or finish with a result.
#[derive(Debug)]
pub enum Dispatch {
    /// Panic with the deliberate test-hook message.
    Panic,
    /// Finish with this result.
    Done(Result<Output, ViError>),
}

/// The message of the deliberate test-hook panic.
pub const DELIBERATE_PANIC: &'static str = "deliberate vi panic test hook";

/// The error raised when the test hooks are not enabled.
pub open spec fn hooks_disabled_error() -> ViErrorView {
    ViErrorView::UnsupportedTier {
        requested: "test-hook"@,
        reason: "internal test hooks are disabled"@,
    }
}

/// Refuse unless the test-hook variable (`None` when unset) holds `1`.
pub fn ensure_test_hooks_enabled(value: Option<&str>) -> (r: Result<(), ViError>)
    ensures
        r is Ok <==> (value matches Some(v) && v@ == "1"@),
        r matches Err(e) ==> e@ == hooks_disabled_error(),
{
    let enabled = match value {
        Some(v) => str_eq(v, "1"),
        None => false,
    };
    if enabled {
        Ok(())
    } else {
        Err(
            ViError::UnsupportedTier {
                requested: "test-hook".to_owned(),
                reason: "internal test hooks are disabled".to_owned(),
            },
        )
    }
}

/// Bit pattern of the double `47.0`.
pub const MEASURED_47_BITS: u64 = 0x4047_8000_0000_0000u64;

/// Bit pattern of the double `10.0`.
pub const TOLERANCE_10_BITS: u64 = 0x4024_0000_0000_0000u64;

/// Identity of a test model with the pinned CommitLLM revision.
pub open spec fn sample_identity(model: Seq<char>, checkpoint: Seq<char>) -> IdentityView {
    IdentityView { model_id: model, checkpoint_hash: checkpoint, commitllm_pin: "25541e83"@, key_hash: None }
}

/// The sample error of each error category, named by its category string.
pub open spec fn sample_error_of(category: Seq<char>) -> Option<ViErrorView> {
    if category == "verification_failed"@ {
        Some(ViErrorView::VerificationFailed {
            phase: PhaseId::BridgeReplay,
            measured: Some(MEASURED_47_BITS),
            tolerance: Some(TOLERANCE_10_BITS),
            extra: None,
        })
    } else if category == "input"@ {
        Some(ViErrorView::Input { arg: "--receipt"@, reason: "file not found"@, detail: None })
    } else if category == "network"@ {
        Some(ViErrorView::Network {
            endpoint: "https://provider.example"@,
            kind: NetworkErrorKind::Timeout,
            http_status: None,
        })
    } else if category == "hash_mismatch"@ {
        Some(ViErrorView::HashMismatch { expected: "sha256:expected"@, actual: "sha256:actual"@ })
    } else if category == "receipt_missing"@ {
        Some(ViErrorView::ReceiptMissing {
            endpoint: "https://provider.example"@,
            content_type: "application/json"@,
        })
    } else if category == "unknown_version"@ {
        Some(ViErrorView::UnknownVersion {
            envelope: "VIRC"@,
            field: "ver"@,
            value: 9,
            supported: seq![1u32],
        })
    } else if category == "identity_mismatch"@ {
        Some(ViErrorView::IdentityMismatch {
            expected: sample_identity("model"@, "sha256:abc"@),
            actual: sample_identity("other-model"@, "sha256:def"@),
        })
    } else if category == "unsupported_tier"@ {
        Some(ViErrorView::UnsupportedTier { requested: "full"@, reason: "missing --audit-endpoint"@ })
    } else if category == "corrupt_envelope"@ {
        Some(ViErrorView::CorruptEnvelope {
            envelope: "VIRC"@,
            offset: 7,
            reason: "binding_crc32 mismatch"@,
        })
    } else if category == "internal"@ {
        Some(ViErrorView::Internal { backtrace: "internal test error"@ })
    } else {
        None
    }
}

/// View of an optional error.
pub open spec fn opt_error_view(e: Option<ViError>) -> Option<ViErrorView> {
    match e {
        Some(e) => Some(e@),
        None => None,
    }
}

/// The sample error of a category, `None` for an unknown category.
pub fn sample_error(category: &str) -> (r: Option<ViError>)
    ensures
        opt_error_view(r) == sample_error_of(category@),
{
    if str_eq(category, "verification_failed") {
        Some(
            ViError::VerificationFailed {
                phase: PhaseId::BridgeReplay,
                measured: Some(MEASURED_47_BITS),
                tolerance: Some(TOLERANCE_10_BITS),
                extra: None,
            },
        )
    } else if str_eq(category, "input") {
        Some(
            ViError::Input {
                arg: "--receipt".to_owned(),
                reason: "file not found".to_owned(),
                detail: None,
            },
        )
    } else if str_eq(category, "network") {
        Some(
            ViError::Network {
                endpoint: "https://provider.example".to_owned(),
                kind: NetworkErrorKind::Timeout,
                http_status: None,
            },
        )
    } else if str_eq(category, "hash_mismatch") {
        Some(
            ViError::HashMismatch {
                expected: "sha256:expected".to_owned(),
                actual: "sha256:actual".to_owned(),
            },
        )
    } else if str_eq(category, "receipt_missing") {
        Some(
            ViError::ReceiptMissing {
                endpoint: "https://provider.example".to_owned(),
                content_type: "application/json".to_owned(),
            },
        )
    } else if str_eq(category, "unknown_version") {
        let mut supported: Vec<u32> = Vec::new();
        supported.push(1);
        assert(supported@ =~= seq![1u32]);
        Some(ViError::UnknownVersion { envelope: "VIRC", field: "ver", value: 9, supported })
    } else if str_eq(category, "identity_mismatch") {
        Some(
            ViError::IdentityMismatch {
                expected: IdentityFields::new("model", "sha256:abc", "25541e83"),
                actual: IdentityFields::new("other-model", "sha256:def", "25541e83"),
            },
        )
    } else if str_eq(category, "unsupported_tier") {
        Some(
            ViError::UnsupportedTier {
                requested: "full".to_owned(),
                reason: "missing --audit-endpoint".to_owned(),
            },
        )
    } else if str_eq(category, "corrupt_envelope") {
        Some(
            ViError::CorruptEnvelope {
                envelope: "VIRC",
                offset: 7,
                reason: "binding_crc32 mismatch",
            },
        )
    } else if str_eq(category, "internal") {
        Some(ViError::Internal { backtrace: "internal test error".to_owned() })
    } else {
        None
    }
}

/// The error for a category that has no sample error.
pub open spec fn unknown_category_error(category: Seq<char>) -> ViErrorView {
    ViErrorView::Input {
        arg: "CATEGORY"@,
        reason: "unknown test category "@ + category,
        detail: None,
    }
}

/// The error that `__error <category>` raises.
pub open spec fn boundary_error_of(category: Seq<char>) -> ViErrorView {
    match sample_error_of(category) {
        Some(e) => e,
        None => unknown_category_error(category),
    }
}

/// The error that `__error <category>` raises: the category's sample error,
/// or an input error naming an unknown category.
pub fn boundary_error(category: &str) -> (e: ViError)
    ensures
        e@ == boundary_error_of(category@),
{
    match sample_error(category) {
        Some(e) => e,
        None => {
            let mut reason = "unknown test category ".to_owned();
            reason.append(category);
            ViError::Input { arg: "CATEGORY".to_owned(), reason, detail: None }
        },
    }
}

/// Dispatch a parsed command line. The hidden hooks need the test-hook
/// variable (`None` when unset) to hold `1`; without a subcommand the library
/// runs.
pub fn run_cli(command: Option<BoundaryCommand>, test_hooks: Option<&str>) -> (d: Dispatch)
    ensures
        command is None ==> (d matches Dispatch::Done(Ok(o)) && o.stdout is None),
        command is Some && !(test_hooks matches Some(v) && v@ == "1"@) ==> (d matches Dispatch::Done(
            Err(e),
        ) && e@ == hooks_disabled_error()),
        (command matches Some(BoundaryCommand::Panic)) && (test_hooks matches Some(v) && v@ == "1"@)
            ==> d is Panic,
        command matches Some(BoundaryCommand::Error { category }) ==> ((test_hooks matches Some(v)
            && v@ == "1"@) ==> (d matches Dispatch::Done(Err(e)) && e@ == boundary_error_of(
            category@,
        ))),
{
    match command {
        None => Dispatch::Done(run()),
        Some(BoundaryCommand::Panic) => match ensure_test_hooks_enabled(test_hooks) {
            Ok(()) => Dispatch::Panic,
            Err(e) => Dispatch::Done(Err(e)),
        },
        Some(BoundaryCommand::Error { category }) => match ensure_test_hooks_enabled(test_hooks) {
            Ok(()) => Dispatch::Done(Err(boundary_error(category.as_str()))),
            Err(e) => Dispatch::Done(Err(e)),
        },
    }
}

/// The process exit code of a finished dispatch: `0` on success, the
/// error's category code otherwise.
pub fn exit_code_for(result: &Result<Output, ViError>) -> (c: i32)
    ensures
        result is Ok ==> c == 0,
        result matches Err(e) ==> c == crate::errors::exit_code_of(e@),
{
    match result {
        Ok(_) => 0,
        Err(e) => e.exit_code(),
    }
}

/// The text of a caught panic: its payload (`panic` when it is not a
/// string), followed by ` at file:line` when the location is known.
pub open spec fn panic_text(payload: Option<Seq<char>>, location: Option<(Seq<char>, u32)>) -> Seq<char> {
    let p = match payload {
        Some(p) => p,
        None => "panic"@,
    };
    match location {
        Some((file, line)) => p + " at "@ + file + ":"@ + decimal(line as nat),
        None => p,
    }
}

/// Render the text of a caught panic.
pub fn panic_message(payload: Option<&str>, location: Option<(&str, u32)>) -> (s: String)
    ensures
        s@ == panic_text(
            match payload {
                Some(p) => Some(p@),
                None => None,
            },
            match location {
                Some((f, l)) => Some((f@, l)),
                None => None,
            },
        ),
{
    let mut s = match payload {
        Some(p) => p.to_owned(),
        None => "panic".to_owned(),
    };
    match location {
        Some((file, line)) => {
            s.append(" at ");
            s.append(file);
            s.append(":");
            push_decimal(&mut s, line as u64);
        },
        None => {},
    }
    s
}

/// The trace identifier: the value of `VI_TRACE_ID` when it is set,
/// otherwise `vi-` and the process id.
pub fn trace_id_from(env_value: Option<String>, pid: u32) -> (s: String)
    ensures
        env_value matches Some(v) ==> s@ == v@,
        env_value is None ==> s@ == "vi-"@ + decimal(pid as nat),
{
    match env_value {
        Some(v) => v,
        None => {
            let mut s = "vi-".to_owned();
            push_decimal(&mut s, pid as u64);
            s
        },
    }
}

} // verus!
