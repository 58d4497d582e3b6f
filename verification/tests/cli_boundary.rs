use verifiable_intelligence::cli::{
    boundary_error, ensure_test_hooks_enabled, exit_code_for, panic_message, run, run_cli,
    sample_error, trace_id_from, BoundaryCommand, Dispatch, Output, DELIBERATE_PANIC,
};
use verifiable_intelligence::errors::{NetworkErrorKind, PhaseId, ViError};

const CATEGORIES: [(&str, i32); 10] = [
    ("verification_failed", 1),
    ("input", 2),
    ("network", 3),
    ("hash_mismatch", 4),
    ("receipt_missing", 5),
    ("unknown_version", 6),
    ("identity_mismatch", 7),
    ("unsupported_tier", 8),
    ("corrupt_envelope", 9),
    ("internal", 70),
];

#[test]
fn sample_errors_exit_with_their_category_codes() {
    for (category, code) in CATEGORIES {
        let error = sample_error(category).expect("known category");
        assert_eq!(error.category(), category);
        assert_eq!(error.exit_code(), code);
        assert_eq!(exit_code_for(&Err(error)), code);
    }
    assert_eq!(sample_error("nope"), None);
}

#[test]
fn sample_errors_hold_the_documented_values() {
    assert_eq!(
        sample_error("verification_failed"),
        Some(ViError::VerificationFailed {
            phase: PhaseId::BridgeReplay,
            measured: Some(47.0f64.to_bits()),
            tolerance: Some(10.0f64.to_bits()),
            extra: None,
        })
    );
    assert_eq!(
        sample_error("network"),
        Some(ViError::Network {
            endpoint: "https://provider.example".to_owned(),
            kind: NetworkErrorKind::Timeout,
            http_status: None,
        })
    );
    assert_eq!(
        sample_error("unknown_version"),
        Some(ViError::UnknownVersion { envelope: "VIRC", field: "ver", value: 9, supported: vec![1] })
    );
}

#[test]
fn test_hooks_need_the_variable_set_to_one() {
    assert_eq!(ensure_test_hooks_enabled(Some("1")), Ok(()));
    let disabled = ViError::UnsupportedTier {
        requested: "test-hook".to_owned(),
        reason: "internal test hooks are disabled".to_owned(),
    };
    assert_eq!(ensure_test_hooks_enabled(None), Err(disabled));
    assert!(ensure_test_hooks_enabled(Some("true")).is_err());
}

#[test]
fn dispatch_follows_the_hidden_commands() {
    match run_cli(None, None) {
        Dispatch::Done(Ok(output)) => assert_eq!(output, Output::default()),
        other => panic!("unexpected {other:?}"),
    }
    assert!(matches!(run_cli(Some(BoundaryCommand::Panic), Some("1")), Dispatch::Panic));
    match run_cli(Some(BoundaryCommand::Panic), None) {
        Dispatch::Done(Err(error)) => assert_eq!(error.category(), "unsupported_tier"),
        other => panic!("unexpected {other:?}"),
    }
    match run_cli(Some(BoundaryCommand::Error { category: "internal".to_owned() }), Some("1")) {
        Dispatch::Done(Err(error)) => {
            assert_eq!(error, ViError::Internal { backtrace: "internal test error".to_owned() })
        }
        other => panic!("unexpected {other:?}"),
    }
    assert_eq!(
        boundary_error("bogus"),
        ViError::Input {
            arg: "CATEGORY".to_owned(),
            reason: "unknown test category bogus".to_owned(),
            detail: None,
        }
    );
    assert_eq!(DELIBERATE_PANIC, "deliberate vi panic test hook");
}

#[test]
fn run_succeeds_without_output() {
    assert_eq!(run(), Ok(Output { stdout: None }));
    assert_eq!(exit_code_for(&run()), 0);
}

#[test]
fn panic_text_and_trace_id_are_rendered() {
    assert_eq!(panic_message(Some("boom"), Some(("src/lib.rs", 42))), "boom at src/lib.rs:42");
    assert_eq!(panic_message(None, None), "panic");
    assert_eq!(trace_id_from(Some("trace-x".to_owned()), 7), "trace-x");
    assert_eq!(trace_id_from(None, 4021), "vi-4021");
}
