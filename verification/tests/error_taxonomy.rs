use verifiable_intelligence::errors::{
    category_strings_list, error_detail, Detail, ErrorEnvelope, IdentityFields, NetworkErrorKind,
    PhaseId, ViError, ERROR_ENVELOPE_SCHEMA_VERSION, SIGINT_EXIT_CODE, USAGE_EXIT_CODE,
};

const SUBCOMMAND: &str = "verify";
const TRACE_ID: &str = "01JTRACE";

fn s(text: &str) -> Detail {
    Detail::Str(text.to_owned())
}

fn obj(entries: Vec<(&str, Detail)>) -> Detail {
    Detail::Object(entries.into_iter().map(|(k, v)| (k.to_owned(), v)).collect())
}

fn sample_identity() -> IdentityFields {
    IdentityFields::new("model", "sha256:abc", "25541e83")
}

fn measure_text(bits: Option<u64>) -> String {
    bits.map(|b| format!("{}", f64::from_bits(b))).unwrap_or_default()
}

fn envelope_of(error: ViError) -> ErrorEnvelope<'static> {
    let (measured, tolerance) = match &error {
        ViError::VerificationFailed { measured, tolerance, .. } => {
            (measure_text(*measured), measure_text(*tolerance))
        }
        _ => (String::new(), String::new()),
    };
    ErrorEnvelope::new(SUBCOMMAND, TRACE_ID, error, &measured, &tolerance)
}

fn assert_envelope(
    error: ViError,
    category: &str,
    exit_code: i32,
    message: &str,
    detail: Detail,
    remediation: &str,
) {
    let envelope = envelope_of(error);
    assert!(envelope.error);
    assert_eq!(envelope.schema_version, 1);
    assert_eq!(envelope.subcommand, SUBCOMMAND);
    assert_eq!(envelope.category, category);
    assert_eq!(envelope.exit_code, exit_code);
    assert_eq!(envelope.message, message);
    assert_eq!(envelope.detail, detail);
    assert_eq!(envelope.remediation, Some(remediation));
    assert_eq!(envelope.trace_id, TRACE_ID);
}

fn sample_errors() -> Vec<ViError> {
    vec![
        ViError::VerificationFailed {
            phase: PhaseId::BridgeReplay,
            measured: Some(47.0f64.to_bits()),
            tolerance: Some(10.0f64.to_bits()),
            extra: None,
        },
        ViError::Input {
            arg: "--receipt".to_owned(),
            reason: "file not found".to_owned(),
            detail: None,
        },
        ViError::Network {
            endpoint: "https://provider.example".to_owned(),
            kind: NetworkErrorKind::Timeout,
            http_status: None,
        },
        ViError::HashMismatch {
            expected: "sha256:expected".to_owned(),
            actual: "sha256:actual".to_owned(),
        },
        ViError::ReceiptMissing {
            endpoint: "https://provider.example".to_owned(),
            content_type: "application/json".to_owned(),
        },
        ViError::UnknownVersion {
            envelope: "VIRC",
            field: "ver",
            value: 9,
            supported: vec![1],
        },
        ViError::IdentityMismatch {
            expected: sample_identity(),
            actual: IdentityFields::new("other-model", "sha256:def", "25541e83"),
        },
        ViError::UnsupportedTier {
            requested: "full".to_owned(),
            reason: "missing --audit-endpoint".to_owned(),
        },
        ViError::CorruptEnvelope {
            envelope: "VIRC",
            offset: 7,
            reason: "binding_crc32 mismatch",
        },
        ViError::Internal {
            backtrace: "panic at boundary".to_owned(),
        },
    ]
}

#[test]
fn exit_codes_match_spec() {
    let pairs: Vec<(&'static str, i32)> = sample_errors()
        .iter()
        .map(|error| (error.category(), error.exit_code()))
        .collect();

    assert_eq!(
        pairs,
        vec![
            ("verification_failed", 1),
            ("input", 2),
            ("network", 3),
            ("hash_mismatch", 4),
            ("receipt_missing", 5),
            ("unknown_version", 6),
            ("identity_mismatch", 7),
            ("unsupported_tier", 8),
            ("corrupt_envelope", 9),
            ("internal", 70),
        ]
    );
    assert_eq!(USAGE_EXIT_CODE, 64);
    assert_eq!(SIGINT_EXIT_CODE, 130);
}

#[test]
fn category_strings_are_stable() {
    assert_eq!(
        category_strings_list(),
        vec![
            "verification_failed",
            "input",
            "network",
            "hash_mismatch",
            "receipt_missing",
            "unknown_version",
            "identity_mismatch",
            "unsupported_tier",
            "corrupt_envelope",
            "internal",
        ]
    );

    let sample_categories: Vec<_> = sample_errors().iter().map(ViError::category).collect();
    assert_eq!(sample_categories, category_strings_list());
}

#[test]
fn phase_strings_are_stable() {
    let phases = [
        PhaseId::EmbeddingMerkle,
        PhaseId::ShellFreivalds,
        PhaseId::BridgeReplay,
        PhaseId::AttentionCorridor,
        PhaseId::KvProvenance,
        PhaseId::LmHead,
        PhaseId::DecodePolicy,
    ];

    assert_eq!(
        phases.map(PhaseId::as_str),
        [
            "embedding_merkle",
            "shell_freivalds",
            "bridge_replay",
            "attention_corridor",
            "kv_provenance",
            "lm_head",
            "decode_policy",
        ]
    );
}

#[test]
fn network_kind_strings_are_stable() {
    let kinds = [
        NetworkErrorKind::Dns,
        NetworkErrorKind::ConnectionRefused,
        NetworkErrorKind::Tls,
        NetworkErrorKind::TlsHandshakeEof,
        NetworkErrorKind::Timeout,
        NetworkErrorKind::HttpStatus,
        NetworkErrorKind::Other,
    ];

    assert_eq!(
        kinds.map(NetworkErrorKind::as_str),
        [
            "dns",
            "connection_refused",
            "tls",
            "tls_handshake_eof",
            "timeout",
            "http_status",
            "other",
        ]
    );
}

#[test]
fn error_envelope_from_error_uses_default_context() {
    let envelope = ErrorEnvelope::from_error(
        ViError::Internal {
            backtrace: "panic".to_owned(),
        },
        "",
        "",
    );

    assert!(envelope.error);
    assert_eq!(envelope.schema_version, ERROR_ENVELOPE_SCHEMA_VERSION);
    assert_eq!(envelope.subcommand, "");
    assert_eq!(envelope.trace_id, "");
}

#[test]
fn serializes_input_envelope() {
    assert_envelope(
        ViError::Input {
            arg: "--receipt".to_owned(),
            reason: "file not found".to_owned(),
            detail: Some(obj(vec![("path", s("./receipt.bin"))])),
        },
        "input",
        2,
        "invalid input for --receipt: file not found",
        obj(vec![
            ("arg", s("--receipt")),
            ("reason", s("file not found")),
            ("path", s("./receipt.bin")),
        ]),
        "Check the argument value or file path.",
    );
}

#[test]
fn input_detail_keeps_reserved_keys_and_wraps_non_objects() {
    let detail = error_detail(ViError::Input {
        arg: "a".to_owned(),
        reason: "r".to_owned(),
        detail: Some(obj(vec![("arg", s("spoofed")), ("extra", Detail::Bool(true))])),
    });
    assert_eq!(
        detail,
        obj(vec![("arg", s("a")), ("reason", s("r")), ("extra", Detail::Bool(true))])
    );
    let detail = error_detail(ViError::Input {
        arg: "a".to_owned(),
        reason: "r".to_owned(),
        detail: Some(Detail::UInt(5)),
    });
    assert_eq!(
        detail,
        obj(vec![("arg", s("a")), ("reason", s("r")), ("detail", Detail::UInt(5))])
    );
}

#[test]
fn serializes_network_envelope() {
    assert_envelope(
        ViError::Network {
            endpoint: "https://provider.example".to_owned(),
            kind: NetworkErrorKind::Timeout,
            http_status: None,
        },
        "network",
        3,
        "network error calling https://provider.example: timeout",
        obj(vec![
            ("endpoint", s("https://provider.example")),
            ("kind", s("timeout")),
            ("http_status", Detail::Null),
        ]),
        "Check the endpoint URL and network connectivity; retry on transient failures.",
    );
}

#[test]
fn network_message_includes_http_status() {
    let error = ViError::Network {
        endpoint: "https://p.example/v1/audit".to_owned(),
        kind: NetworkErrorKind::HttpStatus,
        http_status: Some(503),
    };
    assert_eq!(
        error.message("", ""),
        "network error calling https://p.example/v1/audit: http_status (HTTP 503)"
    );
}

#[test]
fn serializes_verification_failed_envelope() {
    assert_envelope(
        ViError::VerificationFailed {
            phase: PhaseId::BridgeReplay,
            measured: Some(47.0f64.to_bits()),
            tolerance: Some(10.0f64.to_bits()),
            extra: Some(obj(vec![("norm", s("L_inf"))])),
        },
        "verification_failed",
        1,
        "verification phase bridge_replay failed: measured 47 exceeds tolerance 10",
        obj(vec![
            ("phase", s("bridge_replay")),
            ("measured", Detail::FloatBits(47.0f64.to_bits())),
            ("tolerance", Detail::FloatBits(10.0f64.to_bits())),
            ("extra", obj(vec![("norm", s("L_inf"))])),
        ]),
        "Re-fetch the receipt; if the failure persists, the provider's deployment may have drifted from the pinned model.",
    );
}

#[test]
fn serializes_identity_mismatch_envelope() {
    assert_envelope(
        ViError::IdentityMismatch {
            expected: sample_identity(),
            actual: IdentityFields::new("other-model", "sha256:def", "25541e83"),
        },
        "identity_mismatch",
        7,
        "identity mismatch: expected model_id=model, checkpoint_hash=sha256:abc, commitllm_pin=25541e83, actual model_id=other-model, checkpoint_hash=sha256:def, commitllm_pin=25541e83",
        obj(vec![
            (
                "expected",
                obj(vec![
                    ("model_id", s("model")),
                    ("checkpoint_hash", s("sha256:abc")),
                    ("commitllm_pin", s("25541e83")),
                ]),
            ),
            (
                "actual",
                obj(vec![
                    ("model_id", s("other-model")),
                    ("checkpoint_hash", s("sha256:def")),
                    ("commitllm_pin", s("25541e83")),
                ]),
            ),
        ]),
        "Use the verifier key that matches this receipt's model and CommitLLM pin.",
    );
}

#[test]
fn identity_with_key_hash_renders_it() {
    let identity = sample_identity().with_key_hash("sha256:key");
    assert_eq!(
        identity.to_text(),
        "model_id=model, checkpoint_hash=sha256:abc, commitllm_pin=25541e83, key_hash=sha256:key"
    );
}

#[test]
fn serializes_unknown_version_envelope() {
    assert_envelope(
        ViError::UnknownVersion {
            envelope: "VIRC",
            field: "ver",
            value: 9,
            supported: vec![1],
        },
        "unknown_version",
        6,
        "unsupported VIRC ver version 9; supported versions: [1]",
        obj(vec![
            ("envelope", s("VIRC")),
            ("field", s("ver")),
            ("value", Detail::UInt(9)),
            ("supported", Detail::Array(vec![Detail::UInt(1)])),
        ]),
        "Upgrade `vi` or downgrade the provider so versions align.",
    );
}

#[test]
fn unknown_version_lists_several_supported_versions() {
    let error = ViError::UnknownVersion {
        envelope: "VIAU",
        field: "audit_schema_version",
        value: 12,
        supported: vec![1, 2, 30],
    };
    assert_eq!(
        error.message("", ""),
        "unsupported VIAU audit_schema_version version 12; supported versions: [1, 2, 30]"
    );
}

#[test]
fn serializes_unsupported_tier_envelope() {
    assert_envelope(
        ViError::UnsupportedTier {
            requested: "full".to_owned(),
            reason: "missing --audit-endpoint".to_owned(),
        },
        "unsupported_tier",
        8,
        "unsupported tier full: missing --audit-endpoint",
        obj(vec![
            ("requested_tier", s("full")),
            ("reason", s("missing --audit-endpoint")),
        ]),
        "Use a supported tier or provide the missing inputs (e.g., `--audit-endpoint`).",
    );
}

#[test]
fn serializes_corrupt_envelope() {
    assert_envelope(
        ViError::CorruptEnvelope {
            envelope: "VIRC",
            offset: 7,
            reason: "binding_crc32 mismatch",
        },
        "corrupt_envelope",
        9,
        "corrupt VIRC envelope at offset 7: binding_crc32 mismatch",
        obj(vec![
            ("envelope", s("VIRC")),
            ("offset", Detail::UInt(7)),
            ("reason", s("binding_crc32 mismatch")),
        ]),
        "The artifact has been damaged. Re-fetch the original.",
    );
}

#[test]
fn serializes_hash_mismatch_envelope() {
    assert_envelope(
        ViError::HashMismatch {
            expected: "sha256:expected".to_owned(),
            actual: "sha256:actual".to_owned(),
        },
        "hash_mismatch",
        4,
        "hash mismatch: expected sha256:expected, actual sha256:actual",
        obj(vec![
            ("expected", s("sha256:expected")),
            ("actual", s("sha256:actual")),
        ]),
        "The checkpoint at the source has changed. Re-download or use `--allow-checkpoint-drift` if you are intentionally pinning.",
    );
}

#[test]
fn serializes_receipt_missing_envelope() {
    assert_envelope(
        ViError::ReceiptMissing {
            endpoint: "https://provider.example".to_owned(),
            content_type: "application/json".to_owned(),
        },
        "receipt_missing",
        5,
        "receipt missing from https://provider.example response with content type application/json",
        obj(vec![
            ("endpoint", s("https://provider.example")),
            ("content_type", s("application/json")),
            ("expected", s("multipart/mixed")),
        ]),
        "The provider did not emit a receipt. Check that the endpoint supports `X-Verifiable-Receipt: 1` and that the prover is healthy.",
    );
}

#[test]
fn serializes_internal_envelope() {
    assert_envelope(
        ViError::Internal {
            backtrace: "panic at boundary".to_owned(),
        },
        "internal",
        70,
        "internal error",
        obj(vec![("backtrace", s("panic at boundary"))]),
        "Please file an issue with the trace_id.",
    );
}
