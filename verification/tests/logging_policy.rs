use verifiable_intelligence::log::filter_outcome;
use verifiable_intelligence::log::{
    filter_source, generate_trace_id, hex_prefix, redaction_action, resolve_filter,
    sanitize_args, sanitize_args_string, InitError, LogLevel, LogValue, RedactionAction,
    RedactionLayer, DEFAULT_FILTER, RUST_LOG_ENV, VI_LOG_ENV,
};

fn s(text: &str) -> LogValue {
    LogValue::Str(text.to_owned())
}

fn sample_value(field: &str) -> LogValue {
    match field {
        "args" => LogValue::Array(vec![s("vi"), s("chat"), s("--api-key"), s("secret-token")]),
        "receipt_bytes" | "audit_bytes" => s("secret-bytes"),
        _ => s(&format!("sample-{field}")),
    }
}

#[test]
fn generated_trace_id_is_ulid_shaped() {
    let trace_id = generate_trace_id();

    assert_eq!(trace_id.len(), 26);
    assert!(trace_id.chars().all(|character| {
        character.is_ascii_digit()
            || matches!(character, 'A'..='H' | 'J'..='K' | 'M'..='N' | 'P'..='T' | 'V'..='Z')
    }));
}

#[test]
fn filter_precedence_is_override_then_vi_log_then_rust_log_then_default() {
    assert_eq!(filter_source(Some("debug"), None, None).1, "debug");
    assert_eq!(
        filter_source(None, Some("info"), Some("trace")),
        (VI_LOG_ENV, "info".to_owned())
    );
    assert_eq!(filter_source(None, None, Some("warn")), (RUST_LOG_ENV, "warn".to_owned()));
    assert_eq!(filter_source(None, None, None), ("default", DEFAULT_FILTER.to_owned()));
}

#[test]
fn blank_filters_are_skipped_and_values_trimmed() {
    assert_eq!(
        filter_source(Some("   "), Some("\t"), Some("  warn  ")),
        (RUST_LOG_ENV, "warn".to_owned())
    );
    assert_eq!(filter_source(Some(" debug "), Some("info"), None), ("--log", "debug".to_owned()));
}

#[test]
fn invalid_filter_names_its_source() {
    assert_eq!(
        resolve_filter(None, Some("info"), None),
        Ok((VI_LOG_ENV, "info".to_owned()))
    );
    match resolve_filter(Some("[{"), None, None) {
        Err(InitError::InvalidFilter { source, value, reason }) => {
            assert_eq!(source, "--log");
            assert_eq!(value, "[{");
            assert!(!reason.is_empty());
        }
        other => panic!("unexpected {other:?}"),
    }
    let error = InitError::InvalidFilter {
        source: RUST_LOG_ENV,
        value: "x".to_owned(),
        reason: "y".to_owned(),
    };
    assert_eq!(error.source_name(), "RUST_LOG");
}

#[test]
fn redaction_policy_covers_field_map_at_info_debug_and_trace() {
    let levels = [LogLevel::Info, LogLevel::Debug, LogLevel::Trace];
    let cases = [
        ("prompt", RedactionAction::Drop),
        ("prompt_hash", RedactionAction::Keep),
        ("generated_text", RedactionAction::Drop),
        ("answer", RedactionAction::Drop),
        ("answer_hash", RedactionAction::Keep),
        ("text_chars", RedactionAction::Keep),
        ("key_bytes", RedactionAction::Drop),
        ("receipt_bytes", RedactionAction::BytesPrefixAtTrace),
        ("audit_bytes", RedactionAction::BytesPrefixAtTrace),
        ("authorization", RedactionAction::Drop),
        ("cookie", RedactionAction::Drop),
        ("set-cookie", RedactionAction::Drop),
        ("api_key", RedactionAction::Drop),
        ("VI_API_KEY", RedactionAction::Drop),
        ("args", RedactionAction::SanitizeArgs),
    ];

    for level in levels {
        for (field, action) in cases {
            assert_eq!(redaction_action(field), action, "{field}");
            let output = RedactionLayer::redact_value(field, sample_value(field), level);
            match action {
                RedactionAction::Keep => assert!(output.is_some(), "{field} at {level:?}"),
                RedactionAction::Drop => assert!(output.is_none(), "{field} at {level:?}"),
                RedactionAction::BytesPrefixAtTrace => {
                    if level == LogLevel::Trace {
                        assert_eq!(output, Some(s("7365637265742d6279746573")));
                    } else {
                        assert!(output.is_none(), "{field} at {level:?}");
                    }
                }
                RedactionAction::SanitizeArgs => {
                    let output = output.expect("args are sanitized");
                    let rendered = format!("{output:?}");
                    assert!(!rendered.contains("secret-token"));
                    assert!(rendered.contains("[REDACTED]"));
                }
            }
        }
    }
}

#[test]
fn info_prompt_misuse_does_not_emit_prompt() {
    assert_eq!(
        RedactionLayer::redact_value("prompt", s("raw user prompt"), LogLevel::Info),
        None
    );
    assert_eq!(
        RedactionLayer::redact_value("prompt_hash", s("sha256:prompt"), LogLevel::Info),
        Some(s("sha256:prompt"))
    );
}

#[test]
fn trace_byte_fields_emit_hex_prefix_only() {
    let bytes: Vec<u8> = (0..40).collect();
    let expected = "000102030405060708090a0b0c0d0e0f101112131415161718191a1b1c1d1e1f...";
    for field in ["receipt_bytes", "audit_bytes"] {
        let value = RedactionLayer::redact_bytes(field, &bytes, LogLevel::Trace)
            .expect("prefix at TRACE");
        assert_eq!(value, s(expected));
        match value {
            LogValue::Str(text) => assert!(!text.contains("202122")),
            other => panic!("unexpected {other:?}"),
        }
        assert_eq!(RedactionLayer::redact_bytes(field, &bytes, LogLevel::Debug), None);
    }
}

#[test]
fn kept_bytes_are_written_as_numbers() {
    assert_eq!(
        RedactionLayer::redact_bytes("payload", &[1, 255], LogLevel::Info),
        Some(LogValue::Array(vec![LogValue::UInt(1), LogValue::UInt(255)]))
    );
    assert_eq!(RedactionLayer::redact_bytes("cookie", &[1], LogLevel::Trace), None);
    assert_eq!(
        RedactionLayer::redact_bytes("ARGS", b"vi  --api-key   tok\tnext", LogLevel::Info),
        Some(s("vi --api-key [REDACTED] next"))
    );
}

#[test]
fn hex_prefix_stops_after_thirty_two_bytes() {
    assert_eq!(hex_prefix(&[]), "");
    assert_eq!(hex_prefix(&[0xab, 0x01]), "ab01");
    assert_eq!(hex_prefix(&[0xff; 32]), "ff".repeat(32));
    assert_eq!(hex_prefix(&[0xff; 33]), format!("{}...", "ff".repeat(32)));
}

#[test]
fn trace_prefix_of_other_values_uses_their_json_text() {
    let redact = |v: LogValue| RedactionLayer::redact_value("receipt_bytes", v, LogLevel::Trace);
    assert_eq!(redact(LogValue::Array(vec![LogValue::UInt(1), s("x"), LogValue::Int(-1), LogValue::Int(255), LogValue::UInt(256)])), Some(s("01ff")));
    assert_eq!(redact(LogValue::Int(-12)), Some(s("2d3132")));
    assert_eq!(redact(LogValue::Bool(true)), Some(s("74727565")));
    assert_eq!(redact(LogValue::Null), Some(s("6e756c6c")));
}

#[test]
fn credentials_in_arguments_are_masked() {
    assert_eq!(
        sanitize_args(vec![
            s("--api-key"),
            LogValue::UInt(7),
            s("secret"),
            s("--api-key=abc"),
            s("vi_api_key=xyz"),
            s("--other"),
        ]),
        vec![
            s("--api-key"),
            LogValue::UInt(7),
            s("[REDACTED]"),
            s("--api-key=[REDACTED]"),
            s("VI_API_KEY=[REDACTED]"),
            s("--other"),
        ]
    );
    assert_eq!(sanitize_args_string("  vi chat --api-key sk-1  "), "vi chat --api-key [REDACTED]");
    assert_eq!(sanitize_args_string(""), "");
    assert_eq!(
        RedactionLayer::redact_value("args", LogValue::Int(5), LogLevel::Info),
        Some(s("5"))
    );
}

#[test]
fn parsed_filters_keep_or_refuse_with_their_source() {
    assert_eq!(filter_outcome("default", "error".to_owned(), Ok(())), Ok(("default", "error".to_owned())));
    assert_eq!(
        filter_outcome(VI_LOG_ENV, "bad".to_owned(), Err("invalid directive".to_owned())),
        Err(InitError::InvalidFilter {
            source: VI_LOG_ENV,
            value: "bad".to_owned(),
            reason: "invalid directive".to_owned(),
        })
    );
}
