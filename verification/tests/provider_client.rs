use verifiable_intelligence::client::{chat_text_from_content, https_endpoint_from, joined_url};
use verifiable_intelligence::audit_binding::{AuditChallenge, AuditTier};
use verifiable_intelligence::client::{
    check_audit_status, check_chat_status, is_warning_199, network_error, parse_chat_response,
    parse_https_endpoint, warning_199, AuditRequest, ChatClient, ChatResponse, HeaderEntry,
    RECEIPT_HEADER, TRACE_HEADER,
};
use verifiable_intelligence::errors::{NetworkErrorKind, ViError};

fn multipart_response(parts: &[(&str, &[u8])]) -> ChatResponse {
    let mut body = Vec::new();
    for (content_type, part_body) in parts {
        body.extend_from_slice(b"--test-boundary\r\nContent-Type: ");
        body.extend_from_slice(content_type.as_bytes());
        body.extend_from_slice(b"\r\n\r\n");
        body.extend_from_slice(part_body);
        body.extend_from_slice(b"\r\n");
    }
    body.extend_from_slice(b"--test-boundary--\r\n");

    ChatResponse {
        status: 200,
        endpoint: "https://provider.example/v1/chat/completions".to_owned(),
        content_type: Some("multipart/mixed; boundary=test-boundary".to_owned()),
        warning: None,
        body,
    }
}

fn corrupt(offset: usize, reason: &'static str) -> ViError {
    ViError::CorruptEnvelope { envelope: "multipart/mixed", offset, reason }
}

#[test]
fn multipart_with_json_and_receipt_parses() {
    let response = multipart_response(&[
        (
            "application/json",
            br#"{"choices":[{"message":{"content":"hello"}}]}"#.as_slice(),
        ),
        (
            "application/vnd.verifiable-intelligence.receipt+binary",
            b"VIRC-receipt-bytes".as_slice(),
        ),
    ]);

    let parsed = parse_chat_response(&response).expect("multipart should parse");

    assert_eq!(parsed.text, "hello");
    assert_eq!(
        parsed.receipt_bytes.as_deref(),
        Some(b"VIRC-receipt-bytes".as_slice())
    );
    assert_eq!(parsed.warning, None);
}

#[test]
fn multipart_without_receipt_is_receipt_missing() {
    let response = multipart_response(&[(
        "application/json",
        br#"{"choices":[{"message":{"content":"hello"}}]}"#.as_slice(),
    )]);

    let error = parse_chat_response(&response).expect_err("receipt should be required");

    assert_eq!(
        error,
        ViError::ReceiptMissing {
            endpoint: "https://provider.example/v1/chat/completions".to_owned(),
            content_type: "multipart/mixed; boundary=test-boundary".to_owned(),
        }
    );
}

#[test]
fn malformed_multipart_is_corrupt_envelope() {
    let response = ChatResponse {
        status: 200,
        endpoint: "https://provider.example/v1/chat/completions".to_owned(),
        content_type: Some("multipart/mixed; boundary=test-boundary".to_owned()),
        warning: None,
        body: b"--wrong-boundary\r\n".to_vec(),
    };

    let error = parse_chat_response(&response).expect_err("malformed multipart should fail");

    assert_eq!(error, corrupt(0, "multipart body missing opening boundary"));
}

#[test]
fn warning_199_is_surfaced_without_receipt() {
    let response = ChatResponse {
        status: 503,
        endpoint: "https://provider.example/v1/chat/completions".to_owned(),
        content_type: Some("application/json".to_owned()),
        warning: Some(r#"199 - "Receipt unavailable""#.to_owned()),
        body: br#"{"choices":[{"message":{"content":"degraded text"}}]}"#.to_vec(),
    };

    let parsed = parse_chat_response(&response).expect("warning response should parse");

    assert_eq!(parsed.text, "degraded text");
    assert_eq!(parsed.receipt_bytes, None);
    assert_eq!(
        parsed.warning.as_deref(),
        Some(r#"199 - "Receipt unavailable""#)
    );
}

#[test]
fn json_response_without_warning_is_receipt_missing() {
    let response = ChatResponse {
        status: 200,
        endpoint: "https://provider.example/v1/chat/completions".to_owned(),
        content_type: Some("application/json".to_owned()),
        warning: None,
        body: br#"{"choices":[{"message":{"content":"hi"}}]}"#.to_vec(),
    };
    assert_eq!(
        parse_chat_response(&response),
        Err(ViError::ReceiptMissing {
            endpoint: "https://provider.example/v1/chat/completions".to_owned(),
            content_type: "application/json".to_owned(),
        })
    );
}

#[test]
fn missing_content_type_is_receipt_missing_with_empty_type() {
    let mut response = multipart_response(&[]);
    response.content_type = None;
    assert_eq!(
        parse_chat_response(&response),
        Err(ViError::ReceiptMissing {
            endpoint: "https://provider.example/v1/chat/completions".to_owned(),
            content_type: String::new(),
        })
    );
}

#[test]
fn multipart_parts_are_found_in_any_order_and_case() {
    let mut response = multipart_response(&[
        (
            "APPLICATION/VND.VERIFIABLE-INTELLIGENCE.RECEIPT+BINARY",
            b"receipt".as_slice(),
        ),
        (
            "Application/JSON; charset=utf-8",
            br#"{"choices":[{"message":{"content":"case"}}]}"#.as_slice(),
        ),
    ]);
    response.content_type = Some("Multipart/Mixed; charset=x; Boundary=\"test-boundary\"".to_owned());
    let parsed = parse_chat_response(&response).expect("parts should be found");
    assert_eq!(parsed.text, "case");
    assert_eq!(parsed.receipt_bytes.as_deref(), Some(b"receipt".as_slice()));
}

#[test]
fn multipart_content_type_errors_are_typed() {
    let mut response = multipart_response(&[]);
    response.content_type = Some("multipart/mixed".to_owned());
    assert_eq!(
        parse_chat_response(&response),
        Err(corrupt(0, "multipart content-type missing boundary"))
    );
    response.content_type = Some("multipart/mixed; boundary=\"\"".to_owned());
    assert_eq!(parse_chat_response(&response), Err(corrupt(0, "multipart boundary is empty")));
}

#[test]
fn multipart_structure_errors_are_typed() {
    let base = |body: &[u8]| {
        let mut response = multipart_response(&[]);
        response.body = body.to_vec();
        parse_chat_response(&response)
    };
    assert_eq!(
        base(b"--test-boundaryXX"),
        Err(corrupt(15, "multipart boundary missing CRLF"))
    );
    assert_eq!(
        base(b"--test-boundary\r\nContent-Type: a"),
        Err(corrupt(17, "multipart part missing header terminator"))
    );
    assert_eq!(
        base(b"--test-boundary\r\nno colon\r\n\r\nbody"),
        Err(corrupt(0, "malformed multipart header"))
    );
    assert_eq!(
        base(b"--test-boundary\r\nA: b\r\n\r\nbody"),
        Err(corrupt(25, "multipart part missing next boundary"))
    );
    assert_eq!(
        base(b"--test-boundary\r\nA: b\r\n\r\nbody\r\n--other"),
        Err(corrupt(29, "multipart part boundary mismatch"))
    );
    assert_eq!(
        base(b"--test-boundary--"),
        Err(corrupt(0, "multipart response missing JSON part"))
    );
}

#[test]
fn malformed_chat_json_is_corrupt_envelope() {
    let response = multipart_response(&[
        ("application/json", b"not json".as_slice()),
        (
            "application/vnd.verifiable-intelligence.receipt+binary",
            b"r".as_slice(),
        ),
    ]);
    assert_eq!(
        parse_chat_response(&response),
        Err(corrupt(0, "chat-completion JSON is malformed"))
    );
    let response = multipart_response(&[
        ("application/json", br#"{"choices":[]}"#.as_slice()),
        (
            "application/vnd.verifiable-intelligence.receipt+binary",
            b"r".as_slice(),
        ),
    ]);
    assert_eq!(
        parse_chat_response(&response),
        Err(corrupt(0, "chat-completion JSON missing message content"))
    );
}

#[test]
fn http_endpoint_is_input_error() {
    let error = ChatClient::new("http://provider.example", None)
        .expect_err("http endpoint should fail");

    assert_eq!(
        error,
        ViError::Input {
            arg: "endpoint".to_owned(),
            reason: "provider endpoint must use https".to_owned(),
            detail: None,
        }
    );
}

#[test]
fn unparsable_endpoint_is_input_error() {
    let error = parse_https_endpoint("not a url").expect_err("relative text is no URL");
    match error {
        ViError::Input { arg, reason, detail } => {
            assert_eq!(arg, "endpoint");
            assert!(reason.starts_with("invalid provider URL: "));
            assert!(reason.len() > "invalid provider URL: ".len());
            assert_eq!(detail, None);
        }
        other => panic!("unexpected error {other:?}"),
    }
}

#[test]
fn request_urls_join_the_provider_paths() {
    let client = ChatClient::new("https://provider.example", None).expect("client builds");
    assert_eq!(client.endpoint(), "https://provider.example/");
    assert_eq!(
        client.chat_url().expect("chat url"),
        "https://provider.example/v1/chat/completions"
    );
    assert_eq!(
        client.audit_url().expect("audit url"),
        "https://provider.example/v1/audit"
    );
}

#[test]
fn api_key_becomes_sensitive_authorization_header() {
    let client = ChatClient::new("https://provider.example", Some("secret-token".to_owned()))
        .expect("client builds");
    let headers = client.chat_headers("trace-123").expect("headers build");
    assert_eq!(
        headers,
        vec![
            HeaderEntry { name: "content-type", value: "application/json".to_owned(), sensitive: false },
            HeaderEntry { name: RECEIPT_HEADER, value: "1".to_owned(), sensitive: false },
            HeaderEntry { name: TRACE_HEADER, value: "trace-123".to_owned(), sensitive: false },
            HeaderEntry {
                name: "authorization",
                value: "Bearer secret-token".to_owned(),
                sensitive: true,
            },
        ]
    );
    let audit = client.audit_headers("trace-audit").expect("audit headers build");
    assert_eq!(audit.len(), 3);
    assert_eq!(audit[1].name, TRACE_HEADER);
    assert_eq!(audit[2].value, "Bearer secret-token");
}

#[test]
fn control_characters_in_headers_are_input_errors() {
    let client = ChatClient::new("https://provider.example", Some("bad\nkey".to_owned()))
        .expect("client builds");
    assert_eq!(
        client.chat_headers("trace\u{7f}"),
        Err(ViError::Input {
            arg: "trace_id".to_owned(),
            reason: "invalid trace header value: failed to parse header value".to_owned(),
            detail: None,
        })
    );
    assert_eq!(
        client.audit_headers("trace\twith tab"),
        Err(ViError::Input {
            arg: "VI_API_KEY".to_owned(),
            reason: "invalid authorization header: failed to parse header value".to_owned(),
            detail: None,
        })
    );
}

#[test]
fn audit_request_keeps_hash_and_challenge() {
    let challenge = AuditChallenge::new(AuditTier::Deep, 12, vec![1, 7, 13]);
    let request = AuditRequest::new("sha256:receipt", challenge.clone());
    assert_eq!(request.receipt_hash, "sha256:receipt");
    assert_eq!(request.challenge, challenge);
}

#[test]
fn statuses_decide_between_response_and_http_error() {
    let url = "https://provider.example/v1/audit";
    assert_eq!(check_audit_status(url, 200), Ok(()));
    assert_eq!(check_audit_status(url, 299), Ok(()));
    assert_eq!(
        check_audit_status(url, 400),
        Err(ViError::Network {
            endpoint: url.to_owned(),
            kind: NetworkErrorKind::HttpStatus,
            http_status: Some(400),
        })
    );
    assert_eq!(
        check_audit_status(url, 503),
        Err(ViError::Network {
            endpoint: url.to_owned(),
            kind: NetworkErrorKind::HttpStatus,
            http_status: Some(503),
        })
    );
    assert_eq!(check_chat_status(url, 503, &Some("199 - x".to_owned())), Ok(()));
    assert!(check_chat_status(url, 302, &None).is_err());
}

#[test]
fn warning_199_is_found_among_header_values() {
    assert!(is_warning_199("  199 - \"Receipt unavailable\""));
    assert!(!is_warning_199("299 - stale"));
    let values = vec![
        None,
        Some("110 - stale".to_owned()),
        Some(" 199 degraded".to_owned()),
        Some("199 second".to_owned()),
    ];
    assert_eq!(warning_199(&values), Some(" 199 degraded".to_owned()));
    assert_eq!(warning_199(&vec![Some("214 transformed".to_owned())]), None);
}

#[test]
fn transport_failures_are_classified() {
    let kind = |timeout: bool, message: &str, connect: bool| match network_error(
        "https://p.example",
        timeout,
        message,
        connect,
        None,
    ) {
        ViError::Network { kind, .. } => kind,
        other => panic!("unexpected {other:?}"),
    };
    assert_eq!(kind(true, "unexpected EOF", false), NetworkErrorKind::Timeout);
    assert_eq!(kind(false, "unexpected EOF during handshake", true), NetworkErrorKind::TlsHandshakeEof);
    assert_eq!(kind(false, "invalid peer Certificate", false), NetworkErrorKind::Tls);
    assert_eq!(kind(false, "TLS alert", true), NetworkErrorKind::Tls);
    assert_eq!(kind(false, "connection refused", true), NetworkErrorKind::ConnectionRefused);
    assert_eq!(kind(false, "builder error", false), NetworkErrorKind::Other);
    assert_eq!(
        network_error("https://p.example", false, "x", false, Some(502)),
        ViError::Network {
            endpoint: "https://p.example".to_owned(),
            kind: NetworkErrorKind::Other,
            http_status: Some(502),
        }
    );
}

#[test]
fn parsed_endpoints_are_checked_for_https() {
    assert_eq!(
        https_endpoint_from(Ok(("https://a.example/".to_owned(), "https".to_owned()))),
        Ok("https://a.example/".to_owned())
    );
    assert_eq!(
        https_endpoint_from(Ok(("ftp://a.example/".to_owned(), "ftp".to_owned()))),
        Err(ViError::Input {
            arg: "endpoint".to_owned(),
            reason: "provider endpoint must use https".to_owned(),
            detail: None,
        })
    );
    assert_eq!(
        https_endpoint_from(Err("empty host".to_owned())),
        Err(ViError::Input {
            arg: "endpoint".to_owned(),
            reason: "invalid provider URL: empty host".to_owned(),
            detail: None,
        })
    );
    assert_eq!(
        joined_url(Err("bad path".to_owned()), "invalid chat path: "),
        Err(ViError::Input {
            arg: "endpoint".to_owned(),
            reason: "invalid chat path: bad path".to_owned(),
            detail: None,
        })
    );
    assert_eq!(joined_url(Ok("https://a/v1".to_owned()), "x"), Ok("https://a/v1".to_owned()));
}

#[test]
fn chat_text_comes_from_the_message_content() {
    assert_eq!(chat_text_from_content(Some(Some("hi".to_owned()))), Ok("hi".to_owned()));
    assert_eq!(
        chat_text_from_content(Some(None)),
        Err(corrupt(0, "chat-completion JSON missing message content"))
    );
    assert_eq!(chat_text_from_content(None), Err(corrupt(0, "chat-completion JSON is malformed")));
}
