use verifiable_intelligence::audit_binding::{
    check_audit_challenge, check_audit_receipt_hash, decode_audit_binding_header,
    decode_viau_payload, encode_audit_binding_header, encode_viau_payload, AuditBindingHeader,
    AuditChallenge, AuditTier, AUDIT_SCHEMA_VERSION,
};
use verifiable_intelligence::envelope::{
    decode, encode, Envelope, Magic, ENVELOPE_FLAGS, ENVELOPE_VERSION, HEADER_LEN,
};
use verifiable_intelligence::errors::{Detail, IdentityFields, PhaseId, ViError};
use verifiable_intelligence::key_binding::{
    decode_key_binding_header, decode_key_binding_header_with_checksum, decode_viky_payload,
    encode_key_binding_header, encode_viky_payload, KeyBindingHeader, KEYGEN_SCHEMA_VERSION,
};
use verifiable_intelligence::receipt_binding::{
    check_receipt_identity, decode_receipt_binding_header, decode_virc_payload,
    encode_receipt_binding_header, encode_virc_payload, ReceiptBindingHeader,
    RECEIPT_SCHEMA_VERSION,
};

fn crc32c(bytes: &[u8]) -> u32 {
    crc::Crc::<u32>::new(&crc::CRC_32_ISCSI).checksum(bytes)
}

fn realistic_key_header() -> KeyBindingHeader {
    KeyBindingHeader::new(
        "llama-3.1-8b-w8a8",
        "sha256:0123456789abcdef",
        "25541e83",
        7,
    )
}

fn realistic_receipt_header() -> ReceiptBindingHeader {
    ReceiptBindingHeader::new(
        "llama-3.1-8b-w8a8",
        "sha256:0123456789abcdef",
        "25541e83",
        "sha256:key",
        "sha256:prompt",
        "sha256:answer",
        32,
    )
}

fn realistic_audit_header() -> AuditBindingHeader {
    AuditBindingHeader::new("sha256:receipt", AuditTier::Deep, 12, vec![1, 7, 13])
}

fn str_detail(s: &str) -> Detail {
    Detail::Str(s.to_owned())
}

fn challenge_detail(tier: &str, token_index: u64, layers: &[u32]) -> Detail {
    Detail::Object(vec![
        ("tier".to_owned(), str_detail(tier)),
        ("token_index".to_owned(), Detail::UInt(token_index)),
        (
            "layer_indices".to_owned(),
            Detail::Array(layers.iter().map(|l| Detail::UInt(u64::from(*l))).collect()),
        ),
    ])
}

#[test]
fn envelope_round_trips() {
    for magic in [Magic::VIKY, Magic::VIRC, Magic::VIAU] {
        for len in [0usize, 1, 7, 300, 2047] {
            let payload: Vec<u8> = (0..len).map(|i| (i * 31 % 251) as u8).collect();
            let envelope = Envelope::new(magic, payload);
            let bytes = encode(&envelope).expect("envelope should encode");
            let expected_len = HEADER_LEN + envelope.payload.len();
            let decoded = decode(&bytes).expect("envelope should decode");

            assert_eq!(decoded, envelope);
            assert_eq!(bytes.len(), expected_len);
        }
    }
}

#[test]
fn receipt_binding_header_round_trips() {
    let cases = [
        ("", "", "00000000", "sha256:00000000", "sha256:11111111", "sha256:22222222", 0u64),
        ("llama-3.1-8b-w8a8", "sha256:abc", "25541e83", "sha256:deadbeef", "sha256:0123abcd", "sha256:ffffffff", u64::MAX),
        ("qwen2.5-7b", "a.b-c_d:e", "abcdef01", "sha256:12345678", "sha256:87654321", "sha256:aaaaaaaa", 123456789),
    ];
    for (model_id, checkpoint_hash, pin, key_hash, prompt_hash, answer_hash, count) in cases {
        let header = ReceiptBindingHeader::new(
            model_id,
            checkpoint_hash,
            pin,
            key_hash,
            prompt_hash,
            answer_hash,
            count,
        );
        let receipt_bytes: Vec<u8> = (0..count % 1024).map(|i| i as u8).collect();
        let payload = encode_virc_payload(&header, &receipt_bytes).expect("header should encode");
        let (decoded, receipt) = decode_virc_payload(&payload).expect("header should decode");

        assert_eq!(decoded, header);
        assert_eq!(receipt, receipt_bytes.as_slice());
    }
}

#[test]
fn audit_binding_header_round_trips() {
    let tiers = [AuditTier::ReceiptOnly, AuditTier::Routine, AuditTier::Deep, AuditTier::Full];
    for (i, tier) in tiers.into_iter().enumerate() {
        let layer_indices: Vec<u32> = (0..(i as u32) * 20).map(|x| x.wrapping_mul(2654435761)).collect();
        let audit_bytes: Vec<u8> = (0..i * 100).map(|x| x as u8).collect();
        let header = AuditBindingHeader::new("sha256:0123456789abcdef", tier, u64::MAX - i as u64, layer_indices);
        let payload = encode_viau_payload(&header, &audit_bytes).expect("header should encode");
        let (decoded, audit) = decode_viau_payload(&payload).expect("header should decode");

        assert_eq!(decoded, header);
        assert_eq!(audit, audit_bytes.as_slice());
    }
}

#[test]
fn magic_bytes_are_stable() {
    assert_eq!(Magic::VIKY.bytes(), *b"VIKY");
    assert_eq!(Magic::VIRC.bytes(), *b"VIRC");
    assert_eq!(Magic::VIAU.bytes(), *b"VIAU");
}

#[test]
fn magic_names_are_stable() {
    assert_eq!(Magic::VIKY.as_str(), "VIKY");
    assert_eq!(Magic::VIRC.as_str(), "VIRC");
    assert_eq!(Magic::VIAU.as_str(), "VIAU");
    assert_eq!(Magic::from_bytes(*b"VIAU"), Ok(Magic::VIAU));
}

#[test]
fn magic_mismatch_is_corrupt_envelope() {
    let bytes = [b'N', b'O', b'P', b'E', ENVELOPE_VERSION, ENVELOPE_FLAGS];
    let error = decode(&bytes).expect_err("unknown magic should fail");

    assert_eq!(
        error,
        ViError::CorruptEnvelope {
            envelope: "unknown",
            offset: 0,
            reason: "unknown magic prefix",
        }
    );
}

#[test]
fn unknown_version_is_unknown_version() {
    let mut bytes = Envelope::new(Magic::VIRC, b"payload".to_vec())
        .encode()
        .expect("valid envelope should encode");
    bytes[4] = 2;

    let error = decode(&bytes).expect_err("unknown version should fail");
    assert_eq!(
        error,
        ViError::UnknownVersion {
            envelope: "VIRC",
            field: "ver",
            value: 2,
            supported: vec![1],
        }
    );
}

#[test]
fn non_zero_flags_are_corrupt_envelope() {
    let mut bytes = Envelope::new(Magic::VIAU, b"payload".to_vec())
        .encode()
        .expect("valid envelope should encode");
    bytes[5] = 0b0000_0001;

    let error = decode(&bytes).expect_err("non-zero flags should fail");
    assert_eq!(
        error,
        ViError::CorruptEnvelope {
            envelope: "VIAU",
            offset: 5,
            reason: "flags must be 0 in v1",
        }
    );
}

#[test]
fn short_input_is_corrupt_envelope() {
    let error = decode(b"VIRC\x01").expect_err("short header should fail");
    assert_eq!(
        error,
        ViError::CorruptEnvelope {
            envelope: "unknown",
            offset: 5,
            reason: "envelope shorter than 6-byte header",
        }
    );
}

#[test]
fn encode_refuses_unknown_envelope_version() {
    let envelope = Envelope { magic: Magic::VIKY, ver: 3, flags: 0, payload: vec![] };
    assert_eq!(
        encode(&envelope),
        Err(ViError::UnknownVersion {
            envelope: "VIKY",
            field: "ver",
            value: 3,
            supported: vec![1],
        })
    );
    let envelope = Envelope { magic: Magic::VIRC, ver: 1, flags: 9, payload: vec![] };
    assert_eq!(
        Envelope::decode(&[b'V', b'I', b'R', b'C', 1, 9]),
        Err(ViError::CorruptEnvelope { envelope: "VIRC", offset: 5, reason: "flags must be 0 in v1" })
    );
    assert!(envelope.encode().is_err());
}

#[test]
fn key_binding_header_round_trips_with_key_payload() {
    let header = realistic_key_header();
    let key_bytes = b"opaque-commitllm-key";
    let payload = encode_viky_payload(&header, key_bytes).expect("header should encode");
    let (decoded, key) = decode_viky_payload(&payload).expect("header should decode");

    assert_eq!(decoded, header);
    assert_eq!(key, key_bytes);
}

#[test]
fn key_binding_golden_bytes_fix_endianness() {
    let header = KeyBindingHeader::new("m", "sha256:abc", "25541e83", 42);
    let encoded = encode_key_binding_header(&header).expect("header should encode");

    assert_eq!(
        encoded,
        vec![
            0x23, 0x00, 0x00, 0x00, // body_len = 35
            0x3d, 0xc9, 0x2c, 0x20, // body CRC32C
            0x01, 0x00, // keygen_schema_version
            0x2a, 0x00, 0x00, 0x00, 0x00, 0x00, 0x00, 0x00, // seed
            0x01, 0x00, b'm', // model_id
            0x0a, 0x00, b's', b'h', b'a', b'2', b'5', b'6', b':', b'a', b'b', b'c', 0x08, 0x00,
            b'2', b'5', b'5', b'4', b'1', b'e', b'8', b'3',
        ]
    );
}

#[test]
fn key_binding_decodes_with_given_checksum() {
    let header = KeyBindingHeader::new("m", "sha256:abc", "25541e83", 42);
    let encoded = encode_key_binding_header(&header).expect("header should encode");
    let (decoded, len) =
        decode_key_binding_header_with_checksum(&encoded, 0x202c_c93d).expect("checksum matches");
    assert_eq!(decoded, header);
    assert_eq!(len, 43);
    assert_eq!(
        decode_key_binding_header_with_checksum(&encoded, 0x202c_c93e),
        Err(ViError::CorruptEnvelope { envelope: "VIKY", offset: 4, reason: "binding_crc32 mismatch" })
    );
}

#[test]
fn key_binding_crc_mismatch_is_corrupt_envelope() {
    let header = realistic_key_header();
    let mut encoded = encode_key_binding_header(&header).expect("header should encode");
    let last = encoded
        .last_mut()
        .expect("encoded header should not be empty");
    *last ^= 0xff;

    let error = decode_key_binding_header(&encoded).expect_err("CRC mismatch should fail");
    assert_eq!(
        error,
        ViError::CorruptEnvelope {
            envelope: "VIKY",
            offset: 4,
            reason: "binding_crc32 mismatch",
        }
    );
}

#[test]
fn key_binding_string_overrun_is_typed_error() {
    let header = realistic_key_header();
    let mut encoded = encode_key_binding_header(&header).expect("header should encode");
    let body_len = u32::from_le_bytes([encoded[0], encoded[1], encoded[2], encoded[3]]) as usize;
    let body_start = 8;
    let model_len_offset = body_start + 2 + 8;
    encoded[model_len_offset..model_len_offset + 2].copy_from_slice(&u16::MAX.to_le_bytes());
    let crc = crc32c(&encoded[body_start..body_start + body_len]);
    encoded[4..8].copy_from_slice(&crc.to_le_bytes());

    let error = decode_key_binding_header(&encoded).expect_err("string overrun should fail");
    assert_eq!(
        error,
        ViError::CorruptEnvelope {
            envelope: "VIKY",
            offset: 12,
            reason: "length-prefixed string overruns binding header",
        }
    );
}

#[test]
fn key_binding_prefix_errors_are_typed() {
    assert_eq!(
        decode_key_binding_header(&[1, 2, 3]),
        Err(ViError::CorruptEnvelope {
            envelope: "VIKY",
            offset: 3,
            reason: "binding header shorter than 8-byte prefix",
        })
    );
    assert_eq!(
        decode_key_binding_header(&[9, 0, 0, 0, 0, 0, 0, 0, 1]),
        Err(ViError::CorruptEnvelope {
            envelope: "VIKY",
            offset: 8,
            reason: "binding header length overruns payload",
        })
    );
    let mut body = vec![1u8, 0];
    body.extend_from_slice(&7u64.to_le_bytes());
    body.extend_from_slice(&[0, 0, 0, 0, 0, 0, 0xaa]);
    let mut bytes = (body.len() as u32).to_le_bytes().to_vec();
    bytes.extend_from_slice(&crc32c(&body).to_le_bytes());
    bytes.extend_from_slice(&body);
    assert_eq!(
        decode_key_binding_header(&bytes),
        Err(ViError::CorruptEnvelope {
            envelope: "VIKY",
            offset: 16,
            reason: "trailing bytes in binding header",
        })
    );
    let mut body = vec![1u8, 0];
    body.extend_from_slice(&7u64.to_le_bytes());
    body.extend_from_slice(&[1, 0, 0xff, 0, 0, 0, 0]);
    let mut bytes = (body.len() as u32).to_le_bytes().to_vec();
    bytes.extend_from_slice(&crc32c(&body).to_le_bytes());
    bytes.extend_from_slice(&body);
    assert_eq!(
        decode_key_binding_header(&bytes),
        Err(ViError::CorruptEnvelope {
            envelope: "VIKY",
            offset: 12,
            reason: "invalid UTF-8 string",
        })
    );
}

#[test]
fn key_binding_unknown_schema_version_is_unknown_version() {
    let header = KeyBindingHeader {
        keygen_schema_version: 2,
        ..realistic_key_header()
    };
    let error = encode_key_binding_header(&header).expect_err("unknown schema should fail");
    assert_eq!(
        error,
        ViError::UnknownVersion {
            envelope: "VIKY",
            field: "keygen_schema_version",
            value: 2,
            supported: vec![u32::from(KEYGEN_SCHEMA_VERSION)],
        }
    );
}

#[test]
fn oversized_string_is_input_error() {
    let long = "x".repeat(70_000);
    let header = KeyBindingHeader::new("m", &long, "25541e83", 1);
    assert_eq!(
        encode_key_binding_header(&header),
        Err(ViError::Input {
            arg: "checkpoint_hash".to_owned(),
            reason: "string exceeds u16 length prefix".to_owned(),
            detail: None,
        })
    );
}

#[test]
fn receipt_binding_generated_token_count_zero_is_parseable() {
    let header = ReceiptBindingHeader::new(
        "llama-3.1-8b-w8a8",
        "sha256:checkpoint",
        "25541e83",
        "sha256:key",
        "sha256:prompt",
        "sha256:answer",
        0,
    );
    let payload = encode_virc_payload(&header, b"opaque-receipt").expect("header should encode");
    let (decoded, receipt) = decode_virc_payload(&payload).expect("header should decode");

    assert_eq!(decoded.generated_token_count, 0);
    assert_eq!(decoded, header);
    assert_eq!(receipt, b"opaque-receipt");
}

#[test]
fn receipt_identity_mismatch_includes_expected_and_actual() {
    let key = KeyBindingHeader::new("llama-3.1-8b-w8a8", "sha256:checkpoint", "25541e83", 7);
    let receipt = ReceiptBindingHeader::new(
        "qwen2.5-7b-w8a8",
        "sha256:checkpoint",
        "25541e83",
        "sha256:key",
        "sha256:prompt",
        "sha256:answer",
        32,
    );

    let error = check_receipt_identity(&key, &receipt).expect_err("identity mismatch should fail");
    assert_eq!(
        error,
        ViError::IdentityMismatch {
            expected: IdentityFields::new("llama-3.1-8b-w8a8", "sha256:checkpoint", "25541e83"),
            actual: IdentityFields::new("qwen2.5-7b-w8a8", "sha256:checkpoint", "25541e83"),
        }
    );
}

#[test]
fn receipt_identity_match_passes() {
    let key = realistic_key_header();
    let receipt = realistic_receipt_header();

    check_receipt_identity(&key, &receipt).expect("matching identity should pass");
}

#[test]
fn receipt_binding_crc_mismatch_is_corrupt_envelope() {
    let header = realistic_receipt_header();
    let mut encoded = encode_receipt_binding_header(&header).expect("header should encode");
    let last = encoded
        .last_mut()
        .expect("encoded header should not be empty");
    *last ^= 0xff;

    let error = decode_receipt_binding_header(&encoded).expect_err("CRC mismatch should fail");
    assert_eq!(
        error,
        ViError::CorruptEnvelope {
            envelope: "VIRC",
            offset: 4,
            reason: "binding_crc32 mismatch",
        }
    );
}

#[test]
fn receipt_binding_unknown_schema_version_is_unknown_version() {
    let header = ReceiptBindingHeader {
        receipt_schema_version: 2,
        ..realistic_receipt_header()
    };
    let error = encode_receipt_binding_header(&header).expect_err("unknown schema should fail");
    assert_eq!(
        error,
        ViError::UnknownVersion {
            envelope: "VIRC",
            field: "receipt_schema_version",
            value: 2,
            supported: vec![u32::from(RECEIPT_SCHEMA_VERSION)],
        }
    );
}

#[test]
fn audit_receipt_hash_mismatch_is_rejected() {
    let header = realistic_audit_header();
    let error = check_audit_receipt_hash(&header, "sha256:expected-receipt")
        .expect_err("receipt hash mismatch should fail");

    assert_eq!(
        error,
        ViError::HashMismatch {
            expected: "sha256:expected-receipt".to_owned(),
            actual: "sha256:receipt".to_owned(),
        }
    );
}

#[test]
fn audit_challenge_mismatch_is_rejected() {
    let header = realistic_audit_header();
    let expected = AuditChallenge::new(AuditTier::Routine, 8, vec![0, 4, 8]);
    let error =
        check_audit_challenge(&header, &expected).expect_err("challenge mismatch should fail");

    assert_eq!(
        error,
        ViError::VerificationFailed {
            phase: PhaseId::KvProvenance,
            measured: None,
            tolerance: None,
            extra: Some(Detail::Object(vec![
                ("expected".to_owned(), challenge_detail("routine", 8, &[0, 4, 8])),
                ("actual".to_owned(), challenge_detail("deep", 12, &[1, 7, 13])),
            ])),
        }
    );
}

#[test]
fn audit_binding_checks_pass_for_matching_request() {
    let header = realistic_audit_header();
    let expected = AuditChallenge::new(AuditTier::Deep, 12, vec![1, 7, 13]);

    check_audit_receipt_hash(&header, "sha256:receipt")
        .expect("matching receipt hash should pass");
    check_audit_challenge(&header, &expected).expect("matching challenge should pass");
}

#[test]
fn audit_binding_unknown_schema_version_is_unknown_version() {
    let header = AuditBindingHeader {
        audit_schema_version: 2,
        ..realistic_audit_header()
    };
    let error = encode_audit_binding_header(&header).expect_err("unknown schema should fail");
    assert_eq!(
        error,
        ViError::UnknownVersion {
            envelope: "VIAU",
            field: "audit_schema_version",
            value: 2,
            supported: vec![u32::from(AUDIT_SCHEMA_VERSION)],
        }
    );
}

#[test]
fn audit_unknown_tier_byte_is_unsupported_tier() {
    let header = realistic_audit_header();
    let mut encoded = encode_audit_binding_header(&header).expect("header should encode");
    encoded[10] = 7;
    let crc = crc32c(&encoded[8..]);
    encoded[4..8].copy_from_slice(&crc.to_le_bytes());
    assert_eq!(
        decode_audit_binding_header(&encoded),
        Err(ViError::UnsupportedTier {
            requested: "7".to_owned(),
            reason: "unknown audit tier byte".to_owned(),
        })
    );
    assert_eq!(
        AuditTier::try_from(200),
        Err(ViError::UnsupportedTier {
            requested: "200".to_owned(),
            reason: "unknown audit tier byte".to_owned(),
        })
    );
    assert_eq!(AuditTier::try_from(3), Ok(AuditTier::Full));
    assert_eq!(AuditTier::Full.as_u8(), 3);
    assert_eq!(AuditTier::ReceiptOnly.as_str(), "receipt-only");
}

#[test]
fn too_many_layers_is_input_error() {
    let header = AuditBindingHeader::new("sha256:r", AuditTier::Full, 1, vec![0; 70_000]);
    assert_eq!(
        encode_audit_binding_header(&header),
        Err(ViError::Input {
            arg: "layer_indices".to_owned(),
            reason: "layer index count exceeds u16 length prefix".to_owned(),
            detail: None,
        })
    );
}

#[test]
fn challenge_of_header_copies_fields() {
    let header = realistic_audit_header();
    assert_eq!(header.challenge(), AuditChallenge::new(AuditTier::Deep, 12, vec![1, 7, 13]));
    let key = realistic_key_header();
    assert_eq!(
        key.identity_fields(),
        IdentityFields::new("llama-3.1-8b-w8a8", "sha256:0123456789abcdef", "25541e83")
    );
}

#[test]
fn decoded_binding_headers_reencode_to_the_bytes_read() {
    let mut key_bytes = encode_key_binding_header(&realistic_key_header()).expect("key header encodes");
    let key_len = key_bytes.len();
    key_bytes.extend_from_slice(b"opaque key");
    let (key, consumed) = decode_key_binding_header(&key_bytes).expect("key header decodes");
    assert_eq!(consumed, key_len);
    assert_eq!(encode_key_binding_header(&key).expect("re-encodes"), key_bytes[..consumed].to_vec());

    let mut receipt_bytes =
        encode_receipt_binding_header(&realistic_receipt_header()).expect("receipt header encodes");
    receipt_bytes.extend_from_slice(b"opaque receipt");
    let (receipt, consumed) = decode_receipt_binding_header(&receipt_bytes).expect("receipt header decodes");
    assert_eq!(
        encode_receipt_binding_header(&receipt).expect("re-encodes"),
        receipt_bytes[..consumed].to_vec()
    );

    let audit_bytes = encode_audit_binding_header(&realistic_audit_header()).expect("audit header encodes");
    let (audit, consumed) = decode_audit_binding_header(&audit_bytes).expect("audit header decodes");
    assert_eq!(consumed, audit_bytes.len());
    assert_eq!(encode_audit_binding_header(&audit).expect("re-encodes"), audit_bytes);
}
