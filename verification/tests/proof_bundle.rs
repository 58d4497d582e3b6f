use verifiable_intelligence::bundle::{bundle_check_from, digest_check, digest_text, receipt_check, BundleFields};
use base64::Engine;
use sha2::{Digest, Sha256};
use verifiable_intelligence::bundle::{bundle_overall, check_viex_bundle, sha256_hex, BundleCheck};
use verifiable_intelligence::compression::{decode_all, encode_all};
use verifiable_intelligence::pins::{COMMITLLM_PIN, COMMITLLM_SHORT_PIN};

fn bundle(magic: &str, pin: &str, mode: &str, encoding: &str, b64: &str, sha: &str) -> String {
    format!(
        r#"{{"magic":"{magic}","verifier":{{"commitllm_pin":"{pin}","verification_mode":"{mode}"}},"receipt":{{"encoding":"{encoding}","bytes_b64":"{b64}","sha256":"{sha}"}}}}"#
    )
}

fn hex_digest(bytes: &[u8]) -> String {
    let digest = Sha256::digest(bytes);
    let mut out = String::from("sha256:");
    for b in digest {
        out.push_str(&format!("{b:02x}"));
    }
    out
}

fn fail(reason: &str) -> BundleCheck {
    BundleCheck::Fail(reason.to_owned())
}

#[test]
fn pins_are_stable() {
    assert_eq!(COMMITLLM_PIN, "25541e83347655e44ad6e84eb901e1e7ae392a66");
    assert!(COMMITLLM_PIN.starts_with(COMMITLLM_SHORT_PIN));
}

#[test]
fn sha256_hex_matches_the_digest() {
    assert_eq!(sha256_hex(b"abc"), hex_digest(b"abc"));
    assert_eq!(
        sha256_hex(b""),
        "sha256:e3b0c44298fc1c149afbf4c8996fb92427ae41e4649b934ca495991b7852b855"
    );
}

#[test]
fn well_formed_bundle_goes_to_audit() {
    let receipt = b"VIRC receipt bytes".to_vec();
    let b64 = base64::engine::general_purpose::STANDARD.encode(&receipt);
    let json = bundle("VIEX", COMMITLLM_PIN, "browser-wasm", "base64", &b64, &hex_digest(&receipt));
    assert_eq!(check_viex_bundle(&json), BundleCheck::Audit(receipt));
}

#[test]
fn bundle_field_checks_refuse_in_order() {
    let receipt = b"r".to_vec();
    let b64 = base64::engine::general_purpose::STANDARD.encode(&receipt);
    let sha = hex_digest(&receipt);
    assert_eq!(
        check_viex_bundle(&bundle("VIEY", COMMITLLM_PIN, "browser-wasm", "base64", &b64, &sha)),
        fail("proof bundle magic must be VIEX")
    );
    assert_eq!(
        check_viex_bundle(&bundle("VIEX", "25541e83", "browser-wasm", "base64", &b64, &sha)),
        fail("proof bundle CommitLLM pin does not match WASM verifier pin")
    );
    assert_eq!(
        check_viex_bundle(&bundle("VIEX", COMMITLLM_PIN, "native", "base64", &b64, &sha)),
        fail("proof bundle verifier mode must be browser-wasm")
    );
    assert_eq!(
        check_viex_bundle(&bundle("VIEX", COMMITLLM_PIN, "browser-wasm", "hex", &b64, &sha)),
        fail("proof bundle receipt must be embedded as base64")
    );
    let missing = format!(
        r#"{{"magic":"VIEX","verifier":{{"commitllm_pin":"{COMMITLLM_PIN}","verification_mode":"browser-wasm"}},"receipt":{{"encoding":"base64"}}}}"#
    );
    assert_eq!(check_viex_bundle(&missing), fail("proof bundle receipt.bytes_b64 is required"));
    match check_viex_bundle(&bundle("VIEX", COMMITLLM_PIN, "browser-wasm", "base64", "!!!", &sha)) {
        BundleCheck::Fail(reason) => assert!(reason.starts_with("receipt base64 decode failed: ")),
        other => panic!("unexpected {other:?}"),
    }
    match check_viex_bundle("{not json") {
        BundleCheck::Fail(reason) => assert!(reason.starts_with("proof bundle JSON parse failed: ")),
        other => panic!("unexpected {other:?}"),
    }
}

#[test]
fn receipt_digest_mismatch_reports_both_digests() {
    let receipt = b"receipt".to_vec();
    let b64 = base64::engine::general_purpose::STANDARD.encode(&receipt);
    let json = bundle("VIEX", COMMITLLM_PIN, "browser-wasm", "base64", &b64, "sha256:00");
    assert_eq!(
        check_viex_bundle(&json),
        BundleCheck::HashMismatch { expected: "sha256:00".to_owned(), actual: hex_digest(&receipt) }
    );
}

#[test]
fn overall_verdict_passes_only_on_audit_pass() {
    assert_eq!(bundle_overall(Some("pass")), "pass");
    assert_eq!(bundle_overall(Some("fail")), "fail");
    assert_eq!(bundle_overall(None), "fail");
}

#[test]
fn zstd_frames_decode_to_their_input() {
    let input = b"abcabcabcabcabcabc hello hello hello".to_vec();
    for level in [0, 3] {
        let frame = encode_all(&input, level);
        assert_eq!(decode_all(&frame), Ok(input.clone()));
    }
    assert!(decode_all(b"not a frame").is_err());
}

#[test]
fn decoded_receipts_are_checked_against_their_digest() {
    assert_eq!(digest_text(&[0x00, 0xfe]), "sha256:00fe");
    assert_eq!(
        digest_check(b"r".to_vec(), "sha256:aa", "sha256:aa".to_owned()),
        BundleCheck::Audit(b"r".to_vec())
    );
    assert_eq!(
        digest_check(b"r".to_vec(), "sha256:aa", "sha256:bb".to_owned()),
        BundleCheck::HashMismatch { expected: "sha256:aa".to_owned(), actual: "sha256:bb".to_owned() }
    );
    assert_eq!(
        receipt_check(Err("Invalid byte 33, offset 0.".to_owned()), &Some("sha256:aa".to_owned())),
        fail("receipt base64 decode failed: Invalid byte 33, offset 0.")
    );
    assert_eq!(receipt_check(Ok(b"r".to_vec()), &None), fail("proof bundle receipt.sha256 is required"));
    assert_eq!(
        receipt_check(Ok(b"abc".to_vec()), &Some(hex_digest(b"abc"))),
        BundleCheck::Audit(b"abc".to_vec())
    );
    assert_eq!(
        bundle_check_from(Err("EOF while parsing".to_owned())),
        fail("proof bundle JSON parse failed: EOF while parsing")
    );
    let fields = BundleFields {
        magic: Some("VIEX".to_owned()),
        commitllm_pin: Some(COMMITLLM_PIN.to_owned()),
        verification_mode: Some("browser-wasm".to_owned()),
        receipt_encoding: Some("base64".to_owned()),
        receipt_bytes_b64: None,
        receipt_sha256: None,
    };
    assert_eq!(bundle_check_from(Ok(fields)), fail("proof bundle receipt.bytes_b64 is required"));
}
