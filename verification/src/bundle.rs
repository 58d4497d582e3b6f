//! Checks of a `VIEX` proof bundle before its receipt goes to the CommitLLM
//! audit verifier: the bundle's magic, pins and verifier mode, the embedded
//! base64 receipt, and the receipt's SHA-256 digest.

use vstd::prelude::*;

use crate::checksum::{sha256, sha256_digest};
use crate::pins::COMMITLLM_PIN;
use crate::text::{hex_text, push_hex, str_eq};

verus! {

/// Verification mode that the browser verifier reports and requires.
pub const VERIFICATION_MODE: &'static str = "browser-wasm";

/// The string fields of a proof bundle that the checks read.
#[derive(Debug, Clone, PartialEq, Eq)]
pub struct BundleFields {
    /// `/magic`.
    pub magic: Option<String>,
    /// `/verifier/commitllm_pin`.
    pub commitllm_pin: Option<String>,
    /// `/verifier/verification_mode`.
    pub verification_mode: Option<String>,
    /// `/receipt/encoding`.
    pub receipt_encoding: Option<String>,
    /// `/receipt/bytes_b64`.
    pub receipt_bytes_b64: Option<String>,
    /// `/receipt/sha256`.
    pub receipt_sha256: Option<String>,
}

/// Abstract value of [`BundleFields`].
pub struct BundleFieldsView {
    pub magic: Option<Seq<char>>,
    pub commitllm_pin: Option<Seq<char>>,
    pub verification_mode: Option<Seq<char>>,
    pub receipt_encoding: Option<Seq<char>>,
    pub receipt_bytes_b64: Option<Seq<char>>,
    pub receipt_sha256: Option<Seq<char>>,
}

impl View for BundleFields {
    type V = BundleFieldsView;

    open spec fn view(&self) -> BundleFieldsView {
        BundleFieldsView {
            magic: crate::errors::opt_str_view(self.magic),
            commitllm_pin: crate::errors::opt_str_view(self.commitllm_pin),
            verification_mode: crate::errors::opt_str_view(self.verification_mode),
            receipt_encoding: crate::errors::opt_str_view(self.receipt_encoding),
            receipt_bytes_b64: crate::errors::opt_str_view(self.receipt_bytes_b64),
            receipt_sha256: crate::errors::opt_str_view(self.receipt_sha256),
        }
    }
}

/// What `serde_json` finds in a bundle's JSON text: the string fields read by
/// the checks (`None` where a field is absent or not a string), or the parse
/// error's message.
pub uninterp spec fn viex_bundle_fields(bundle_json: Seq<char>) -> Result<BundleFieldsView, Seq<char>>;

/// Outcome of reading the bundle fields.
pub open spec fn fields_outcome(r: Result<BundleFields, String>) -> Result<BundleFieldsView, Seq<char>> {
    match r {
        Ok(f) => Ok(f@),
        Err(e) => Err(e@),
    }
}

/// Parse a bundle with `serde_json::from_str` and read its string fields
/// with `Value::pointer` and `Value::as_str`.
///
/// Trusted: the fields, or the parse error's message, depend on the text
/// alone and are given a name; nothing more is claimed.
#[verifier::external_body]
fn read_bundle_fields(bundle_json: &str) -> (r: Result<BundleFields, String>)
    ensures
        fields_outcome(r) == viex_bundle_fields(bundle_json@),
{
    let bundle: serde_json::Value = serde_json::from_str(bundle_json).map_err(|e| e.to_string())?;
    let at = |p: &str| bundle.pointer(p).and_then(serde_json::Value::as_str).map(String::from);
    Ok(BundleFields {
        magic: at("/magic"),
        commitllm_pin: at("/verifier/commitllm_pin"),
        verification_mode: at("/verifier/verification_mode"),
        receipt_encoding: at("/receipt/encoding"),
        receipt_bytes_b64: at("/receipt/bytes_b64"),
        receipt_sha256: at("/receipt/sha256"),
    })
}

/// What the standard base64 engine decodes a text to, or its error's message.
pub uninterp spec fn base64_standard_decode(text: Seq<char>) -> Result<Seq<u8>, Seq<char>>;

/// Outcome of a decode.
pub open spec fn bytes_outcome(r: Result<Vec<u8>, String>) -> Result<Seq<u8>, Seq<char>> {
    match r {
        Ok(b) => Ok(b@),
        Err(e) => Err(e@),
    }
}

/// Decode base64 with `base64::engine::general_purpose::STANDARD`.
///
/// Trusted: the bytes, or the error's message, depend on the text alone and
/// are given a name; nothing more is claimed.
#[verifier::external_body]
fn decode_base64(text: &str) -> (r: Result<Vec<u8>, String>)
    ensures
        bytes_outcome(r) == base64_standard_decode(text@),
{
    base64::Engine::decode(&base64::engine::general_purpose::STANDARD, text).map_err(|e| e.to_string())
}

/// `sha256:` followed by the lowercase hexadecimal of a digest.
pub open spec fn digest_text_of(digest: Seq<u8>) -> Seq<char> {
    "sha256:"@ + hex_text(digest)
}

/// `sha256:` followed by the lowercase hexadecimal SHA-256 digest of `bytes`.
pub open spec fn sha256_hex_text(bytes: Seq<u8>) -> Seq<char> {
    digest_text_of(sha256_digest(bytes))
}

/// Render a digest as `sha256:<hex>`.
pub fn digest_text(digest: &[u8]) -> (s: String)
    ensures
        s@ == digest_text_of(digest@),
{
    let mut out = "sha256:".to_owned();
    push_hex(&mut out, digest);
    out
}

/// Render the SHA-256 digest of `bytes` as `sha256:<hex>`.
pub fn sha256_hex(bytes: &[u8]) -> (s: String)
    ensures
        s@ == sha256_hex_text(bytes@),
{
    let digest = sha256(bytes);
    digest_text(digest.as_slice())
}

/// What the checks of a bundle decided.
#[derive(Debug, Clone, PartialEq, Eq)]
pub enum BundleCheck {
    /// The bundle is refused, for this reason.
    Fail(String),
    /// The receipt's digest does not match the one the bundle states.
    HashMismatch { expected: String, actual: String },
    /// The bundle passed its checks; these receipt bytes go to the audit verifier.
    Audit(Vec<u8>),
}

/// Abstract value of a [`BundleCheck`].
pub enum BundleCheckView {
    Fail(Seq<char>),
    HashMismatch { expected: Seq<char>, actual: Seq<char> },
    Audit(Seq<u8>),
}

impl View for BundleCheck {
    type V = BundleCheckView;

    open spec fn view(&self) -> BundleCheckView {
        match self {
            BundleCheck::Fail(r) => BundleCheckView::Fail(r@),
            BundleCheck::HashMismatch { expected, actual } => BundleCheckView::HashMismatch {
                expected: expected@,
                actual: actual@,
            },
            BundleCheck::Audit(b) => BundleCheckView::Audit(b@),
        }
    }
}

/// The receipt check against the digest that the bundle states, given the
/// receipt's digest text.
pub open spec fn digest_check_of(bytes: Seq<u8>, expected: Seq<char>, actual: Seq<char>) -> BundleCheckView {
    if actual != expected {
        BundleCheckView::HashMismatch { expected, actual }
    } else {
        BundleCheckView::Audit(bytes)
    }
}

/// The receipt checks once its base64 text has been decoded.
pub open spec fn receipt_check_of(decoded: Result<Seq<u8>, Seq<char>>, expected: Option<Seq<char>>) -> BundleCheckView {
    match decoded {
        Err(e) => BundleCheckView::Fail("receipt base64 decode failed: "@ + e),
        Ok(bytes) => match expected {
            None => BundleCheckView::Fail("proof bundle receipt.sha256 is required"@),
            Some(expected) => digest_check_of(bytes, expected, sha256_hex_text(bytes)),
        },
    }
}

/// The checks of a bundle whose fields have been read.
pub open spec fn fields_check(f: BundleFieldsView) -> BundleCheckView {
    if f.magic != Some("VIEX"@) {
        BundleCheckView::Fail("proof bundle magic must be VIEX"@)
    } else if f.commitllm_pin != Some(COMMITLLM_PIN@) {
        BundleCheckView::Fail("proof bundle CommitLLM pin does not match WASM verifier pin"@)
    } else if f.verification_mode != Some(VERIFICATION_MODE@) {
        BundleCheckView::Fail("proof bundle verifier mode must be browser-wasm"@)
    } else if f.receipt_encoding != Some("base64"@) {
        BundleCheckView::Fail("proof bundle receipt must be embedded as base64"@)
    } else {
        match f.receipt_bytes_b64 {
            None => BundleCheckView::Fail("proof bundle receipt.bytes_b64 is required"@),
            Some(b64) => receipt_check_of(base64_standard_decode(b64), f.receipt_sha256),
        }
    }
}

/// The checks of a bundle given as JSON text.
pub open spec fn bundle_check_of(bundle_json: Seq<char>) -> BundleCheckView {
    match viex_bundle_fields(bundle_json) {
        Err(e) => BundleCheckView::Fail("proof bundle JSON parse failed: "@ + e),
        Ok(f) => fields_check(f),
    }
}

fn opt_is(field: &Option<String>, expected: &str) -> (r: bool)
    ensures
        r == (crate::errors::opt_str_view(*field) == Some(expected@)),
{
    match field {
        Some(v) => str_eq(v.as_str(), expected),
        None => false,
    }
}

fn fail(reason: &str) -> (c: BundleCheck)
    ensures
        c@ == BundleCheckView::Fail(reason@),
{
    BundleCheck::Fail(reason.to_owned())
}

/// Check a bundle whose fields have been read.
pub fn check_bundle_fields(fields: &BundleFields) -> (c: BundleCheck)
    ensures
        c@ == fields_check(fields@),
{
    if !opt_is(&fields.magic, "VIEX") {
        return fail("proof bundle magic must be VIEX");
    }
    if !opt_is(&fields.commitllm_pin, COMMITLLM_PIN) {
        return fail("proof bundle CommitLLM pin does not match WASM verifier pin");
    }
    if !opt_is(&fields.verification_mode, VERIFICATION_MODE) {
        return fail("proof bundle verifier mode must be browser-wasm");
    }
    if !opt_is(&fields.receipt_encoding, "base64") {
        return fail("proof bundle receipt must be embedded as base64");
    }
    let b64 = match &fields.receipt_bytes_b64 {
        Some(b) => b,
        None => return fail("proof bundle receipt.bytes_b64 is required"),
    };
    receipt_check(decode_base64(b64.as_str()), &fields.receipt_sha256)
}

/// Check the receipt bytes against the digest that the bundle states, given
/// the receipt's digest text.
pub fn digest_check(bytes: Vec<u8>, expected: &str, actual: String) -> (c: BundleCheck)
    ensures
        c@ == digest_check_of(bytes@, expected@, actual@),
{
    if !str_eq(actual.as_str(), expected) {
        return BundleCheck::HashMismatch { expected: expected.to_owned(), actual };
    }
    BundleCheck::Audit(bytes)
}

/// Check a receipt once its base64 text has been decoded (the decoded bytes,
/// or the decoder's message), against the digest the bundle states.
pub fn receipt_check(decoded: Result<Vec<u8>, String>, expected: &Option<String>) -> (c: BundleCheck)
    ensures
        c@ == receipt_check_of(bytes_outcome(decoded), crate::errors::opt_str_view(*expected)),
{
    let bytes = match decoded {
        Ok(b) => b,
        Err(e) => {
            let mut reason = "receipt base64 decode failed: ".to_owned();
            reason.append(e.as_str());
            return BundleCheck::Fail(reason);
        },
    };
    let expected = match expected {
        Some(h) => h,
        None => return fail("proof bundle receipt.sha256 is required"),
    };
    let actual = sha256_hex(bytes.as_slice());
    digest_check(bytes, expected.as_str(), actual)
}

/// Check a bundle once its JSON text has been read: its fields, or the
/// parser's message.
pub fn bundle_check_from(read: Result<BundleFields, String>) -> (c: BundleCheck)
    ensures
        c@ == match fields_outcome(read) {
            Err(e) => BundleCheckView::Fail("proof bundle JSON parse failed: "@ + e),
            Ok(f) => fields_check(f),
        },
{
    match read {
        Err(e) => {
            let mut reason = "proof bundle JSON parse failed: ".to_owned();
            reason.append(e.as_str());
            BundleCheck::Fail(reason)
        },
        Ok(fields) => check_bundle_fields(&fields),
    }
}

/// Check a `VIEX` proof bundle given as JSON text.
pub fn check_viex_bundle(bundle_json: &str) -> (c: BundleCheck)
    ensures
        c@ == bundle_check_of(bundle_json@),
{
    bundle_check_from(read_bundle_fields(bundle_json))
}

/// The overall verdict of a bundle whose receipt was audited: `pass` exactly
/// when the audit verifier's own verdict is `pass`.
pub fn bundle_overall(audit_overall: Option<&str>) -> (s: &'static str)
    ensures
        (audit_overall matches Some(o) && o@ == "pass"@) ==> s@ == "pass"@,
        !(audit_overall matches Some(o) && o@ == "pass"@) ==> s@ == "fail"@,
{
    let pass = match audit_overall {
        Some(o) => str_eq(o, "pass"),
        None => false,
    };
    if pass {
        "pass"
    } else {
        "fail"
    }
}

} // verus!
