//! Error taxonomy and exit-code map shared by every part of the toolkit.

use vstd::prelude::*;

verus! {

/// Stable schema version for stderr error envelopes.
pub const ERROR_ENVELOPE_SCHEMA_VERSION: u16 = 1;

/// Canonical process exit code for top-level CLI usage errors.
pub const USAGE_EXIT_CODE: i32 = 64;

/// Canonical process exit code for SIGINT interruption.
pub const SIGINT_EXIT_CODE: i32 = 130;

/// Machine-readable detail attached to errors: a JSON-shaped value.
///
/// Numbers that are not integers are carried as the bit pattern of their
/// IEEE-754 double representation, so that no arithmetic is done on them here.
#[derive(Debug, PartialEq)]
pub enum Detail {
    /// JSON `null`.
    Null,
    /// JSON boolean.
    Bool(bool),
    /// Non-negative JSON integer.
    UInt(u64),
    /// Negative JSON integer.
    Int(i64),
    /// JSON number given by the bit pattern of a double.
    FloatBits(u64),
    /// JSON string.
    Str(String),
    /// JSON array.
    Array(Vec<Detail>),
    /// JSON object, as ordered `(key, value)` entries.
    Object(Vec<(String, Detail)>),
}

/// Whether `d` is the JSON string `s`.
pub open spec fn detail_is_str(d: Detail, s: Seq<char>) -> bool {
    d matches Detail::Str(x) && x@ == s
}

/// Whether `d` is the JSON array of the integers `xs`.
pub open spec fn detail_is_u32s(d: Detail, xs: Seq<u32>) -> bool {
    d matches Detail::Array(v) && v@.len() == xs.len() && forall|i: int|
        0 <= i < xs.len() ==> #[trigger] v@[i] == Detail::UInt(xs[i] as u64)
}

/// The JSON array of the integers in `xs`.
pub fn detail_u32s(xs: &Vec<u32>) -> (d: Detail)
    ensures
        detail_is_u32s(d, xs@),
{
    let mut v: Vec<Detail> = Vec::new();
    let mut i: usize = 0;
    while i < xs.len()
        invariant
            i <= xs@.len(),
            v@.len() == i,
            forall|j: int| 0 <= j < i ==> #[trigger] v@[j] == Detail::UInt(xs@[j] as u64),
        decreases xs@.len() - i,
    {
        v.push(Detail::UInt(xs[i] as u64));
        i = i + 1;
    }
    Detail::Array(v)
}

/// Stable verification phase identifiers used in error detail.
#[derive(Debug, Clone, Copy, PartialEq, Eq)]
pub enum PhaseId {
    /// Embedding Merkle commitment phase.
    EmbeddingMerkle,
    /// Shell Freivalds check phase.
    ShellFreivalds,
    /// Bridge replay check phase.
    BridgeReplay,
    /// Attention corridor check phase.
    AttentionCorridor,
    /// KV provenance check phase.
    KvProvenance,
    /// LM head check phase.
    LmHead,
    /// Decode-policy check phase.
    DecodePolicy,
}

/// Wire string of a verification phase.
pub open spec fn phase_name(phase: PhaseId) -> Seq<char> {
    match phase {
        PhaseId::EmbeddingMerkle => "embedding_merkle"@,
        PhaseId::ShellFreivalds => "shell_freivalds"@,
        PhaseId::BridgeReplay => "bridge_replay"@,
        PhaseId::AttentionCorridor => "attention_corridor"@,
        PhaseId::KvProvenance => "kv_provenance"@,
        PhaseId::LmHead => "lm_head"@,
        PhaseId::DecodePolicy => "decode_policy"@,
    }
}

impl PhaseId {
    /// Stable wire string for this verification phase.
    pub fn as_str(self) -> (s: &'static str)
        ensures
            s@ == phase_name(self),
    {
        match self {
            PhaseId::EmbeddingMerkle => "embedding_merkle",
            PhaseId::ShellFreivalds => "shell_freivalds",
            PhaseId::BridgeReplay => "bridge_replay",
            PhaseId::AttentionCorridor => "attention_corridor",
            PhaseId::KvProvenance => "kv_provenance",
            PhaseId::LmHead => "lm_head",
            PhaseId::DecodePolicy => "decode_policy",
        }
    }
}

/// Stable network failure kind for provider and audit endpoint calls.
#[derive(Debug, Clone, Copy, PartialEq, Eq)]
pub enum NetworkErrorKind {
    /// DNS resolution failed.
    Dns,
    /// TCP connection was refused.
    ConnectionRefused,
    /// TLS handshake failed.
    Tls,
    /// TLS stream ended during the handshake.
    TlsHandshakeEof,
    /// Request timed out.
    Timeout,
    /// Endpoint returned a non-success HTTP status.
    HttpStatus,
    /// Failure did not fit a more specific stable kind.
    Other,
}

/// Wire string of a network failure kind.
pub open spec fn network_kind_name(kind: NetworkErrorKind) -> Seq<char> {
    match kind {
        NetworkErrorKind::Dns => "dns"@,
        NetworkErrorKind::ConnectionRefused => "connection_refused"@,
        NetworkErrorKind::Tls => "tls"@,
        NetworkErrorKind::TlsHandshakeEof => "tls_handshake_eof"@,
        NetworkErrorKind::Timeout => "timeout"@,
        NetworkErrorKind::HttpStatus => "http_status"@,
        NetworkErrorKind::Other => "other"@,
    }
}

impl NetworkErrorKind {
    /// Stable wire string for this network failure kind.
    pub fn as_str(self) -> (s: &'static str)
        ensures
            s@ == network_kind_name(self),
    {
        match self {
            NetworkErrorKind::Dns => "dns",
            NetworkErrorKind::ConnectionRefused => "connection_refused",
            NetworkErrorKind::Tls => "tls",
            NetworkErrorKind::TlsHandshakeEof => "tls_handshake_eof",
            NetworkErrorKind::Timeout => "timeout",
            NetworkErrorKind::HttpStatus => "http_status",
            NetworkErrorKind::Other => "other",
        }
    }
}

/// Identity binding fields compared between verifier keys and receipts.
#[derive(Debug, Clone, PartialEq, Eq)]
pub struct IdentityFields {
    /// Public model identifier.
    pub model_id: String,
    /// Canonical checkpoint hash.
    pub checkpoint_hash: String,
    /// Pinned upstream `CommitLLM` revision.
    pub commitllm_pin: String,
    /// Optional verifier-key envelope hash when the mismatch is key-specific.
    pub key_hash: Option<String>,
}

/// Abstract value of [`IdentityFields`].
pub struct IdentityView {
    pub model_id: Seq<char>,
    pub checkpoint_hash: Seq<char>,
    pub commitllm_pin: Seq<char>,
    pub key_hash: Option<Seq<char>>,
}

/// View of an optional string.
pub open spec fn opt_str_view(s: Option<String>) -> Option<Seq<char>> {
    match s {
        Some(s) => Some(s@),
        None => None,
    }
}

impl View for IdentityFields {
    type V = IdentityView;

    open spec fn view(&self) -> IdentityView {
        IdentityView {
            model_id: self.model_id@,
            checkpoint_hash: self.checkpoint_hash@,
            commitllm_pin: self.commitllm_pin@,
            key_hash: opt_str_view(self.key_hash),
        }
    }
}

impl IdentityFields {
    /// Build identity fields without a key hash.
    pub fn new(model_id: &str, checkpoint_hash: &str, commitllm_pin: &str) -> (r: IdentityFields)
        ensures
            r@ == (IdentityView {
                model_id: model_id@,
                checkpoint_hash: checkpoint_hash@,
                commitllm_pin: commitllm_pin@,
                key_hash: None,
            }),
    {
        IdentityFields {
            model_id: model_id.to_owned(),
            checkpoint_hash: checkpoint_hash.to_owned(),
            commitllm_pin: commitllm_pin.to_owned(),
            key_hash: None,
        }
    }

    /// Attach a verifier-key envelope hash to identity details.
    pub fn with_key_hash(self, key_hash: &str) -> (r: IdentityFields)
        ensures
            r@ == (IdentityView { key_hash: Some(key_hash@), ..self@ }),
    {
        IdentityFields { key_hash: Some(key_hash.to_owned()), ..self }
    }
}

/// Typed error taxonomy for all library errors that reach a CLI boundary.
///
/// `measured` and `tolerance` hold the bit patterns of the doubles that a
/// numeric verification phase compared.
#[allow(inconsistent_fields)]
#[derive(Debug, PartialEq)]
pub enum ViError {
    /// Bad arguments, malformed input, or a missing required value.
    Input { arg: String, reason: String, detail: Option<Detail> },
    /// Transport or HTTP failure talking to a provider or audit endpoint.
    Network { endpoint: String, kind: NetworkErrorKind, http_status: Option<u16> },
    /// Structurally valid receipt failed a verification phase.
    VerificationFailed {
        phase: PhaseId,
        measured: Option<u64>,
        tolerance: Option<u64>,
        extra: Option<Detail>,
    },
    /// Receipt identity did not bind to the loaded verifier key.
    IdentityMismatch { expected: IdentityFields, actual: IdentityFields },
    /// Envelope version or schema version is not supported.
    UnknownVersion {
        envelope: &'static str,
        field: &'static str,
        value: u32,
        supported: Vec<u32>,
    },
    /// Requested verification tier cannot be satisfied with available inputs.
    UnsupportedTier { requested: String, reason: String },
    /// Envelope bytes are malformed or fail structural integrity checks.
    CorruptEnvelope { envelope: &'static str, offset: usize, reason: &'static str },
    /// Checkpoint or artifact hash does not match the expected canonical hash.
    HashMismatch { expected: String, actual: String },
    /// Provider accepted receipt opt-in but did not return a receipt.
    ReceiptMissing { endpoint: String, content_type: String },
    /// Panic or programmer error caught at the binary boundary.
    Internal { backtrace: String },
}

/// Abstract value of a [`ViError`]: strings as character sequences.
#[allow(inconsistent_fields)]
pub enum ViErrorView {
    Input { arg: Seq<char>, reason: Seq<char>, detail: Option<Detail> },
    Network { endpoint: Seq<char>, kind: NetworkErrorKind, http_status: Option<u16> },
    VerificationFailed {
        phase: PhaseId,
        measured: Option<u64>,
        tolerance: Option<u64>,
        extra: Option<Detail>,
    },
    IdentityMismatch { expected: IdentityView, actual: IdentityView },
    UnknownVersion { envelope: Seq<char>, field: Seq<char>, value: u32, supported: Seq<u32> },
    UnsupportedTier { requested: Seq<char>, reason: Seq<char> },
    CorruptEnvelope { envelope: Seq<char>, offset: usize, reason: Seq<char> },
    HashMismatch { expected: Seq<char>, actual: Seq<char> },
    ReceiptMissing { endpoint: Seq<char>, content_type: Seq<char> },
    Internal { backtrace: Seq<char> },
}

impl View for ViError {
    type V = ViErrorView;

    open spec fn view(&self) -> ViErrorView {
        match *self {
            ViError::Input { arg, reason, detail } => ViErrorView::Input {
                arg: arg@,
                reason: reason@,
                detail,
            },
            ViError::Network { endpoint, kind, http_status } => ViErrorView::Network {
                endpoint: endpoint@,
                kind,
                http_status,
            },
            ViError::VerificationFailed { phase, measured, tolerance, extra } =>
                ViErrorView::VerificationFailed { phase, measured, tolerance, extra },
            ViError::IdentityMismatch { expected, actual } => ViErrorView::IdentityMismatch {
                expected: expected@,
                actual: actual@,
            },
            ViError::UnknownVersion { envelope, field, value, supported } =>
                ViErrorView::UnknownVersion {
                    envelope: envelope@,
                    field: field@,
                    value,
                    supported: supported@,
                },
            ViError::UnsupportedTier { requested, reason } => ViErrorView::UnsupportedTier {
                requested: requested@,
                reason: reason@,
            },
            ViError::CorruptEnvelope { envelope, offset, reason } => ViErrorView::CorruptEnvelope {
                envelope: envelope@,
                offset,
                reason: reason@,
            },
            ViError::HashMismatch { expected, actual } => ViErrorView::HashMismatch {
                expected: expected@,
                actual: actual@,
            },
            ViError::ReceiptMissing { endpoint, content_type } => ViErrorView::ReceiptMissing {
                endpoint: endpoint@,
                content_type: content_type@,
            },
            ViError::Internal { backtrace } => ViErrorView::Internal { backtrace: backtrace@ },
        }
    }
}

/// Outcome of a fallible operation, seen through the views of its value and error.
pub open spec fn outcome<T: View>(r: Result<T, ViError>) -> Result<T::V, ViErrorView> {
    match r {
        Ok(v) => Ok(v@),
        Err(e) => Err(e@),
    }
}

/// Outcome of a fallible operation whose success carries no value.
pub open spec fn unit_outcome(r: Result<(), ViError>) -> Result<(), ViErrorView> {
    match r {
        Ok(()) => Ok(()),
        Err(e) => Err(e@),
    }
}

// ----------------------------------------------------------------------------

/// Stable wire category of an error.
pub open spec fn category_name(e: ViErrorView) -> Seq<char> {
    match e {
        ViErrorView::VerificationFailed { .. } => "verification_failed"@,
        ViErrorView::Input { .. } => "input"@,
        ViErrorView::Network { .. } => "network"@,
        ViErrorView::HashMismatch { .. } => "hash_mismatch"@,
        ViErrorView::ReceiptMissing { .. } => "receipt_missing"@,
        ViErrorView::UnknownVersion { .. } => "unknown_version"@,
        ViErrorView::IdentityMismatch { .. } => "identity_mismatch"@,
        ViErrorView::UnsupportedTier { .. } => "unsupported_tier"@,
        ViErrorView::CorruptEnvelope { .. } => "corrupt_envelope"@,
        ViErrorView::Internal { .. } => "internal"@,
    }
}

/// Process exit code of an error.
pub open spec fn exit_code_of(e: ViErrorView) -> i32 {
    match e {
        ViErrorView::VerificationFailed { .. } => 1,
        ViErrorView::Input { .. } => 2,
        ViErrorView::Network { .. } => 3,
        ViErrorView::HashMismatch { .. } => 4,
        ViErrorView::ReceiptMissing { .. } => 5,
        ViErrorView::UnknownVersion { .. } => 6,
        ViErrorView::IdentityMismatch { .. } => 7,
        ViErrorView::UnsupportedTier { .. } => 8,
        ViErrorView::CorruptEnvelope { .. } => 9,
        ViErrorView::Internal { .. } => 70,
    }
}

/// Canonical remediation hint of an error.
pub open spec fn remediation_text(e: ViErrorView) -> Seq<char> {
    match e {
        ViErrorView::Input { .. } => "Check the argument value or file path."@,
        ViErrorView::Network { .. } =>
            "Check the endpoint URL and network connectivity; retry on transient failures."@,
        ViErrorView::VerificationFailed { .. } =>
            "Re-fetch the receipt; if the failure persists, the provider's deployment may have drifted from the pinned model."@,
        ViErrorView::IdentityMismatch { .. } =>
            "Use the verifier key that matches this receipt's model and CommitLLM pin."@,
        ViErrorView::UnknownVersion { .. } =>
            "Upgrade `vi` or downgrade the provider so versions align."@,
        ViErrorView::UnsupportedTier { .. } =>
            "Use a supported tier or provide the missing inputs (e.g., `--audit-endpoint`)."@,
        ViErrorView::CorruptEnvelope { .. } =>
            "The artifact has been damaged. Re-fetch the original."@,
        ViErrorView::HashMismatch { .. } =>
            "The checkpoint at the source has changed. Re-download or use `--allow-checkpoint-drift` if you are intentionally pinning."@,
        ViErrorView::ReceiptMissing { .. } =>
            "The provider did not emit a receipt. Check that the endpoint supports `X-Verifiable-Receipt: 1` and that the prover is healthy."@,
        ViErrorView::Internal { .. } => "Please file an issue with the trace_id."@,
    }
}

impl ViError {
    /// Stable wire category string for this error.
    pub fn category(&self) -> (s: &'static str)
        ensures
            s@ == category_name(self@),
    {
        match self {
            ViError::VerificationFailed { .. } => "verification_failed",
            ViError::Input { .. } => "input",
            ViError::Network { .. } => "network",
            ViError::HashMismatch { .. } => "hash_mismatch",
            ViError::ReceiptMissing { .. } => "receipt_missing",
            ViError::UnknownVersion { .. } => "unknown_version",
            ViError::IdentityMismatch { .. } => "identity_mismatch",
            ViError::UnsupportedTier { .. } => "unsupported_tier",
            ViError::CorruptEnvelope { .. } => "corrupt_envelope",
            ViError::Internal { .. } => "internal",
        }
    }

    /// Stable process exit code for this error category.
    pub fn exit_code(&self) -> (c: i32)
        ensures
            c == exit_code_of(self@),
    {
        match self {
            ViError::VerificationFailed { .. } => 1,
            ViError::Input { .. } => 2,
            ViError::Network { .. } => 3,
            ViError::HashMismatch { .. } => 4,
            ViError::ReceiptMissing { .. } => 5,
            ViError::UnknownVersion { .. } => 6,
            ViError::IdentityMismatch { .. } => 7,
            ViError::UnsupportedTier { .. } => 8,
            ViError::CorruptEnvelope { .. } => 9,
            ViError::Internal { .. } => 70,
        }
    }

    /// Canonical remediation hint for this error category.
    pub fn remediation(&self) -> (s: &'static str)
        ensures
            s@ == remediation_text(self@),
    {
        match self {
            ViError::Input { .. } => "Check the argument value or file path.",
            ViError::Network { .. } =>
                "Check the endpoint URL and network connectivity; retry on transient failures.",
            ViError::VerificationFailed { .. } =>
                "Re-fetch the receipt; if the failure persists, the provider's deployment may have drifted from the pinned model.",
            ViError::IdentityMismatch { .. } =>
                "Use the verifier key that matches this receipt's model and CommitLLM pin.",
            ViError::UnknownVersion { .. } =>
                "Upgrade `vi` or downgrade the provider so versions align.",
            ViError::UnsupportedTier { .. } =>
                "Use a supported tier or provide the missing inputs (e.g., `--audit-endpoint`).",
            ViError::CorruptEnvelope { .. } =>
                "The artifact has been damaged. Re-fetch the original.",
            ViError::HashMismatch { .. } =>
                "The checkpoint at the source has changed. Re-download or use `--allow-checkpoint-drift` if you are intentionally pinning.",
            ViError::ReceiptMissing { .. } =>
                "The provider did not emit a receipt. Check that the endpoint supports `X-Verifiable-Receipt: 1` and that the prover is healthy.",
            ViError::Internal { .. } => "Please file an issue with the trace_id.",
        }
    }
}

/// The category strings in exit-code order, excluding the process-level
/// `usage` and `sigint` outcomes.
pub open spec fn category_strings() -> Seq<Seq<char>> {
    seq![
        "verification_failed"@,
        "input"@,
        "network"@,
        "hash_mismatch"@,
        "receipt_missing"@,
        "unknown_version"@,
        "identity_mismatch"@,
        "unsupported_tier"@,
        "corrupt_envelope"@,
        "internal"@,
    ]
}

/// Stable error category strings in exit-code order.
pub fn category_strings_list() -> (v: Vec<&'static str>)
    ensures
        v@.len() == 10,
        forall|i: int| 0 <= i < 10 ==> #[trigger] v@[i]@ == category_strings()[i],
{
    let mut v: Vec<&'static str> = Vec::new();
    v.push("verification_failed");
    v.push("input");
    v.push("network");
    v.push("hash_mismatch");
    v.push("receipt_missing");
    v.push("unknown_version");
    v.push("identity_mismatch");
    v.push("unsupported_tier");
    v.push("corrupt_envelope");
    v.push("internal");
    v
}

/// Every error's exit code is the code of its category: the position of its
/// category in [`category_strings`] plus one, and 70 for internal errors.
pub proof fn lemma_exit_code_follows_category(e: ViErrorView)
    ensures
        exit_code_of(e) == 70 <==> category_name(e) == "internal"@,
        exit_code_of(e) != 70 ==> 1 <= exit_code_of(e) <= 9 && category_strings()[exit_code_of(
            e,
        ) - 1] == category_name(e),
{
    reveal_strlit("internal");
    reveal_strlit("verification_failed");
    reveal_strlit("input");
    reveal_strlit("network");
    reveal_strlit("hash_mismatch");
    reveal_strlit("receipt_missing");
    reveal_strlit("unknown_version");
    reveal_strlit("identity_mismatch");
    reveal_strlit("unsupported_tier");
    reveal_strlit("corrupt_envelope");
}

// ----------------------------------------------------------------------------

/// The text of identity fields in messages.
pub open spec fn identity_text(i: IdentityView) -> Seq<char> {
    "model_id="@ + i.model_id + ", checkpoint_hash="@ + i.checkpoint_hash + ", commitllm_pin="@
        + i.commitllm_pin + match i.key_hash {
        Some(k) => ", key_hash="@ + k,
        None => Seq::empty(),
    }
}

/// The items of a list of integers, in decimal, separated by `", "`.
pub open spec fn decimal_items(xs: Seq<u32>) -> Seq<char>
    decreases xs.len(),
{
    if xs.len() == 0 {
        Seq::empty()
    } else if xs.len() == 1 {
        crate::text::decimal(xs[0] as nat)
    } else {
        decimal_items(xs.drop_last()) + ", "@ + crate::text::decimal(xs.last() as nat)
    }
}

/// A list of integers as `[a, b, c]`.
pub open spec fn decimal_list(xs: Seq<u32>) -> Seq<char> {
    "["@ + decimal_items(xs) + "]"@
}

/// Human-readable message of an error. The numbers of a failed numeric
/// verification phase appear as the texts given for them.
pub open spec fn message_text(e: ViErrorView, measured_text: Seq<char>, tolerance_text: Seq<char>) -> Seq<char> {
    match e {
        ViErrorView::Input { arg, reason, .. } => "invalid input for "@ + arg + ": "@ + reason,
        ViErrorView::Network { endpoint, kind, http_status } => "network error calling "@
            + endpoint + ": "@ + network_kind_name(kind) + match http_status {
            Some(status) => " (HTTP "@ + crate::text::decimal(status as nat) + ")"@,
            None => Seq::empty(),
        },
        ViErrorView::VerificationFailed { phase, measured, tolerance, .. } => if measured is Some
            && tolerance is Some {
            "verification phase "@ + phase_name(phase) + " failed: measured "@ + measured_text
                + " exceeds tolerance "@ + tolerance_text
        } else {
            "verification phase "@ + phase_name(phase) + " failed"@
        },
        ViErrorView::IdentityMismatch { expected, actual } => "identity mismatch: expected "@
            + identity_text(expected) + ", actual "@ + identity_text(actual),
        ViErrorView::UnknownVersion { envelope, field, value, supported } => "unsupported "@
            + envelope + " "@ + field + " version "@ + crate::text::decimal(value as nat)
            + "; supported versions: "@ + decimal_list(supported),
        ViErrorView::UnsupportedTier { requested, reason } => "unsupported tier "@ + requested
            + ": "@ + reason,
        ViErrorView::CorruptEnvelope { envelope, offset, reason } => "corrupt "@ + envelope
            + " envelope at offset "@ + crate::text::decimal(offset as nat) + ": "@ + reason,
        ViErrorView::HashMismatch { expected, actual } => "hash mismatch: expected "@ + expected
            + ", actual "@ + actual,
        ViErrorView::ReceiptMissing { endpoint, content_type } => "receipt missing from "@
            + endpoint + " response with content type "@ + content_type,
        ViErrorView::Internal { .. } => "internal error"@,
    }
}

impl IdentityFields {
    /// The text of these identity fields in messages.
    pub fn to_text(&self) -> (s: String)
        ensures
            s@ == identity_text(self@),
    {
        let mut s = String::new();
        s.append("model_id=");
        s.append(self.model_id.as_str());
        s.append(", checkpoint_hash=");
        s.append(self.checkpoint_hash.as_str());
        s.append(", commitllm_pin=");
        s.append(self.commitllm_pin.as_str());
        match &self.key_hash {
            Some(k) => {
                s.append(", key_hash=");
                s.append(k.as_str());
            },
            None => {},
        }
        assert(s@ =~= identity_text(self@));
        s
    }
}

fn push_decimal_list(out: &mut String, xs: &Vec<u32>)
    ensures
        final(out)@ == old(out)@ + decimal_list(xs@),
{
    let ghost start = out@;
    out.append("[");
    let mut i: usize = 0;
    while i < xs.len()
        invariant
            i <= xs@.len(),
            out@ == start + "["@ + decimal_items(xs@.subrange(0, i as int)),
        decreases xs@.len() - i,
    {
        let ghost before = out@;
        if i > 0 {
            out.append(", ");
        }
        crate::text::push_decimal(out, xs[i] as u64);
        proof {
            let ys = xs@.subrange(0, i + 1);
            assert(ys.drop_last() =~= xs@.subrange(0, i as int));
            if i == 0 {
                assert(xs@.subrange(0, 0) =~= Seq::<u32>::empty());
            }
            assert(out@ =~= start + "["@ + decimal_items(ys));
        }
        i = i + 1;
    }
    assert(xs@.subrange(0, i as int) =~= xs@);
    out.append("]");
    assert(out@ =~= start + decimal_list(xs@));
}

impl ViError {
    /// Human-readable error message. `measured_text` and `tolerance_text` are
    /// the decimal renderings of `measured` and `tolerance`, which only the
    /// message of a numeric verification failure shows.
    pub fn message(&self, measured_text: &str, tolerance_text: &str) -> (s: String)
        ensures
            s@ == message_text(self@, measured_text@, tolerance_text@),
    {
        let mut s = String::new();
        match self {
            ViError::Input { arg, reason, .. } => {
                s.append("invalid input for ");
                s.append(arg.as_str());
                s.append(": ");
                s.append(reason.as_str());
            },
            ViError::Network { endpoint, kind, http_status } => {
                s.append("network error calling ");
                s.append(endpoint.as_str());
                s.append(": ");
                s.append(kind.as_str());
                match http_status {
                    Some(status) => {
                        s.append(" (HTTP ");
                        crate::text::push_decimal(&mut s, *status as u64);
                        s.append(")");
                    },
                    None => {},
                }
            },
            ViError::VerificationFailed { phase, measured, tolerance, .. } => {
                s.append("verification phase ");
                s.append(phase.as_str());
                if measured.is_some() && tolerance.is_some() {
                    s.append(" failed: measured ");
                    s.append(measured_text);
                    s.append(" exceeds tolerance ");
                    s.append(tolerance_text);
                } else {
                    s.append(" failed");
                }
            },
            ViError::IdentityMismatch { expected, actual } => {
                s.append("identity mismatch: expected ");
                let e = expected.to_text();
                s.append(e.as_str());
                s.append(", actual ");
                let a = actual.to_text();
                s.append(a.as_str());
            },
            ViError::UnknownVersion { envelope, field, value, supported } => {
                s.append("unsupported ");
                s.append(envelope);
                s.append(" ");
                s.append(field);
                s.append(" version ");
                crate::text::push_decimal(&mut s, *value as u64);
                s.append("; supported versions: ");
                push_decimal_list(&mut s, supported);
            },
            ViError::UnsupportedTier { requested, reason } => {
                s.append("unsupported tier ");
                s.append(requested.as_str());
                s.append(": ");
                s.append(reason.as_str());
            },
            ViError::CorruptEnvelope { envelope, offset, reason } => {
                s.append("corrupt ");
                s.append(envelope);
                s.append(" envelope at offset ");
                crate::text::push_decimal(&mut s, *offset as u64);
                s.append(": ");
                s.append(reason);
            },
            ViError::HashMismatch { expected, actual } => {
                s.append("hash mismatch: expected ");
                s.append(expected.as_str());
                s.append(", actual ");
                s.append(actual.as_str());
            },
            ViError::ReceiptMissing { endpoint, content_type } => {
                s.append("receipt missing from ");
                s.append(endpoint.as_str());
                s.append(" response with content type ");
                s.append(content_type.as_str());
            },
            ViError::Internal { .. } => {
                s.append("internal error");
            },
        }
        assert(s@ =~= message_text(self@, measured_text@, tolerance_text@));
        s
    }
}

// ----------------------------------------------------------------------------

/// The entries of a JSON object with their keys as character sequences.
pub open spec fn entries_view(v: Seq<(String, Detail)>) -> Seq<(Seq<char>, Detail)> {
    v.map_values(|e: (String, Detail)| (e.0@, e.1))
}

/// Whether an object's entries hold `key`.
pub open spec fn has_key(fields: Seq<(Seq<char>, Detail)>, key: Seq<char>) -> bool {
    exists|i: int| 0 <= i < fields.len() && #[trigger] fields[i].0 == key
}

/// `fields` extended by the entries of `extra` whose keys it does not yet hold.
pub open spec fn merge_entries(fields: Seq<(Seq<char>, Detail)>, extra: Seq<(Seq<char>, Detail)>) -> Seq<
    (Seq<char>, Detail),
>
    decreases extra.len(),
{
    if extra.len() == 0 {
        fields
    } else {
        let next = if has_key(fields, extra[0].0) {
            fields
        } else {
            fields.push(extra[0])
        };
        merge_entries(next, extra.drop_first())
    }
}

/// Entry `i` of `v` has key `key` and the string `s` as value.
pub open spec fn entry_str(v: Seq<(String, Detail)>, i: int, key: Seq<char>, s: Seq<char>) -> bool {
    v[i].0@ == key && detail_is_str(v[i].1, s)
}

/// Entry `i` of `v` has key `key` and value `val`.
pub open spec fn entry_eq(v: Seq<(String, Detail)>, i: int, key: Seq<char>, val: Detail) -> bool {
    v[i].0@ == key && v[i].1 == val
}

/// JSON of an optional small integer: the integer or `null`.
pub open spec fn opt_u16_detail(o: Option<u16>) -> Detail {
    match o {
        Some(x) => Detail::UInt(x as u64),
        None => Detail::Null,
    }
}

/// JSON of an optional double given by its bit pattern: the number or `null`.
pub open spec fn opt_float_detail(o: Option<u64>) -> Detail {
    match o {
        Some(x) => Detail::FloatBits(x),
        None => Detail::Null,
    }
}

/// JSON of an optional detail: the detail or `null`.
pub open spec fn opt_detail(o: Option<Detail>) -> Detail {
    match o {
        Some(x) => x,
        None => Detail::Null,
    }
}

/// Whether `d` is the JSON object of identity fields.
pub open spec fn is_identity_detail(d: Detail, i: IdentityView) -> bool {
    &&& d matches Detail::Object(v)
    &&& v@.len() == if i.key_hash is Some { 4int } else { 3int }
    &&& entry_str(v@, 0, "model_id"@, i.model_id)
    &&& entry_str(v@, 1, "checkpoint_hash"@, i.checkpoint_hash)
    &&& entry_str(v@, 2, "commitllm_pin"@, i.commitllm_pin)
    &&& i.key_hash matches Some(k) ==> entry_str(v@, 3, "key_hash"@, k)
}

/// Whether `d` is the JSON detail of an input error: `arg` and `reason`,
/// then the entries of an object detail under keys not yet present, or any
/// other detail under `detail`.
pub open spec fn is_input_detail(d: Detail, arg: String, reason: String, detail: Option<Detail>) -> bool {
    &&& d matches Detail::Object(v)
    &&& {
        let base = seq![("arg"@, Detail::Str(arg)), ("reason"@, Detail::Str(reason))];
        entries_view(v@) == match detail {
            Some(Detail::Object(extra)) => merge_entries(base, entries_view(extra@)),
            Some(other) => base.push(("detail"@, other)),
            None => base,
        }
    }
}

/// Whether `d` is the machine-readable JSON detail of error `e`.
pub open spec fn is_error_detail(d: Detail, e: ViError) -> bool {
    match e {
        ViError::Input { arg, reason, detail } => is_input_detail(d, arg, reason, detail),
        ViError::Network { endpoint, kind, http_status } => d matches Detail::Object(v)
            && v@.len() == 3 && entry_str(v@, 0, "endpoint"@, endpoint@) && entry_str(
            v@,
            1,
            "kind"@,
            network_kind_name(kind),
        ) && entry_eq(v@, 2, "http_status"@, opt_u16_detail(http_status)),
        ViError::VerificationFailed { phase, measured, tolerance, extra } => d matches Detail::Object(
            v,
        ) && v@.len() == 4 && entry_str(v@, 0, "phase"@, phase_name(phase)) && entry_eq(
            v@,
            1,
            "measured"@,
            opt_float_detail(measured),
        ) && entry_eq(v@, 2, "tolerance"@, opt_float_detail(tolerance)) && entry_eq(
            v@,
            3,
            "extra"@,
            opt_detail(extra),
        ),
        ViError::IdentityMismatch { expected, actual } => d matches Detail::Object(v) && v@.len()
            == 2 && v@[0].0@ == "expected"@ && is_identity_detail(v@[0].1, expected@) && v@[1].0@
            == "actual"@ && is_identity_detail(v@[1].1, actual@),
        ViError::UnknownVersion { envelope, field, value, supported } => d matches Detail::Object(
            v,
        ) && v@.len() == 4 && entry_str(v@, 0, "envelope"@, envelope@) && entry_str(
            v@,
            1,
            "field"@,
            field@,
        ) && entry_eq(v@, 2, "value"@, Detail::UInt(value as u64)) && v@[3].0@ == "supported"@
            && detail_is_u32s(v@[3].1, supported@),
        ViError::UnsupportedTier { requested, reason } => d matches Detail::Object(v) && v@.len()
            == 2 && entry_str(v@, 0, "requested_tier"@, requested@) && entry_str(
            v@,
            1,
            "reason"@,
            reason@,
        ),
        ViError::CorruptEnvelope { envelope, offset, reason } => d matches Detail::Object(v)
            && v@.len() == 3 && entry_str(v@, 0, "envelope"@, envelope@) && entry_eq(
            v@,
            1,
            "offset"@,
            Detail::UInt(offset as u64),
        ) && entry_str(v@, 2, "reason"@, reason@),
        ViError::HashMismatch { expected, actual } => d matches Detail::Object(v) && v@.len() == 2
            && entry_str(v@, 0, "expected"@, expected@) && entry_str(v@, 1, "actual"@, actual@),
        ViError::ReceiptMissing { endpoint, content_type } => d matches Detail::Object(v)
            && v@.len() == 3 && entry_str(v@, 0, "endpoint"@, endpoint@) && entry_str(
            v@,
            1,
            "content_type"@,
            content_type@,
        ) && entry_str(v@, 2, "expected"@, "multipart/mixed"@),
        ViError::Internal { backtrace } => d matches Detail::Object(v) && v@.len() == 1
            && entry_str(v@, 0, "backtrace"@, backtrace@),
    }
}

fn str_detail(s: &str) -> (d: Detail)
    ensures
        detail_is_str(d, s@),
{
    Detail::Str(s.to_owned())
}

fn contains_key(fields: &Vec<(String, Detail)>, key: &String) -> (r: bool)
    ensures
        r == has_key(entries_view(fields@), key@),
{
    let mut i: usize = 0;
    while i < fields.len()
        invariant
            i <= fields@.len(),
            forall|j: int| 0 <= j < i ==> fields@[j].0@ != key@,
        decreases fields@.len() - i,
    {
        if fields[i].0 == *key {
            assert(entries_view(fields@)[i as int].0 == key@);
            return true;
        }
        i = i + 1;
    }
    assert forall|j: int| 0 <= j < entries_view(fields@).len() implies #[trigger] entries_view(
        fields@,
    )[j].0 != key@ by {
        assert(fields@[j].0@ != key@);
    }
    false
}

fn input_detail(arg: String, reason: String, detail: Option<Detail>) -> (d: Detail)
    ensures
        is_input_detail(d, arg, reason, detail),
{
    let ghost base = seq![("arg"@, Detail::Str(arg)), ("reason"@, Detail::Str(reason))];
    let mut fields: Vec<(String, Detail)> = Vec::new();
    fields.push(("arg".to_owned(), Detail::Str(arg)));
    fields.push(("reason".to_owned(), Detail::Str(reason)));
    assert(entries_view(fields@) =~= base);
    match detail {
        Some(Detail::Object(extra)) => {
            let ghost all = entries_view(extra@);
            let mut extra = extra;
            while extra.len() > 0
                invariant
                    merge_entries(base, all) == merge_entries(
                        entries_view(fields@),
                        entries_view(extra@),
                    ),
                decreases extra@.len(),
            {
                let ghost before_fields = entries_view(fields@);
                let ghost before_extra = entries_view(extra@);
                let (key, value) = extra.remove(0);
                assert(entries_view(extra@) =~= before_extra.drop_first());
                if !contains_key(&fields, &key) {
                    fields.push((key, value));
                    assert(entries_view(fields@) =~= before_fields.push(before_extra[0]));
                }
            }
            assert(entries_view(extra@) =~= Seq::<(Seq<char>, Detail)>::empty());
        },
        Some(other) => {
            fields.push(("detail".to_owned(), other));
            assert(entries_view(fields@) =~= base.push(("detail"@, other)));
        },
        None => {},
    }
    Detail::Object(fields)
}

fn identity_detail(identity: &IdentityFields) -> (d: Detail)
    ensures
        is_identity_detail(d, identity@),
{
    let mut fields: Vec<(String, Detail)> = Vec::new();
    fields.push(("model_id".to_owned(), str_detail(identity.model_id.as_str())));
    fields.push(("checkpoint_hash".to_owned(), str_detail(identity.checkpoint_hash.as_str())));
    fields.push(("commitllm_pin".to_owned(), str_detail(identity.commitllm_pin.as_str())));
    match &identity.key_hash {
        Some(k) => fields.push(("key_hash".to_owned(), str_detail(k.as_str()))),
        None => {},
    }
    Detail::Object(fields)
}

/// The machine-readable JSON detail of an error, as its error envelope carries it.
pub fn error_detail(error: ViError) -> (d: Detail)
    ensures
        is_error_detail(d, error),
{
    let ghost e = error;
    let mut fields: Vec<(String, Detail)> = Vec::new();
    match error {
        ViError::Input { arg, reason, detail } => {
            return input_detail(arg, reason, detail);
        },
        ViError::Network { endpoint, kind, http_status } => {
            fields.push(("endpoint".to_owned(), Detail::Str(endpoint)));
            fields.push(("kind".to_owned(), str_detail(kind.as_str())));
            let status = match http_status {
                Some(s) => Detail::UInt(s as u64),
                None => Detail::Null,
            };
            fields.push(("http_status".to_owned(), status));
        },
        ViError::VerificationFailed { phase, measured, tolerance, extra } => {
            fields.push(("phase".to_owned(), str_detail(phase.as_str())));
            let m = match measured {
                Some(x) => Detail::FloatBits(x),
                None => Detail::Null,
            };
            fields.push(("measured".to_owned(), m));
            let t = match tolerance {
                Some(x) => Detail::FloatBits(x),
                None => Detail::Null,
            };
            fields.push(("tolerance".to_owned(), t));
            let x = match extra {
                Some(x) => x,
                None => Detail::Null,
            };
            fields.push(("extra".to_owned(), x));
        },
        ViError::IdentityMismatch { expected, actual } => {
            fields.push(("expected".to_owned(), identity_detail(&expected)));
            fields.push(("actual".to_owned(), identity_detail(&actual)));
        },
        ViError::UnknownVersion { envelope, field, value, supported } => {
            fields.push(("envelope".to_owned(), str_detail(envelope)));
            fields.push(("field".to_owned(), str_detail(field)));
            fields.push(("value".to_owned(), Detail::UInt(value as u64)));
            fields.push(("supported".to_owned(), detail_u32s(&supported)));
        },
        ViError::UnsupportedTier { requested, reason } => {
            fields.push(("requested_tier".to_owned(), Detail::Str(requested)));
            fields.push(("reason".to_owned(), Detail::Str(reason)));
        },
        ViError::CorruptEnvelope { envelope, offset, reason } => {
            fields.push(("envelope".to_owned(), str_detail(envelope)));
            fields.push(("offset".to_owned(), Detail::UInt(offset as u64)));
            fields.push(("reason".to_owned(), str_detail(reason)));
        },
        ViError::HashMismatch { expected, actual } => {
            fields.push(("expected".to_owned(), Detail::Str(expected)));
            fields.push(("actual".to_owned(), Detail::Str(actual)));
        },
        ViError::ReceiptMissing { endpoint, content_type } => {
            fields.push(("endpoint".to_owned(), Detail::Str(endpoint)));
            fields.push(("content_type".to_owned(), Detail::Str(content_type)));
            fields.push(("expected".to_owned(), str_detail("multipart/mixed")));
        },
        ViError::Internal { backtrace } => {
            fields.push(("backtrace".to_owned(), Detail::Str(backtrace)));
        },
    }
    Detail::Object(fields)
}

// ----------------------------------------------------------------------------

/// Stderr error envelope emitted by CLI boundaries.
#[derive(Debug, PartialEq)]
pub struct ErrorEnvelope<'a> {
    /// Always true for error envelopes.
    pub error: bool,
    /// Error envelope schema version.
    pub schema_version: u16,
    /// Subcommand that produced the error.
    pub subcommand: &'a str,
    /// Stable error category string.
    pub category: &'static str,
    /// Process exit code for this error.
    pub exit_code: i32,
    /// Human-readable error message.
    pub message: String,
    /// Category-specific machine-readable detail.
    pub detail: Detail,
    /// Canonical remediation hint for this error category.
    pub remediation: Option<&'static str>,
    /// Per-process trace identifier for log correlation.
    pub trace_id: &'a str,
}

impl<'a> ErrorEnvelope<'a> {
    /// Build an error envelope while preserving the caller's `trace_id`.
    /// `measured_text` and `tolerance_text` render the numbers of a numeric
    /// verification failure (see [`ViError::message`]).
    pub fn new(
        subcommand: &'a str,
        trace_id: &'a str,
        error: ViError,
        measured_text: &str,
        tolerance_text: &str,
    ) -> (env: ErrorEnvelope<'a>)
        ensures
            env.error,
            env.schema_version == 1,
            env.subcommand == subcommand,
            env.trace_id == trace_id,
            env.category@ == category_name(error@),
            env.exit_code == exit_code_of(error@),
            env.message@ == message_text(error@, measured_text@, tolerance_text@),
            is_error_detail(env.detail, error),
            env.remediation matches Some(r) && r@ == remediation_text(error@),
    {
        let category = error.category();
        let exit_code = error.exit_code();
        let message = error.message(measured_text, tolerance_text);
        let remediation = error.remediation();
        ErrorEnvelope {
            error: true,
            schema_version: ERROR_ENVELOPE_SCHEMA_VERSION,
            subcommand,
            category,
            exit_code,
            message,
            detail: error_detail(error),
            remediation: Some(remediation),
            trace_id,
        }
    }

    /// Build an error envelope with an empty subcommand and trace identifier.
    pub fn from_error(error: ViError, measured_text: &str, tolerance_text: &str) -> (env:
        ErrorEnvelope<'static>)
        ensures
            env.error,
            env.schema_version == 1,
            env.subcommand@ == Seq::<char>::empty(),
            env.trace_id@ == Seq::<char>::empty(),
            env.category@ == category_name(error@),
            env.exit_code == exit_code_of(error@),
            env.message@ == message_text(error@, measured_text@, tolerance_text@),
            is_error_detail(env.detail, error),
            env.remediation matches Some(r) && r@ == remediation_text(error@),
    {
        proof {
            reveal_strlit("");
        }
        ErrorEnvelope::new("", "", error, measured_text, tolerance_text)
    }
}

} // verus!
