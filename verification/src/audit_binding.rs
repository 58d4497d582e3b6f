//! Audit binding header (`VIAU` payloads) and the checks that bind an audit
//! opening to the receipt and challenge under verification.

use vstd::bytes::{
    spec_u16_to_le_bytes, spec_u32_to_le_bytes, spec_u64_to_le_bytes, u16_to_le_bytes,
    u32_to_le_bytes, u64_to_le_bytes,
};
use vstd::prelude::*;
use vstd::slice::slice_subrange;

use crate::binding::{
    announced_body_crc, check_frame, fits_u16, frame, frame_body, frame_len, framed, le_u32s,
    lemma_le_u32s_len, lemma_rd_string, lemma_rd_string_inverse, lemma_rd_u16,
    lemma_rd_u16_inverse, lemma_rd_u32s, lemma_rd_u32s_err, lemma_rd_u32s_inverse, lemma_rd_u64,
    lemma_rd_u64_inverse, lemma_rd_u8_inverse, lemma_unframe, lemma_unframe_crc_irrelevant,
    lemma_unframe_inverse, lp_string, rd_finish, rd_string,
    rd_u16, rd_u32s, rd_u64, rd_u8, string_too_long, unframe, write_string, BindingReader,
};
use crate::checksum::crc32c_checksum;
use crate::envelope::{unknown_version, unknown_version_error};
use crate::errors::{detail_is_str, detail_is_u32s, detail_u32s, Detail, PhaseId, ViError, ViErrorView};
use crate::text::{copy_u32s, decimal, extend_bytes, push_decimal, str_eq};

verus! {

/// Supported v1 audit binding schema version.
pub const AUDIT_SCHEMA_VERSION: u16 = 1;

/// Verifier-requested audit tier encoded in `VIAU` binding headers.
#[derive(Debug, Clone, Copy, PartialEq, Eq)]
pub enum AuditTier {
    /// Receipt-only verification; no audit opening required.
    ReceiptOnly,
    /// Routine verifier challenge.
    Routine,
    /// Deep verifier challenge.
    Deep,
    /// Full verifier challenge.
    Full,
}

/// The byte that encodes a tier.
pub open spec fn tier_byte(t: AuditTier) -> u8 {
    match t {
        AuditTier::ReceiptOnly => 0,
        AuditTier::Routine => 1,
        AuditTier::Deep => 2,
        AuditTier::Full => 3,
    }
}

/// The tier that a byte encodes, if any.
pub open spec fn tier_of_byte(b: u8) -> Option<AuditTier> {
    if b == 0 {
        Some(AuditTier::ReceiptOnly)
    } else if b == 1 {
        Some(AuditTier::Routine)
    } else if b == 2 {
        Some(AuditTier::Deep)
    } else if b == 3 {
        Some(AuditTier::Full)
    } else {
        None
    }
}

/// The public name of a tier.
pub open spec fn tier_name(t: AuditTier) -> Seq<char> {
    match t {
        AuditTier::ReceiptOnly => "receipt-only"@,
        AuditTier::Routine => "routine"@,
        AuditTier::Deep => "deep"@,
        AuditTier::Full => "full"@,
    }
}

/// The error that refuses an unknown tier byte.
pub open spec fn unknown_tier(b: u8) -> ViErrorView {
    ViErrorView::UnsupportedTier {
        requested: decimal(b as nat),
        reason: "unknown audit tier byte"@,
    }
}

impl AuditTier {
    /// Stable byte value used in `VIAU` binding headers.
    pub fn as_u8(self) -> (b: u8)
        ensures
            b == tier_byte(self),
    {
        match self {
            AuditTier::ReceiptOnly => 0,
            AuditTier::Routine => 1,
            AuditTier::Deep => 2,
            AuditTier::Full => 3,
        }
    }

    /// Stable tier name used by public APIs.
    pub fn as_str(self) -> (s: &'static str)
        ensures
            s@ == tier_name(self),
    {
        match self {
            AuditTier::ReceiptOnly => "receipt-only",
            AuditTier::Routine => "routine",
            AuditTier::Deep => "deep",
            AuditTier::Full => "full",
        }
    }

    /// The tier that a `VIAU` tier byte encodes.
    pub fn try_from(value: u8) -> (r: Result<AuditTier, ViError>)
        ensures
            match tier_of_byte(value) {
                Some(t) => r == Ok::<AuditTier, ViError>(t),
                None => r matches Err(e) && e@ == unknown_tier(value),
            },
    {
        if value == 0 {
            Ok(AuditTier::ReceiptOnly)
        } else if value == 1 {
            Ok(AuditTier::Routine)
        } else if value == 2 {
            Ok(AuditTier::Deep)
        } else if value == 3 {
            Ok(AuditTier::Full)
        } else {
            let mut requested = String::new();
            push_decimal(&mut requested, value as u64);
            Err(
                ViError::UnsupportedTier {
                    requested,
                    reason: "unknown audit tier byte".to_owned(),
                },
            )
        }
    }
}

/// Verifier challenge tuple that a `VIAU` audit opening must bind to.
#[derive(Debug, Clone, PartialEq, Eq)]
pub struct AuditChallenge {
    /// Requested audit tier.
    pub tier: AuditTier,
    /// Token position challenged by the verifier.
    pub token_index: u64,
    /// Layer indices opened by the provider for this challenge.
    pub layer_indices: Vec<u32>,
}

/// Abstract value of an [`AuditChallenge`].
pub struct AuditChallengeView {
    pub tier: AuditTier,
    pub token_index: u64,
    pub layer_indices: Seq<u32>,
}

impl View for AuditChallenge {
    type V = AuditChallengeView;

    open spec fn view(&self) -> AuditChallengeView {
        AuditChallengeView {
            tier: self.tier,
            token_index: self.token_index,
            layer_indices: self.layer_indices@,
        }
    }
}

impl AuditChallenge {
    /// Construct an audit challenge tuple.
    pub fn new(tier: AuditTier, token_index: u64, layer_indices: Vec<u32>) -> (c: AuditChallenge)
        ensures
            c@ == (AuditChallengeView { tier, token_index, layer_indices: layer_indices@ }),
    {
        AuditChallenge { tier, token_index, layer_indices }
    }
}

/// Audit binding header carried inside `VIAU` payloads.
#[derive(Debug, Clone, PartialEq, Eq)]
pub struct AuditBindingHeader {
    /// Audit binding schema version.
    pub audit_schema_version: u16,
    /// Hash of the `VIRC` receipt this audit opening belongs to.
    pub receipt_hash: String,
    /// Requested audit tier.
    pub tier: AuditTier,
    /// Token position challenged by the verifier.
    pub token_index: u64,
    /// Layer indices opened by the provider for this challenge.
    pub layer_indices: Vec<u32>,
}

/// Abstract value of an [`AuditBindingHeader`].
pub struct AuditBindingView {
    pub audit_schema_version: u16,
    pub receipt_hash: Seq<char>,
    pub tier: AuditTier,
    pub token_index: u64,
    pub layer_indices: Seq<u32>,
}

impl View for AuditBindingHeader {
    type V = AuditBindingView;

    open spec fn view(&self) -> AuditBindingView {
        AuditBindingView {
            audit_schema_version: self.audit_schema_version,
            receipt_hash: self.receipt_hash@,
            tier: self.tier,
            token_index: self.token_index,
            layer_indices: self.layer_indices@,
        }
    }
}

/// The challenge that an audit binding header binds.
pub open spec fn audit_challenge_of(h: AuditBindingView) -> AuditChallengeView {
    AuditChallengeView { tier: h.tier, token_index: h.token_index, layer_indices: h.layer_indices }
}

impl AuditBindingHeader {
    /// Construct a v1 audit binding header.
    pub fn new(receipt_hash: &str, tier: AuditTier, token_index: u64, layer_indices: Vec<u32>) -> (h:
        AuditBindingHeader)
        ensures
            h@ == (AuditBindingView {
                audit_schema_version: 1,
                receipt_hash: receipt_hash@,
                tier,
                token_index,
                layer_indices: layer_indices@,
            }),
    {
        AuditBindingHeader {
            audit_schema_version: AUDIT_SCHEMA_VERSION,
            receipt_hash: receipt_hash.to_owned(),
            tier,
            token_index,
            layer_indices,
        }
    }

    /// Challenge tuple bound by this audit opening.
    pub fn challenge(&self) -> (c: AuditChallenge)
        ensures
            c@ == audit_challenge_of(self@),
    {
        AuditChallenge::new(self.tier, self.token_index, copy_u32s(&self.layer_indices))
    }
}

/// The error that refuses more layer indices than a `u16` count can announce.
pub open spec fn too_many_layers() -> ViErrorView {
    ViErrorView::Input {
        arg: "layer_indices"@,
        reason: "layer index count exceeds u16 length prefix"@,
        detail: None,
    }
}

/// The body of an audit binding header.
pub open spec fn audit_body(h: AuditBindingView) -> Seq<u8> {
    spec_u16_to_le_bytes(h.audit_schema_version) + seq![tier_byte(h.tier)] + spec_u64_to_le_bytes(
        h.token_index,
    ) + spec_u16_to_le_bytes(h.layer_indices.len() as u16) + le_u32s(h.layer_indices) + lp_string(
        h.receipt_hash,
    )
}

/// The bytes of an audit binding header, or the error that refuses it.
pub open spec fn audit_binding_encoding(h: AuditBindingView) -> Result<Seq<u8>, ViErrorView> {
    if h.audit_schema_version != 1 {
        Err(unknown_version("VIAU"@, "audit_schema_version"@, h.audit_schema_version as u32))
    } else if h.layer_indices.len() > 0xffff {
        Err(too_many_layers())
    } else if !fits_u16(h.receipt_hash) {
        Err(string_too_long("receipt_hash"@))
    } else {
        Ok(framed(audit_body(h)))
    }
}

/// The audit binding header that a body encodes, or the error that refuses it.
pub open spec fn audit_body_decoding(body: Seq<u8>) -> Result<AuditBindingView, ViErrorView> {
    let env = "VIAU"@;
    match rd_u16(env, body, 0) {
        Err(e) => Err(e),
        Ok((ver, o1)) => if ver != 1 {
            Err(unknown_version(env, "audit_schema_version"@, ver as u32))
        } else {
            match rd_u8(env, body, o1) {
                Err(e) => Err(e),
                Ok((tb, o2)) => match tier_of_byte(tb) {
                    None => Err(unknown_tier(tb)),
                    Some(tier) => match rd_u64(env, body, o2) {
                        Err(e) => Err(e),
                        Ok((token_index, o3)) => match rd_u16(env, body, o3) {
                            Err(e) => Err(e),
                            Ok((count, o4)) => match rd_u32s(env, body, o4, count as nat) {
                                Err(e) => Err(e),
                                Ok((layer_indices, o5)) => match rd_string(env, body, o5) {
                                    Err(e) => Err(e),
                                    Ok((receipt_hash, o6)) => match rd_finish(env, body, o6) {
                                        Err(e) => Err(e),
                                        Ok(_) => Ok(
                                            AuditBindingView {
                                                audit_schema_version: ver,
                                                receipt_hash,
                                                tier,
                                                token_index,
                                                layer_indices,
                                            },
                                        ),
                                    },
                                },
                            },
                        },
                    },
                },
            }
        },
    }
}

/// The audit binding header at the start of `bytes` and its length, given
/// the checksum of the body that its prefix announces; or the error.
pub open spec fn audit_binding_decoding(bytes: Seq<u8>, body_crc: u32) -> Result<
    (AuditBindingView, usize),
    ViErrorView,
> {
    match unframe("VIAU"@, bytes, body_crc) {
        Err(e) => Err(e),
        Ok((body, end)) => match audit_body_decoding(body) {
            Err(e) => Err(e),
            Ok(h) => Ok((h, end)),
        },
    }
}

/// Encode a v1 `VIAU` audit binding header.
///
/// Layout:
/// `[body_len:u32le][body_crc32c:u32le][audit_schema_version:u16le]`
/// `[tier:u8][token_index:u64le][layer_count:u16le][layer_index:u32le]*`
/// followed by `receipt_hash` as `[len:u16le][utf8 bytes]`.
pub fn encode_audit_binding_header(header: &AuditBindingHeader) -> (r: Result<Vec<u8>, ViError>)
    ensures
        crate::errors::outcome(r) == audit_binding_encoding(header@),
{
    if header.audit_schema_version != AUDIT_SCHEMA_VERSION {
        return Err(
            unknown_version_error(
                "VIAU",
                "audit_schema_version",
                header.audit_schema_version as u32,
            ),
        );
    }
    if header.layer_indices.len() > 0xffff {
        return Err(
            ViError::Input {
                arg: "layer_indices".to_owned(),
                reason: "layer index count exceeds u16 length prefix".to_owned(),
                detail: None,
            },
        );
    }
    let layer_count = header.layer_indices.len() as u16;
    let mut body: Vec<u8> = Vec::new();
    let ver = u16_to_le_bytes(header.audit_schema_version);
    extend_bytes(&mut body, ver.as_slice());
    body.push(header.tier.as_u8());
    let token = u64_to_le_bytes(header.token_index);
    extend_bytes(&mut body, token.as_slice());
    let count = u16_to_le_bytes(layer_count);
    extend_bytes(&mut body, count.as_slice());
    let ghost start = body@;
    let mut i: usize = 0;
    while i < header.layer_indices.len()
        invariant
            i <= header.layer_indices@.len(),
            body@ == start + le_u32s(header.layer_indices@.subrange(0, i as int)),
        decreases header.layer_indices@.len() - i,
    {
        let le = u32_to_le_bytes(header.layer_indices[i]);
        extend_bytes(&mut body, le.as_slice());
        proof {
            let xs = header.layer_indices@.subrange(0, i + 1);
            assert(xs.drop_last() =~= header.layer_indices@.subrange(0, i as int));
        }
        i = i + 1;
    }
    assert(header.layer_indices@.subrange(0, i as int) =~= header.layer_indices@);
    match write_string(&mut body, "receipt_hash", header.receipt_hash.as_str()) {
        Ok(()) => {},
        Err(e) => return Err(e),
    }
    assert(body@ =~= audit_body(header@));
    proof {
        vstd::bytes::lemma_auto_spec_u16_to_from_le_bytes();
        vstd::bytes::lemma_auto_spec_u64_to_from_le_bytes();
        lemma_le_u32s_len(header.layer_indices@);
    }
    assert(body@.len() <= u32::MAX);
    Ok(frame(&body))
}

/// Decode a v1 `VIAU` audit binding header, given the CRC-32C checksum of the
/// body that its prefix announces; return the header and its byte length.
#[verifier::loop_isolation(false)]
pub fn decode_audit_binding_header_with_checksum(bytes: &[u8], body_crc: u32) -> (r: Result<
    (AuditBindingHeader, usize),
    ViError,
>)
    ensures
        crate::errors::outcome(r) == audit_binding_decoding(bytes@, body_crc),
{
    let (body, body_end) = match check_frame("VIAU", bytes, body_crc) {
        Ok(found) => found,
        Err(e) => return Err(e),
    };
    let mut reader = BindingReader::new("VIAU", body);
    let audit_schema_version = match reader.read_u16() {
        Ok(v) => v,
        Err(e) => return Err(e),
    };
    if audit_schema_version != AUDIT_SCHEMA_VERSION {
        return Err(
            unknown_version_error("VIAU", "audit_schema_version", audit_schema_version as u32),
        );
    }
    let tier_byte = match reader.read_u8() {
        Ok(v) => v,
        Err(e) => return Err(e),
    };
    let tier = match AuditTier::try_from(tier_byte) {
        Ok(t) => t,
        Err(e) => return Err(e),
    };
    let token_index = match reader.read_u64() {
        Ok(v) => v,
        Err(e) => return Err(e),
    };
    let layer_count = match reader.read_u16() {
        Ok(v) => v,
        Err(e) => return Err(e),
    };
    let ghost env = "VIAU"@;
    let ghost start = reader.offset as int;
    let mut layer_indices: Vec<u32> = Vec::new();
    let mut i: u16 = 0;
    while i < layer_count
        invariant
            i <= layer_count,
            env == "VIAU"@,
            reader.envelope == "VIAU",
            reader.bytes@ == body@,
            rd_u32s(env, body@, start, i as nat) == Ok::<(Seq<u32>, int), ViErrorView>(
                (layer_indices@, reader.offset as int),
            ),
        decreases layer_count - i,
    {
        let v = match reader.read_u32() {
            Ok(v) => v,
            Err(e) => {
                proof {
                    assert((((i + 1) as nat) - 1) as nat == i as nat);
                    reveal_with_fuel(rd_u32s, 2);
                    assert(rd_u32s(env, body@, start, (i + 1) as nat) == Err::<
                        (Seq<u32>, int),
                        ViErrorView,
                    >(e@));
                    lemma_rd_u32s_err(env, body@, start, (i + 1) as nat, layer_count as nat);
                }
                return Err(e);
            },
        };
        layer_indices.push(v);
        i = i + 1;
    }
    let receipt_hash = match reader.read_string() {
        Ok(v) => v,
        Err(e) => return Err(e),
    };
    match reader.finish() {
        Ok(()) => {},
        Err(e) => return Err(e),
    }
    Ok(
        (
            AuditBindingHeader {
                audit_schema_version,
                receipt_hash,
                tier,
                token_index,
                layer_indices,
            },
            body_end,
        ),
    )
}

/// Decode a v1 `VIAU` audit binding header and return its consumed byte length.
pub fn decode_audit_binding_header(bytes: &[u8]) -> (r: Result<(AuditBindingHeader, usize), ViError>)
    ensures
        crate::errors::outcome(r) == audit_binding_decoding(
            bytes@,
            crc32c_checksum(frame_body(bytes@)),
        ),
{
    let crc = announced_body_crc(bytes);
    proof {
        if !(bytes@.len() >= 8 && 8 + frame_len(bytes@) <= bytes@.len()) {
            lemma_unframe_crc_irrelevant("VIAU"@, bytes@, crc, crc32c_checksum(frame_body(bytes@)));
        }
    }
    decode_audit_binding_header_with_checksum(bytes, crc)
}

/// Prefix opaque `CommitLLM` audit bytes with an audit binding header.
pub fn encode_viau_payload(header: &AuditBindingHeader, commitllm_audit: &[u8]) -> (r: Result<
    Vec<u8>,
    ViError,
>)
    ensures
        crate::errors::outcome(r) == match audit_binding_encoding(header@) {
            Ok(b) => Ok::<Seq<u8>, ViErrorView>(b + commitllm_audit@),
            Err(e) => Err(e),
        },
{
    let mut payload = match encode_audit_binding_header(header) {
        Ok(p) => p,
        Err(e) => return Err(e),
    };
    extend_bytes(&mut payload, commitllm_audit);
    Ok(payload)
}

/// Split a `VIAU` payload into its binding header and opaque `CommitLLM` audit bytes.
pub fn decode_viau_payload(payload: &[u8]) -> (r: Result<(AuditBindingHeader, &[u8]), ViError>)
    ensures
        crate::errors::outcome(r) == match audit_binding_decoding(
            payload@,
            crc32c_checksum(frame_body(payload@)),
        ) {
            Ok((h, end)) => Ok::<(AuditBindingView, Seq<u8>), ViErrorView>(
                (h, payload@.subrange(end as int, payload@.len() as int)),
            ),
            Err(e) => Err(e),
        },
{
    match decode_audit_binding_header(payload) {
        Ok((header, consumed)) => Ok((header, slice_subrange(payload, consumed, payload.len()))),
        Err(e) => Err(e),
    }
}

/// Ensure an audit opening belongs to the receipt currently under verification.
pub fn check_audit_receipt_hash(audit: &AuditBindingHeader, expected_receipt_hash: &str) -> (r:
    Result<(), ViError>)
    ensures
        r is Ok <==> audit@.receipt_hash == expected_receipt_hash@,
        r matches Err(e) ==> e@ == (ViErrorView::HashMismatch {
            expected: expected_receipt_hash@,
            actual: audit@.receipt_hash,
        }),
{
    if str_eq(audit.receipt_hash.as_str(), expected_receipt_hash) {
        Ok(())
    } else {
        Err(
            ViError::HashMismatch {
                expected: expected_receipt_hash.to_owned(),
                actual: audit.receipt_hash.clone(),
            },
        )
    }
}

/// Whether `d` is the JSON description `{tier, token_index, layer_indices}` of a challenge.
pub open spec fn is_challenge_detail(d: Detail, c: AuditChallengeView) -> bool {
    &&& d matches Detail::Object(fields)
    &&& fields@.len() == 3
    &&& fields@[0].0@ == "tier"@ && detail_is_str(fields@[0].1, tier_name(c.tier))
    &&& fields@[1].0@ == "token_index"@ && fields@[1].1 == Detail::UInt(c.token_index)
    &&& fields@[2].0@ == "layer_indices"@ && detail_is_u32s(fields@[2].1, c.layer_indices)
}

/// Whether `d` is the JSON object `{expected, actual}` of two challenges.
pub open spec fn is_challenge_mismatch_detail(
    d: Detail,
    expected: AuditChallengeView,
    actual: AuditChallengeView,
) -> bool {
    &&& d matches Detail::Object(fields)
    &&& fields@.len() == 2
    &&& fields@[0].0@ == "expected"@ && is_challenge_detail(fields@[0].1, expected)
    &&& fields@[1].0@ == "actual"@ && is_challenge_detail(fields@[1].1, actual)
}

/// The error that refuses an audit opening bound to another challenge.
pub open spec fn is_challenge_mismatch_error(
    e: ViErrorView,
    expected: AuditChallengeView,
    actual: AuditChallengeView,
) -> bool {
    &&& e matches ViErrorView::VerificationFailed { phase, measured, tolerance, extra }
    &&& phase == PhaseId::KvProvenance
    &&& measured is None
    &&& tolerance is None
    &&& extra matches Some(d)
    &&& is_challenge_mismatch_detail(d, expected, actual)
}

fn audit_challenge_detail(challenge: &AuditChallenge) -> (d: Detail)
    ensures
        is_challenge_detail(d, challenge@),
{
    let mut fields: Vec<(String, Detail)> = Vec::new();
    fields.push(("tier".to_owned(), Detail::Str(challenge.tier.as_str().to_owned())));
    fields.push(("token_index".to_owned(), Detail::UInt(challenge.token_index)));
    fields.push(("layer_indices".to_owned(), detail_u32s(&challenge.layer_indices)));
    proof {
        reveal_strlit("tier");
        reveal_strlit("token_index");
        reveal_strlit("layer_indices");
    }
    Detail::Object(fields)
}

fn challenge_mismatch_detail(expected: &AuditChallenge, actual: &AuditChallenge) -> (d: Detail)
    ensures
        is_challenge_mismatch_detail(d, expected@, actual@),
{
    let mut fields: Vec<(String, Detail)> = Vec::new();
    fields.push(("expected".to_owned(), audit_challenge_detail(expected)));
    fields.push(("actual".to_owned(), audit_challenge_detail(actual)));
    Detail::Object(fields)
}

fn same_u32s(a: &Vec<u32>, b: &Vec<u32>) -> (r: bool)
    ensures
        r == (a@ == b@),
{
    if a.len() != b.len() {
        return false;
    }
    let mut i: usize = 0;
    while i < a.len()
        invariant
            a@.len() == b@.len(),
            i <= a@.len(),
            a@.subrange(0, i as int) == b@.subrange(0, i as int),
        decreases a@.len() - i,
    {
        if a[i] != b[i] {
            assert(a@[i as int] != b@[i as int]);
            return false;
        }
        assert(a@.subrange(0, i + 1) =~= a@.subrange(0, i as int).push(a@[i as int]));
        assert(b@.subrange(0, i + 1) =~= b@.subrange(0, i as int).push(b@[i as int]));
        i = i + 1;
    }
    assert(a@ =~= a@.subrange(0, i as int));
    assert(b@ =~= b@.subrange(0, i as int));
    true
}

/// Ensure an audit opening binds to the verifier-requested challenge tuple.
pub fn check_audit_challenge(audit: &AuditBindingHeader, expected: &AuditChallenge) -> (r: Result<
    (),
    ViError,
>)
    ensures
        r is Ok <==> audit_challenge_of(audit@) == expected@,
        r matches Err(e) ==> is_challenge_mismatch_error(e@, expected@, audit_challenge_of(audit@)),
{
    let actual = audit.challenge();
    if actual.tier.as_u8() == expected.tier.as_u8() && actual.token_index == expected.token_index
        && same_u32s(&actual.layer_indices, &expected.layer_indices) {
        Ok(())
    } else {
        Err(
            ViError::VerificationFailed {
                phase: PhaseId::KvProvenance,
                measured: None,
                tolerance: None,
                extra: Some(challenge_mismatch_detail(expected, &actual)),
            },
        )
    }
}

/// Audit binding headers have one encoding: the bytes from which a header is
/// decoded are exactly the bytes that encoding that header gives.
pub proof fn lemma_audit_binding_canonical(bytes: Seq<u8>)
    requires
        audit_binding_decoding(bytes, crc32c_checksum(frame_body(bytes))) is Ok,
    ensures
        ({
            let (h, end) = audit_binding_decoding(bytes, crc32c_checksum(frame_body(bytes)))->Ok_0;
            audit_binding_encoding(h) == Ok::<Seq<u8>, ViErrorView>(bytes.subrange(0, end as int))
        }),
{
    let env = "VIAU"@;
    lemma_unframe_inverse(env, bytes);
    let (body, end) = unframe(env, bytes, crc32c_checksum(frame_body(bytes)))->Ok_0;
    lemma_rd_u16_inverse(env, body, 0);
    let (ver, o1) = rd_u16(env, body, 0)->Ok_0;
    lemma_rd_u8_inverse(env, body, o1);
    let (tb, o2) = rd_u8(env, body, o1)->Ok_0;
    lemma_rd_u64_inverse(env, body, o2);
    let (token_index, o3) = rd_u64(env, body, o2)->Ok_0;
    lemma_rd_u16_inverse(env, body, o3);
    let (count, o4) = rd_u16(env, body, o3)->Ok_0;
    lemma_rd_u32s_inverse(env, body, o4, count as nat);
    let (layers, o5) = rd_u32s(env, body, o4, count as nat)->Ok_0;
    lemma_rd_string_inverse(env, body, o5);
    let (receipt_hash, o6) = rd_string(env, body, o5)->Ok_0;
    let h = audit_body_decoding(body)->Ok_0;
    assert(tier_byte(h.tier) == tb);
    assert(h.layer_indices.len() as u16 == count);
    assert(body =~= body.subrange(0, o1) + body.subrange(o1, o2) + body.subrange(o2, o3)
        + body.subrange(o3, o4) + body.subrange(o4, o5) + body.subrange(o5, o6));
    assert(audit_body(h) == body);
}

/// Decoding an audit binding header gives back every header that encoding
/// accepts, with the opaque audit bytes that follow it.
pub proof fn lemma_audit_binding_round_trip(h: AuditBindingView, rest: Seq<u8>)
    requires
        audit_binding_encoding(h) is Ok,
    ensures
        ({
            let bytes = audit_binding_encoding(h)->Ok_0 + rest;
            audit_binding_decoding(bytes, crc32c_checksum(frame_body(bytes))) == Ok::<
                (AuditBindingView, usize),
                ViErrorView,
            >((h, audit_binding_encoding(h)->Ok_0.len() as usize))
        }),
{
    let a = spec_u16_to_le_bytes(h.audit_schema_version);
    let t = seq![tier_byte(h.tier)];
    let b = spec_u64_to_le_bytes(h.token_index);
    let c = spec_u16_to_le_bytes(h.layer_indices.len() as u16);
    let l = le_u32s(h.layer_indices);
    let s = lp_string(h.receipt_hash);
    let body = audit_body(h);
    vstd::bytes::lemma_auto_spec_u16_to_from_le_bytes();
    vstd::bytes::lemma_auto_spec_u64_to_from_le_bytes();
    vstd::bytes::lemma_auto_spec_u32_to_from_le_bytes();
    lemma_le_u32s_len(h.layer_indices);
    lemma_unframe("VIAU"@, body, rest);
    let env = "VIAU"@;
    let empty = Seq::<u8>::empty();
    assert(body =~= empty + a + (t + b + c + l + s));
    lemma_rd_u16(env, empty, h.audit_schema_version, t + b + c + l + s);
    assert(body.subrange(2, 3) =~= t);
    assert(body =~= (a + t) + b + (c + l + s));
    lemma_rd_u64(env, a + t, h.token_index, c + l + s);
    assert(body =~= (a + t + b) + c + (l + s));
    lemma_rd_u16(env, a + t + b, h.layer_indices.len() as u16, l + s);
    assert(body =~= (a + t + b + c) + l + s);
    lemma_rd_u32s(env, a + t + b + c, h.layer_indices, s);
    assert(body =~= (a + t + b + c + l) + s + empty);
    lemma_rd_string(env, a + t + b + c + l, h.receipt_hash, empty);
    assert(audit_body_decoding(body) == Ok::<AuditBindingView, ViErrorView>(h));
    assert(framed(body).len() == 8 + body.len());
}


/// Tier bytes number the tiers from 0 in order of audit depth: receipt-only,
/// routine, deep, full; and a byte decodes to the tier that it numbers,
/// exactly when it is one of these four.
pub proof fn lemma_tier_bytes_follow_depth()
    ensures
        tier_byte(AuditTier::ReceiptOnly) < tier_byte(AuditTier::Routine) < tier_byte(AuditTier::Deep)
            < tier_byte(AuditTier::Full) <= 3,
        forall|b: u8| #[trigger] tier_of_byte(b) is Some <==> b <= 3,
        forall|b: u8| #[trigger] tier_of_byte(b) matches Some(t) ==> tier_byte(t) == b,
{
}

/// The tier byte of an audit binding header sits right after the length,
/// checksum and schema version: at offset 10 of the encoding.
pub proof fn lemma_audit_tier_byte_position(h: AuditBindingView)
    requires
        audit_binding_encoding(h) is Ok,
    ensures
        audit_binding_encoding(h)->Ok_0[10] == tier_byte(h.tier),
{
    vstd::bytes::lemma_auto_spec_u16_to_from_le_bytes();
    vstd::bytes::lemma_auto_spec_u32_to_from_le_bytes();
    let body = audit_body(h);
    assert(body[2] == tier_byte(h.tier));
    assert(framed(body)[10] == body[2]);
}

} // verus!
