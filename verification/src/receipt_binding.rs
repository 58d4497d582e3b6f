//! Receipt binding header (`VIRC` payloads).

use vstd::bytes::{spec_u16_to_le_bytes, spec_u64_to_le_bytes, u16_to_le_bytes, u64_to_le_bytes};
use vstd::prelude::*;
use vstd::slice::slice_subrange;

use crate::binding::{
    all_fit_u16, announced_body_crc, check_frame, fits_u16, frame, frame_body, framed, frame_len,
    lemma_lp_strings_len, lemma_rd_strings, lemma_rd_strings_err, lemma_rd_strings_inverse,
    lemma_rd_u16, lemma_rd_u16_inverse, lemma_rd_u64, lemma_rd_u64_inverse, lemma_unframe,
    lemma_unframe_crc_irrelevant, lemma_unframe_inverse, lp_string, lp_strings, rd_finish, rd_string,
    rd_strings, rd_u16, rd_u64, string_too_long, unframe, write_string, BindingReader,
};
use crate::checksum::crc32c_checksum;
use crate::envelope::{unknown_version, unknown_version_error};
use crate::errors::{IdentityFields, IdentityView, ViError, ViErrorView};
use crate::key_binding::{check_identity, key_identity, KeyBindingHeader};
use crate::text::extend_bytes;

verus! {

/// Supported v1 receipt binding schema version.
pub const RECEIPT_SCHEMA_VERSION: u16 = 1;

/// Receipt identity binding header carried inside `VIRC` payloads.
#[derive(Debug, Clone, PartialEq, Eq)]
pub struct ReceiptBindingHeader {
    /// Receipt binding schema version.
    pub receipt_schema_version: u16,
    /// Public model identifier.
    pub model_id: String,
    /// Canonical checkpoint hash.
    pub checkpoint_hash: String,
    /// Pinned upstream `CommitLLM` short revision.
    pub commitllm_pin: String,
    /// Hash of the verifier key envelope expected for this receipt.
    pub key_hash: String,
    /// Hash of canonical prompt bytes or prompt representation.
    pub prompt_hash: String,
    /// Hash of delivered answer bytes.
    pub answer_hash: String,
    /// Number of generated tokens bound by the receipt.
    pub generated_token_count: u64,
}

/// Abstract value of a [`ReceiptBindingHeader`].
pub struct ReceiptBindingView {
    pub receipt_schema_version: u16,
    pub model_id: Seq<char>,
    pub checkpoint_hash: Seq<char>,
    pub commitllm_pin: Seq<char>,
    pub key_hash: Seq<char>,
    pub prompt_hash: Seq<char>,
    pub answer_hash: Seq<char>,
    pub generated_token_count: u64,
}

impl View for ReceiptBindingHeader {
    type V = ReceiptBindingView;

    open spec fn view(&self) -> ReceiptBindingView {
        ReceiptBindingView {
            receipt_schema_version: self.receipt_schema_version,
            model_id: self.model_id@,
            checkpoint_hash: self.checkpoint_hash@,
            commitllm_pin: self.commitllm_pin@,
            key_hash: self.key_hash@,
            prompt_hash: self.prompt_hash@,
            answer_hash: self.answer_hash@,
            generated_token_count: self.generated_token_count,
        }
    }
}

/// The identity that a receipt binds.
pub open spec fn receipt_identity(h: ReceiptBindingView) -> IdentityView {
    IdentityView {
        model_id: h.model_id,
        checkpoint_hash: h.checkpoint_hash,
        commitllm_pin: h.commitllm_pin,
        key_hash: None,
    }
}

impl ReceiptBindingHeader {
    /// Construct a v1 receipt binding header.
    pub fn new(
        model_id: &str,
        checkpoint_hash: &str,
        commitllm_pin: &str,
        key_hash: &str,
        prompt_hash: &str,
        answer_hash: &str,
        generated_token_count: u64,
    ) -> (h: ReceiptBindingHeader)
        ensures
            h@ == (ReceiptBindingView {
                receipt_schema_version: 1,
                model_id: model_id@,
                checkpoint_hash: checkpoint_hash@,
                commitllm_pin: commitllm_pin@,
                key_hash: key_hash@,
                prompt_hash: prompt_hash@,
                answer_hash: answer_hash@,
                generated_token_count,
            }),
    {
        ReceiptBindingHeader {
            receipt_schema_version: RECEIPT_SCHEMA_VERSION,
            model_id: model_id.to_owned(),
            checkpoint_hash: checkpoint_hash.to_owned(),
            commitllm_pin: commitllm_pin.to_owned(),
            key_hash: key_hash.to_owned(),
            prompt_hash: prompt_hash.to_owned(),
            answer_hash: answer_hash.to_owned(),
            generated_token_count,
        }
    }

    /// Identity fields shared with verifier keys for cross-binding checks.
    pub fn identity_fields(&self) -> (i: IdentityFields)
        ensures
            i@ == receipt_identity(self@),
    {
        IdentityFields::new(
            self.model_id.as_str(),
            self.checkpoint_hash.as_str(),
            self.commitllm_pin.as_str(),
        )
    }
}

/// The strings of a receipt binding header, in wire order.
pub open spec fn receipt_strings(h: ReceiptBindingView) -> Seq<Seq<char>> {
    seq![h.model_id, h.checkpoint_hash, h.commitllm_pin, h.key_hash, h.prompt_hash, h.answer_hash]
}

/// The body of a receipt binding header.
pub open spec fn receipt_body(h: ReceiptBindingView) -> Seq<u8> {
    spec_u16_to_le_bytes(h.receipt_schema_version) + spec_u64_to_le_bytes(h.generated_token_count)
        + lp_strings(receipt_strings(h))
}

/// The bytes of a receipt binding header, or the error that refuses it.
pub open spec fn receipt_binding_encoding(h: ReceiptBindingView) -> Result<Seq<u8>, ViErrorView> {
    if h.receipt_schema_version != 1 {
        Err(unknown_version("VIRC"@, "receipt_schema_version"@, h.receipt_schema_version as u32))
    } else if !fits_u16(h.model_id) {
        Err(string_too_long("model_id"@))
    } else if !fits_u16(h.checkpoint_hash) {
        Err(string_too_long("checkpoint_hash"@))
    } else if !fits_u16(h.commitllm_pin) {
        Err(string_too_long("commitllm_pin"@))
    } else if !fits_u16(h.key_hash) {
        Err(string_too_long("key_hash"@))
    } else if !fits_u16(h.prompt_hash) {
        Err(string_too_long("prompt_hash"@))
    } else if !fits_u16(h.answer_hash) {
        Err(string_too_long("answer_hash"@))
    } else {
        Ok(framed(receipt_body(h)))
    }
}

/// The receipt binding header that a body encodes, or the error that refuses it.
pub open spec fn receipt_body_decoding(body: Seq<u8>) -> Result<ReceiptBindingView, ViErrorView> {
    let env = "VIRC"@;
    match rd_u16(env, body, 0) {
        Err(e) => Err(e),
        Ok((ver, o1)) => if ver != 1 {
            Err(unknown_version(env, "receipt_schema_version"@, ver as u32))
        } else {
            match rd_u64(env, body, o1) {
                Err(e) => Err(e),
                Ok((count, o2)) => match rd_strings(env, body, o2, 6) {
                    Err(e) => Err(e),
                    Ok((ss, o3)) => match rd_finish(env, body, o3) {
                        Err(e) => Err(e),
                        Ok(_) => Ok(
                            ReceiptBindingView {
                                receipt_schema_version: ver,
                                model_id: ss[0],
                                checkpoint_hash: ss[1],
                                commitllm_pin: ss[2],
                                key_hash: ss[3],
                                prompt_hash: ss[4],
                                answer_hash: ss[5],
                                generated_token_count: count,
                            },
                        ),
                    },
                },
            }
        },
    }
}

/// The receipt binding header at the start of `bytes` and its length, given
/// the checksum of the body that its prefix announces; or the error.
pub open spec fn receipt_binding_decoding(bytes: Seq<u8>, body_crc: u32) -> Result<
    (ReceiptBindingView, usize),
    ViErrorView,
> {
    match unframe("VIRC"@, bytes, body_crc) {
        Err(e) => Err(e),
        Ok((body, end)) => match receipt_body_decoding(body) {
            Err(e) => Err(e),
            Ok(h) => Ok((h, end)),
        },
    }
}

/// Encode a v1 `VIRC` receipt binding header.
///
/// Layout:
/// `[body_len:u32le][body_crc32c:u32le][receipt_schema_version:u16le]`
/// `[generated_token_count:u64le]` followed by `model_id`, `checkpoint_hash`,
/// `commitllm_pin`, `key_hash`, `prompt_hash`, and `answer_hash` as
/// `[len:u16le][utf8 bytes]`.
pub fn encode_receipt_binding_header(header: &ReceiptBindingHeader) -> (r: Result<Vec<u8>, ViError>)
    ensures
        crate::errors::outcome(r) == receipt_binding_encoding(header@),
{
    if header.receipt_schema_version != RECEIPT_SCHEMA_VERSION {
        return Err(
            unknown_version_error(
                "VIRC",
                "receipt_schema_version",
                header.receipt_schema_version as u32,
            ),
        );
    }
    let mut body: Vec<u8> = Vec::new();
    let ver = u16_to_le_bytes(header.receipt_schema_version);
    extend_bytes(&mut body, ver.as_slice());
    let count = u64_to_le_bytes(header.generated_token_count);
    extend_bytes(&mut body, count.as_slice());
    match write_string(&mut body, "model_id", header.model_id.as_str()) {
        Ok(()) => {},
        Err(e) => return Err(e),
    }
    match write_string(&mut body, "checkpoint_hash", header.checkpoint_hash.as_str()) {
        Ok(()) => {},
        Err(e) => return Err(e),
    }
    match write_string(&mut body, "commitllm_pin", header.commitllm_pin.as_str()) {
        Ok(()) => {},
        Err(e) => return Err(e),
    }
    match write_string(&mut body, "key_hash", header.key_hash.as_str()) {
        Ok(()) => {},
        Err(e) => return Err(e),
    }
    match write_string(&mut body, "prompt_hash", header.prompt_hash.as_str()) {
        Ok(()) => {},
        Err(e) => return Err(e),
    }
    match write_string(&mut body, "answer_hash", header.answer_hash.as_str()) {
        Ok(()) => {},
        Err(e) => return Err(e),
    }
    proof {
        reveal_with_fuel(lp_strings, 7);
        let ss = receipt_strings(header@);
        assert(lp_strings(ss) =~= lp_string(ss[0]) + lp_string(ss[1]) + lp_string(ss[2])
            + lp_string(ss[3]) + lp_string(ss[4]) + lp_string(ss[5])) by {
            assert(ss.drop_last().drop_last().drop_last().drop_last().drop_last().drop_last()
                =~= Seq::<Seq<char>>::empty());
        }
        assert(body@ =~= receipt_body(header@));
        vstd::bytes::lemma_auto_spec_u16_to_from_le_bytes();
        vstd::bytes::lemma_auto_spec_u64_to_from_le_bytes();
        assert(all_fit_u16(ss));
        lemma_lp_strings_len(ss);
    }
    assert(body@.len() <= u32::MAX);
    Ok(frame(&body))
}

/// Decode a v1 `VIRC` receipt binding header, given the CRC-32C checksum of
/// the body that its prefix announces; return the header and its byte length.
#[verifier::loop_isolation(false)]
pub fn decode_receipt_binding_header_with_checksum(bytes: &[u8], body_crc: u32) -> (r: Result<
    (ReceiptBindingHeader, usize),
    ViError,
>)
    ensures
        crate::errors::outcome(r) == receipt_binding_decoding(bytes@, body_crc),
{
    let (body, body_end) = match check_frame("VIRC", bytes, body_crc) {
        Ok(found) => found,
        Err(e) => return Err(e),
    };
    let mut reader = BindingReader::new("VIRC", body);
    let receipt_schema_version = match reader.read_u16() {
        Ok(v) => v,
        Err(e) => return Err(e),
    };
    if receipt_schema_version != RECEIPT_SCHEMA_VERSION {
        return Err(
            unknown_version_error("VIRC", "receipt_schema_version", receipt_schema_version as u32),
        );
    }
    let generated_token_count = match reader.read_u64() {
        Ok(v) => v,
        Err(e) => return Err(e),
    };
    let ghost env = "VIRC"@;
    let ghost start = reader.offset as int;
    let mut strings: Vec<String> = Vec::new();
    let mut i: usize = 0;
    assert(strings@.map_values(|s: String| s@) =~= Seq::<Seq<char>>::empty());
    while i < 6
        invariant
            i <= 6,
            env == "VIRC"@,
            reader.envelope == "VIRC",
            reader.bytes@ == body@,
            strings@.len() == i,
            rd_strings(env, body@, start, i as nat) == Ok::<(Seq<Seq<char>>, int), ViErrorView>(
                (strings@.map_values(|s: String| s@), reader.offset as int),
            ),
        decreases 6 - i,
    {
        let s = match reader.read_string() {
            Ok(v) => v,
            Err(e) => {
                proof {
                    assert((((i + 1) as nat) - 1) as nat == i as nat);
                    reveal_with_fuel(rd_strings, 2);
                    assert(rd_strings(env, body@, start, (i + 1) as nat) == Err::<
                        (Seq<Seq<char>>, int),
                        ViErrorView,
                    >(e@));
                    lemma_rd_strings_err(env, body@, start, (i + 1) as nat, 6);
                }
                return Err(e);
            },
        };
        let ghost before = strings@;
        strings.push(s);
        assert(strings@.map_values(|s: String| s@) =~= before.map_values(|s: String| s@).push(s@));
        i = i + 1;
    }
    let ghost ss = strings@.map_values(|s: String| s@);
    match reader.finish() {
        Ok(()) => {},
        Err(e) => return Err(e),
    }
    let answer_hash = strings.pop().unwrap();
    let prompt_hash = strings.pop().unwrap();
    let key_hash = strings.pop().unwrap();
    let commitllm_pin = strings.pop().unwrap();
    let checkpoint_hash = strings.pop().unwrap();
    let model_id = strings.pop().unwrap();
    Ok(
        (
            ReceiptBindingHeader {
                receipt_schema_version,
                model_id,
                checkpoint_hash,
                commitllm_pin,
                key_hash,
                prompt_hash,
                answer_hash,
                generated_token_count,
            },
            body_end,
        ),
    )
}

/// Decode a v1 `VIRC` receipt binding header and return its consumed byte length.
pub fn decode_receipt_binding_header(bytes: &[u8]) -> (r: Result<
    (ReceiptBindingHeader, usize),
    ViError,
>)
    ensures
        crate::errors::outcome(r) == receipt_binding_decoding(
            bytes@,
            crc32c_checksum(frame_body(bytes@)),
        ),
{
    let crc = announced_body_crc(bytes);
    proof {
        if !(bytes@.len() >= 8 && 8 + frame_len(bytes@) <= bytes@.len()) {
            lemma_unframe_crc_irrelevant("VIRC"@, bytes@, crc, crc32c_checksum(frame_body(bytes@)));
        }
    }
    decode_receipt_binding_header_with_checksum(bytes, crc)
}

/// Prefix opaque `CommitLLM` receipt bytes with a receipt binding header.
pub fn encode_virc_payload(header: &ReceiptBindingHeader, commitllm_receipt: &[u8]) -> (r: Result<
    Vec<u8>,
    ViError,
>)
    ensures
        crate::errors::outcome(r) == match receipt_binding_encoding(header@) {
            Ok(b) => Ok::<Seq<u8>, ViErrorView>(b + commitllm_receipt@),
            Err(e) => Err(e),
        },
{
    let mut payload = match encode_receipt_binding_header(header) {
        Ok(p) => p,
        Err(e) => return Err(e),
    };
    extend_bytes(&mut payload, commitllm_receipt);
    Ok(payload)
}

/// Split a `VIRC` payload into its binding header and opaque `CommitLLM` receipt bytes.
pub fn decode_virc_payload(payload: &[u8]) -> (r: Result<(ReceiptBindingHeader, &[u8]), ViError>)
    ensures
        crate::errors::outcome(r) == match receipt_binding_decoding(
            payload@,
            crc32c_checksum(frame_body(payload@)),
        ) {
            Ok((h, end)) => Ok::<(ReceiptBindingView, Seq<u8>), ViErrorView>(
                (h, payload@.subrange(end as int, payload@.len() as int)),
            ),
            Err(e) => Err(e),
        },
{
    match decode_receipt_binding_header(payload) {
        Ok((header, consumed)) => Ok((header, slice_subrange(payload, consumed, payload.len()))),
        Err(e) => Err(e),
    }
}

/// Ensure a receipt binds to the same identity as the verifier key.
pub fn check_receipt_identity(key: &KeyBindingHeader, receipt: &ReceiptBindingHeader) -> (r: Result<
    (),
    ViError,
>)
    ensures
        r is Ok <==> key_identity(key@) == receipt_identity(receipt@),
        r matches Err(e) ==> e@ == (ViErrorView::IdentityMismatch {
            expected: key_identity(key@),
            actual: receipt_identity(receipt@),
        }),
{
    check_identity(key.identity_fields(), receipt.identity_fields())
}

/// Receipt binding headers have one encoding: the bytes from which a header
/// is decoded are exactly the bytes that encoding that header gives.
pub proof fn lemma_receipt_binding_canonical(bytes: Seq<u8>)
    requires
        receipt_binding_decoding(bytes, crc32c_checksum(frame_body(bytes))) is Ok,
    ensures
        ({
            let (h, end) = receipt_binding_decoding(bytes, crc32c_checksum(frame_body(bytes)))->Ok_0;
            receipt_binding_encoding(h) == Ok::<Seq<u8>, ViErrorView>(bytes.subrange(0, end as int))
        }),
{
    let env = "VIRC"@;
    lemma_unframe_inverse(env, bytes);
    let (body, end) = unframe(env, bytes, crc32c_checksum(frame_body(bytes)))->Ok_0;
    lemma_rd_u16_inverse(env, body, 0);
    let (ver, o1) = rd_u16(env, body, 0)->Ok_0;
    lemma_rd_u64_inverse(env, body, o1);
    let (count, o2) = rd_u64(env, body, o1)->Ok_0;
    lemma_rd_strings_inverse(env, body, o2, 6);
    let (ss, o3) = rd_strings(env, body, o2, 6)->Ok_0;
    let h = receipt_body_decoding(body)->Ok_0;
    assert(receipt_strings(h) =~= ss);
    assert(fits_u16(ss[0]) && fits_u16(ss[1]) && fits_u16(ss[2]) && fits_u16(ss[3]) && fits_u16(ss[4])
        && fits_u16(ss[5]));
    assert(body =~= body.subrange(0, o1) + body.subrange(o1, o2) + body.subrange(o2, o3));
    assert(receipt_body(h) == body);
}

/// Decoding a receipt binding header gives back every header that encoding
/// accepts, with the opaque receipt bytes that follow it.
pub proof fn lemma_receipt_binding_round_trip(h: ReceiptBindingView, rest: Seq<u8>)
    requires
        receipt_binding_encoding(h) is Ok,
    ensures
        ({
            let bytes = receipt_binding_encoding(h)->Ok_0 + rest;
            receipt_binding_decoding(bytes, crc32c_checksum(frame_body(bytes))) == Ok::<
                (ReceiptBindingView, usize),
                ViErrorView,
            >((h, receipt_binding_encoding(h)->Ok_0.len() as usize))
        }),
{
    let a = spec_u16_to_le_bytes(h.receipt_schema_version);
    let b = spec_u64_to_le_bytes(h.generated_token_count);
    let ss = receipt_strings(h);
    let tail = lp_strings(ss);
    let body = receipt_body(h);
    vstd::bytes::lemma_auto_spec_u16_to_from_le_bytes();
    vstd::bytes::lemma_auto_spec_u64_to_from_le_bytes();
    vstd::bytes::lemma_auto_spec_u32_to_from_le_bytes();
    assert(all_fit_u16(ss));
    lemma_lp_strings_len(ss);
    lemma_unframe("VIRC"@, body, rest);
    let env = "VIRC"@;
    let empty = Seq::<u8>::empty();
    assert(body =~= empty + a + (b + tail));
    lemma_rd_u16(env, empty, h.receipt_schema_version, b + tail);
    assert(body =~= (empty + a) + b + tail);
    lemma_rd_u64(env, empty + a, h.generated_token_count, tail);
    assert(body =~= (a + b) + tail + empty);
    lemma_rd_strings(env, a + b, ss, empty);
    assert(receipt_body_decoding(body) == Ok::<ReceiptBindingView, ViErrorView>(h));
    assert(framed(body).len() == 8 + body.len());
}


/// The receipt binding header is laid out as documented: the schema version,
/// the generated token count, then `model_id`, `checkpoint_hash`,
/// `commitllm_pin`, `key_hash`, `prompt_hash` and `answer_hash`, each
/// length-prefixed, in that order; and bytes so laid out decode to exactly
/// those fields.
pub proof fn lemma_receipt_binding_layout(h: ReceiptBindingView, rest: Seq<u8>)
    requires
        receipt_binding_encoding(h) is Ok,
    ensures
        ({
            let laid_out = framed(
                spec_u16_to_le_bytes(1) + spec_u64_to_le_bytes(h.generated_token_count)
                    + lp_string(h.model_id) + lp_string(h.checkpoint_hash) + lp_string(
                    h.commitllm_pin,
                ) + lp_string(h.key_hash) + lp_string(h.prompt_hash) + lp_string(h.answer_hash),
            );
            let bytes = laid_out + rest;
            &&& receipt_binding_encoding(h) == Ok::<Seq<u8>, ViErrorView>(laid_out)
            &&& receipt_binding_decoding(bytes, crc32c_checksum(frame_body(bytes))) == Ok::<
                (ReceiptBindingView, usize),
                ViErrorView,
            >((h, laid_out.len() as usize))
        }),
{
    let ss = receipt_strings(h);
    reveal_with_fuel(lp_strings, 7);
    assert(ss.drop_last().drop_last().drop_last().drop_last().drop_last().drop_last() =~= Seq::<
        Seq<char>,
    >::empty());
    assert(lp_strings(ss) =~= lp_string(h.model_id) + lp_string(h.checkpoint_hash) + lp_string(
        h.commitllm_pin,
    ) + lp_string(h.key_hash) + lp_string(h.prompt_hash) + lp_string(h.answer_hash));
    assert(receipt_body(h) =~= spec_u16_to_le_bytes(1) + spec_u64_to_le_bytes(h.generated_token_count)
        + lp_string(h.model_id) + lp_string(h.checkpoint_hash) + lp_string(h.commitllm_pin)
        + lp_string(h.key_hash) + lp_string(h.prompt_hash) + lp_string(h.answer_hash));
    lemma_receipt_binding_round_trip(h, rest);
}

} // verus!
