//! Verifier-key binding header (`VIKY` payloads) and the identity check
//! between verifier keys and receipts.

use vstd::bytes::{spec_u16_to_le_bytes, spec_u64_to_le_bytes, u16_to_le_bytes, u64_to_le_bytes};
use vstd::prelude::*;
use vstd::slice::{slice_subrange, slice_to_vec};
use vstd::utf8::encode_utf8;

use crate::binding::{
    announced_body_crc, check_frame, fits_u16, frame, frame_body, framed, lemma_rd_string,
    lemma_rd_string_inverse, lemma_rd_u16, lemma_rd_u16_inverse, lemma_rd_u64,
    lemma_rd_u64_inverse, lemma_unframe, lemma_unframe_crc_irrelevant, lemma_unframe_inverse,
    lp_string,
    rd_finish, rd_string, rd_u16, rd_u64, string_too_long, unframe, write_string, BindingReader,
};
use crate::checksum::crc32c_checksum;
use crate::envelope::{unknown_version, unknown_version_error};
use crate::errors::{IdentityFields, IdentityView, ViError, ViErrorView};
use crate::text::extend_bytes;

verus! {

/// Supported v1 verifier-key binding schema version.
pub const KEYGEN_SCHEMA_VERSION: u16 = 1;

/// Verifier-key identity binding header carried inside `VIKY` payloads.
#[derive(Debug, Clone, PartialEq, Eq)]
pub struct KeyBindingHeader {
    /// Key binding schema version.
    pub keygen_schema_version: u16,
    /// Deterministic key-generation seed.
    pub seed: u64,
    /// Public model identifier.
    pub model_id: String,
    /// Canonical checkpoint hash.
    pub checkpoint_hash: String,
    /// Pinned upstream `CommitLLM` short revision.
    pub commitllm_pin: String,
}

/// Abstract value of a [`KeyBindingHeader`].
pub struct KeyBindingView {
    pub keygen_schema_version: u16,
    pub seed: u64,
    pub model_id: Seq<char>,
    pub checkpoint_hash: Seq<char>,
    pub commitllm_pin: Seq<char>,
}

impl View for KeyBindingHeader {
    type V = KeyBindingView;

    open spec fn view(&self) -> KeyBindingView {
        KeyBindingView {
            keygen_schema_version: self.keygen_schema_version,
            seed: self.seed,
            model_id: self.model_id@,
            checkpoint_hash: self.checkpoint_hash@,
            commitllm_pin: self.commitllm_pin@,
        }
    }
}

/// The identity that a verifier key binds.
pub open spec fn key_identity(h: KeyBindingView) -> IdentityView {
    IdentityView {
        model_id: h.model_id,
        checkpoint_hash: h.checkpoint_hash,
        commitllm_pin: h.commitllm_pin,
        key_hash: None,
    }
}

impl KeyBindingHeader {
    /// Construct a v1 verifier-key binding header.
    pub fn new(model_id: &str, checkpoint_hash: &str, commitllm_pin: &str, seed: u64) -> (h:
        KeyBindingHeader)
        ensures
            h@ == (KeyBindingView {
                keygen_schema_version: 1,
                seed,
                model_id: model_id@,
                checkpoint_hash: checkpoint_hash@,
                commitllm_pin: commitllm_pin@,
            }),
    {
        KeyBindingHeader {
            keygen_schema_version: KEYGEN_SCHEMA_VERSION,
            seed,
            model_id: model_id.to_owned(),
            checkpoint_hash: checkpoint_hash.to_owned(),
            commitllm_pin: commitllm_pin.to_owned(),
        }
    }

    /// Identity fields shared with receipts for cross-binding checks.
    pub fn identity_fields(&self) -> (i: IdentityFields)
        ensures
            i@ == key_identity(self@),
    {
        IdentityFields::new(
            self.model_id.as_str(),
            self.checkpoint_hash.as_str(),
            self.commitllm_pin.as_str(),
        )
    }
}

/// The body of a key binding header.
pub open spec fn key_body(h: KeyBindingView) -> Seq<u8> {
    spec_u16_to_le_bytes(h.keygen_schema_version) + spec_u64_to_le_bytes(h.seed) + lp_string(
        h.model_id,
    ) + lp_string(h.checkpoint_hash) + lp_string(h.commitllm_pin)
}

/// The bytes of a key binding header, or the error that refuses it.
pub open spec fn key_binding_encoding(h: KeyBindingView) -> Result<Seq<u8>, ViErrorView> {
    if h.keygen_schema_version != 1 {
        Err(unknown_version("VIKY"@, "keygen_schema_version"@, h.keygen_schema_version as u32))
    } else if !fits_u16(h.model_id) {
        Err(string_too_long("model_id"@))
    } else if !fits_u16(h.checkpoint_hash) {
        Err(string_too_long("checkpoint_hash"@))
    } else if !fits_u16(h.commitllm_pin) {
        Err(string_too_long("commitllm_pin"@))
    } else {
        Ok(framed(key_body(h)))
    }
}

/// The key binding header that a body encodes, or the error that refuses it.
pub open spec fn key_body_decoding(body: Seq<u8>) -> Result<KeyBindingView, ViErrorView> {
    let env = "VIKY"@;
    match rd_u16(env, body, 0) {
        Err(e) => Err(e),
        Ok((ver, o1)) => if ver != 1 {
            Err(unknown_version(env, "keygen_schema_version"@, ver as u32))
        } else {
            match rd_u64(env, body, o1) {
                Err(e) => Err(e),
                Ok((seed, o2)) => match rd_string(env, body, o2) {
                    Err(e) => Err(e),
                    Ok((model_id, o3)) => match rd_string(env, body, o3) {
                        Err(e) => Err(e),
                        Ok((checkpoint_hash, o4)) => match rd_string(env, body, o4) {
                            Err(e) => Err(e),
                            Ok((commitllm_pin, o5)) => match rd_finish(env, body, o5) {
                                Err(e) => Err(e),
                                Ok(_) => Ok(
                                    KeyBindingView {
                                        keygen_schema_version: ver,
                                        seed,
                                        model_id,
                                        checkpoint_hash,
                                        commitllm_pin,
                                    },
                                ),
                            },
                        },
                    },
                },
            }
        },
    }
}

/// The key binding header at the start of `bytes` and its length, given the
/// checksum of the body that its prefix announces; or the error.
pub open spec fn key_binding_decoding(bytes: Seq<u8>, body_crc: u32) -> Result<
    (KeyBindingView, usize),
    ViErrorView,
> {
    match unframe("VIKY"@, bytes, body_crc) {
        Err(e) => Err(e),
        Ok((body, end)) => match key_body_decoding(body) {
            Err(e) => Err(e),
            Ok(h) => Ok((h, end)),
        },
    }
}

/// Encode a v1 `VIKY` key binding header.
///
/// Layout:
/// `[body_len:u32le][body_crc32c:u32le][keygen_schema_version:u16le][seed:u64le]`
/// followed by `model_id`, `checkpoint_hash`, and `commitllm_pin` as
/// `[len:u16le][utf8 bytes]`.
pub fn encode_key_binding_header(header: &KeyBindingHeader) -> (r: Result<Vec<u8>, ViError>)
    ensures
        crate::errors::outcome(r) == key_binding_encoding(header@),
{
    if header.keygen_schema_version != KEYGEN_SCHEMA_VERSION {
        return Err(
            unknown_version_error(
                "VIKY",
                "keygen_schema_version",
                header.keygen_schema_version as u32,
            ),
        );
    }
    let mut body: Vec<u8> = Vec::new();
    let ver = u16_to_le_bytes(header.keygen_schema_version);
    extend_bytes(&mut body, ver.as_slice());
    let seed = u64_to_le_bytes(header.seed);
    extend_bytes(&mut body, seed.as_slice());
    match write_string(&mut body, "model_id", header.model_id.as_str()) {
        Ok(()) => {},
        Err(e) => return Err(e),
    }
    match write_string(&mut body, "checkpoint_hash", header.checkpoint_hash.as_str()) {
        Ok(()) => {},
        Err(e) => return Err(e),
    }
    match write_string(&mut body, "commitllm_pin", header.commitllm_pin.as_str()) {
        Ok(()) => {},
        Err(e) => return Err(e),
    }
    assert(body@ =~= key_body(header@));
    proof {
        vstd::bytes::lemma_auto_spec_u16_to_from_le_bytes();
        vstd::bytes::lemma_auto_spec_u64_to_from_le_bytes();
    }
    assert(body@.len() <= u32::MAX);
    Ok(frame(&body))
}

/// Decode a v1 `VIKY` key binding header, given the CRC-32C checksum of the
/// body that its prefix announces; return the header and its byte length.
pub fn decode_key_binding_header_with_checksum(bytes: &[u8], body_crc: u32) -> (r: Result<
    (KeyBindingHeader, usize),
    ViError,
>)
    ensures
        crate::errors::outcome(r) == key_binding_decoding(bytes@, body_crc),
{
    let (body, body_end) = match check_frame("VIKY", bytes, body_crc) {
        Ok(found) => found,
        Err(e) => return Err(e),
    };
    let mut reader = BindingReader::new("VIKY", body);
    let keygen_schema_version = match reader.read_u16() {
        Ok(v) => v,
        Err(e) => return Err(e),
    };
    if keygen_schema_version != KEYGEN_SCHEMA_VERSION {
        return Err(
            unknown_version_error("VIKY", "keygen_schema_version", keygen_schema_version as u32),
        );
    }
    let seed = match reader.read_u64() {
        Ok(v) => v,
        Err(e) => return Err(e),
    };
    let model_id = match reader.read_string() {
        Ok(v) => v,
        Err(e) => return Err(e),
    };
    let checkpoint_hash = match reader.read_string() {
        Ok(v) => v,
        Err(e) => return Err(e),
    };
    let commitllm_pin = match reader.read_string() {
        Ok(v) => v,
        Err(e) => return Err(e),
    };
    match reader.finish() {
        Ok(()) => {},
        Err(e) => return Err(e),
    }
    Ok((KeyBindingHeader { keygen_schema_version, seed, model_id, checkpoint_hash, commitllm_pin }, body_end))
}

/// Decode a v1 `VIKY` key binding header and return its consumed byte length.
pub fn decode_key_binding_header(bytes: &[u8]) -> (r: Result<(KeyBindingHeader, usize), ViError>)
    ensures
        crate::errors::outcome(r) == key_binding_decoding(bytes@, crc32c_checksum(frame_body(bytes@))),
{
    let crc = announced_body_crc(bytes);
    proof {
        if !(bytes@.len() >= 8 && 8 + crate::binding::frame_len(bytes@) <= bytes@.len()) {
            lemma_unframe_crc_irrelevant("VIKY"@, bytes@, crc, crc32c_checksum(frame_body(bytes@)));
        }
    }
    decode_key_binding_header_with_checksum(bytes, crc)
}

/// Prefix opaque `CommitLLM` key bytes with a key binding header.
pub fn encode_viky_payload(header: &KeyBindingHeader, commitllm_key: &[u8]) -> (r: Result<
    Vec<u8>,
    ViError,
>)
    ensures
        crate::errors::outcome(r) == match key_binding_encoding(header@) {
            Ok(b) => Ok::<Seq<u8>, ViErrorView>(b + commitllm_key@),
            Err(e) => Err(e),
        },
{
    let mut payload = match encode_key_binding_header(header) {
        Ok(p) => p,
        Err(e) => return Err(e),
    };
    extend_bytes(&mut payload, commitllm_key);
    Ok(payload)
}

/// Split a `VIKY` payload into its binding header and opaque `CommitLLM` key bytes.
pub fn decode_viky_payload(payload: &[u8]) -> (r: Result<(KeyBindingHeader, &[u8]), ViError>)
    ensures
        crate::errors::outcome(r) == match key_binding_decoding(
            payload@,
            crc32c_checksum(frame_body(payload@)),
        ) {
            Ok((h, end)) => Ok::<(KeyBindingView, Seq<u8>), ViErrorView>(
                (h, payload@.subrange(end as int, payload@.len() as int)),
            ),
            Err(e) => Err(e),
        },
{
    match decode_key_binding_header(payload) {
        Ok((header, consumed)) => Ok((header, slice_subrange(payload, consumed, payload.len()))),
        Err(e) => Err(e),
    }
}

/// Key binding headers have one encoding: the bytes from which a header is
/// decoded are exactly the bytes that encoding that header gives.
pub proof fn lemma_key_binding_canonical(bytes: Seq<u8>)
    requires
        key_binding_decoding(bytes, crc32c_checksum(frame_body(bytes))) is Ok,
    ensures
        ({
            let (h, end) = key_binding_decoding(bytes, crc32c_checksum(frame_body(bytes)))->Ok_0;
            key_binding_encoding(h) == Ok::<Seq<u8>, ViErrorView>(bytes.subrange(0, end as int))
        }),
{
    let env = "VIKY"@;
    lemma_unframe_inverse(env, bytes);
    let (body, end) = unframe(env, bytes, crc32c_checksum(frame_body(bytes)))->Ok_0;
    lemma_rd_u16_inverse(env, body, 0);
    let (ver, o1) = rd_u16(env, body, 0)->Ok_0;
    lemma_rd_u64_inverse(env, body, o1);
    let (seed, o2) = rd_u64(env, body, o1)->Ok_0;
    lemma_rd_string_inverse(env, body, o2);
    let (model_id, o3) = rd_string(env, body, o2)->Ok_0;
    lemma_rd_string_inverse(env, body, o3);
    let (checkpoint_hash, o4) = rd_string(env, body, o3)->Ok_0;
    lemma_rd_string_inverse(env, body, o4);
    let (commitllm_pin, o5) = rd_string(env, body, o4)->Ok_0;
    let h = key_body_decoding(body)->Ok_0;
    assert(body =~= body.subrange(0, o1) + body.subrange(o1, o2) + body.subrange(o2, o3)
        + body.subrange(o3, o4) + body.subrange(o4, o5));
    assert(key_body(h) == body);
}

/// Decoding a key binding header gives back every header that encoding
/// accepts, with the opaque key bytes that follow it.
pub proof fn lemma_key_binding_round_trip(h: KeyBindingView, rest: Seq<u8>)
    requires
        key_binding_encoding(h) is Ok,
    ensures
        ({
            let bytes = key_binding_encoding(h)->Ok_0 + rest;
            key_binding_decoding(bytes, crc32c_checksum(frame_body(bytes))) == Ok::<
                (KeyBindingView, usize),
                ViErrorView,
            >((h, key_binding_encoding(h)->Ok_0.len() as usize))
        }),
{
    let a = spec_u16_to_le_bytes(h.keygen_schema_version);
    let b = spec_u64_to_le_bytes(h.seed);
    let c = lp_string(h.model_id);
    let d = lp_string(h.checkpoint_hash);
    let e = lp_string(h.commitllm_pin);
    let body = key_body(h);
    vstd::bytes::lemma_auto_spec_u16_to_from_le_bytes();
    vstd::bytes::lemma_auto_spec_u64_to_from_le_bytes();
    vstd::bytes::lemma_auto_spec_u32_to_from_le_bytes();
    assert(body.len() <= 0xffff_ffff - 8) by {
        assert(c.len() <= 2 + 0xffff && d.len() <= 2 + 0xffff && e.len() <= 2 + 0xffff);
    }
    lemma_unframe("VIKY"@, body, rest);
    let env = "VIKY"@;
    let empty = Seq::<u8>::empty();
    assert(body =~= empty + a + (b + c + d + e));
    lemma_rd_u16(env, empty, h.keygen_schema_version, b + c + d + e);
    assert(body =~= (empty + a) + b + (c + d + e));
    lemma_rd_u64(env, empty + a, h.seed, c + d + e);
    assert(body =~= (a + b) + c + (d + e));
    lemma_rd_string(env, a + b, h.model_id, d + e);
    assert(body =~= (a + b + c) + d + e);
    lemma_rd_string(env, a + b + c, h.checkpoint_hash, e);
    assert(body =~= (a + b + c + d) + e + empty);
    lemma_rd_string(env, a + b + c + d, h.commitllm_pin, empty);
    assert(key_body_decoding(body) == Ok::<KeyBindingView, ViErrorView>(h));
    assert(framed(body).len() == 8 + body.len());
}

/// Ensure a receipt binds to the same identity as the verifier key.
pub fn check_identity(expected: IdentityFields, actual: IdentityFields) -> (r: Result<(), ViError>)
    ensures
        r is Ok <==> expected@ == actual@,
        r matches Err(e) ==> e@ == (ViErrorView::IdentityMismatch { expected: expected@, actual: actual@ }),
{
    let same_key_hash = match (&expected.key_hash, &actual.key_hash) {
        (None, None) => true,
        (Some(x), Some(y)) => *x == *y,
        _ => false,
    };
    if expected.model_id == actual.model_id && expected.checkpoint_hash == actual.checkpoint_hash
        && expected.commitllm_pin == actual.commitllm_pin && same_key_hash {
        Ok(())
    } else {
        Err(ViError::IdentityMismatch { expected, actual })
    }
}

} // verus!
