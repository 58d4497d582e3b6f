//! Outer binary envelope `[magic:4][ver:1][flags:1][payload:N]` of the
//! `VIKY` (verifier key), `VIRC` (chat receipt) and `VIAU` (audit) artifacts.

use vstd::prelude::*;
use vstd::slice::{slice_subrange, slice_to_vec};

use crate::errors::{ViError, ViErrorView};
use crate::text::extend_bytes;

verus! {

/// Supported v1 binary-envelope version.
pub const ENVELOPE_VERSION: u8 = 1;

/// Reserved v1 flags value.
pub const ENVELOPE_FLAGS: u8 = 0;

/// Number of bytes in `[magic:4][ver:1][flags:1]`.
pub const HEADER_LEN: usize = 6;

/// Project-owned binary artifact magic prefixes.
#[allow(clippy::upper_case_acronyms)]
#[derive(Debug, Clone, Copy, PartialEq, Eq)]
pub enum Magic {
    /// Verifier-key envelope, `VIKY`.
    VIKY,
    /// Chat receipt envelope, `VIRC`.
    VIRC,
    /// Audit payload envelope, `VIAU`.
    VIAU,
}

/// The four ASCII bytes of a magic prefix.
pub open spec fn magic_bytes(m: Magic) -> Seq<u8> {
    match m {
        Magic::VIKY => seq![0x56u8, 0x49u8, 0x4bu8, 0x59u8],
        Magic::VIRC => seq![0x56u8, 0x49u8, 0x52u8, 0x43u8],
        Magic::VIAU => seq![0x56u8, 0x49u8, 0x41u8, 0x55u8],
    }
}

/// The name of a magic prefix as used in error envelopes.
pub open spec fn magic_name(m: Magic) -> Seq<char> {
    match m {
        Magic::VIKY => "VIKY"@,
        Magic::VIRC => "VIRC"@,
        Magic::VIAU => "VIAU"@,
    }
}

/// The magic whose prefix is `b`, if any.
pub open spec fn magic_of(b: Seq<u8>) -> Option<Magic> {
    if b == magic_bytes(Magic::VIKY) {
        Some(Magic::VIKY)
    } else if b == magic_bytes(Magic::VIRC) {
        Some(Magic::VIRC)
    } else if b == magic_bytes(Magic::VIAU) {
        Some(Magic::VIAU)
    } else {
        None
    }
}

/// The `CorruptEnvelope` error of a codec.
pub open spec fn corrupt(envelope: Seq<char>, offset: int, reason: Seq<char>) -> ViErrorView {
    ViErrorView::CorruptEnvelope { envelope, offset: offset as usize, reason }
}

/// The `UnknownVersion` error for a version field whose only supported value is 1.
pub open spec fn unknown_version(envelope: Seq<char>, field: Seq<char>, value: u32) -> ViErrorView {
    ViErrorView::UnknownVersion { envelope, field, value, supported: seq![1u32] }
}

pub(crate) fn corrupt_envelope(envelope: &'static str, offset: usize, reason: &'static str) -> (e:
    ViError)
    ensures
        e@ == corrupt(envelope@, offset as int, reason@),
{
    ViError::CorruptEnvelope { envelope, offset, reason }
}

pub(crate) fn unknown_version_error(envelope: &'static str, field: &'static str, value: u32) -> (e:
    ViError)
    ensures
        e@ == unknown_version(envelope@, field@, value),
{
    let mut supported: Vec<u32> = Vec::new();
    supported.push(1);
    ViError::UnknownVersion { envelope, field, value, supported }
}

impl Magic {
    /// Four-byte ASCII magic prefix.
    pub fn bytes(self) -> (b: [u8; 4])
        ensures
            b@ == magic_bytes(self),
    {
        let b = match self {
            Magic::VIKY => [0x56u8, 0x49u8, 0x4bu8, 0x59u8],
            Magic::VIRC => [0x56u8, 0x49u8, 0x52u8, 0x43u8],
            Magic::VIAU => [0x56u8, 0x49u8, 0x41u8, 0x55u8],
        };
        assert(b@ =~= magic_bytes(self));
        b
    }

    /// Stable ASCII name for error envelopes and logs.
    pub fn as_str(self) -> (s: &'static str)
        ensures
            s@ == magic_name(self),
    {
        match self {
            Magic::VIKY => "VIKY",
            Magic::VIRC => "VIRC",
            Magic::VIAU => "VIAU",
        }
    }

    /// Parse a four-byte ASCII magic prefix.
    pub fn from_bytes(bytes: [u8; 4]) -> (r: Result<Magic, ViError>)
        ensures
            match magic_of(bytes@) {
                Some(m) => r == Ok::<Magic, ViError>(m),
                None => r matches Err(e) && e@ == corrupt("unknown"@, 0, "unknown magic prefix"@),
            },
    {
        let ghost b = bytes@;
        assert(b.len() == 4);
        if bytes[0] == 0x56u8 && bytes[1] == 0x49u8 {
            if bytes[2] == 0x4bu8 && bytes[3] == 0x59u8 {
                assert(b =~= magic_bytes(Magic::VIKY));
                return Ok(Magic::VIKY);
            }
            if bytes[2] == 0x52u8 && bytes[3] == 0x43u8 {
                assert(b =~= magic_bytes(Magic::VIRC));
                return Ok(Magic::VIRC);
            }
            if bytes[2] == 0x41u8 && bytes[3] == 0x55u8 {
                assert(b =~= magic_bytes(Magic::VIAU));
                return Ok(Magic::VIAU);
            }
        }
        assert(b != magic_bytes(Magic::VIKY) && b != magic_bytes(Magic::VIRC) && b
            != magic_bytes(Magic::VIAU)) by {
            if b == magic_bytes(Magic::VIKY) || b == magic_bytes(Magic::VIRC) || b == magic_bytes(
                Magic::VIAU,
            ) {
                assert(b[0] == 0x56u8 && b[1] == 0x49u8);
            }
        }
        Err(corrupt_envelope("unknown", 0, "unknown magic prefix"))
    }
}

/// Project-owned binary envelope around an upstream `CommitLLM` payload.
#[derive(Debug, Clone, PartialEq, Eq)]
pub struct Envelope {
    /// Artifact kind magic prefix.
    pub magic: Magic,
    /// Envelope layout version.
    pub ver: u8,
    /// Reserved v1 flags byte.
    pub flags: u8,
    /// Opaque upstream payload bytes.
    pub payload: Vec<u8>,
}

/// Abstract value of an [`Envelope`].
pub struct EnvelopeView {
    pub magic: Magic,
    pub ver: u8,
    pub flags: u8,
    pub payload: Seq<u8>,
}

impl View for Envelope {
    type V = EnvelopeView;

    open spec fn view(&self) -> EnvelopeView {
        EnvelopeView { magic: self.magic, ver: self.ver, flags: self.flags, payload: self.payload@ }
    }
}

/// The check that an envelope carries the supported version.
pub open spec fn version_check(magic: Magic, ver: u8) -> Result<(), ViErrorView> {
    if ver == 1 {
        Ok(())
    } else {
        Err(unknown_version(magic_name(magic), "ver"@, ver as u32))
    }
}

/// The check that an envelope carries the reserved flags value.
pub open spec fn flags_check(magic: Magic, flags: u8) -> Result<(), ViErrorView> {
    if flags == 0 {
        Ok(())
    } else {
        Err(corrupt(magic_name(magic), 5, "flags must be 0 in v1"@))
    }
}

/// The bytes of an envelope, or the error that refuses it.
pub open spec fn envelope_encoding(e: EnvelopeView) -> Result<Seq<u8>, ViErrorView> {
    if version_check(e.magic, e.ver) is Err {
        Err(version_check(e.magic, e.ver)->Err_0)
    } else if flags_check(e.magic, e.flags) is Err {
        Err(flags_check(e.magic, e.flags)->Err_0)
    } else {
        Ok(magic_bytes(e.magic) + seq![e.ver, e.flags] + e.payload)
    }
}

/// The envelope that `bytes` encode, or the error that refuses them.
pub open spec fn envelope_decoding(bytes: Seq<u8>) -> Result<EnvelopeView, ViErrorView> {
    if bytes.len() < 6 {
        Err(corrupt("unknown"@, bytes.len() as int, "envelope shorter than 6-byte header"@))
    } else {
        match magic_of(bytes.subrange(0, 4)) {
            None => Err(corrupt("unknown"@, 0, "unknown magic prefix"@)),
            Some(magic) => if version_check(magic, bytes[4]) is Err {
                Err(version_check(magic, bytes[4])->Err_0)
            } else if flags_check(magic, bytes[5]) is Err {
                Err(flags_check(magic, bytes[5])->Err_0)
            } else {
                Ok(
                    EnvelopeView {
                        magic,
                        ver: bytes[4],
                        flags: bytes[5],
                        payload: bytes.subrange(6, bytes.len() as int),
                    },
                )
            },
        }
    }
}

fn validate_version(magic: Magic, ver: u8) -> (r: Result<(), ViError>)
    ensures
        crate::errors::unit_outcome(r) == version_check(magic, ver),
{
    if ver == ENVELOPE_VERSION {
        Ok(())
    } else {
        Err(unknown_version_error(magic.as_str(), "ver", ver as u32))
    }
}

fn validate_flags(magic: Magic, flags: u8) -> (r: Result<(), ViError>)
    ensures
        crate::errors::unit_outcome(r) == flags_check(magic, flags),
{
    if flags == ENVELOPE_FLAGS {
        Ok(())
    } else {
        Err(corrupt_envelope(magic.as_str(), 5, "flags must be 0 in v1"))
    }
}

impl Envelope {
    /// Construct a v1 envelope with zero flags.
    pub fn new(magic: Magic, payload: Vec<u8>) -> (e: Envelope)
        ensures
            e@ == (EnvelopeView { magic, ver: 1, flags: 0, payload: payload@ }),
    {
        Envelope { magic, ver: ENVELOPE_VERSION, flags: ENVELOPE_FLAGS, payload }
    }

    /// Encode this envelope to bytes.
    pub fn encode(&self) -> (r: Result<Vec<u8>, ViError>)
        ensures
            crate::errors::outcome(r) == envelope_encoding(self@),
    {
        encode(self)
    }

    /// Decode an envelope from bytes.
    pub fn decode(bytes: &[u8]) -> (r: Result<Envelope, ViError>)
        ensures
            crate::errors::outcome(r) == envelope_decoding(bytes@),
    {
        decode(bytes)
    }
}

/// Encode an envelope to `[magic:4][ver:1][flags:1][payload:N]`.
pub fn encode(envelope: &Envelope) -> (r: Result<Vec<u8>, ViError>)
    ensures
        crate::errors::outcome(r) == envelope_encoding(envelope@),
{
    match validate_version(envelope.magic, envelope.ver) {
        Ok(()) => {},
        Err(e) => return Err(e),
    }
    match validate_flags(envelope.magic, envelope.flags) {
        Ok(()) => {},
        Err(e) => return Err(e),
    }
    let mut bytes: Vec<u8> = Vec::new();
    let magic = envelope.magic.bytes();
    extend_bytes(&mut bytes, &magic);
    bytes.push(envelope.ver);
    bytes.push(envelope.flags);
    extend_bytes(&mut bytes, envelope.payload.as_slice());
    assert(bytes@ =~= magic_bytes(envelope.magic) + seq![envelope.ver, envelope.flags]
        + envelope.payload@);
    Ok(bytes)
}

/// Decode `[magic:4][ver:1][flags:1][payload:N]` into an envelope.
pub fn decode(bytes: &[u8]) -> (r: Result<Envelope, ViError>)
    ensures
        crate::errors::outcome(r) == envelope_decoding(bytes@),
{
    if bytes.len() < HEADER_LEN {
        return Err(corrupt_envelope("unknown", bytes.len(), "envelope shorter than 6-byte header"));
    }
    let prefix: [u8; 4] = [bytes[0], bytes[1], bytes[2], bytes[3]];
    assert(prefix@ =~= bytes@.subrange(0, 4));
    let magic = match Magic::from_bytes(prefix) {
        Ok(m) => m,
        Err(e) => return Err(e),
    };
    let ver = bytes[4];
    let flags = bytes[5];
    match validate_version(magic, ver) {
        Ok(()) => {},
        Err(e) => return Err(e),
    }
    match validate_flags(magic, flags) {
        Ok(()) => {},
        Err(e) => return Err(e),
    }
    let payload = slice_to_vec(slice_subrange(bytes, HEADER_LEN, bytes.len()));
    Ok(Envelope { magic, ver, flags, payload })
}

/// Decoding gives back every envelope that encoding accepts, and encoding
/// lays out exactly the header and the payload.
pub proof fn lemma_envelope_round_trip(e: EnvelopeView)
    requires
        envelope_encoding(e) is Ok,
    ensures
        envelope_decoding(envelope_encoding(e)->Ok_0) == Ok::<EnvelopeView, ViErrorView>(e),
        envelope_encoding(e)->Ok_0.len() == 6 + e.payload.len(),
{
    let b = envelope_encoding(e)->Ok_0;
    assert(b.subrange(0, 4) =~= magic_bytes(e.magic));
    assert(b.subrange(6, b.len() as int) =~= e.payload);
    assert(magic_of(magic_bytes(e.magic)) == Some(e.magic)) by {
        assert(magic_bytes(Magic::VIKY) != magic_bytes(Magic::VIRC)) by {
            assert(magic_bytes(Magic::VIKY)[2] != magic_bytes(Magic::VIRC)[2]);
        }
        assert(magic_bytes(Magic::VIKY) != magic_bytes(Magic::VIAU)) by {
            assert(magic_bytes(Magic::VIKY)[2] != magic_bytes(Magic::VIAU)[2]);
        }
        assert(magic_bytes(Magic::VIRC) != magic_bytes(Magic::VIAU)) by {
            assert(magic_bytes(Magic::VIRC)[2] != magic_bytes(Magic::VIAU)[2]);
        }
    }
}

/// Every byte string that decodes is the encoding of what it decodes to.
pub proof fn lemma_envelope_decode_encode(bytes: Seq<u8>)
    requires
        envelope_decoding(bytes) is Ok,
    ensures
        envelope_encoding(envelope_decoding(bytes)->Ok_0) == Ok::<Seq<u8>, ViErrorView>(bytes),
{
    let e = envelope_decoding(bytes)->Ok_0;
    let m = e.magic;
    assert(magic_bytes(m) =~= bytes.subrange(0, 4));
    assert(magic_bytes(e.magic) + seq![e.ver, e.flags] + e.payload =~= bytes);
}

} // verus!
