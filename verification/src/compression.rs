//! Zstandard framing of byte strings, through `ruzstd`.

use vstd::prelude::*;

verus! {

/// The compression levels that the encoder offers.
#[derive(Debug, Clone, Copy, PartialEq, Eq, Structural)]
pub enum CompressionLevel {
    /// Raw blocks, no compression.
    Uncompressed,
    /// The fastest compressing level.
    Fastest,
}

/// The zstd frame that `ruzstd` writes for a byte string at a level.
pub uninterp spec fn zstd_compressed(input: Seq<u8>, level: CompressionLevel) -> Seq<u8>;

/// Compress with `ruzstd::encoding::compress_to_vec`.
///
/// Trusted: the frame depends on the input and the level alone and is given
/// a name; nothing more is claimed.
#[verifier::external_body]
fn compress(input: &[u8], level: CompressionLevel) -> (r: Vec<u8>)
    ensures
        r@ == zstd_compressed(input@, level),
{
    let level = match level {
        CompressionLevel::Uncompressed => ruzstd::encoding::CompressionLevel::Uncompressed,
        CompressionLevel::Fastest => ruzstd::encoding::CompressionLevel::Fastest,
    };
    ruzstd::encoding::compress_to_vec(input, level)
}

/// The level for a requested numeric level: none at zero or below, the
/// fastest otherwise.
pub open spec fn level_for(level: i32) -> CompressionLevel {
    if level <= 0 {
        CompressionLevel::Uncompressed
    } else {
        CompressionLevel::Fastest
    }
}

/// Compress `input` into one zstd frame at the requested numeric level.
pub fn encode_all(input: &[u8], level: i32) -> (r: Vec<u8>)
    ensures
        r@ == zstd_compressed(input@, level_for(level)),
{
    let chosen = if level <= 0 {
        CompressionLevel::Uncompressed
    } else {
        CompressionLevel::Fastest
    };
    compress(input, chosen)
}

/// What `ruzstd`'s streaming decoder reads from a byte string: the decoded
/// bytes, or its error's message.
pub uninterp spec fn zstd_decoded(frame: Seq<u8>) -> Result<Seq<u8>, Seq<char>>;

/// Outcome of a decode.
pub open spec fn decoded_outcome(r: Result<Vec<u8>, String>) -> Result<Seq<u8>, Seq<char>> {
    match r {
        Ok(b) => Ok(b@),
        Err(e) => Err(e@),
    }
}

/// Decode with `ruzstd::decoding::StreamingDecoder` read to its end.
///
/// Trusted: the output, or the error's message, depends on the bytes alone
/// and is given a name; nothing more is claimed.
#[verifier::external_body]
fn decompress(frame: &[u8]) -> (r: Result<Vec<u8>, String>)
    ensures
        decoded_outcome(r) == zstd_decoded(frame@),
{
    let mut decoder = ruzstd::decoding::StreamingDecoder::new(frame).map_err(|e| e.to_string())?;
    let mut output = Vec::new();
    std::io::Read::read_to_end(&mut decoder, &mut output).map_err(|e| e.to_string())?;
    Ok(output)
}

/// Decode a zstd frame.
pub fn decode_all(frame: &[u8]) -> (r: Result<Vec<u8>, String>)
    ensures
        decoded_outcome(r) == zstd_decoded(frame@),
{
    decompress(frame)
}

} // verus!
