//! The compression variants and the codecs behind them.

use std::io::Write;
use vstd::prelude::*;
use crate::error::BuildError;

verus! {

/// A compression codec together with its level.
///
/// The level is handed to the codec as it is; which levels a codec accepts is
/// the codec's own business.
#[allow(inconsistent_fields)]
#[derive(Debug, Clone, Copy, PartialEq, Eq, Structural)]
pub enum CompressType {
    Xz { level: u32 },
    Gz { level: u32 },
    Zstd { level: i32 },
}

impl CompressType {
    /// The short name of the variant, as it appears in file extensions.
    pub open spec fn spec_name(self) -> Seq<char> {
        match self {
            CompressType::Xz { .. } => "xz"@,
            CompressType::Gz { .. } => "gz"@,
            CompressType::Zstd { .. } => "zstd"@,
        }
    }

    /// The short name of the variant: `xz`, `gz` or `zstd`.
    pub fn name(&self) -> (r: String)
        ensures
            r@ == self.spec_name(),
    {
        match self {
            CompressType::Xz { .. } => String::from_str("xz"),
            CompressType::Gz { .. } => String::from_str("gz"),
            CompressType::Zstd { .. } => String::from_str("zstd"),
        }
    }

    /// The level that the gzip codec's own assertion turns down, if this
    /// variant carries one: the codec is then never called.
    pub open spec fn rejected_level(self) -> Option<u32> {
        match self {
            CompressType::Gz { level } if level > 10 => Some(level),
            _ => None,
        }
    }

    /// Tells whether the codec can be called with the level at all.
    pub fn check_level(&self) -> (r: Result<(), BuildError>)
        ensures
            match self.rejected_level() {
                Some(level) => r == Err::<(), BuildError>(BuildError::LevelRejected(level)),
                None => r == Ok::<(), BuildError>(()),
            },
    {
        match self {
            CompressType::Gz { level } => {
                if *level > 10 {
                    Err(BuildError::LevelRejected(*level))
                } else {
                    Ok(())
                }
            },
            _ => Ok(()),
        }
    }
}

/// The .xz stream that liblzma writes for the data at the preset `level`,
/// with a CRC64 check.
pub uninterp spec fn xz_stream(data: Seq<u8>, level: u32) -> Seq<u8>;

/// The gzip stream that `flate2` writes for the data at `level`.
pub uninterp spec fn gz_stream(data: Seq<u8>, level: u32) -> Seq<u8>;

/// The zstd frame that the `zstd` crate writes for the data at `level`.
pub uninterp spec fn zstd_stream(data: Seq<u8>, level: i32) -> Seq<u8>;

/// Whether liblzma knows the preset `level`.
pub uninterp spec fn xz_takes(level: u32) -> bool;

/// Whether `flate2` compresses at `level`.
pub uninterp spec fn gz_takes(level: u32) -> bool;

/// Whether the `zstd` crate sets up an encoder for `level`.
pub uninterp spec fn zstd_takes(level: i32) -> bool;

/// Whether the codec of `kind` takes the level of `kind`. The codecs write
/// into memory, so this alone settles whether compressing succeeds.
pub open spec fn codec_accepts(kind: CompressType) -> bool {
    match kind {
        CompressType::Xz { level } => xz_takes(level),
        CompressType::Gz { level } => gz_takes(level),
        CompressType::Zstd { level } => zstd_takes(level),
    }
}

/// The data as the codec of `kind` writes it.
pub open spec fn compressed(kind: CompressType, data: Seq<u8>) -> Seq<u8> {
    match kind {
        CompressType::Xz { level } => xz_stream(data, level),
        CompressType::Gz { level } => gz_stream(data, level),
        CompressType::Zstd { level } => zstd_stream(data, level),
    }
}

/// `xz::stream::Stream::new_easy_encoder` with a CRC64 check, then an
/// `xz::write::XzEncoder` over an empty buffer, fed with the data and
/// finished. A preset that liblzma does not know comes back as the error of
/// the first call; the data plays no part in whether the calls succeed.
/// Where they succeed the buffer holds the stream.
#[verifier::external_body]
fn xz_encode(data: &[u8], level: u32) -> (r: Result<Vec<u8>, std::io::Error>)
    ensures
        r is Ok <==> xz_takes(level),
        r matches Ok(bytes) ==> bytes@ == xz_stream(data@, level),
{
    let stream = xz::stream::Stream::new_easy_encoder(level, xz::stream::Check::Crc64)?;
    let mut encoder = xz::write::XzEncoder::new_stream(Vec::new(), stream);
    encoder.write_all(data)?;
    encoder.finish()
}

/// `flate2::write::GzEncoder` over an empty buffer, fed with the data and
/// finished. The deflate backend asserts that the level is at most 10, so
/// higher levels are kept away from it. The data plays no part in whether
/// the calls succeed. Where they succeed the buffer holds the stream.
#[verifier::external_body]
fn gz_encode(data: &[u8], level: u32) -> (r: Result<Vec<u8>, std::io::Error>)
    requires
        level <= 10,
    ensures
        r is Ok <==> gz_takes(level),
        r matches Ok(bytes) ==> bytes@ == gz_stream(data@, level),
{
    let mut encoder = flate2::write::GzEncoder::new(Vec::new(), flate2::Compression::new(level));
    encoder.write_all(data)?;
    encoder.finish()
}

/// `zstd::Encoder` over an empty buffer, fed with the data and finished. An
/// encoder that cannot be set up for the level comes back as the error of
/// the first call; the data plays no part in whether the calls succeed.
/// Where they succeed the buffer holds the frame.
#[verifier::external_body]
fn zstd_encode(data: &[u8], level: i32) -> (r: Result<Vec<u8>, std::io::Error>)
    ensures
        r is Ok <==> zstd_takes(level),
        r matches Ok(bytes) ==> bytes@ == zstd_stream(data@, level),
{
    let mut encoder = zstd::Encoder::new(Vec::new(), level)?;
    encoder.write_all(data)?;
    encoder.finish()
}

/// What the output of a codec, or its failure, becomes.
pub fn codec_outcome(outcome: Result<Vec<u8>, std::io::Error>) -> (r: Result<Vec<u8>, BuildError>)
    ensures
        match outcome {
            Ok(bytes) => r == Ok::<Vec<u8>, BuildError>(bytes),
            Err(e) => r == Err::<Vec<u8>, BuildError>(BuildError::Compression(e)),
        },
{
    match outcome {
        Ok(bytes) => Ok(bytes),
        Err(e) => Err(BuildError::Compression(e)),
    }
}

/// Compresses the data with the codec of `kind`, in one pass.
///
/// A level that the codec cannot even be called with is turned down before
/// anything is compressed. Any other level goes to the codec as it is: where
/// the codec takes it the stream comes back, and else the codec's own error.
pub fn compress(kind: &CompressType, data: &[u8]) -> (r: Result<Vec<u8>, BuildError>)
    ensures
        match kind.rejected_level() {
            Some(level) => r == Err::<Vec<u8>, BuildError>(BuildError::LevelRejected(level)),
            None => match r {
                Ok(bytes) => codec_accepts(*kind) && bytes@ == compressed(*kind, data@),
                Err(e) => !codec_accepts(*kind) && e is Compression,
            },
        },
{
    match kind.check_level() {
        Err(e) => Err(e),
        Ok(()) => match kind {
            CompressType::Xz { level } => codec_outcome(xz_encode(data, *level)),
            CompressType::Gz { level } => codec_outcome(gz_encode(data, *level)),
            CompressType::Zstd { level } => codec_outcome(zstd_encode(data, *level)),
        },
    }
}

} // verus!
