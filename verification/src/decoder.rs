//! Hardware video decoding.
//!
//! Decoding runs on a vendor video-processing unit.  This build of the
//! library carries no VPU backend, so [`is_available`] reports `false` and
//! creating a decoder reports the entry point as missing.  The codec and
//! return-code types are plain data and are used by callers either way.

use vstd::prelude::*;

use crate::Error;

verus! {

/// The compressed formats a decoder session accepts.
#[derive(Debug, Clone, Copy, PartialEq, Eq, Structural)]
pub enum DecoderInputCodec {
    /// H.264 / AVC bitstream input.
    H264,
    /// H.265 / HEVC bitstream input.
    HEVC,
}

impl DecoderInputCodec {
    /// The numeric value of the codec selector.
    pub fn as_i32(&self) -> (r: i32)
        ensures
            self is H264 ==> r == 0,
            self is HEVC ==> r == 1,
    {
        match self {
            DecoderInputCodec::H264 => 0,
            DecoderInputCodec::HEVC => 1,
        }
    }
}

/// What one decode step produced.
#[derive(Debug, Clone, Copy, PartialEq, Eq, Structural)]
pub enum DecodeReturnCode {
    /// Input was consumed; nothing else happened yet.
    Success,
    /// The decoder read the stream headers and configured itself.
    Initialized,
    /// A frame was decoded and is available.
    FrameDecoded,
}

/// Whether decoding is available: this build carries no VPU backend, so the
/// answer is always `false`, and callers fall back to software paths.
pub fn is_available() -> (r: Result<bool, Error>)
    ensures
        r == Ok::<bool, Error>(false),
{
    Ok(false)
}

/// A hardware decoder session.  None can be created in this build, so a
/// value of this type never exists; the type keeps the decoding API shape
/// for callers that probe availability first.
pub struct Decoder {
    codec: DecoderInputCodec,
    fps: i32,
}

impl Decoder {
    /// Creates a decoder session.  This build carries no VPU entry points,
    /// so creation always reports the symbol as missing.
    pub fn create(input_codec: DecoderInputCodec, fps: i32) -> (r: Result<Decoder, Error>)
        ensures
            r == Err::<Decoder, Error>(Error::SymbolNotFound),
    {
        let _ = input_codec;
        let _ = fps;
        Err(Error::SymbolNotFound)
    }
}

} // verus!
