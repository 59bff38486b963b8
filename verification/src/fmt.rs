//! The format descriptor of a container.

use vstd::prelude::*;
use crate::error::Error;

verus! {

/// Bytes of a `fmt ` chunk that the decoder reads.
pub const FMT_LEN: usize = 16;

/// The format tag of uncompressed linear PCM.
pub const PCM_FORMAT_TAG: u16 = 1;

/// How the samples are encoded. Only uncompressed PCM is handled.
#[derive(Debug, Clone, Copy, PartialEq, Eq, Structural)]
pub enum AudioCodec {
    /// Uncompressed PCM, which needs no decoding.
    UncompressedPcm,
}

/// The bit depths that the reader can decode.
#[derive(Debug, Clone, Copy, PartialEq, Eq, Structural)]
pub enum BitDepth {
    /// 8 bit audio.
    BitDepth8,
    /// 16 bit audio.
    BitDepth16,
    /// 24 bit audio.
    BitDepth24,
}

impl BitDepth {
    /// What `from_bits` gives for `bits`.
    pub open spec fn spec_from_bits(bits: u16) -> Result<BitDepth, Error> {
        if bits == 8 {
            Ok(BitDepth::BitDepth8)
        } else if bits == 16 {
            Ok(BitDepth::BitDepth16)
        } else if bits == 24 {
            Ok(BitDepth::BitDepth24)
        } else {
            Err(Error::UnsupportedBitDepth(bits))
        }
    }

    /// Bytes that one sample of this depth occupies.
    pub open spec fn spec_sample_len(self) -> nat {
        match self {
            BitDepth::BitDepth8 => 1,
            BitDepth::BitDepth16 => 2,
            BitDepth::BitDepth24 => 3,
        }
    }

    /// The depth for a number of bits per sample; any number but 8, 16 and 24
    /// fails with `UnsupportedBitDepth`, which carries it.
    pub fn from_bits(bits: u16) -> (r: Result<BitDepth, Error>)
        ensures
            r == BitDepth::spec_from_bits(bits),
    {
        if bits == 8 {
            Ok(BitDepth::BitDepth8)
        } else if bits == 16 {
            Ok(BitDepth::BitDepth16)
        } else if bits == 24 {
            Ok(BitDepth::BitDepth24)
        } else {
            Err(Error::UnsupportedBitDepth(bits))
        }
    }

    /// Bytes that one sample of this depth occupies.
    pub fn sample_len(self) -> (n: usize)
        ensures
            n == self.spec_sample_len(),
    {
        match self {
            BitDepth::BitDepth8 => 1,
            BitDepth::BitDepth16 => 2,
            BitDepth::BitDepth24 => 3,
        }
    }
}

/// The `fmt ` chunk of a container.
#[derive(Debug, Clone, Copy, PartialEq, Eq, Structural)]
pub struct Fmt {
    /// The codec of the sample data.
    pub audio_format: AudioCodec,
    /// Sample rate; typical values are `44_100`, `48_000` or `96_000`.
    pub sample_rate: u32,
    /// Number of channels in the sample data; channels are interleaved.
    pub num_channels: u16,
    /// Bit depth of each sample; typical values are `16` or `24`.
    pub bit_depth: u16,
}

/// The unsigned 16-bit little-endian number at `at`.
pub open spec fn spec_u16_le(s: Seq<u8>, at: int) -> nat {
    (s[at] + 0x100 * s[at + 1]) as nat
}

/// Reads the little-endian `u16` at `at`.
pub fn read_u16_le(bytes: &[u8], at: usize) -> (v: u16)
    requires
        at + 2 <= bytes.len(),
    ensures
        v == spec_u16_le(bytes@, at as int),
{
    let b0: u16 = bytes[at] as u16;
    let b1: u16 = bytes[at + 1] as u16;
    b0 + 0x100 * b1
}

impl Fmt {
    /// What `from_chunk` gives for the chunk content `s`.
    pub open spec fn spec_from_chunk(s: Seq<u8>) -> Result<Fmt, Error> {
        if s.len() < 2 {
            Err(Error::CantParseSliceInto)
        } else if spec_u16_le(s, 0) != PCM_FORMAT_TAG {
            Err(Error::UnsupportedFormat(spec_u16_le(s, 0) as u16))
        } else if s.len() < FMT_LEN {
            Err(Error::CantParseSliceInto)
        } else {
            Ok(
                Fmt {
                    audio_format: AudioCodec::UncompressedPcm,
                    num_channels: spec_u16_le(s, 2) as u16,
                    sample_rate: crate::chunk::spec_u32_le(s, 4) as u32,
                    bit_depth: spec_u16_le(s, 14) as u16,
                },
            )
        }
    }

    /// Decodes the content of a `fmt ` chunk: the format tag in bytes 0 and 1,
    /// the channel count in bytes 2 and 3, the sample rate in bytes 4 to 7 and
    /// the bits per sample in bytes 14 and 15, all little-endian.
    ///
    /// A format tag other than PCM fails with `UnsupportedFormat`, which
    /// carries the tag; content too short for a field fails with
    /// `CantParseSliceInto`.
    pub fn from_chunk(bytes: &[u8]) -> (r: Result<Fmt, Error>)
        ensures
            r == Fmt::spec_from_chunk(bytes@),
    {
        if bytes.len() < 2 {
            return Err(Error::CantParseSliceInto);
        }
        let format: u16 = read_u16_le(bytes, 0);
        if format != PCM_FORMAT_TAG {
            return Err(Error::UnsupportedFormat(format));
        }
        if bytes.len() < FMT_LEN {
            return Err(Error::CantParseSliceInto);
        }
        let num_channels: u16 = read_u16_le(bytes, 2);
        let sample_rate: u32 = crate::chunk::read_u32_le(bytes, 4);
        let bit_depth: u16 = read_u16_le(bytes, 14);
        Ok(Fmt { audio_format: AudioCodec::UncompressedPcm, num_channels, sample_rate, bit_depth })
    }
}

} // verus!
