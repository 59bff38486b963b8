//! Decoding of single samples.

use vstd::prelude::*;
use crate::error::Error;
use crate::fmt::BitDepth;

verus! {

/// One decoded sample.
#[derive(Debug, Clone, Copy, PartialEq, Eq, Structural)]
pub enum Data {
    /// 8 bit audio, unsigned.
    BitDepth8(u8),
    /// 16 bit audio, signed.
    BitDepth16(i16),
    /// 24 bit audio, signed, widened to 32 bits.
    BitDepth24(i32),
}

/// The signed number that two little-endian bytes stand for.
pub open spec fn spec_i16_le(b0: u8, b1: u8) -> int {
    b0 + 0x100 * b1 - if b1 >= 0x80 {
        0x1_0000int
    } else {
        0int
    }
}

/// The signed number that three little-endian bytes stand for; bit 7 of the
/// last byte is the sign.
pub open spec fn spec_i24_le(b0: u8, b1: u8, b2: u8) -> int {
    b0 + 0x100 * b1 + 0x1_0000 * b2 - if b2 >= 0x80 {
        0x100_0000int
    } else {
        0int
    }
}

impl Data {
    /// What `decode` gives for samples of `bits` bits and the bytes `s`.
    pub open spec fn spec_decode(bits: u16, s: Seq<u8>) -> Result<Data, Error> {
        match BitDepth::spec_from_bits(bits) {
            Err(e) => Err(e),
            Ok(depth) => if s.len() != depth.spec_sample_len() {
                Err(Error::CantParseSliceInto)
            } else {
                Ok(
                    match depth {
                        BitDepth::BitDepth8 => Data::BitDepth8(s[0]),
                        BitDepth::BitDepth16 => Data::BitDepth16(spec_i16_le(s[0], s[1]) as i16),
                        BitDepth::BitDepth24 => Data::BitDepth24(
                            spec_i24_le(s[0], s[1], s[2]) as i32,
                        ),
                    },
                )
            },
        }
    }

    /// Decodes one sample of `bits` bits from exactly the bytes it occupies.
    ///
    /// An 8-bit sample is one unsigned byte; a 16-bit sample is two bytes,
    /// little-endian and signed; a 24-bit sample is three bytes, little-endian,
    /// sign-extended to 32 bits. Any other depth fails with
    /// `UnsupportedBitDepth`; bytes of another length than the sample's fail
    /// with `CantParseSliceInto`.
    pub fn decode(bits: u16, bytes: &[u8]) -> (r: Result<Data, Error>)
        ensures
            r == Data::spec_decode(bits, bytes@),
    {
        let depth = match BitDepth::from_bits(bits) {
            Ok(depth) => depth,
            Err(e) => {
                return Err(e);
            },
        };
        if bytes.len() != depth.sample_len() {
            return Err(Error::CantParseSliceInto);
        }
        match depth {
            BitDepth::BitDepth8 => Ok(Data::BitDepth8(bytes[0])),
            BitDepth::BitDepth16 => {
                let low: i32 = bytes[0] as i32 + 0x100 * (bytes[1] as i32);
                let value: i32 = if bytes[1] >= 0x80 {
                    low - 0x1_0000
                } else {
                    low
                };
                Ok(Data::BitDepth16(value as i16))
            },
            BitDepth::BitDepth24 => {
                let low: i32 = bytes[0] as i32 + 0x100 * (bytes[1] as i32) + 0x1_0000 * (
                bytes[2] as i32);
                let value: i32 = if bytes[2] >= 0x80 {
                    low - 0x100_0000
                } else {
                    low
                };
                Ok(Data::BitDepth24(value))
            },
        }
    }
}

} // verus!
