//! Digest sizes of the wrapped hash transformations.  The wrapped native
//! library reports a size in bytes; everything here keeps the two unit
//! systems straight.

use vstd::prelude::*;

verus! {

/// The digest size of a supported hash transformation.
#[derive(PartialEq, Eq, Structural, Clone, Copy, Debug)]
pub enum DigestSize {
    Bits224,
    Bits256,
    Bits384,
    Bits512,
}

/// The size in bits of each supported digest.
pub open spec fn spec_bits(d: DigestSize) -> u32 {
    match d {
        DigestSize::Bits224 => 224,
        DigestSize::Bits256 => 256,
        DigestSize::Bits384 => 384,
        DigestSize::Bits512 => 512,
    }
}

impl DigestSize {
    /// The digest size in bits.
    pub fn in_bits(&self) -> (r: u32)
        ensures
            r == spec_bits(*self),
    {
        match self {
            DigestSize::Bits224 => 224,
            DigestSize::Bits256 => 256,
            DigestSize::Bits384 => 384,
            DigestSize::Bits512 => 512,
        }
    }

    /// The digest size in bytes.  `None` would signal a size in bits not
    /// divisible by eight; every supported size is, so this is always
    /// `Some`.
    pub fn in_bytes(&self) -> (r: Option<u32>)
        ensures
            r == Option::Some(spec_bits(*self) / 8),
    {
        Option::Some(
            match self {
                DigestSize::Bits224 => 224 / 8,
                DigestSize::Bits256 => 256 / 8,
                DigestSize::Bits384 => 384 / 8,
                DigestSize::Bits512 => 512 / 8,
            },
        )
    }

    /// The digest size for a byte count reported by the wrapped library.
    /// Only the four supported sizes are meaningful.
    pub fn from_size_in_bytes(bytes: u32) -> (r: DigestSize)
        requires
            bytes == 28 || bytes == 32 || bytes == 48 || bytes == 64,
        ensures
            spec_bits(r) == 8 * bytes,
    {
        proof {
            assert(bytes << 3 == bytes * 8) by (bit_vector)
                requires
                    bytes == 28 || bytes == 32 || bytes == 48 || bytes == 64,
            ;
        }
        DigestSize::from_size_in_bits(bytes << 3)
    }

    /// The digest size for a bit count.  Only the four supported sizes are
    /// meaningful.
    pub fn from_size_in_bits(bits: u32) -> (r: DigestSize)
        requires
            bits == 224 || bits == 256 || bits == 384 || bits == 512,
        ensures
            spec_bits(r) == bits,
    {
        if bits == 224 {
            DigestSize::Bits224
        } else if bits == 256 {
            DigestSize::Bits256
        } else if bits == 384 {
            DigestSize::Bits384
        } else {
            DigestSize::Bits512
        }
    }
}

} // verus!
