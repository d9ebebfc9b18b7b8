//! A zoom factor, as the bits of a double.

use vstd::prelude::*;

verus! {

/// One half.
pub const HALF: u64 = 0x3fe0_0000_0000_0000;

/// One.
pub const ONE: u64 = 0x3ff0_0000_0000_0000;

/// Three.
pub const THREE: u64 = 0x4008_0000_0000_0000;

/// Four.
pub const FOUR: u64 = 0x4010_0000_0000_0000;

/// The bits of positive infinity, the greatest of the positive numbers.
pub const INFINITY: u64 = 0x7ff0_0000_0000_0000;

/// The sign bit.
pub const SIGN: u64 = 0x8000_0000_0000_0000;

/// A double, by its bits. Positive doubles are in the order of their bits.
#[derive(Debug, Clone, Copy, PartialEq, Eq, Structural)]
pub struct Zoom {
    pub bits: u64,
}

impl Zoom {
    /// The bits stand for no number.
    pub open spec fn is_nan(self) -> bool {
        self.bits as int % SIGN as int > INFINITY
    }

    /// The sign bit is set.
    pub open spec fn is_signed(self) -> bool {
        self.bits >= SIGN
    }

    /// The number is greater than zero.
    pub open spec fn is_positive(self) -> bool {
        0 < self.bits <= INFINITY
    }

    /// The number, brought between two positive numbers; what is no number stays
    /// as it is.
    pub open spec fn clamped(self, lo: u64, hi: u64) -> Zoom {
        if self.is_nan() {
            self
        } else if self.is_signed() || self.bits < lo {
            Zoom { bits: lo }
        } else if self.bits > hi {
            Zoom { bits: hi }
        } else {
            self
        }
    }

    /// Whether the number is greater than zero.
    pub fn positive(self) -> (r: bool)
        ensures
            r == self.is_positive(),
    {
        0 < self.bits && self.bits <= INFINITY
    }

    /// Brings the number between two positive numbers.
    pub fn clamp_bits(self, lo: u64, hi: u64) -> (r: Zoom)
        requires
            0 < lo <= hi <= INFINITY,
        ensures
            r == self.clamped(lo, hi),
    {
        if self.bits % SIGN > INFINITY {
            self
        } else if self.bits >= SIGN || self.bits < lo {
            Zoom { bits: lo }
        } else if self.bits > hi {
            Zoom { bits: hi }
        } else {
            self
        }
    }
}

/// A number that is clamped lies between the bounds.
pub proof fn law_clamped(z: Zoom, lo: u64, hi: u64)
    requires
        0 < lo <= hi <= INFINITY,
        !z.is_nan(),
    ensures
        lo <= z.clamped(lo, hi).bits <= hi,
        z.clamped(lo, hi).clamped(lo, hi) == z.clamped(lo, hi),
{
}

} // verus!
