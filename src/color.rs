use vstd::prelude::*;

verus! {

/// A subset of the three channels: red is bit 0, green bit 1 and blue bit 2.
/// White is the full set, black the empty one.
#[derive(Clone, Copy, Debug, PartialEq, Eq, Structural)]
pub struct Color {
    bits: u8,
}

impl View for Color {
    type V = u8;

    closed spec fn view(&self) -> u8 {
        self.bits
    }
}

pub open spec fn spec_black() -> u8 { 0 }
pub open spec fn spec_red() -> u8 { 1 }
pub open spec fn spec_green() -> u8 { 2 }
pub open spec fn spec_yellow() -> u8 { 3 }
pub open spec fn spec_blue() -> u8 { 4 }
pub open spec fn spec_magenta() -> u8 { 5 }
pub open spec fn spec_cyan() -> u8 { 6 }
pub open spec fn spec_white() -> u8 { 7 }

/// A mask that holds exactly one channel.
pub open spec fn is_single_channel(b: u8) -> bool {
    b == spec_red() || b == spec_green() || b == spec_blue()
}

/// A mask that holds exactly two channels: cyan, magenta or yellow.
pub open spec fn is_channel_pair(b: u8) -> bool {
    b == spec_cyan() || b == spec_magenta() || b == spec_yellow()
}

impl Color {
    #[verifier::type_invariant]
    spec fn inv(self) -> bool {
        self.bits < 8
    }

    pub fn black() -> (r: Color)
        ensures
            r@ == spec_black(),
    {
        Color { bits: 0 }
    }

    pub fn red() -> (r: Color)
        ensures
            r@ == spec_red(),
    {
        Color { bits: 1 }
    }

    pub fn green() -> (r: Color)
        ensures
            r@ == spec_green(),
    {
        Color { bits: 2 }
    }

    pub fn yellow() -> (r: Color)
        ensures
            r@ == spec_yellow(),
    {
        Color { bits: 3 }
    }

    pub fn blue() -> (r: Color)
        ensures
            r@ == spec_blue(),
    {
        Color { bits: 4 }
    }

    pub fn magenta() -> (r: Color)
        ensures
            r@ == spec_magenta(),
    {
        Color { bits: 5 }
    }

    pub fn cyan() -> (r: Color)
        ensures
            r@ == spec_cyan(),
    {
        Color { bits: 6 }
    }

    pub fn white() -> (r: Color)
        ensures
            r@ == spec_white(),
    {
        Color { bits: 7 }
    }

    /// The mask with the given bits, or `None` where a bit above the three
    /// channels is set.
    pub fn from_bits(bits: u8) -> (r: Option<Color>)
        ensures
            bits < 8 <==> r is Some,
            r matches Some(c) ==> c@ == bits,
    {
        if bits < 8 {
            Some(Color { bits })
        } else {
            None
        }
    }

    /// The mask with the channel bits of `bits`; higher bits are dropped.
    pub fn from_bits_truncate(bits: u8) -> (r: Color)
        ensures
            r@ == bits & 7,
    {
        proof {
            assert(bits & 7 < 8) by (bit_vector);
        }
        Color { bits: bits & 7 }
    }

    /// The mask as a number below 8.
    pub fn bits(&self) -> (r: u8)
        ensures
            r == self@,
            r < 8,
    {
        proof { use_type_invariant(self); }
        self.bits
    }

    /// Whether every channel of `other` is in `self`.
    pub fn contains(&self, other: Color) -> (r: bool)
        ensures
            r == (self@ & other@ == other@),
    {
        self.bits & other.bits == other.bits
    }

    /// Whether no channel is set.
    pub fn is_empty(&self) -> (r: bool)
        ensures
            r == (self@ == 0),
    {
        self.bits == 0
    }

    /// The channels in both masks.
    pub fn intersection(&self, other: Color) -> (r: Color)
        ensures
            r@ == self@ & other@,
    {
        proof {
            use_type_invariant(self);
            let (a, b) = (self.bits, other.bits);
            assert(a < 8 ==> a & b < 8) by (bit_vector);
        }
        Color { bits: self.bits & other.bits }
    }

    /// The channels in either mask.
    pub fn union(&self, other: Color) -> (r: Color)
        ensures
            r@ == self@ | other@,
    {
        proof {
            use_type_invariant(self);
            use_type_invariant(&other);
            let (a, b) = (self.bits, other.bits);
            assert(a < 8 && b < 8 ==> a | b < 8) by (bit_vector);
        }
        Color { bits: self.bits | other.bits }
    }

    /// The channels in exactly one of the two masks.
    pub fn symmetric_difference(&self, other: Color) -> (r: Color)
        ensures
            r@ == self@ ^ other@,
    {
        proof {
            use_type_invariant(self);
            use_type_invariant(&other);
            let (a, b) = (self.bits, other.bits);
            assert(a < 8 && b < 8 ==> a ^ b < 8) by (bit_vector);
        }
        Color { bits: self.bits ^ other.bits }
    }

    /// The channels that are not in the mask.
    pub fn complement(&self) -> (r: Color)
        ensures
            r@ == 7 - self@,
    {
        proof {
            use_type_invariant(self);
            let a = self.bits;
            assert(a < 8 ==> a ^ 7u8 == 7 - a) by (bit_vector);
        }
        Color { bits: self.bits ^ 7 }
    }
}

} // verus!
