//! The sizes that a goon comes in.

use vstd::prelude::*;
use quad_rand::RandGenerator;
use crate::random::draw_between;

verus! {

/// How vast a goon is, from the smallest to the largest.
#[derive(Clone, Copy, Debug, PartialEq, Eq, Structural)]
pub enum Vastness {
    XXS,
    XS,
    S,
    M,
    L,
    XL,
    XXL,
    XXXL,
    XXXXL,
    XXXXXL,
}

impl Vastness {
    /// Place of the vastness in the order of sizes, from 0.
    pub open spec fn rank(self) -> int {
        match self {
            Vastness::XXS => 0,
            Vastness::XS => 1,
            Vastness::S => 2,
            Vastness::M => 3,
            Vastness::L => 4,
            Vastness::XL => 5,
            Vastness::XXL => 6,
            Vastness::XXXL => 7,
            Vastness::XXXXL => 8,
            Vastness::XXXXXL => 9,
        }
    }

    /// Size in pixels of a goon of this vastness: four more with each rank up
    /// to forty, eight more with each rank after.
    pub open spec fn spec_size(self) -> int {
        if self.rank() <= 6 {
            16 + 4 * self.rank()
        } else {
            40 + 8 * (self.rank() - 6)
        }
    }

    /// The vastness of rank `value`, if there is one.
    pub fn from_int(value: usize) -> (vastness: Option<Vastness>)
        ensures
            vastness is Some <==> value <= 9,
            vastness matches Some(v) ==> v.rank() == value,
    {
        match value {
            0 => Some(Vastness::XXS),
            1 => Some(Vastness::XS),
            2 => Some(Vastness::S),
            3 => Some(Vastness::M),
            4 => Some(Vastness::L),
            5 => Some(Vastness::XL),
            6 => Some(Vastness::XXL),
            7 => Some(Vastness::XXXL),
            8 => Some(Vastness::XXXXL),
            9 => Some(Vastness::XXXXXL),
            _ => None,
        }
    }

    /// Size in pixels of a goon of this vastness. Every size is a whole
    /// number, so a caller that draws with fractions converts it exactly.
    pub fn to_float(&self) -> (size: u32)
        ensures
            size == self.spec_size(),
    {
        match self {
            Vastness::XXS => 16,
            Vastness::XS => 20,
            Vastness::S => 24,
            Vastness::M => 28,
            Vastness::L => 32,
            Vastness::XL => 36,
            Vastness::XXL => 40,
            Vastness::XXXL => 48,
            Vastness::XXXXL => 56,
            Vastness::XXXXXL => 64,
        }
    }

    /// A vastness drawn from `generator`: any but the largest.
    pub fn choose_one(generator: &RandGenerator) -> (vastness: Vastness)
        ensures
            vastness.rank() <= 8,
    {
        let value: i64 = draw_between(generator, 0, 9);
        match Vastness::from_int(value as usize) {
            Some(vastness) => vastness,
            None => Vastness::XXS,
        }
    }
}

} // verus!
