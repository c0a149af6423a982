//! Colors as per-mille channel intensities, so that the presentation data
//! the simulation carries (sprite and projectile tints) stays on integers.

use vstd::prelude::*;

verus! {

/// An RGB color; each channel ranges over `0..=1000` (per-mille intensity).
#[derive(Clone, Copy, PartialEq, Eq, Structural, Debug)]
pub struct Rgb {
    pub r: u16,
    pub g: u16,
    pub b: u16,
}

impl Rgb {
    pub open spec fn wf(self) -> bool {
        self.r <= 1000 && self.g <= 1000 && self.b <= 1000
    }

    pub fn new(r: u16, g: u16, b: u16) -> (c: Rgb)
        requires
            r <= 1000,
            g <= 1000,
            b <= 1000,
        ensures
            c == (Rgb { r, g, b }),
            c.wf(),
    {
        Rgb { r, g, b }
    }

    pub fn white() -> (c: Rgb)
        ensures
            c == (Rgb { r: 1000u16, g: 1000u16, b: 1000u16 }),
    {
        Rgb { r: 1000, g: 1000, b: 1000 }
    }
}

} // verus!
