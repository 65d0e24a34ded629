//! The rule that picks the reference band when the light of a black body is
//! normalised.
//!
//! The radiance of a black body is averaged over three wavelength bands, and
//! each average is divided by the greatest of the three, so that the
//! brightest band comes out at full intensity. The averages themselves are
//! not integers; what this module takes is the outcome of comparing them.

use vstd::prelude::*;

verus! {

/// One of the three wavelength bands.
#[derive(Clone, Copy, PartialEq, Eq, Hash, Debug, Structural)]
pub enum Band {
    Red,
    Green,
    Blue,
}

impl Band {
    /// The reference band, given which band strictly exceeds which: red if it
    /// exceeds both others, else green if it exceeds blue, else blue.
    pub open spec fn peak_of(red_over_green: bool, red_over_blue: bool, green_over_blue: bool) -> Band {
        if red_over_green && red_over_blue {
            Band::Red
        } else if green_over_blue {
            Band::Green
        } else {
            Band::Blue
        }
    }

    /// This band's entry among three levels.
    pub open spec fn level(self, red: int, green: int, blue: int) -> int {
        match self {
            Band::Red => red,
            Band::Green => green,
            Band::Blue => blue,
        }
    }

    /// Picks the reference band from the three strict comparisons
    /// `red > green`, `red > blue` and `green > blue`.
    pub fn peak(red_over_green: bool, red_over_blue: bool, green_over_blue: bool) -> (band: Band)
        ensures
            band == Self::peak_of(red_over_green, red_over_blue, green_over_blue),
    {
        if red_over_green && red_over_blue {
            Band::Red
        } else if green_over_blue {
            Band::Green
        } else {
            Band::Blue
        }
    }

    /// Where the comparisons are those of three totally ordered levels, the
    /// reference band holds the greatest of them, so no band exceeds it.
    pub proof fn lemma_peak_is_greatest(red: int, green: int, blue: int)
        ensures
            ({
                let peak = Self::peak_of(red > green, red > blue, green > blue).level(red, green, blue);
                peak >= red && peak >= green && peak >= blue
            }),
    {
    }

    /// Ties change the band that is picked, never the level that it holds:
    /// where red and green are level and both exceed blue, the reference
    /// level is that of red.
    pub proof fn lemma_peak_of_tie(red: int, green: int, blue: int)
        requires
            red == green,
            green > blue,
        ensures
            Self::peak_of(red > green, red > blue, green > blue).level(red, green, blue) == red,
    {
    }
}

} // verus!
