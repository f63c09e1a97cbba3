//! Iteration counts and the four colour bands they fall into.

use vstd::prelude::*;

verus! {

/// The iteration cap: no point is iterated more often than this.
pub const MAX_ITERATIONS: u8 = 255;

/// The last iteration count of the lowest band.
pub const RED_LAST: u8 = 20;

/// The last iteration count of the second band.
pub const YELLOW_LAST: u8 = 80;

/// The last iteration count of the third band.
pub const GREEN_LAST: u8 = 160;

/// The colour class of a sample. `Red` is the lowest band (the point left the
/// divergence bound almost at once), `Black` the highest (it never left it).
#[derive(Clone, Copy, Debug, PartialEq, Eq, Structural)]
pub enum Color {
    Black,
    Yellow,
    Green,
    Red,
}

/// An RGB triple, one byte per channel.
#[derive(Clone, Copy, Debug, PartialEq, Eq, Structural)]
pub struct Rgb {
    pub red: u8,
    pub green: u8,
    pub blue: u8,
}

impl Color {
    /// The smallest iteration count of this band.
    pub open spec fn first(self) -> int {
        match self {
            Color::Red => 0,
            Color::Yellow => RED_LAST + 1,
            Color::Green => YELLOW_LAST + 1,
            Color::Black => GREEN_LAST + 1,
        }
    }

    /// The largest iteration count of this band.
    pub open spec fn last(self) -> int {
        match self {
            Color::Red => RED_LAST as int,
            Color::Yellow => YELLOW_LAST as int,
            Color::Green => GREEN_LAST as int,
            Color::Black => MAX_ITERATIONS as int,
        }
    }

    /// Whether `iterations` lies in this band.
    pub open spec fn covers(self, iterations: int) -> bool {
        self.first() <= iterations <= self.last()
    }

    /// The channel values a colour class is drawn with.
    pub open spec fn rgb(self) -> Rgb {
        match self {
            Color::Black => Rgb { red: 0, green: 0, blue: 0 },
            Color::Yellow => Rgb { red: 255, green: 255, blue: 0 },
            Color::Green => Rgb { red: 0, green: 255, blue: 0 },
            Color::Red => Rgb { red: 255, green: 0, blue: 0 },
        }
    }

    /// The RGB triple that a plotting backend is handed for this colour class.
    pub fn as_plotters_color(&self) -> (rgb: Rgb)
        ensures
            rgb == self.rgb(),
    {
        match self {
            Color::Black => Rgb { red: 0, green: 0, blue: 0 },
            Color::Yellow => Rgb { red: 255, green: 255, blue: 0 },
            Color::Green => Rgb { red: 0, green: 255, blue: 0 },
            Color::Red => Rgb { red: 255, green: 0, blue: 0 },
        }
    }
}

/// The band an iteration count falls into: the cuts lie after `RED_LAST`,
/// `YELLOW_LAST` and `GREEN_LAST`, and a count on a cut belongs to the lower
/// band.
pub open spec fn band_of(iterations: int) -> Color {
    if iterations <= RED_LAST {
        Color::Red
    } else if iterations <= YELLOW_LAST {
        Color::Yellow
    } else if iterations <= GREEN_LAST {
        Color::Green
    } else {
        Color::Black
    }
}

/// Maps an iteration count to its colour class.
pub fn get_color_based_on_number_of_iterations(iterations: u8) -> (color: Color)
    ensures
        color == band_of(iterations as int),
        color.covers(iterations as int),
{
    if iterations <= RED_LAST {
        Color::Red
    } else if iterations <= YELLOW_LAST {
        Color::Yellow
    } else if iterations <= GREEN_LAST {
        Color::Green
    } else {
        Color::Black
    }
}

/// The four bands partition the iteration counts: every count from 0 to
/// `MAX_ITERATIONS` lies in the band `band_of` names and in no other, and no
/// band reaches outside that range.
pub proof fn lemma_bands_partition(iterations: int, color: Color)
    ensures
        0 <= iterations <= MAX_ITERATIONS ==> (color.covers(iterations) <==> color == band_of(
            iterations,
        )),
        color.covers(iterations) ==> 0 <= iterations <= MAX_ITERATIONS,
{
}

/// The cuts between the bands lie exactly after `RED_LAST`, `YELLOW_LAST` and
/// `GREEN_LAST`: two neighbouring counts differ in colour if and only if the
/// lower of them is one of these three.
pub proof fn lemma_band_cuts(iterations: int)
    requires
        0 <= iterations < MAX_ITERATIONS,
    ensures
        band_of(iterations) != band_of(iterations + 1) <==> (iterations == RED_LAST || iterations
            == YELLOW_LAST || iterations == GREEN_LAST),
{
}

} // verus!
