//! The two fractals and the fixed values of a render.
//!
//! Plane values are held as whole numbers of hundredths, so that the caller
//! can turn them into its own number type by one division.

use vstd::prelude::*;

verus! {

/// How many units of the plane values below make up one unit of the plane.
pub const HUNDREDTHS_PER_UNIT: i32 = 100;

/// The radius of the disk an orbit has to leave to count as diverged, in
/// hundredths.
pub const DIVERGENCE_BOUND: i32 = 200;

/// The real part of the constant that the Julia recurrence adds, in hundredths.
pub const JULIA_CONSTANT_RE: i32 = -79;

/// The imaginary part of the constant that the Julia recurrence adds, in
/// hundredths.
pub const JULIA_CONSTANT_IM: i32 = 15;

/// The left edge of both regions, in hundredths.
pub const X_MIN: i32 = -210;

/// The right edge of the Mandelbrot region, in hundredths.
pub const MANDELBROT_X_MAX: i32 = 60;

/// The right edge of the Julia region, in hundredths.
pub const JULIA_X_MAX: i32 = 210;

/// The lower edge of both regions, in hundredths.
pub const Y_MIN: i32 = -120;

/// The upper edge of both regions, in hundredths.
pub const Y_MAX: i32 = 120;

/// The width of the rendered image in pixels.
pub const IMAGE_WIDTH: u32 = 800;

/// The height of the rendered image in pixels.
pub const IMAGE_HEIGHT: u32 = 600;

/// Where the Mandelbrot image is written.
pub const MANDELBROT_OUT_FILE_NAME: &'static str = "./mandelbrot.png";

/// Where the Julia image is written.
pub const JULIA_OUT_FILE_NAME: &'static str = "./julia.png";

/// Which fractal is rendered. The choice fixes which of the start point and
/// the added constant varies over the grid.
#[derive(Clone, Copy, Debug, PartialEq, Eq, Structural)]
pub enum Fractal {
    /// The orbit starts at the origin and the sampled point is the constant.
    Mandelbrot,
    /// The orbit starts at the sampled point and the constant is fixed.
    Julia,
}

/// A rectangle of the plane, each bound in hundredths.
#[derive(Clone, Copy, Debug, PartialEq, Eq, Structural)]
pub struct Region {
    pub x_min: i32,
    pub x_max: i32,
    pub y_min: i32,
    pub y_max: i32,
}

impl Region {
    /// The rectangle has an interior: each lower bound lies below its upper
    /// bound.
    pub open spec fn wf(self) -> bool {
        self.x_min < self.x_max && self.y_min < self.y_max
    }
}

impl Fractal {
    /// The point the orbit of a sample `p` starts at.
    pub open spec fn start<Z>(self, p: Z, origin: Z) -> Z {
        match self {
            Fractal::Mandelbrot => origin,
            Fractal::Julia => p,
        }
    }

    /// The constant the recurrence adds for a sample `p`.
    pub open spec fn constant<Z>(self, p: Z, julia_constant: Z) -> Z {
        match self {
            Fractal::Mandelbrot => p,
            Fractal::Julia => julia_constant,
        }
    }

    /// The region of the plane a render of this fractal covers.
    pub open spec fn spec_region(self) -> Region {
        match self {
            Fractal::Mandelbrot => Region {
                x_min: X_MIN,
                x_max: MANDELBROT_X_MAX,
                y_min: Y_MIN,
                y_max: Y_MAX,
            },
            Fractal::Julia => Region {
                x_min: X_MIN,
                x_max: JULIA_X_MAX,
                y_min: Y_MIN,
                y_max: Y_MAX,
            },
        }
    }

    /// The path of the image file of this fractal.
    pub open spec fn spec_out_file_name(self) -> Seq<char> {
        match self {
            Fractal::Mandelbrot => MANDELBROT_OUT_FILE_NAME@,
            Fractal::Julia => JULIA_OUT_FILE_NAME@,
        }
    }

    /// The region of the plane a render of this fractal covers.
    pub fn region(self) -> (region: Region)
        ensures
            region == self.spec_region(),
            region.wf(),
    {
        match self {
            Fractal::Mandelbrot => Region {
                x_min: X_MIN,
                x_max: MANDELBROT_X_MAX,
                y_min: Y_MIN,
                y_max: Y_MAX,
            },
            Fractal::Julia => Region {
                x_min: X_MIN,
                x_max: JULIA_X_MAX,
                y_min: Y_MIN,
                y_max: Y_MAX,
            },
        }
    }

    /// The path of the image file of this fractal.
    pub fn out_file_name(self) -> (path: &'static str)
        ensures
            path@ == self.spec_out_file_name(),
    {
        match self {
            Fractal::Mandelbrot => MANDELBROT_OUT_FILE_NAME,
            Fractal::Julia => JULIA_OUT_FILE_NAME,
        }
    }
}

} // verus!
