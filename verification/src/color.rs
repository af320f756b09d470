//! RGBA colors over fixed-point scalars.
//!
//! Channel values nominally lie in `[0, SCALE]`, but all arithmetic is the
//! same saturating fixed-point arithmetic as the scalars use, so intermediate
//! light sums may exceed one before the final combination.

use vstd::prelude::*;

use crate::fixed::{
    div_count, fx_mul, sat_add, spec_add, spec_div_count, spec_mul, SCALE,
};

verus! {

/// An RGBA color; each channel is a fixed-point scalar.
#[derive(Clone, Copy, Debug, PartialEq, Eq, Structural)]
pub struct Color {
    pub red: i64,
    pub green: i64,
    pub blue: i64,
    pub alpha: i64,
}

/// Componentwise saturating sum over all four channels.
pub open spec fn cadd(a: Color, b: Color) -> Color {
    Color {
        red: spec_add(a.red as int, b.red as int) as i64,
        green: spec_add(a.green as int, b.green as int) as i64,
        blue: spec_add(a.blue as int, b.blue as int) as i64,
        alpha: spec_add(a.alpha as int, b.alpha as int) as i64,
    }
}

/// Componentwise fixed-point product over all four channels. The alpha
/// channel multiplies along with the color channels; the light combination
/// step inherits that coupling deliberately.
pub open spec fn cmul(a: Color, b: Color) -> Color {
    Color {
        red: spec_mul(a.red as int, b.red as int) as i64,
        green: spec_mul(a.green as int, b.green as int) as i64,
        blue: spec_mul(a.blue as int, b.blue as int) as i64,
        alpha: spec_mul(a.alpha as int, b.alpha as int) as i64,
    }
}

/// Every channel scaled by one fixed-point scalar.
pub open spec fn cscale(a: Color, s: int) -> Color {
    Color {
        red: spec_mul(a.red as int, s) as i64,
        green: spec_mul(a.green as int, s) as i64,
        blue: spec_mul(a.blue as int, s) as i64,
        alpha: spec_mul(a.alpha as int, s) as i64,
    }
}

/// Every channel divided by a positive sample count.
pub open spec fn cdivn(a: Color, n: int) -> Color
    recommends
        n >= 1,
{
    Color {
        red: spec_div_count(a.red as int, n) as i64,
        green: spec_div_count(a.green as int, n) as i64,
        blue: spec_div_count(a.blue as int, n) as i64,
        alpha: spec_div_count(a.alpha as int, n) as i64,
    }
}

impl Color {
    pub fn new(red: i64, green: i64, blue: i64, alpha: i64) -> (c: Color)
        ensures
            c == (Color { red, green, blue, alpha }),
    {
        Color { red, green, blue, alpha }
    }

    pub fn add(self, o: Color) -> (c: Color)
        ensures
            c == cadd(self, o),
    {
        Color {
            red: sat_add(self.red, o.red),
            green: sat_add(self.green, o.green),
            blue: sat_add(self.blue, o.blue),
            alpha: sat_add(self.alpha, o.alpha),
        }
    }

    pub fn mul(self, o: Color) -> (c: Color)
        ensures
            c == cmul(self, o),
    {
        Color {
            red: fx_mul(self.red, o.red),
            green: fx_mul(self.green, o.green),
            blue: fx_mul(self.blue, o.blue),
            alpha: fx_mul(self.alpha, o.alpha),
        }
    }

    pub fn scale(self, s: i64) -> (c: Color)
        ensures
            c == cscale(self, s as int),
    {
        Color {
            red: fx_mul(self.red, s),
            green: fx_mul(self.green, s),
            blue: fx_mul(self.blue, s),
            alpha: fx_mul(self.alpha, s),
        }
    }

    pub fn div_samples(self, n: u64) -> (c: Color)
        requires
            n >= 1,
        ensures
            c == cdivn(self, n as int),
    {
        Color {
            red: div_count(self.red, n),
            green: div_count(self.green, n),
            blue: div_count(self.blue, n),
            alpha: div_count(self.alpha, n),
        }
    }
}

/// An opaque color from three channel values: the alpha channel is one.
pub fn color(red: i64, green: i64, blue: i64) -> (c: Color)
    ensures
        c == (Color { red, green, blue, alpha: SCALE }),
{
    Color { red, green, blue, alpha: SCALE }
}

} // verus!
