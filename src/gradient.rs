use vstd::prelude::*;

verus! {

/// A colour as red, green and blue intensities.
#[derive(Clone, Copy, Debug, PartialEq, Eq, Structural)]
pub struct Rgb {
    pub red: u8,
    pub green: u8,
    pub blue: u8,
}

/// The colour of the first line of the banner (a dark purple).
pub open spec fn start_colour() -> Rgb {
    Rgb { red: 203, green: 43, blue: 125 }
}

/// The colour halfway down the banner (a pink).
pub open spec fn mid_colour() -> Rgb {
    Rgb { red: 243, green: 63, blue: 113 }
}

/// The colour of the last line of the banner (a red-orange).
pub open spec fn end_colour() -> Rgb {
    Rgb { red: 254, green: 85, blue: 53 }
}

/// `a` moved towards `b` by the fraction `w / d`, rounded to the nearest
/// integer, a half going up.
pub open spec fn blend(a: int, b: int, w: int, d: int) -> int {
    (2 * (a * (d - w) + b * w) + d) / (2 * d)
}

pub open spec fn mix(from: Rgb, to: Rgb, w: int, d: int) -> Rgb {
    Rgb {
        red: blend(from.red as int, to.red as int, w, d) as u8,
        green: blend(from.green as int, to.green as int, w, d) as u8,
        blue: blend(from.blue as int, to.blue as int, w, d) as u8,
    }
}

/// The colour of line `line` of `lines`: the first half of the banner fades
/// from the start colour to the middle one, the second half from the middle
/// colour to the end one. A banner of one line takes the start colour.
pub open spec fn gradient(line: int, lines: int) -> Rgb {
    let d = lines - 1;
    if lines < 2 {
        start_colour()
    } else if 2 * line < d {
        mix(start_colour(), mid_colour(), 2 * line, d)
    } else {
        mix(mid_colour(), end_colour(), 2 * line - d, d)
    }
}

proof fn lemma_blend_bounds(a: int, b: int, w: int, d: int)
    requires
        0 <= a <= 255,
        0 <= b <= 255,
        0 <= w <= d,
        d > 0,
    ensures
        0 <= a * (d - w) + b * w <= 255 * d,
        0 <= blend(a, b, w, d) <= 255,
{
    assert(0 <= a * (d - w) + b * w <= 255 * d) by (nonlinear_arith)
        requires
            0 <= a <= 255,
            0 <= b <= 255,
            0 <= w <= d,
    ;
    let x = 2 * (a * (d - w) + b * w) + d;
    let y = 2 * d;
    assert(0 <= x / y < 256) by (nonlinear_arith)
        requires
            0 <= x < 256 * y,
            y > 0,
    ;
}

fn blend_channel(a: u8, b: u8, w: u128, d: u128) -> (r: u8)
    requires
        w <= d,
        0 < d <= u64::MAX,
    ensures
        r == blend(a as int, b as int, w as int, d as int),
{
    proof {
        lemma_blend_bounds(a as int, b as int, w as int, d as int);
    }
    let p = a as u128 * (d - w) + b as u128 * w;
    ((2 * p + d) / (2 * d)) as u8
}

fn mix_exec(from: Rgb, to: Rgb, w: u128, d: u128) -> (r: Rgb)
    requires
        w <= d,
        0 < d <= u64::MAX,
    ensures
        r == mix(from, to, w as int, d as int),
{
    Rgb {
        red: blend_channel(from.red, to.red, w, d),
        green: blend_channel(from.green, to.green, w, d),
        blue: blend_channel(from.blue, to.blue, w, d),
    }
}

/// The colour in which line `line` of a banner of `lines` lines is painted.
pub fn gradient_colour(line: usize, lines: usize) -> (r: Rgb)
    requires
        line < lines,
    ensures
        r == gradient(line as int, lines as int),
{
    let start = Rgb { red: 203, green: 43, blue: 125 };
    let mid = Rgb { red: 243, green: 63, blue: 113 };
    let end = Rgb { red: 254, green: 85, blue: 53 };
    if lines < 2 {
        return start;
    }
    let d = (lines - 1) as u128;
    let twice = 2 * line as u128;
    if twice < d {
        mix_exec(start, mid, twice, d)
    } else {
        mix_exec(mid, end, twice - d, d)
    }
}

} // verus!
