use crate::geometry::Vec2;
use vstd::prelude::*;

verus! {

/// One sample of a frame: red, green, blue and alpha, in that order.
#[derive(Clone, Copy, Debug, PartialEq, Eq, Structural)]
pub struct Pixel {
    pub r: u8,
    pub g: u8,
    pub b: u8,
    pub a: u8,
}

impl Pixel {
    /// Opaque white.
    pub open spec fn spec_white() -> Pixel {
        Pixel { r: 255, g: 255, b: 255, a: 255 }
    }

    pub fn white() -> (p: Pixel)
        ensures
            p == Pixel::spec_white(),
    {
        Pixel { r: 255, g: 255, b: 255, a: 255 }
    }

    /// Mean of the red, green and alpha channels, rounded down.
    pub open spec fn spec_brightness(self) -> int {
        (self.r + self.g + self.a) / 3
    }

    pub fn brightness(&self) -> (level: u8)
        ensures
            level == self.spec_brightness(),
    {
        let sum: u16 = self.r as u16 + self.g as u16 + self.a as u16;
        (sum / 3) as u8
    }
}

/// `v` forced into `lo ..= hi`.
pub open spec fn clamp(v: int, lo: int, hi: int) -> int {
    if v < lo {
        lo
    } else if v > hi {
        hi
    } else {
        v
    }
}

/// The cell, of `cells` equal ones laid over `-extent/2 ..= extent/2`, whose
/// index is nearest to where `p` falls: `(p + extent/2) / extent * cells`
/// rounded to the nearest integer, halves upwards.
pub open spec fn nearest_cell(p: int, extent: int, cells: int) -> int {
    ((2 * p + extent) * cells + extent) / (2 * extent)
}

/// `nearest_cell` forced into `0 ..= cells - 1`.
pub open spec fn clamped_cell(p: int, extent: int, cells: int) -> int {
    clamp(nearest_cell(p, extent, cells), 0, cells - 1)
}

/// Computes `clamped_cell`.
pub fn locate_cell(p: i64, extent: i64, cells: u32) -> (cell: u32)
    requires
        extent > 0,
        cells > 0,
    ensures
        cell == clamped_cell(p as int, extent as int, cells as int),
        cell < cells,
{
    let shifted: i128 = 2 * (p as i128) + extent as i128;
    assert(-0x1_8000_0000_0000_0000 * 0x1_0000_0000 <= shifted * cells <= 0x1_8000_0000_0000_0000
        * 0x1_0000_0000) by (nonlinear_arith)
        requires
            -0x1_8000_0000_0000_0000 <= shifted <= 0x1_8000_0000_0000_0000,
            0 < cells <= 0xffff_ffff,
    ;
    let num: i128 = shifted * (cells as i128) + extent as i128;
    let den: i128 = 2 * (extent as i128);
    if num < 0 {
        assert(num / den < 0) by (nonlinear_arith)
            requires
                num < 0,
                den > 0,
        ;
        return 0;
    }
    let q: u128 = (num as u128) / (den as u128);
    assert(q == num / den);
    assert(num / den >= 0) by (nonlinear_arith)
        requires
            num >= 0,
            den > 0,
    ;
    if q > (cells - 1) as u128 {
        cells - 1
    } else {
        q as u32
    }
}

/// A rendered frame: `width * height` samples of four channels each, row by
/// row from the top-left corner.
pub struct Frame {
    width: u32,
    height: u32,
    data: Vec<u8>,
}

impl Frame {
    /// The buffer holds exactly four bytes per sample.
    pub closed spec fn wf(&self) -> bool {
        self.data@.len() == 4 * self.width * self.height
    }

    pub closed spec fn spec_width(&self) -> nat {
        self.width as nat
    }

    pub closed spec fn spec_height(&self) -> nat {
        self.height as nat
    }

    /// The bytes of the frame, as handed to `new`.
    pub closed spec fn bytes(&self) -> Seq<u8> {
        self.data@
    }

    /// The sample in column `col` of row `row`, rows counted from the top.
    pub open spec fn pixel_at(&self, col: int, row: int) -> Pixel {
        let at = 4 * (row * self.spec_width() + col);
        Pixel {
            r: self.bytes()[at],
            g: self.bytes()[at + 1],
            b: self.bytes()[at + 2],
            a: self.bytes()[at + 3],
        }
    }

    /// A frame has no sample when either side is zero.
    pub open spec fn spec_is_degenerate(&self) -> bool {
        self.spec_width() == 0 || self.spec_height() == 0
    }

    /// Column and row under `position` on a canvas of `width` by `height`:
    /// the canvas is laid linearly over the frame, and the row is counted
    /// from the top although `y` grows upwards.
    pub open spec fn spec_locate(&self, position: Vec2, width: int, height: int) -> (int, int) {
        (
            clamped_cell(position.x as int, width, self.spec_width() as int),
            self.spec_height() - 1 - clamped_cell(
                position.y as int,
                height,
                self.spec_height() as int,
            ),
        )
    }

    /// The sample under `position`.
    pub open spec fn spec_sample(&self, position: Vec2, width: int, height: int) -> Pixel {
        let (col, row) = self.spec_locate(position, width, height);
        self.pixel_at(col, row)
    }

    /// Where a walker is looked up depends on its position and on the sides
    /// of canvas and frame alone, and always lies on the frame.
    pub proof fn lemma_locate_by_sides(&self, other: &Frame, position: Vec2, width: int, height: int)
        requires
            !self.spec_is_degenerate(),
            self.spec_width() == other.spec_width(),
            self.spec_height() == other.spec_height(),
        ensures
            self.spec_locate(position, width, height) == other.spec_locate(position, width, height),
            0 <= self.spec_locate(position, width, height).0 < self.spec_width(),
            0 <= self.spec_locate(position, width, height).1 < self.spec_height(),
    {
    }

    /// Wraps `data` as a frame of `width` by `height` samples, if it holds
    /// four bytes for each of them.
    pub fn new(width: u32, height: u32, data: Vec<u8>) -> (frame: Option<Frame>)
        ensures
            frame.is_some() <==> data@.len() == 4 * width * height,
            frame.is_some() ==> {
                let f = frame.unwrap();
                &&& f.wf()
                &&& f.spec_width() == width
                &&& f.spec_height() == height
                &&& f.bytes() == data@
            },
    {
        assert(0 <= width * height <= 0xffff_ffff * 0xffff_ffff) by (nonlinear_arith)
            requires
                0 <= width <= 0xffff_ffff,
                0 <= height <= 0xffff_ffff,
        ;
        let samples: u64 = width as u64 * height as u64;
        assert(4 * width * height == 4 * (width * height)) by (nonlinear_arith);
        let wanted: u128 = 4 * (samples as u128);
        if data.len() as u128 == wanted {
            Some(Frame { width, height, data })
        } else {
            None
        }
    }

    pub fn width(&self) -> (w: u32)
        ensures
            w == self.spec_width(),
    {
        self.width
    }

    pub fn height(&self) -> (h: u32)
        ensures
            h == self.spec_height(),
    {
        self.height
    }

    pub fn is_degenerate(&self) -> (d: bool)
        ensures
            d == self.spec_is_degenerate(),
    {
        self.width == 0 || self.height == 0
    }

    /// Reads the sample in column `col` of row `row`.
    pub fn get_pixel(&self, col: u32, row: u32) -> (p: Pixel)
        requires
            self.wf(),
            col < self.spec_width(),
            row < self.spec_height(),
        ensures
            p == self.pixel_at(col as int, row as int),
    {
        let len: usize = self.data.len();
        let ghost w = self.width as int;
        let ghost h = self.height as int;
        assert(0 <= row * w && 4 * (row * w + col) + 3 < 4 * w * h) by (nonlinear_arith)
            requires
                0 <= col < w,
                0 <= row < h,
        ;
        let at: usize = 4 * (row as usize * self.width as usize + col as usize);
        assert(at + 3 < len);
        Pixel { r: self.data[at], g: self.data[at + 1], b: self.data[at + 2], a: self.data[at + 3] }
    }

    /// Column and row of the sample under `position`.
    pub fn locate(&self, position: Vec2, width: i64, height: i64) -> (at: (u32, u32))
        requires
            !self.spec_is_degenerate(),
            width > 0,
            height > 0,
        ensures
            (at.0 as int, at.1 as int) == self.spec_locate(position, width as int, height as int),
            at.0 < self.spec_width(),
            at.1 < self.spec_height(),
    {
        let col = locate_cell(position.x, width, self.width);
        let up = locate_cell(position.y, height, self.height);
        (col, self.height - 1 - up)
    }

    /// Reads the sample under `position`.
    pub fn sample(&self, position: Vec2, width: i64, height: i64) -> (p: Pixel)
        requires
            self.wf(),
            !self.spec_is_degenerate(),
            width > 0,
            height > 0,
        ensures
            p == self.spec_sample(position, width as int, height as int),
    {
        let at = self.locate(position, width, height);
        self.get_pixel(at.0, at.1)
    }
}

} // verus!
