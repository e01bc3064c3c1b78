//! Mask descriptions.

use vstd::prelude::*;
use crate::color::Color;
use crate::coords::{tile_positions, CoordinateIter};

verus! {

/// The pattern of a mask.
#[derive(Clone, Debug)]
pub enum MaskContent {
    /// Horizontal bands that alternate between two colours and divide the
    /// height evenly.
    Stripes { color1: Color, color2: Color, stripe_count: u32 },
    /// A grid of identically rotated instances of one text. Lengths are in
    /// pixels; `font_size` and `rotation` are decimal numbers as text, the
    /// rotation in degrees.
    Text {
        text: String,
        font: String,
        color: Color,
        font_size: String,
        rotation: String,
        row_slide: i32,
        offset_x: i32,
        stride_x: u32,
        offset_y: i32,
        stride_y: u32,
    },
}

/// One watermark: an opacity for the whole mask, and a pattern.
#[derive(Clone, Debug)]
pub struct MaskConfig {
    pub alpha: u8,
    pub content: MaskContent,
}

/// Where row `k` of a text grid starts: each row is shifted by `row_slide`
/// against the one before.
pub open spec fn row_start(offset_x: int, row_slide: int, k: int) -> int {
    offset_x + k * row_slide
}

/// Whether the first `rows` rows of a text grid all start at a position that
/// a 32-bit signed integer holds.
pub open spec fn rows_in_range(offset_x: int, row_slide: int, rows: int) -> bool {
    forall|k: int|
        0 <= k < rows ==> i32::MIN <= #[trigger] row_start(offset_x, row_slide, k) <= i32::MAX
}

/// Each row starts `row_slide` after the one before; the first starts at `offset_x`.
pub proof fn lemma_row_start_next(offset_x: int, row_slide: int, k: int)
    ensures
        row_start(offset_x, row_slide, k + 1) == row_start(offset_x, row_slide, k) + row_slide,
        row_start(offset_x, row_slide, 0) == offset_x,
{
    assert((k + 1) * row_slide == k * row_slide + row_slide) by (nonlinear_arith);
    assert(0 * row_slide == 0) by (nonlinear_arith);
}

/// Decides whether every row of a text grid starts at a position that a
/// 32-bit signed integer holds.
pub fn rows_fit(offset_x: i32, row_slide: i32, offset_y: i32, stride_y: u32, height: u32) -> (b:
    bool)
    requires
        1 <= stride_y <= i32::MAX,
        height <= i32::MAX,
    ensures
        b == rows_in_range(
            offset_x as int,
            row_slide as int,
            tile_positions(offset_y as int, stride_y as int, height as int).len() as int,
        ),
{
    let ghost total = tile_positions(offset_y as int, stride_y as int, height as int).len() as int;
    let mut rows = CoordinateIter::new(offset_y, stride_y, height);
    let mut start: i64 = offset_x as i64;
    let ghost mut k: int = 0;
    proof {
        lemma_row_start_next(offset_x as int, row_slide as int, 0);
    }
    loop
        invariant
            rows.well_formed(),
            rows.stride() == stride_y >= 1,
            rows.size() == height,
            0 <= k,
            k + rows.remaining().len() == total,
            total == tile_positions(offset_y as int, stride_y as int, height as int).len(),
            start == row_start(offset_x as int, row_slide as int, k),
            rows_in_range(offset_x as int, row_slide as int, k),
        ensures
            rows_in_range(offset_x as int, row_slide as int, total),
        decreases rows.remaining().len(),
    {
        let ghost before = rows;
        match rows.next() {
            None => {
                break ;
            },
            Some(_) => {
                assert(before.remaining().len() == rows.remaining().len() + 1);
                if start < -0x8000_0000 || start > 0x7fff_ffff {
                    assert(0 <= k < total && start == row_start(
                        offset_x as int,
                        row_slide as int,
                        k,
                    ));
                    return false;
                }
                proof {
                    lemma_row_start_next(offset_x as int, row_slide as int, k);
                    k = k + 1;
                }
                start = start + row_slide as i64;
            },
        }
    }
    true
}

impl MaskConfig {
    /// Whether this mask can be drawn at the given size: stripes need at
    /// least one band; a text grid needs strides of at least one, and
    /// strides, sizes and row starts that a 32-bit signed integer holds.
    pub open spec fn fits(&self, width: u32, height: u32) -> bool {
        match self.content {
            MaskContent::Stripes { stripe_count, .. } => stripe_count >= 1,
            MaskContent::Text { row_slide, offset_x, stride_x, offset_y, stride_y, .. } => {
                &&& 1 <= stride_x <= i32::MAX
                &&& 1 <= stride_y <= i32::MAX
                &&& width <= i32::MAX
                &&& height <= i32::MAX
                &&& rows_in_range(
                    offset_x as int,
                    row_slide as int,
                    tile_positions(offset_y as int, stride_y as int, height as int).len() as int,
                )
            },
        }
    }

    /// Decides whether this mask can be drawn at the given size.
    pub fn check_fits(&self, width: u32, height: u32) -> (b: bool)
        ensures
            b == self.fits(width, height),
    {
        match &self.content {
            MaskContent::Stripes { stripe_count, .. } => *stripe_count >= 1,
            MaskContent::Text { row_slide, offset_x, stride_x, offset_y, stride_y, .. } => {
                if *stride_x < 1 || *stride_x > 0x7fff_ffff || *stride_y < 1 || *stride_y
                    > 0x7fff_ffff || width > 0x7fff_ffff || height > 0x7fff_ffff {
                    return false;
                }
                rows_fit(*offset_x, *row_slide, *offset_y, *stride_y, height)
            },
        }
    }
}

} // verus!
