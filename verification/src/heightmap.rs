//! Source images for terrains.
use vstd::prelude::*;
use crate::fixed::ONE;
use crate::grid::HEIGHT_LIMIT;
use crate::grid::MAX_SCALE;

verus! {

/// Height given to every cell whose source texel decodes to less than one
/// unit: far below anything the player can reach, such cells are holes.
pub const SUNKEN_HEIGHT: i64 = -400_000_000;

/// A texel raises the terrain by a quarter of a cell size per step.
pub const TEXEL_STEPS_PER_UNIT: i64 = 4;

/// A source image for a terrain: `width` by `height` texels of four bytes
/// each, row by row. The first byte of a texel encodes the height.
pub struct HeightMap {
    pub width: u32,
    pub height: u32,
    pub data: Vec<u8>,
}

impl HeightMap {
    /// The image has four bytes for each of its texels, and is no larger
    /// along either side than a terrain can be.
    pub open spec fn wf(&self) -> bool {
        &&& self.width <= 0x7fff_ffff
        &&& self.height <= 0x7fff_ffff
        &&& self.data@.len() >= 4 * (self.width * self.height)
    }

    /// Checks that the image is well formed.
    pub fn is_valid(&self) -> (ok: bool)
        ensures
            ok == self.wf(),
    {
        if self.width > 0x7fff_ffff || self.height > 0x7fff_ffff {
            return false;
        }
        assert(self.width * self.height <= 0x7fff_ffff * 0x7fff_ffff) by (nonlinear_arith)
            requires
                self.width <= 0x7fff_ffff,
                self.height <= 0x7fff_ffff,
        ;
        let need: u64 = 4 * ((self.width as u64) * (self.height as u64));
        (self.data.len() as u64) >= need
    }
}

/// Height that a texel stands for on a terrain with cells of size `scale`:
/// a quarter unit per step of the texel, times the scale; what comes out
/// below one unit is a hole.
pub open spec fn decode_height(texel: int, scale: int) -> int {
    if (texel * scale) / (TEXEL_STEPS_PER_UNIT as int) < ONE {
        SUNKEN_HEIGHT as int
    } else {
        (texel * scale) / (TEXEL_STEPS_PER_UNIT as int)
    }
}

/// Decodes the heights of a source image, one per texel, row by row.
pub fn decode_heights(texture: &HeightMap, scale: i64) -> (heights: Vec<i64>)
    requires
        texture.wf(),
        0 < scale <= MAX_SCALE,
    ensures
        heights.len() == texture.width * texture.height,
        forall|i: int|
            0 <= i < heights.len() ==> #[trigger] heights[i] == decode_height(
                texture.data[4 * i] as int,
                scale as int,
            ),
        forall|i: int|
            0 <= i < heights.len() ==> -HEIGHT_LIMIT <= #[trigger] heights[i] <= HEIGHT_LIMIT,
{
    assert(texture.width * texture.height <= 0x7fff_ffff * 0x7fff_ffff) by (nonlinear_arith)
        requires
            texture.width <= 0x7fff_ffff,
            texture.height <= 0x7fff_ffff,
    ;
    let len: usize = texture.data.len();
    let n: usize = ((texture.width as u64) * (texture.height as u64)) as usize;
    let mut heights: Vec<i64> = Vec::new();
    let mut i: usize = 0;
    while i < n
        invariant
            i <= n,
            n == texture.width * texture.height,
            len == texture.data@.len(),
            len >= 4 * n,
            0 < scale <= MAX_SCALE,
            heights.len() == i,
            forall|j: int|
                0 <= j < i ==> #[trigger] heights[j] == decode_height(
                    texture.data[4 * j] as int,
                    scale as int,
                ),
            forall|j: int| 0 <= j < i ==> -HEIGHT_LIMIT <= #[trigger] heights[j] <= HEIGHT_LIMIT,
        decreases n - i,
    {
        let texel: u8 = texture.data[4 * i];
        assert(0 <= texel * scale <= 255 * 64_000_000) by (nonlinear_arith)
            requires
                0 <= texel <= 255,
                0 < scale <= 64_000_000,
        ;
        let raw: i64 = ((texel as i64) * scale) / TEXEL_STEPS_PER_UNIT;
        let h: i64 = if raw < ONE {
            SUNKEN_HEIGHT
        } else {
            raw
        };
        heights.push(h);
        i += 1;
    }
    heights
}

} // verus!
