//! The fixed 216-color palette and nearest-color lookup.
//!
//! The target machine displays indexed color: a pixel byte below 216 selects
//! a color from a fixed 6x6x6 RGB cube, index `36*r + 6*g + b` with channel
//! levels `0..6` scaled to `0, 51, .., 255`.  Conversion of real images
//! (decoding, dithering) happens outside the library; the palette itself and
//! the nearest-color choice are exact integer computations and live here.

use vstd::prelude::*;

verus! {

/// Red channel of palette entry `i`: level `i / 36` scaled by 51.
pub open spec fn palette_red(i: int) -> int {
    51 * (i / 36)
}

/// Green channel of palette entry `i`: level `(i / 6) % 6` scaled by 51.
pub open spec fn palette_green(i: int) -> int {
    51 * ((i / 6) % 6)
}

/// Blue channel of palette entry `i`: level `i % 6` scaled by 51.
pub open spec fn palette_blue(i: int) -> int {
    51 * (i % 6)
}

/// `p` is the fixed 216-entry palette: entry `36*r + 6*g + b` holds the
/// scaled channel levels `r`, `g`, `b`.
pub open spec fn is_bytepusher_palette(p: Seq<[u8; 3]>) -> bool {
    &&& p.len() == 216
    &&& forall|i: int| 0 <= i < 216 ==> {
        &&& #[trigger] p[i][0] == palette_red(i)
        &&& p[i][1] == palette_green(i)
        &&& p[i][2] == palette_blue(i)
    }
}

/// Squared Euclidean distance between two colors in RGB space.  The nearest
/// palette entry under this measure is also nearest under true Euclidean
/// distance, since squaring is monotonic on non-negative reals.
pub open spec fn color_dist2(p: [u8; 3], q: [u8; 3]) -> int {
    (p[0] - q[0]) * (p[0] - q[0]) + (p[1] - q[1]) * (p[1] - q[1]) + (p[2] - q[2]) * (p[2] - q[2])
}

/// Build the fixed 216-color palette, one entry per point of the 6x6x6 RGB
/// cube, ordered red-major.
pub fn build_palette() -> (p: Vec<[u8; 3]>)
    ensures
        is_bytepusher_palette(p@),
{
    let mut palette: Vec<[u8; 3]> = Vec::with_capacity(216);
    for r in 0..6usize
        invariant
            palette@.len() == 36 * r,
            forall|i: int| 0 <= i < palette@.len() ==> {
                &&& #[trigger] palette@[i][0] == palette_red(i)
                &&& palette@[i][1] == palette_green(i)
                &&& palette@[i][2] == palette_blue(i)
            },
    {
        for g in 0..6usize
            invariant
                r < 6,
                palette@.len() == 36 * r + 6 * g,
                forall|i: int| 0 <= i < palette@.len() ==> {
                    &&& #[trigger] palette@[i][0] == palette_red(i)
                    &&& palette@[i][1] == palette_green(i)
                    &&& palette@[i][2] == palette_blue(i)
                },
        {
            for b in 0..6usize
                invariant
                    r < 6,
                    g < 6,
                    palette@.len() == 36 * r + 6 * g + b,
                    forall|i: int| 0 <= i < palette@.len() ==> {
                        &&& #[trigger] palette@[i][0] == palette_red(i)
                        &&& palette@[i][1] == palette_green(i)
                        &&& palette@[i][2] == palette_blue(i)
                    },
            {
                let red = (r * 255 / 5) as u8;
                let green = (g * 255 / 5) as u8;
                let blue = (b * 255 / 5) as u8;
                proof {
                    let i = 36 * (r as int) + 6 * (g as int) + (b as int);
                    assert(i / 36 == r && (i / 6) % 6 == g && i % 6 == b) by (nonlinear_arith)
                        requires
                            0 <= r < 6,
                            0 <= g < 6,
                            0 <= b < 6,
                            i == 36 * r + 6 * g + b,
                    ;
                }
                palette.push([red, green, blue]);
            }
        }
    }
    proof {
        assert forall|i: int| 0 <= i < 216 implies {
            &&& #[trigger] palette@[i][0] == palette_red(i)
            &&& palette@[i][1] == palette_green(i)
            &&& palette@[i][2] == palette_blue(i)
        } by {
            assert(palette@[i][0] == palette_red(i));
        }
        assert(is_bytepusher_palette(palette@));
    }
    palette
}

/// The index of the palette entry nearest to `pixel` in RGB distance, the
/// lowest such index when several entries are equally near; 0 for an empty
/// palette.
pub fn find_closest_color(pixel: [u8; 3], palette: &Vec<[u8; 3]>) -> (r: u8)
    requires
        palette@.len() <= 256,
    ensures
        palette@.len() == 0 ==> r == 0,
        palette@.len() > 0 ==> {
            &&& (r as int) < palette@.len()
            &&& forall|j: int| 0 <= j < palette@.len()
                ==> color_dist2(pixel, palette@[r as int]) <= color_dist2(pixel, #[trigger] palette@[j])
            &&& forall|j: int| 0 <= j < r
                ==> color_dist2(pixel, #[trigger] palette@[j]) > color_dist2(pixel, palette@[r as int])
        },
{
    let mut min_distance: u32 = 0xFFFFFFFF;
    let mut closest_index: usize = 0;
    for index in 0..palette.len()
        invariant
            palette@.len() <= 256,
            index == 0 ==> closest_index == 0 && min_distance == 0xFFFFFFFF,
            index > 0 ==> {
                &&& closest_index < index
                &&& min_distance as int == color_dist2(pixel, palette@[closest_index as int])
                &&& min_distance < 0xFFFFFFFF
                &&& forall|j: int| 0 <= j < index
                    ==> min_distance as int <= color_dist2(pixel, #[trigger] palette@[j])
                &&& forall|j: int| 0 <= j < closest_index
                    ==> color_dist2(pixel, #[trigger] palette@[j]) > min_distance as int
            },
    {
        let q = palette[index];
        let dr = pixel[0] as i32 - q[0] as i32;
        let dg = pixel[1] as i32 - q[1] as i32;
        let db = pixel[2] as i32 - q[2] as i32;
        proof {
            assert(dr * dr + dg * dg + db * db <= 3 * 65025 && dr * dr >= 0 && dg * dg >= 0
                && db * db >= 0) by (nonlinear_arith)
                requires
                    -255 <= dr <= 255,
                    -255 <= dg <= 255,
                    -255 <= db <= 255,
            ;
        }
        let distance = (dr * dr + dg * dg + db * db) as u32;
        if distance < min_distance {
            min_distance = distance;
            closest_index = index;
        }
    }
    closest_index as u8
}

} // verus!
