//! Reduction of truecolor pixels to indices into a small palette.

use vstd::prelude::*;
use crate::raster::Raster;

verus! {

#[derive(Clone, Copy, Debug, PartialEq, Eq, Structural)]
pub struct Rgb {
    pub r: u8,
    pub g: u8,
    pub b: u8,
}

/// Palette index that marks a pixel as transparent in an animation frame.
/// It names the last entry of the fixed palette, a colour the board never uses.
pub const TRANSPARENT_INDEX: u8 = 20;

/// The fixed palette: the board's two square colours, the shades of the piece
/// sprites, and a last entry kept for transparency.
pub open spec fn fixed_palette_spec() -> Seq<Rgb> {
    seq![
        Rgb { r: 255, g: 206, b: 158 },
        Rgb { r: 209, g: 139, b: 71 },
        Rgb { r: 159, g: 129, b: 99 },
        Rgb { r: 111, g: 90, b: 69 },
        Rgb { r: 131, g: 87, b: 44 },
        Rgb { r: 91, g: 61, b: 31 },
        Rgb { r: 47, g: 38, b: 29 },
        Rgb { r: 0, g: 0, b: 0 },
        Rgb { r: 79, g: 64, b: 49 },
        Rgb { r: 207, g: 167, b: 128 },
        Rgb { r: 63, g: 51, b: 39 },
        Rgb { r: 39, g: 26, b: 13 },
        Rgb { r: 175, g: 141, b: 108 },
        Rgb { r: 169, g: 112, b: 57 },
        Rgb { r: 143, g: 116, b: 89 },
        Rgb { r: 127, g: 102, b: 78 },
        Rgb { r: 156, g: 104, b: 53 },
        Rgb { r: 118, g: 78, b: 40 },
        Rgb { r: 192, g: 155, b: 118 },
        Rgb { r: 79, g: 63, b: 48 },
        Rgb { r: 255, g: 255, b: 255 },
    ]
}

pub fn fixed_palette() -> (r: Vec<Rgb>)
    ensures
        r@ == fixed_palette_spec(),
        r@.len() == 21,
{
    vec![
        Rgb { r: 255, g: 206, b: 158 },
        Rgb { r: 209, g: 139, b: 71 },
        Rgb { r: 159, g: 129, b: 99 },
        Rgb { r: 111, g: 90, b: 69 },
        Rgb { r: 131, g: 87, b: 44 },
        Rgb { r: 91, g: 61, b: 31 },
        Rgb { r: 47, g: 38, b: 29 },
        Rgb { r: 0, g: 0, b: 0 },
        Rgb { r: 79, g: 64, b: 49 },
        Rgb { r: 207, g: 167, b: 128 },
        Rgb { r: 63, g: 51, b: 39 },
        Rgb { r: 39, g: 26, b: 13 },
        Rgb { r: 175, g: 141, b: 108 },
        Rgb { r: 169, g: 112, b: 57 },
        Rgb { r: 143, g: 116, b: 89 },
        Rgb { r: 127, g: 102, b: 78 },
        Rgb { r: 156, g: 104, b: 53 },
        Rgb { r: 118, g: 78, b: 40 },
        Rgb { r: 192, g: 155, b: 118 },
        Rgb { r: 79, g: 63, b: 48 },
        Rgb { r: 255, g: 255, b: 255 },
    ]
}

pub open spec fn abs_diff(a: u8, b: u8) -> int {
    if a >= b {
        a - b
    } else {
        b - a
    }
}

/// Manhattan distance between two colours over red, green and blue.
pub open spec fn distance(a: Rgb, b: Rgb) -> int {
    abs_diff(a.r, b.r) + abs_diff(a.g, b.g) + abs_diff(a.b, b.b)
}

/// `i` is the palette entry nearest to `c`, the first one among equally near entries.
pub open spec fn is_nearest(palette: Seq<Rgb>, c: Rgb, i: int) -> bool {
    &&& 0 <= i < palette.len()
    &&& forall|j: int| 0 <= j < palette.len() ==> distance(c, palette[i]) <= distance(c, #[trigger] palette[j])
    &&& forall|j: int| 0 <= j < i ==> distance(c, palette[i]) < distance(c, #[trigger] palette[j])
}

/// The index of the palette entry nearest to `c`.
pub open spec fn nearest(palette: Seq<Rgb>, c: Rgb) -> int {
    choose|i: int| is_nearest(palette, c, i)
}

/// An RGBA byte buffer as palette indices: pixel `p` becomes the index of the
/// entry nearest to its colour.
pub open spec fn indexed_frame(data: Seq<u8>, palette: Seq<Rgb>) -> Seq<u8> {
    Seq::new(data.len() / 4, |p: int| nearest(palette, rgb_at(data, p)) as u8)
}

/// The colour of pixel `p` of an RGBA byte buffer.
pub open spec fn rgb_at(data: Seq<u8>, p: int) -> Rgb {
    Rgb { r: data[4 * p], g: data[4 * p + 1], b: data[4 * p + 2] }
}

pub fn color_distance(a: Rgb, b: Rgb) -> (r: u32)
    ensures
        r == distance(a, b),
{
    (channel_distance(a.r, b.r) as u32) + (channel_distance(a.g, b.g) as u32) + (channel_distance(
        a.b,
        b.b,
    ) as u32)
}

fn channel_distance(a: u8, b: u8) -> (r: u8)
    ensures
        r == abs_diff(a, b),
{
    if a >= b {
        a - b
    } else {
        b - a
    }
}

/// Index of the palette entry nearest to `c`; among equally near entries, the first.
pub fn nearest_index(palette: &Vec<Rgb>, c: Rgb) -> (r: usize)
    requires
        palette@.len() > 0,
    ensures
        is_nearest(palette@, c, r as int),
{
    let mut best: usize = 0;
    let mut best_distance = color_distance(c, palette[0]);
    let mut j: usize = 1;
    while j < palette.len()
        invariant
            1 <= j <= palette@.len(),
            best < j,
            best_distance == distance(c, palette@[best as int]),
            forall|k: int| 0 <= k < j ==> distance(c, palette@[best as int]) <= distance(c, #[trigger] palette@[k]),
            forall|k: int| 0 <= k < best ==> distance(c, palette@[best as int]) < distance(c, #[trigger] palette@[k]),
        decreases palette@.len() - j,
    {
        let d = color_distance(c, palette[j]);
        if d < best_distance {
            best = j;
            best_distance = d;
        }
        j = j + 1;
    }
    best
}

/// For each colour there is exactly one nearest entry.
pub proof fn lemma_nearest_unique(palette: Seq<Rgb>, c: Rgb, i: int, k: int)
    requires
        is_nearest(palette, c, i),
        is_nearest(palette, c, k),
    ensures
        i == k,
{
    if i < k {
        assert(distance(c, palette[k]) < distance(c, palette[i]));
    } else if k < i {
        assert(distance(c, palette[i]) < distance(c, palette[k]));
    }
}

/// A colour equal to a palette entry maps to that entry (its first occurrence),
/// never to a neighbour.
pub proof fn lemma_exact_color_maps_to_its_entry(palette: Seq<Rgb>, c: Rgb, i: int, k: int)
    requires
        0 <= i < palette.len(),
        palette[i] == c,
        forall|j: int| 0 <= j < i ==> #[trigger] palette[j] != c,
        is_nearest(palette, c, k),
    ensures
        k == i,
{
    assert(distance(c, palette[i]) == 0);
    assert(distance(c, palette[k]) <= 0);
    assert(palette[k] == c);
    if k < i {
        assert(palette[k] != c);
    } else if k > i {
        assert(distance(c, palette[k]) < distance(c, palette[i]));
    }
}

/// Maps each pixel of `img` to the index of its nearest palette entry, row by row.
pub fn quantize(img: &Raster, palette: &Vec<Rgb>) -> (r: Vec<u8>)
    requires
        img.wf(),
        0 < palette@.len() <= 256,
    ensures
        r@.len() == img.width * img.height,
        forall|p: int|
            0 <= p < r@.len() ==> is_nearest(palette@, rgb_at(img.data@, p), #[trigger] r@[p] as int),
        r@ == indexed_frame(img.data@, palette@),
{
    let total: usize = img.data.len();
    let n: usize = total / 4;
    assert(img.data@.len() == 4 * ((img.width as int) * (img.height as int))) by (nonlinear_arith)
        requires
            img.wf(),
    ;
    let mut out: Vec<u8> = Vec::with_capacity(n);
    let mut p: usize = 0;
    while p < n
        invariant
            img.wf(),
            0 < palette@.len() <= 256,
            n == img.data@.len() / 4,
            img.data@.len() == 4 * n,
            total == img.data@.len(),
            n == img.width * img.height,
            p <= n,
            out@.len() == p,
            forall|q: int|
                0 <= q < p ==> is_nearest(palette@, rgb_at(img.data@, q), #[trigger] out@[q] as int),
        decreases n - p,
    {
        let c = Rgb { r: img.data[4 * p], g: img.data[4 * p + 1], b: img.data[4 * p + 2] };
        let i = nearest_index(palette, c);
        out.push(i as u8);
        p = p + 1;
    }
    assert forall|q: int| 0 <= q < n implies #[trigger] out@[q] == indexed_frame(img.data@, palette@)[q] by {
        let c = rgb_at(img.data@, q);
        assert(is_nearest(palette@, c, out@[q] as int));
        lemma_nearest_unique(palette@, c, nearest(palette@, c), out@[q] as int);
    }
    assert(out@ =~= indexed_frame(img.data@, palette@));
    out
}

} // verus!
