//! Batch encoding: all positions are drawn first, a palette is derived from the
//! colours they use, and the delta pass runs over the whole sequence.

use vstd::prelude::*;
use crate::board::{BoardState, SpriteSet};
use crate::delta::{delta_pass, frame_views, out_views, run_stream, OutFrame};
use crate::palette::{indexed_frame, quantize, rgb_at, Rgb};
use crate::raster::Raster;
use crate::render::{render_board, rendered};

verus! {

/// Most colours of the image that an adaptive palette holds; one more index
/// stays free for transparency.
pub const MAX_ADAPTIVE_COLORS: usize = 255;

/// The coarse bucket of a colour: the top three bits of each channel.
pub open spec fn bucket(c: Rgb) -> (u8, u8, u8) {
    ((c.r / 32) as u8, (c.g / 32) as u8, (c.b / 32) as u8)
}

/// Some entry of `palette` falls in the bucket of `c`.
pub open spec fn has_bucket(palette: Seq<Rgb>, c: Rgb) -> bool {
    exists|j: int| 0 <= j < palette.len() && bucket(#[trigger] palette[j]) == bucket(c)
}

/// `palette` after seeing `c`: `c` joins it when its bucket is new and there is room.
pub open spec fn add_color(palette: Seq<Rgb>, c: Rgb) -> Seq<Rgb> {
    if palette.len() >= 255 || has_bucket(palette, c) {
        palette
    } else {
        palette.push(c)
    }
}

/// The palette derived from a sequence of colours: the first colour seen in
/// each bucket, in the order seen, at most 255 of them.
pub open spec fn bucket_palette(cs: Seq<Rgb>) -> Seq<Rgb>
    decreases cs.len(),
{
    if cs.len() == 0 {
        Seq::empty()
    } else {
        add_color(bucket_palette(cs.drop_last()), cs.last())
    }
}

/// The colours of the pixels of an RGBA buffer, row by row.
pub open spec fn pixel_colors(data: Seq<u8>) -> Seq<Rgb> {
    Seq::new(data.len() / 4, |p: int| rgb_at(data, p))
}

/// The colours of the pixels of a sequence of RGBA buffers, one after another.
pub open spec fn colors_of(buffers: Seq<Seq<u8>>) -> Seq<Rgb>
    decreases buffers.len(),
{
    if buffers.len() == 0 {
        Seq::empty()
    } else {
        colors_of(buffers.drop_last()) + pixel_colors(buffers.last())
    }
}

pub open spec fn raster_views(rasters: Seq<Raster>) -> Seq<Seq<u8>> {
    rasters.map_values(|r: Raster| r.data@)
}

fn find_bucket(palette: &Vec<Rgb>, c: Rgb) -> (r: bool)
    ensures
        r == has_bucket(palette@, c),
{
    let mut j: usize = 0;
    while j < palette.len()
        invariant
            j <= palette@.len(),
            forall|k: int| 0 <= k < j ==> bucket(#[trigger] palette@[k]) != bucket(c),
        decreases palette@.len() - j,
    {
        let e = palette[j];
        if e.r / 32 == c.r / 32 && e.g / 32 == c.g / 32 && e.b / 32 == c.b / 32 {
            assert(bucket(palette@[j as int]) == bucket(c));
            return true;
        }
        j = j + 1;
    }
    false
}

/// Derives a palette from every pixel of `rasters`, in order.
pub fn derive_palette(rasters: &Vec<Raster>) -> (r: Vec<Rgb>)
    ensures
        r@ == bucket_palette(colors_of(raster_views(rasters@))),
{
    let ghost views = raster_views(rasters@);
    let mut palette: Vec<Rgb> = Vec::new();
    let mut f: usize = 0;
    while f < rasters.len()
        invariant
            views == raster_views(rasters@),
            f <= rasters@.len(),
            palette@ == bucket_palette(colors_of(views.take(f as int))),
        decreases rasters@.len() - f,
    {
        let img = &rasters[f];
        let total: usize = img.data.len();
        let n: usize = total / 4;
        let ghost done = colors_of(views.take(f as int));
        let ghost colors = pixel_colors(img.data@);
        let mut p: usize = 0;
        while p < n
            invariant
                total == img.data@.len(),
                n == total / 4,
                colors == pixel_colors(img.data@),
                p <= n,
                palette@ == bucket_palette(done + colors.take(p as int)),
            decreases n - p,
        {
            let c = Rgb { r: img.data[4 * p], g: img.data[4 * p + 1], b: img.data[4 * p + 2] };
            if palette.len() < MAX_ADAPTIVE_COLORS && !find_bucket(&palette, c) {
                palette.push(c);
            }
            proof {
                let s = done + colors.take(p as int);
                assert(s.push(c) =~= done + colors.take(p + 1));
                assert(s.push(c).drop_last() =~= s);
            }
            p = p + 1;
        }
        proof {
            assert(colors.take(n as int) =~= colors);
            assert(views.take(f + 1).drop_last() =~= views.take(f as int));
            assert(views.take(f + 1).last() == img.data@);
        }
        f = f + 1;
    }
    assert(views.take(rasters@.len() as int) =~= views);
    palette
}

/// A derived palette holds at most 255 colours, each seen in the input, no two
/// in one bucket; while it holds fewer than 255, every colour seen has an
/// entry in its bucket. It is empty only for an input without colours.
pub proof fn lemma_bucket_palette(cs: Seq<Rgb>)
    ensures
        bucket_palette(cs).len() <= 255,
        cs.len() > 0 ==> bucket_palette(cs).len() > 0,
        forall|j: int|
            0 <= j < bucket_palette(cs).len() ==> exists|k: int|
                0 <= k < cs.len() && cs[k] == #[trigger] bucket_palette(cs)[j],
        forall|i: int, j: int|
            0 <= i < j < bucket_palette(cs).len() ==> bucket(#[trigger] bucket_palette(cs)[i])
                != bucket(#[trigger] bucket_palette(cs)[j]),
        bucket_palette(cs).len() < 255 ==> forall|k: int|
            0 <= k < cs.len() ==> has_bucket(bucket_palette(cs), #[trigger] cs[k]),
    decreases cs.len(),
{
    if cs.len() > 0 {
        let prev = cs.drop_last();
        lemma_bucket_palette(prev);
        let pal = bucket_palette(prev);
        let c = cs.last();
        let now = bucket_palette(cs);
        assert forall|j: int| 0 <= j < now.len() implies exists|k: int|
            0 <= k < cs.len() && cs[k] == #[trigger] now[j] by {
            if j < pal.len() {
                let k = choose|k: int| 0 <= k < prev.len() && prev[k] == pal[j];
                assert(cs[k] == now[j]);
            } else {
                assert(cs[cs.len() - 1] == now[j]);
            }
        }
        if now.len() < 255 {
            assert forall|k: int| 0 <= k < cs.len() implies has_bucket(now, #[trigger] cs[k]) by {
                if k < prev.len() {
                    assert(prev[k] == cs[k]);
                    assert(has_bucket(pal, prev[k]));
                    let j = choose|j: int| 0 <= j < pal.len() && bucket(#[trigger] pal[j]) == bucket(prev[k]);
                    assert(now[j] == pal[j]);
                } else if !has_bucket(pal, c) {
                    assert(now[pal.len() as int] == c);
                }
            }
        }
        if pal.len() == 0 {
            assert(!has_bucket(pal, c));
        }
    }
}

/// A batch-encoded animation: its palette, the index in it that marks a
/// transparent pixel, and its frames.
pub struct Animation {
    pub palette: Vec<Rgb>,
    pub transparent: u8,
    pub frames: Vec<OutFrame>,
}

/// The raster of each position, as RGBA buffers.
pub open spec fn rendered_all(boards: Seq<BoardState>, sprites: Seq<Raster>, flip: bool) -> Seq<Seq<u8>> {
    Seq::new(boards.len(), |i: int| rendered(boards[i].squares@, sprites, flip, 64))
}

/// Draws every position, derives a palette from all of them, maps each to that
/// palette and runs the delta pass over the whole sequence. The derived
/// colours are followed by one more entry, whose index marks transparency.
pub fn render_batch(boards: &Vec<BoardState>, sprites: &SpriteSet, flip: bool) -> (r: Animation)
    requires
        sprites.wf(),
        forall|i: int| 0 <= i < boards@.len() ==> (#[trigger] boards@[i]).wf(),
    ensures
        ({
            let buffers = rendered_all(boards@, sprites.sprites@, flip);
            let derived = bucket_palette(colors_of(buffers));
            &&& r.palette@ == derived.push(Rgb { r: 0, g: 0, b: 0 })
            &&& r.transparent == derived.len()
            &&& out_views(r.frames@) == run_stream(
                Seq::new(buffers.len(), |i: int| indexed_frame(buffers[i], derived)),
                r.transparent,
            )
        }),
{
    let ghost buffers = rendered_all(boards@, sprites.sprites@, flip);
    let mut rasters: Vec<Raster> = Vec::new();
    let mut i: usize = 0;
    while i < boards.len()
        invariant
            sprites.wf(),
            forall|k: int| 0 <= k < boards@.len() ==> (#[trigger] boards@[k]).wf(),
            i <= boards@.len(),
            rasters@.len() == i,
            buffers == rendered_all(boards@, sprites.sprites@, flip),
            forall|k: int|
                0 <= k < i ==> (#[trigger] rasters@[k]).wf() && rasters@[k].data@ == buffers[k]
                    && rasters@[k].width == 400 && rasters@[k].height == 400,
        decreases boards@.len() - i,
    {
        let img = render_board(&boards[i], sprites, flip);
        assert(img.data@ == buffers[i as int]);
        let ghost before = rasters@;
        rasters.push(img);
        assert(forall|k: int| 0 <= k < i ==> rasters@[k] == before[k]);
        i = i + 1;
    }
    assert(raster_views(rasters@) =~= buffers);
    let derived = derive_palette(&rasters);
    proof {
        lemma_bucket_palette(colors_of(buffers));
        if boards@.len() > 0 {
            assert(buffers.last() == rasters@[rasters@.len() - 1].data@);
            lemma_colors_of_nonempty(buffers);
        }
    }
    let transparent = derived.len() as u8;
    let mut indexed: Vec<Vec<u8>> = Vec::new();
    let mut i: usize = 0;
    while i < rasters.len()
        invariant
            rasters@.len() == boards@.len(),
            buffers.len() == boards@.len(),
            forall|k: int| 0 <= k < rasters@.len() ==> (#[trigger] rasters@[k]).wf() && rasters@[k].data@ == buffers[k],
            derived@ == bucket_palette(colors_of(buffers)),
            rasters@.len() > 0 ==> 0 < derived@.len(),
            derived@.len() <= 255,
            i <= rasters@.len(),
            indexed@.len() == i,
            forall|k: int| 0 <= k < i ==> (#[trigger] indexed@[k])@ == indexed_frame(buffers[k], derived@),
        decreases rasters@.len() - i,
    {
        indexed.push(quantize(&rasters[i], &derived));
        i = i + 1;
    }
    assert(frame_views(indexed@) =~= Seq::new(buffers.len(), |k: int| indexed_frame(buffers[k], derived@)));
    let frames = delta_pass(&indexed, transparent);
    let mut palette = derived;
    palette.push(Rgb { r: 0, g: 0, b: 0 });
    Animation { palette, transparent, frames }
}

/// Buffers of 400 by 400 pixels hold colours.
proof fn lemma_colors_of_nonempty(buffers: Seq<Seq<u8>>)
    requires
        buffers.len() > 0,
        buffers.last().len() == 640000,
    ensures
        colors_of(buffers).len() > 0,
{
    assert(pixel_colors(buffers.last()).len() > 0);
}

} // verus!
