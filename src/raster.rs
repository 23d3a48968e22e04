//! Truecolor rasters with alpha, the empty checkerboard, and compositing.

use vstd::prelude::*;

verus! {

/// Width and height of the board canvas, in pixels.
pub const BOARD_PIXELS: u32 = 400;

/// An image of `width` by `height` pixels, stored row by row, four bytes
/// (red, green, blue, alpha) per pixel.
pub struct Raster {
    pub width: u32,
    pub height: u32,
    pub data: Vec<u8>,
}

impl Raster {
    /// The byte buffer holds exactly four bytes per pixel.
    pub open spec fn wf(&self) -> bool {
        self.data@.len() == 4 * (self.width as int) * (self.height as int)
    }
}

/// The RGBA colour of the square that holds pixel `(px, py)` on the empty board:
/// light where the square's column and row have the same parity, dark elsewhere.
pub open spec fn checker_color(px: int, py: int) -> Seq<u8> {
    if (px / 50 + py / 50) % 2 == 0 {
        seq![0xffu8, 0xceu8, 0x9eu8, 0xffu8]
    } else {
        seq![0xd1u8, 0x8bu8, 0x47u8, 0xffu8]
    }
}

/// Byte buffer of the empty 400 by 400 board: byte `k` is channel `k % 4` of
/// pixel `k / 4`, which sits at column `(k / 4) % 400` of row `(k / 4) / 400`.
pub open spec fn blank_bytes() -> Seq<u8> {
    Seq::new(640000, |k: int| checker_color((k / 4) % 400, (k / 4) / 400)[k % 4])
}

/// What compositing `top` over `bottom` at `(x, y)` leaves in `bottom`'s buffer.
pub uninterp spec fn overlaid(
    bottom: Seq<u8>,
    bottom_width: u32,
    bottom_height: u32,
    top: Seq<u8>,
    top_width: u32,
    top_height: u32,
    x: i64,
    y: i64,
) -> Seq<u8>;

/// What the PNG decoder yields for a byte string, as width, height and RGBA bytes.
pub uninterp spec fn png_decoded(bytes: Seq<u8>) -> Option<(u32, u32, Seq<u8>)>;

/// Relies on image::imageops::overlay: alpha-over compositing of `top` onto
/// `bottom` with its top-left corner at `(x, y)`, clipped to `bottom`, whose
/// buffer keeps its size (and on ImageBuffer::from_raw / into_raw, which only
/// move the buffers in and out).
#[verifier::external_body]
fn overlay_pixels(
    bottom: Vec<u8>,
    bottom_width: u32,
    bottom_height: u32,
    top: &[u8],
    top_width: u32,
    top_height: u32,
    x: i64,
    y: i64,
) -> (r: Vec<u8>)
    requires
        bottom@.len() == 4 * (bottom_width as int) * (bottom_height as int),
        top@.len() == 4 * (top_width as int) * (top_height as int),
    ensures
        r@ == overlaid(bottom@, bottom_width, bottom_height, top@, top_width, top_height, x, y),
        r@.len() == bottom@.len(),
{
    let mut canvas = image::RgbaImage::from_raw(bottom_width, bottom_height, bottom).unwrap();
    let sprite = image::ImageBuffer::<image::Rgba<u8>, &[u8]>::from_raw(top_width, top_height, top)
        .unwrap();
    image::imageops::overlay(&mut canvas, &sprite, x, y);
    canvas.into_raw()
}

/// Relies on image::load_from_memory_with_format with the PNG format, then
/// DynamicImage::into_rgba8, which converts what was decoded to 8-bit RGBA.
#[verifier::external_body]
fn decode_png_rgba(bytes: &[u8]) -> (r: Option<(u32, u32, Vec<u8>)>)
    ensures
        r is None <==> png_decoded(bytes@) is None,
        r matches Some(t) ==> png_decoded(bytes@) == Some((t.0, t.1, t.2@)),
{
    match image::load_from_memory_with_format(bytes, image::ImageFormat::Png) {
        Ok(img) => {
            let rgba = img.into_rgba8();
            Some((rgba.width(), rgba.height(), rgba.into_raw()))
        },
        Err(_) => None,
    }
}

impl Raster {
    /// Decodes a PNG image into an RGBA raster; `None` where the bytes are no
    /// PNG image.
    pub fn from_png(bytes: &[u8]) -> (r: Option<Raster>)
        ensures
            r is Some <==> (png_decoded(bytes@) matches Some(t) && t.2.len() == 4 * (t.0 as int)
                * (t.1 as int)),
            r matches Some(img) ==> img.wf() && png_decoded(bytes@) == Some(
                (img.width, img.height, img.data@),
            ),
    {
        match decode_png_rgba(bytes) {
            Some((width, height, data)) => {
                let img = Raster { width, height, data };
                if img.is_well_formed() {
                    Some(img)
                } else {
                    None
                }
            },
            None => None,
        }
    }

    /// Whether the buffer holds exactly four bytes per pixel.
    pub fn is_well_formed(&self) -> (r: bool)
        ensures
            r == self.wf(),
    {
        let w = self.width as u128;
        let h = self.height as u128;
        assert(w * h <= 0xffff_ffffu128 * 0xffff_ffffu128) by (nonlinear_arith)
            requires
                w <= 0xffff_ffffu128,
                h <= 0xffff_ffffu128,
        ;
        let n = 4 * (w * h);
        assert(n == 4 * (self.width as int) * (self.height as int)) by (nonlinear_arith)
            requires
                w == self.width,
                h == self.height,
                n == 4 * (w * h),
        ;
        self.data.len() as u128 == n
    }

    /// Composites `top` over this raster with its top-left corner at `(x, y)`.
    pub fn overlay(self, top: &Raster, x: i64, y: i64) -> (r: Raster)
        requires
            self.wf(),
            top.wf(),
        ensures
            r.wf(),
            r.width == self.width,
            r.height == self.height,
            r.data@ == overlaid(
                self.data@,
                self.width,
                self.height,
                top.data@,
                top.width,
                top.height,
                x,
                y,
            ),
    {
        let Raster { width, height, data } = self;
        let data = overlay_pixels(data, width, height, top.data.as_slice(), top.width, top.height, x, y);
        Raster { width, height, data }
    }
}

/// The empty board: 400 by 400 pixels in 50 by 50 squares of two colours.
pub fn blank_board() -> (r: Raster)
    ensures
        r.wf(),
        r.width == 400,
        r.height == 400,
        r.data@ == blank_bytes(),
{
    let mut data: Vec<u8> = Vec::with_capacity(640000);
    let mut p: u32 = 0;
    while p < 160000
        invariant
            p <= 160000,
            data@.len() == 4 * p,
            forall|k: int| 0 <= k < 4 * p ==> data@[k] == #[trigger] blank_bytes()[k],
        decreases 160000 - p,
    {
        let x: u32 = p % 400;
        let y: u32 = p / 400;
        let light = (x / 50 + y / 50) % 2 == 0;
        let (r, g, b): (u8, u8, u8) = if light {
            (0xff, 0xce, 0x9e)
        } else {
            (0xd1, 0x8b, 0x47)
        };
        let ghost before = data@;
        data.push(r);
        data.push(g);
        data.push(b);
        data.push(0xff);
        proof {
            assert forall|k: int| 0 <= k < 4 * (p + 1) implies data@[k] == #[trigger] blank_bytes()[k] by {
                if k >= 4 * p {
                    assert(k / 4 == p as int);
                    assert(k % 4 == k - 4 * p);
                } else {
                    assert(data@[k] == before[k]);
                }
            }
        }
        p = p + 1;
    }
    assert(data@ =~= blank_bytes());
    Raster { width: BOARD_PIXELS, height: BOARD_PIXELS, data }
}

} // verus!
