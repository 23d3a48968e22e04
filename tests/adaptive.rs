use chess_gif::adaptive::{derive_palette, render_batch};
use chess_gif::board::{BoardState, SpriteSet};
use chess_gif::delta::{FINAL_FRAME_DELAY, FRAME_DELAY};
use chess_gif::palette::Rgb;
use chess_gif::raster::Raster;

fn raster(pixels: &[[u8; 3]]) -> Raster {
    let mut data = Vec::new();
    for p in pixels {
        data.extend_from_slice(&[p[0], p[1], p[2], 255]);
    }
    Raster { width: pixels.len() as u32, height: 1, data }
}

#[test]
fn derived_palette_keeps_first_colour_of_each_bucket() {
    let a = raster(&[[0, 0, 0], [10, 20, 31], [32, 0, 0], [255, 255, 255]]);
    let b = raster(&[[40, 5, 5], [250, 250, 250], [0, 64, 0]]);
    let p = derive_palette(&vec![a, b]);
    assert_eq!(
        p,
        vec![
            Rgb { r: 0, g: 0, b: 0 },
            Rgb { r: 32, g: 0, b: 0 },
            Rgb { r: 255, g: 255, b: 255 },
            Rgb { r: 0, g: 64, b: 0 },
        ]
    );
    assert!(derive_palette(&vec![]).is_empty());
}

#[test]
fn derived_palette_stops_at_255_colours() {
    let mut pixels = Vec::new();
    for r in 0..8u8 {
        for g in 0..8u8 {
            for b in 0..8u8 {
                pixels.push([r * 32, g * 32, b * 32]);
            }
        }
    }
    let p = derive_palette(&vec![raster(&pixels)]);
    assert_eq!(p.len(), 255);
    assert_eq!(p[0], Rgb { r: 0, g: 0, b: 0 });
    assert_eq!(p[254], Rgb { r: 96, g: 224, b: 192 });
}

fn sprites() -> SpriteSet {
    let mut v = Vec::new();
    for i in 0..12u8 {
        let mut data = Vec::new();
        for _ in 0..2500 {
            data.extend_from_slice(&[i * 20, 0, 40, 255]);
        }
        v.push(Raster { width: 50, height: 50, data });
    }
    SpriteSet::from_rasters(v).unwrap()
}

#[test]
fn batch_animation_of_two_positions() {
    let start = BoardState::from_board_fen("8/8/8/8/8/8/8/K7").unwrap();
    let moved = BoardState::from_board_fen("8/8/8/8/8/8/1K6/8").unwrap();
    let anim = render_batch(&vec![start, moved], &sprites(), false);
    // Light square, dark square, then the white king's colour; then the transparent entry.
    assert_eq!(
        anim.palette,
        vec![
            Rgb { r: 255, g: 206, b: 158 },
            Rgb { r: 209, g: 139, b: 71 },
            Rgb { r: 100, g: 0, b: 40 },
            Rgb { r: 0, g: 0, b: 0 },
        ]
    );
    assert_eq!(anim.transparent, 3);
    assert_eq!(anim.frames.len(), 2);
    assert_eq!(anim.frames[0].delay, FRAME_DELAY);
    assert_eq!(anim.frames[1].delay, FINAL_FRAME_DELAY);
    assert!(!anim.frames[0].pixels.contains(&3));
    // a1 (x 0..50, y 350..400) holds the king first, then is empty and dark again.
    assert_eq!(anim.frames[0].pixels[360 * 400 + 10], 2);
    assert_eq!(anim.frames[1].pixels[360 * 400 + 10], 1);
    // b2 (x 50..100, y 300..350) gets the king; h8 never changes.
    assert_eq!(anim.frames[1].pixels[310 * 400 + 60], 2);
    assert_eq!(anim.frames[1].pixels[10 * 400 + 390], 3);
    assert!(render_batch(&vec![], &sprites(), false).frames.is_empty());
}
