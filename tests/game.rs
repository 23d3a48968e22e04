use chess_gif::board::{BoardState, SpriteSet};
use chess_gif::delta::{OutFrame, FINAL_FRAME_DELAY, FRAME_DELAY};
use chess_gif::game::{render_position, tag_kind, GameRenderer, TagKind};
use chess_gif::palette::TRANSPARENT_INDEX;
use chess_gif::raster::{blank_board, Raster};

fn sprites() -> SpriteSet {
    // Opaque squares of palette colours, none of them the transparent entry.
    let colours: [[u8; 3]; 12] = [
        [0, 0, 0],
        [47, 38, 29],
        [91, 61, 31],
        [111, 90, 69],
        [131, 87, 44],
        [159, 129, 99],
        [39, 26, 13],
        [63, 51, 39],
        [79, 64, 49],
        [118, 78, 40],
        [143, 116, 89],
        [169, 112, 57],
    ];
    let mut v = Vec::new();
    for c in colours {
        let mut data = Vec::new();
        for _ in 0..2500 {
            data.extend_from_slice(&[c[0], c[1], c[2], 255]);
        }
        v.push(Raster { width: 50, height: 50, data });
    }
    SpriteSet::from_rasters(v).unwrap()
}

fn board(fen: &str) -> BoardState {
    BoardState::from_board_fen(fen).unwrap()
}

/// Palette indices of the pixels of square `square` (8 * rank + file), White at the bottom.
fn square_pixels(frame: &OutFrame, square: usize) -> Vec<u8> {
    let (file, rank) = (square % 8, square / 8);
    let (x0, y0) = (file * 50, (7 - rank) * 50);
    let mut v = Vec::new();
    for y in y0..y0 + 50 {
        for x in x0..x0 + 50 {
            v.push(frame.pixels[y * 400 + x]);
        }
    }
    v
}

#[test]
fn two_moves_give_three_frames() {
    let start = board("rnbqkbnr/pppppppp/8/8/8/8/PPPPPPPP/RNBQKBNR");
    let after_e4 = board("rnbqkbnr/pppppppp/8/8/4P3/8/PPPP1PPP/RNBQKBNR");
    let after_e5 = board("rnbqkbnr/pppp1ppp/8/4p3/4P3/8/PPPP1PPP/RNBQKBNR");
    let mut r = GameRenderer::new(false, sprites());
    let mut out = Vec::new();
    assert!(r.render_frame(&start).is_none());
    out.extend(r.render_frame(&after_e4));
    assert_eq!(out.len(), 1);
    out.extend(r.render_frame(&after_e5));
    out.extend(r.render_final_frame());
    assert_eq!(out.len(), 3);
    assert_eq!(out[0].delay, FRAME_DELAY);
    assert_eq!(out[1].delay, FRAME_DELAY);
    assert_eq!(out[2].delay, FINAL_FRAME_DELAY);
    for f in &out {
        assert_eq!(f.pixels.len(), 160000);
    }
    // The first frame has nothing to be compared with.
    assert!(!out[0].pixels.contains(&TRANSPARENT_INDEX));
    // Move 1 (e2-e4) touches squares 12 and 28; move 2 (e7-e5) touches 52 and 36.
    for sq in 0..64 {
        let f2 = square_pixels(&out[1], sq);
        let f3 = square_pixels(&out[2], sq);
        if sq != 12 && sq != 28 {
            assert!(f2.iter().all(|&p| p == TRANSPARENT_INDEX), "square {sq}");
        } else {
            assert!(f2.iter().all(|&p| p != TRANSPARENT_INDEX), "square {sq}");
        }
        if sq != 52 && sq != 36 {
            assert!(f3.iter().all(|&p| p == TRANSPARENT_INDEX), "square {sq}");
        } else {
            assert!(f3.iter().all(|&p| p != TRANSPARENT_INDEX), "square {sq}");
        }
    }
}

#[test]
fn game_without_moves_gives_one_frame() {
    let start = board("rnbqkbnr/pppppppp/8/8/8/8/PPPPPPPP/RNBQKBNR");
    let mut r = GameRenderer::new(true, sprites());
    assert!(r.render_frame(&start).is_none());
    let last = r.render_final_frame().unwrap();
    assert_eq!(last.delay, FINAL_FRAME_DELAY);
    assert!(!last.pixels.contains(&TRANSPARENT_INDEX));
    // Light square a8 is at the bottom right when flipped, holding Black's rook (slot 9, index 17).
    assert_eq!(last.pixels[399 * 400 + 399], 17);
    assert!(r.render_final_frame().is_none());
}

#[test]
fn empty_board_frame_uses_the_two_square_colours() {
    let mut r = GameRenderer::new(false, sprites());
    assert!(r.render_frame(&BoardState::empty()).is_none());
    let f = r.render_final_frame().unwrap();
    assert_eq!(f.pixels[0], 0);
    assert_eq!(f.pixels[50], 1);
    assert_eq!(f.pixels[50 * 400 + 50], 0);
    assert!(f.pixels.iter().all(|&p| p == 0 || p == 1));
}

#[test]
fn tag_kinds() {
    assert_eq!(tag_kind(b"FEN"), TagKind::Fen);
    assert_eq!(tag_kind(b"Variant"), TagKind::Variant);
    assert_eq!(tag_kind(b"fen"), TagKind::Other);
    assert_eq!(tag_kind(b"White"), TagKind::Other);
    assert_eq!(tag_kind(b""), TagKind::Other);
}

#[test]
fn position_rendering() {
    let img = render_position("8/8/8/8/8/8/8/8", &sprites(), false).unwrap();
    assert_eq!(img.data, blank_board().data);
    let img = render_position("8/8/8/8/8/8/8/K7", &sprites(), false).unwrap();
    // White king (slot 5) on a1: x 0..50, y 350..400.
    assert_eq!(&img.data[4 * (360 * 400 + 10)..4 * (360 * 400 + 10) + 4], &[159, 129, 99, 255]);
    assert!(render_position("8/8/8", &sprites(), false).is_none());
}
