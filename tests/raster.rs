use chess_gif::board::{BoardState, SpriteSet};
use chess_gif::raster::Raster;
use chess_gif::render::render_board;

fn solid(width: u32, height: u32, rgba: [u8; 4]) -> Raster {
    let mut data = Vec::new();
    for _ in 0..width * height {
        data.extend_from_slice(&rgba);
    }
    Raster { width, height, data }
}

fn pixel(img: &Raster, x: u32, y: u32) -> [u8; 4] {
    let k = 4 * (y * img.width + x) as usize;
    [img.data[k], img.data[k + 1], img.data[k + 2], img.data[k + 3]]
}

fn checker(x: u32, y: u32) -> [u8; 4] {
    if ((x / 50) ^ (y / 50)) % 2 == 0 {
        [0xff, 0xce, 0x9e, 0xff]
    } else {
        [0xd1, 0x8b, 0x47, 0xff]
    }
}

fn opaque_sprites() -> SpriteSet {
    let mut v = Vec::new();
    for i in 0..12u8 {
        v.push(solid(50, 50, [i * 10, 0, 0, 0xff]));
    }
    SpriteSet::from_rasters(v).unwrap()
}

#[test]
fn blank_board_is_a_checkerboard() {
    let img = chess_gif::raster::blank_board();
    assert_eq!((img.width, img.height, img.data.len()), (400, 400, 640000));
    for y in 0..400 {
        for x in 0..400 {
            assert_eq!(pixel(&img, x, y), checker(x, y));
        }
    }
    assert_eq!(pixel(&img, 0, 0), [0xff, 0xce, 0x9e, 0xff]);
    assert_eq!(pixel(&img, 50, 0), [0xd1, 0x8b, 0x47, 0xff]);
    assert_eq!(pixel(&img, 399, 399), [0xff, 0xce, 0x9e, 0xff]);
}

#[test]
fn empty_board_renders_only_the_checkerboard() {
    let board = BoardState::empty();
    for flip in [false, true] {
        let img = render_board(&board, &opaque_sprites(), flip);
        assert_eq!(img.data, chess_gif::raster::blank_board().data);
    }
}

#[test]
fn opaque_sprite_covers_its_square() {
    let mut chars = vec![None; 64];
    chars[4] = Some('K');
    let board = BoardState::from_chars(&chars).unwrap();
    let img = render_board(&board, &opaque_sprites(), false);
    // e1 is file 4, rank 0: x 200..250, y 350..400; the white king's sprite is slot 5.
    assert_eq!(pixel(&img, 200, 350), [50, 0, 0, 0xff]);
    assert_eq!(pixel(&img, 249, 399), [50, 0, 0, 0xff]);
    assert_eq!(pixel(&img, 199, 350), checker(199, 350));
    assert_eq!(pixel(&img, 250, 399), checker(250, 399));
    let flipped = render_board(&board, &opaque_sprites(), true);
    assert_eq!(pixel(&flipped, 150, 0), [50, 0, 0, 0xff]);
    assert_eq!(pixel(&flipped, 200, 350), checker(200, 350));
}

#[test]
fn transparent_sprite_pixels_leave_the_board() {
    let mut v = Vec::new();
    for _ in 0..12 {
        let mut s = solid(50, 50, [0, 0, 0, 0xff]);
        for k in 0..50 * 25 {
            s.data[4 * k + 3] = 0;
        }
        v.push(s);
    }
    let sprites = SpriteSet::from_rasters(v).unwrap();
    let mut chars = vec![None; 64];
    chars[0] = Some('p');
    let board = BoardState::from_chars(&chars).unwrap();
    let img = render_board(&board, &sprites, false);
    // a1: x 0..50, y 350..400; the sprite's top half is transparent.
    assert_eq!(pixel(&img, 10, 360), checker(10, 360));
    assert_eq!(pixel(&img, 10, 390), [0, 0, 0, 0xff]);
}

#[test]
fn sprite_set_needs_twelve_well_formed_rasters() {
    let mut v = Vec::new();
    for _ in 0..11 {
        v.push(solid(50, 50, [0, 0, 0, 0xff]));
    }
    assert!(SpriteSet::from_rasters(v).is_none());
    let mut v = Vec::new();
    for _ in 0..12 {
        v.push(solid(50, 50, [0, 0, 0, 0xff]));
    }
    v[3].data.pop();
    assert!(SpriteSet::from_rasters(v).is_none());
}
