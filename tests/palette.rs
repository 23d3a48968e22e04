use chess_gif::palette::{color_distance, fixed_palette, nearest_index, quantize, Rgb, TRANSPARENT_INDEX};
use chess_gif::raster::Raster;

#[test]
fn distance_is_manhattan() {
    let a = Rgb { r: 10, g: 200, b: 0 };
    let b = Rgb { r: 0, g: 210, b: 255 };
    assert_eq!(color_distance(a, b), 10 + 10 + 255);
    assert_eq!(color_distance(a, a), 0);
}

#[test]
fn exact_palette_colours_map_to_their_own_index() {
    let palette = fixed_palette();
    assert_eq!(palette.len(), 21);
    for (i, c) in palette.iter().enumerate() {
        assert_eq!(nearest_index(&palette, *c), i);
    }
    assert_eq!(palette[TRANSPARENT_INDEX as usize], Rgb { r: 255, g: 255, b: 255 });
}

#[test]
fn nearest_colour_and_ties() {
    let palette = vec![
        Rgb { r: 0, g: 0, b: 0 },
        Rgb { r: 10, g: 0, b: 0 },
        Rgb { r: 0, g: 10, b: 0 },
    ];
    assert_eq!(nearest_index(&palette, Rgb { r: 9, g: 0, b: 0 }), 1);
    // Equally near entries 1 and 2: the lower index wins.
    assert_eq!(nearest_index(&palette, Rgb { r: 10, g: 10, b: 0 }), 1);
    // Equally near entries 0 and 1.
    assert_eq!(nearest_index(&palette, Rgb { r: 5, g: 0, b: 0 }), 0);
}

#[test]
fn quantize_maps_each_pixel() {
    let img = Raster {
        width: 3,
        height: 1,
        data: vec![255, 206, 158, 255, 1, 2, 3, 255, 208, 140, 70, 255],
    };
    let palette = fixed_palette();
    assert_eq!(quantize(&img, &palette), vec![0, 7, 1]);
}
