use ggbasm::tiles::{find_shade, image_to_tiles, Image};
use ggbasm::Color;

fn shades() -> Vec<(Color, u8)> {
    vec![
        (Color::new(255, 255, 255), 0),
        (Color::new(170, 170, 170), 1),
        (Color::new(85, 85, 85), 2),
        (Color::new(0, 0, 0), 3),
    ]
}

fn color_of(shade: u8) -> Color {
    shades()[shade as usize].0
}

#[test]
fn the_first_entry_of_the_map_counts() {
    let map = vec![(Color::new(1, 2, 3), 2), (Color::new(1, 2, 3), 1), (Color::new(3, 2, 1), 0)];
    assert_eq!(find_shade(&map, Color::new(1, 2, 3)), Some(2));
    assert_eq!(find_shade(&map, Color::new(3, 2, 1)), Some(0));
    assert_eq!(find_shade(&map, Color::new(1, 2, 4)), None);
    assert_eq!(find_shade(&vec![], Color::new(1, 2, 3)), None);
}

#[test]
fn the_order_of_a_map_without_repeated_colors_does_not_count() {
    let mut turned = shades();
    turned.reverse();
    for (color, shade) in shades() {
        assert_eq!(find_shade(&shades(), color), Some(shade));
        assert_eq!(find_shade(&turned, color), Some(shade));
    }
    let mut pixels = vec![];
    for i in 0..64 {
        pixels.push(color_of((i % 4) as u8));
    }
    let image = Image { width: 8, height: 8, pixels };
    let tiles = image_to_tiles(&image, &shades()).unwrap();
    assert_eq!(&tiles[0..2], &[0b0101_0101, 0b0011_0011]);
    assert_eq!(image_to_tiles(&image, &turned).unwrap(), tiles);
}

#[test]
fn one_tile_in_two_planes() {
    let mut pixels = vec![color_of(0); 64];
    // first line: shades 0 1 2 3 3 2 1 0
    for (x, shade) in [0u8, 1, 2, 3, 3, 2, 1, 0].iter().enumerate() {
        pixels[x] = color_of(*shade);
    }
    // last line: the rightmost pixel has shade 1
    pixels[63] = color_of(1);
    let image = Image { width: 8, height: 8, pixels };
    let tiles = image_to_tiles(&image, &shades()).unwrap();
    assert_eq!(tiles.len(), 16);
    assert_eq!(&tiles[0..2], &[0b0101_1010, 0b0011_1100]);
    assert!(tiles[2..14].iter().all(|b| *b == 0));
    assert_eq!(&tiles[14..16], &[0b0000_0001, 0b0000_0000]);
}

#[test]
fn tiles_follow_each_other_row_by_row() {
    // 16 by 16 pixels: four tiles, the tile number `n` is filled with the shade `n`
    let mut pixels = vec![];
    for y in 0..16 {
        for x in 0..16 {
            pixels.push(color_of(((y / 8) * 2 + x / 8) as u8));
        }
    }
    let image = Image { width: 16, height: 16, pixels };
    let tiles = image_to_tiles(&image, &shades()).unwrap();
    assert_eq!(tiles.len(), 64);
    for tile in 0..4 {
        for line in 0..8 {
            let low = tiles[tile * 16 + line * 2];
            let high = tiles[tile * 16 + line * 2 + 1];
            assert_eq!(low, if tile & 1 == 1 { 0xFF } else { 0x00 });
            assert_eq!(high, if tile & 2 == 2 { 0xFF } else { 0x00 });
        }
    }
}

#[test]
fn pixels_beyond_whole_tiles_are_left_out() {
    let image = Image { width: 9, height: 15, pixels: vec![color_of(3); 9 * 15] };
    assert_eq!(image_to_tiles(&image, &shades()), Ok(vec![0xFF; 16]));
    let image = Image { width: 7, height: 8, pixels: vec![color_of(3); 56] };
    assert_eq!(image_to_tiles(&image, &shades()), Ok(vec![]));
    let image = Image { width: 0, height: 0, pixels: vec![] };
    assert_eq!(image_to_tiles(&image, &shades()), Ok(vec![]));
}

#[test]
fn the_first_unmapped_color_is_reported() {
    let mut pixels = vec![color_of(0); 16 * 8];
    pixels[16 + 3] = Color::new(1, 1, 1);
    pixels[8] = Color::new(2, 2, 2);
    let image = Image { width: 16, height: 8, pixels };
    // the second line of the first tile comes before the first line of the second tile
    assert_eq!(image_to_tiles(&image, &shades()), Err(Color::new(1, 1, 1)));
}

#[test]
fn only_the_two_low_bits_of_a_shade_count() {
    let map = vec![(Color::new(9, 9, 9), 0xFE)];
    let image = Image { width: 8, height: 8, pixels: vec![Color::new(9, 9, 9); 64] };
    let tiles = image_to_tiles(&image, &map).unwrap();
    for line in 0..8 {
        assert_eq!(&tiles[line * 2..line * 2 + 2], &[0x00, 0xFF]);
    }
}
