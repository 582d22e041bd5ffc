//! The placeholder checkerboard texture.

use hex_grid::texture::uv_debug_texture;

const PALETTE: [u8; 32] = [
    255, 102, 159, 255, 255, 159, 102, 255, 236, 255, 102, 255, 121, 255, 102, 255, 102, 255,
    198, 255, 102, 198, 255, 255, 121, 102, 255, 255, 236, 102, 255, 255,
];

#[test]
fn texture_is_an_8x8_rgba_image() {
    let data = uv_debug_texture();
    assert_eq!(data.len(), 8 * 8 * 4);
}

#[test]
fn rows_rotate_the_palette_right_by_one_colour() {
    let data = uv_debug_texture();
    // Row 0 is the palette itself.
    assert_eq!(&data[0..32], &PALETTE);
    // Row y starts four bytes further back in the palette each time.
    for y in 0..8usize {
        for i in 0..32usize {
            assert_eq!(data[32 * y + i], PALETTE[(i + 28 * y) % 32]);
        }
    }
    // Spot checks of the rotation: row 1 begins on the palette's last
    // colour.
    assert_eq!(&data[32..36], &PALETTE[28..32]);
    assert_eq!(data[63], PALETTE[27]);
}
