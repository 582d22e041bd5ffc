//! The placeholder checkerboard texture: an 8 by 8 RGBA image built by
//! tiling an eight-colour palette with a per-row rotation.

use vstd::prelude::*;
use vstd::arithmetic::div_mod::lemma_fundamental_div_mod_converse;

verus! {

/// Byte `i` of the 32-byte palette: eight RGBA colours.
pub open spec fn palette_byte(i: int) -> u8 {
    if i == 0 {
        255
    } else if i == 1 {
        102
    } else if i == 2 {
        159
    } else if i == 3 {
        255
    } else if i == 4 {
        255
    } else if i == 5 {
        159
    } else if i == 6 {
        102
    } else if i == 7 {
        255
    } else if i == 8 {
        236
    } else if i == 9 {
        255
    } else if i == 10 {
        102
    } else if i == 11 {
        255
    } else if i == 12 {
        121
    } else if i == 13 {
        255
    } else if i == 14 {
        102
    } else if i == 15 {
        255
    } else if i == 16 {
        102
    } else if i == 17 {
        255
    } else if i == 18 {
        198
    } else if i == 19 {
        255
    } else if i == 20 {
        102
    } else if i == 21 {
        198
    } else if i == 22 {
        255
    } else if i == 23 {
        255
    } else if i == 24 {
        121
    } else if i == 25 {
        102
    } else if i == 26 {
        255
    } else if i == 27 {
        255
    } else if i == 28 {
        236
    } else if i == 29 {
        102
    } else if i == 30 {
        255
    } else {
        255
    }
}

/// Byte `k` of the 8 by 8 RGBA image: each pixel row holds the palette
/// rotated right by four bytes once per row, so row `y` starts on colour
/// `7 y mod 8`.
pub open spec fn texture_byte(k: int) -> u8 {
    palette_byte((k % 32 + 28 * (k / 32)) % 32)
}

/// Reads byte `i` of the palette.
fn palette_at(i: u32) -> (r: u8)
    requires
        i < 32,
    ensures
        r == palette_byte(i as int),
{
    match i {
        0 => 255,
        1 => 102,
        2 => 159,
        3 => 255,
        4 => 255,
        5 => 159,
        6 => 102,
        7 => 255,
        8 => 236,
        9 => 255,
        10 => 102,
        11 => 255,
        12 => 121,
        13 => 255,
        14 => 102,
        15 => 255,
        16 => 102,
        17 => 255,
        18 => 198,
        19 => 255,
        20 => 102,
        21 => 198,
        22 => 255,
        23 => 255,
        24 => 121,
        25 => 102,
        26 => 255,
        27 => 255,
        28 => 236,
        29 => 102,
        30 => 255,
        _ => 255,
    }
}

/// Produces the 256 bytes of the debug texture: eight rows of eight RGBA
/// pixels, each row the palette rotated right by four bytes relative to
/// the row above.
#[verifier::loop_isolation(false)]
pub fn uv_debug_texture() -> (r: Vec<u8>)
    ensures
        r@.len() == 256,
        forall|k: int| 0 <= k < 256 ==> #[trigger] r@[k] == texture_byte(k),
{
    let mut data: Vec<u8> = Vec::new();
    let mut y: u32 = 0;
    while y < 8
        invariant
            y <= 8,
            data@.len() == 32 * y,
            forall|k: int| 0 <= k < data@.len() ==> #[trigger] data@[k] == texture_byte(k),
        decreases 8 - y,
    {
        let mut i: u32 = 0;
        while i < 32
            invariant
                i <= 32,
                data@.len() == 32 * y + i,
                forall|k: int| 0 <= k < data@.len() ==> #[trigger] data@[k] == texture_byte(k),
            decreases 32 - i,
        {
            let b = palette_at((i + 28 * y) % 32);
            data.push(b);
            proof {
                let n = 32 * (y as int) + i as int;
                lemma_fundamental_div_mod_converse(n, 32, y as int, i as int);
            }
            i = i + 1;
        }
        y = y + 1;
    }
    data
}

} // verus!
