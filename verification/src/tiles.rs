use vstd::prelude::*;

verus! {

/// An (R, G, B) pixel.
pub type Rgb = (u8, u8, u8);

/// Color id (0-3) of the pixel whose bit in the two tile-row bytes is `bit`:
/// `high` supplies the upper bit of the id, `low` the lower one.
pub open spec fn tile_color_at(low: u8, high: u8, bit: u8) -> u8 {
    (((high >> bit) & 1) * 2 + ((low >> bit) & 1)) as u8
}

/// The eight color ids of a 2bpp tile row, leftmost pixel (bit 7) first.
pub open spec fn tile_row_spec(low: u8, high: u8) -> Seq<u8> {
    Seq::new(8, |i: int| tile_color_at(low, high, (7 - i) as u8))
}

/// The shade (0-3) that a palette register maps color id `color` to.
pub open spec fn palette_shade(palette: u8, color: u8) -> u8 {
    (palette >> (2 * color) as u8) & 3
}

/// The RGB value of a DMG shade: four greens from lightest to darkest.
pub open spec fn dmg_rgb_spec(shade: u8) -> Rgb {
    if shade == 0 {
        (224, 248, 208)
    } else if shade == 1 {
        (136, 192, 112)
    } else if shade == 2 {
        (52, 104, 86)
    } else {
        (8, 24, 32)
    }
}

fn pixel_color(low: u8, high: u8, bit: u8) -> (r: u8)
    requires
        bit < 8,
    ensures
        r == tile_color_at(low, high, bit),
        r < 4,
{
    let lo = (low >> bit) & 1;
    let hi = (high >> bit) & 1;
    assert(lo <= 1 && hi <= 1) by (bit_vector)
        requires
            lo == (low >> bit) & 1,
            hi == (high >> bit) & 1,
    ;
    assert((hi << 1u8) | lo == hi * 2 + lo) by (bit_vector)
        requires
            lo <= 1,
            hi <= 1,
    ;
    (hi << 1) | lo
}

/// Decode one 8-pixel tile row (2 bytes, 2bpp) into 8 color ids (0-3).
pub fn decode_tile_row(low: u8, high: u8) -> (r: [u8; 8])
    ensures
        r@ == tile_row_spec(low, high),
        forall|i: int| 0 <= i < 8 ==> r@[i] < 4,
{
    let r = [
        pixel_color(low, high, 7),
        pixel_color(low, high, 6),
        pixel_color(low, high, 5),
        pixel_color(low, high, 4),
        pixel_color(low, high, 3),
        pixel_color(low, high, 2),
        pixel_color(low, high, 1),
        pixel_color(low, high, 0),
    ];
    assert(r@ =~= tile_row_spec(low, high));
    r
}

/// Map a 2-bit color id through a palette register to a 2-bit shade.
pub fn apply_palette(palette: u8, color: u8) -> (r: u8)
    requires
        color < 4,
    ensures
        r == palette_shade(palette, color),
        r < 4,
{
    let r = (palette >> (color * 2)) & 0b11;
    assert(r < 4) by (bit_vector)
        requires
            r == (palette >> (color * 2)) & 0b11,
    ;
    r
}

/// Convert a DMG 2-bit shade to an (R, G, B) pixel.
pub fn dmg_rgb(shade: u8) -> (r: Rgb)
    ensures
        r == dmg_rgb_spec(shade),
{
    match shade {
        0 => (224, 248, 208),
        1 => (136, 192, 112),
        2 => (52, 104, 86),
        _ => (8, 24, 32),
    }
}

} // verus!
