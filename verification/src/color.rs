//! Colors, with one byte each for red, green and blue from the lowest on.

use vstd::prelude::*;

use crate::percent::smaller;

verus! {

/// The color with the given parts.
pub open spec fn color(red: int, green: int, blue: int) -> int {
    red + 0x100 * green + 0x1_0000 * blue
}

/// The red part of a color.
pub open spec fn red_of(color: int) -> int {
    color % 0x100
}

/// The green part of a color.
pub open spec fn green_of(color: int) -> int {
    color / 0x100 % 0x100
}

/// The blue part of a color.
pub open spec fn blue_of(color: int) -> int {
    color / 0x1_0000 % 0x100
}

/// A part of a color at a percentage of its strength; beyond a byte it wraps around.
pub open spec fn dimmed(part: int, percent: int) -> int {
    part * percent / 100 % 0x100
}

/// A part of a color, raised by a percentage of what it lacks of full strength.
pub open spec fn lightened(part: int, percent: int) -> int {
    smaller(part + (255 - part) * percent / 100, 255)
}

/// The color with the given parts.
pub fn rgb(red: u8, green: u8, blue: u8) -> (r: u32)
    ensures
        r == color(red as int, green as int, blue as int),
        r <= 0xff_ffff,
{
    red as u32 + 0x100 * green as u32 + 0x1_0000 * blue as u32
}

/// The accent color of a palette: blue, green and purple in turn.
pub open spec fn accent_of(palette: int) -> int {
    if palette % 3 == 0 {
        color(95, 145, 255)
    } else if palette % 3 == 1 {
        color(64, 196, 126)
    } else {
        color(173, 117, 255)
    }
}

/// The accent color of a palette.
pub fn palette_accent(palette: usize) -> (r: u32)
    ensures
        r == accent_of(palette as int),
{
    let index = palette % 3;
    if index == 0 {
        rgb(95, 145, 255)
    } else if index == 1 {
        rgb(64, 196, 126)
    } else {
        rgb(173, 117, 255)
    }
}

fn dim_part(part: u32, percent: u8) -> (r: u8)
    requires
        part <= 255,
    ensures
        r == dimmed(part as int, percent as int),
{
    assert(part * percent <= 255 * 255) by (nonlinear_arith)
        requires
            part <= 255,
            percent <= 255,
    ;
    ((part * percent as u32) / 100 % 0x100) as u8
}

fn lighten_part(part: u32, percent: u8) -> (r: u8)
    requires
        part <= 255,
    ensures
        r == lightened(part as int, percent as int),
{
    assert(0 <= (255 - part) * percent <= 255 * 255) by (nonlinear_arith)
        requires
            part <= 255,
            percent <= 255,
    ;
    let raised: u32 = part + (255 - part) * percent as u32 / 100;
    if raised < 255 {
        raised as u8
    } else {
        255
    }
}

/// The color at a percentage of its strength.
pub fn dim_color(color: u32, percent: u8) -> (r: u32)
    ensures
        r == self::color(
            dimmed(red_of(color as int), percent as int),
            dimmed(green_of(color as int), percent as int),
            dimmed(blue_of(color as int), percent as int),
        ),
{
    rgb(
        dim_part(color % 0x100, percent),
        dim_part(color / 0x100 % 0x100, percent),
        dim_part(color / 0x1_0000 % 0x100, percent),
    )
}

/// The color, brought nearer to white by a percentage.
pub fn lighten_color(color: u32, amount: u8) -> (r: u32)
    ensures
        r == self::color(
            lightened(red_of(color as int), amount as int),
            lightened(green_of(color as int), amount as int),
            lightened(blue_of(color as int), amount as int),
        ),
{
    rgb(
        lighten_part(color % 0x100, amount),
        lighten_part(color / 0x100 % 0x100, amount),
        lighten_part(color / 0x1_0000 % 0x100, amount),
    )
}

/// The parts of a color can be read back from it.
pub proof fn law_colors_keep_their_parts(red: u8, green: u8, blue: u8)
    ensures
        ({
            let c = color(red as int, green as int, blue as int);
            red_of(c) == red && green_of(c) == green && blue_of(c) == blue
        }),
{
}

/// Dimming never brightens a part, and lightening never darkens one; both stay within
/// a byte.
pub proof fn law_color_helpers_stay_controlled(part: u8, percent: u8)
    requires
        percent <= 100,
    ensures
        0 <= dimmed(part as int, percent as int) <= part,
        part <= lightened(part as int, percent as int) <= 255,
{
    assert(0 <= part * percent / 100 <= part) by (nonlinear_arith)
        requires
            percent <= 100,
    ;
    assert(0 <= (255 - part) * percent / 100 <= 255 - part) by (nonlinear_arith)
        requires
            percent <= 100,
            part <= 255,
    ;
}

/// A color is made of its red, green and blue bytes from the lowest on; what stands above
/// them is left out.
pub proof fn law_a_color_is_made_of_three_bytes(color: u32)
    ensures
        0 <= red_of(color as int) < 0x100,
        0 <= green_of(color as int) < 0x100,
        0 <= blue_of(color as int) < 0x100,
        color == red_of(color as int) + 0x100 * green_of(color as int) + 0x1_0000 * blue_of(
            color as int,
        ) + 0x100_0000 * (color as int / 0x100_0000),
        forall|r: int, g: int, b: int| #[trigger] self::color(r, g, b) == r + 256 * g + 65_536 * b,
{
    let c = color as int;
    let above_red = c / 0x100;
    let above_green = above_red / 0x100;
    assert(c == red_of(c) + 0x100 * above_red);
    assert(above_green == c / 0x1_0000);
    assert(above_red == green_of(c) + 0x100 * above_green);
    assert(above_green / 0x100 == c / 0x100_0000);
    assert(above_green == blue_of(c) + 0x100 * (above_green / 0x100));
}

/// Dimming keeps the given percentage of a part, rounded down.
pub proof fn law_dimming_keeps_a_percentage(part: u8, percent: u8)
    requires
        percent <= 100,
    ensures
        ({
            let r = dimmed(part as int, percent as int);
            100 * r <= part * percent < 100 * (r + 1)
        }),
{
    assert(0 <= part * percent <= 255 * 100) by (nonlinear_arith)
        requires
            part <= 255,
            percent <= 100,
    ;
}

/// Lightening adds the given percentage of what a part lacks of full strength, rounded
/// down.
pub proof fn law_lightening_adds_a_percentage(part: u8, percent: u8)
    requires
        percent <= 100,
    ensures
        ({
            let added = lightened(part as int, percent as int) - part;
            100 * added <= (255 - part) * percent < 100 * (added + 1)
        }),
{
    assert(0 <= (255 - part) * percent <= (255 - part) * 100) by (nonlinear_arith)
        requires
            part <= 255,
            percent <= 100,
    ;
}

/// Beyond full strength dimming wraps around in a byte and lightening ends at white.
pub proof fn law_colors_beyond_full_strength(part: u8, percent: u8)
    requires
        percent > 100,
    ensures
        ({
            let r = dimmed(part as int, percent as int);
            &&& 0 <= r < 256
            &&& exists|turns: int|
                0 <= turns <= 2 && 100 * (r + 256 * turns) <= part * percent < 100 * (#[trigger] (r
                    + 256 * turns) + 1)
        }),
        lightened(part as int, percent as int) == 255,
{
    assert(0 <= part * percent <= 255 * 255) by (nonlinear_arith)
        requires
            part <= 255,
            percent <= 255,
    ;
    let whole = part * percent / 100;
    let r = dimmed(part as int, percent as int);
    let turns = whole / 256;
    assert(whole == r + 256 * turns);
    assert((255 - part) * percent >= (255 - part) * 100) by (nonlinear_arith)
        requires
            part <= 255,
            percent > 100,
    ;
}

/// The accents are blue, green and purple, and come round.
pub proof fn law_accents_come_round(palette: int)
    requires
        0 <= palette,
    ensures
        accent_of(palette + 3) == accent_of(palette),
        accent_of(0) == 95 + 256 * 145 + 65_536 * 255,
        accent_of(1) == 64 + 256 * 196 + 65_536 * 126,
        accent_of(2) == 173 + 256 * 117 + 65_536 * 255,
{
}

} // verus!
