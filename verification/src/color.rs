//! Display colours: the 16 ANSI colours and the 256-colour palette in 5-6-5 bits.

use embedded_graphics::pixelcolor::RgbColor;
use vstd::prelude::*;

verus! {

/// A colour with 5 bits of red, 6 bits of green and 5 bits of blue.
#[derive(Copy, Clone, Debug, PartialEq, Eq, Structural)]
pub struct Rgb565 {
    pub r: u8,
    pub g: u8,
    pub b: u8,
}

/// The colour with the low bits of each channel: 5 of red, 6 of green, 5 of blue.
pub open spec fn rgb(r: int, g: int, b: int) -> Rgb565 {
    Rgb565 { r: (r % 32) as u8, g: (g % 64) as u8, b: (b % 32) as u8 }
}

/// `embedded_graphics::pixelcolor::Rgb565::new`, read back with `r`, `g` and `b`: each channel
/// keeps its low bits, 5 of red, 6 of green and 5 of blue.
#[verifier::external_body]
pub(crate) fn rgb565_new(r: u8, g: u8, b: u8) -> (c: Rgb565)
    ensures
        c == rgb(r as int, g as int, b as int),
{
    let c = embedded_graphics::pixelcolor::Rgb565::new(r, g, b);
    Rgb565 { r: c.r(), g: c.g(), b: c.b() }
}

/// The ANSI palette: eight standard colours, then eight bright ones.
pub open spec fn ansi(i: int) -> Rgb565 {
    if i == 0 {
        rgb(0, 0, 0)
    } else if i == 1 {
        rgb(21, 0, 0)
    } else if i == 2 {
        rgb(0, 42, 0)
    } else if i == 3 {
        rgb(21, 42, 0)
    } else if i == 4 {
        rgb(0, 0, 21)
    } else if i == 5 {
        rgb(21, 0, 21)
    } else if i == 6 {
        rgb(0, 42, 21)
    } else if i == 7 {
        rgb(21, 42, 21)
    } else if i == 8 {
        rgb(10, 21, 10)
    } else if i == 9 {
        rgb(31, 0, 0)
    } else if i == 10 {
        rgb(0, 63, 0)
    } else if i == 11 {
        rgb(31, 63, 0)
    } else if i == 12 {
        rgb(0, 0, 31)
    } else if i == 13 {
        rgb(31, 0, 31)
    } else if i == 14 {
        rgb(0, 63, 31)
    } else {
        rgb(31, 63, 31)
    }
}

/// The colour of text that no escape sequence has coloured: white.
pub open spec fn default_fg() -> Rgb565 {
    ansi(7)
}

/// The background that no escape sequence has coloured: black.
pub open spec fn default_bg() -> Rgb565 {
    ansi(0)
}

/// Colour `i` of the ANSI palette.
pub fn ansi_color(i: usize) -> (c: Rgb565)
    requires
        i < 16,
    ensures
        c == ansi(i as int),
{
    match i {
        0 => rgb565_new(0, 0, 0),
        1 => rgb565_new(21, 0, 0),
        2 => rgb565_new(0, 42, 0),
        3 => rgb565_new(21, 42, 0),
        4 => rgb565_new(0, 0, 21),
        5 => rgb565_new(21, 0, 21),
        6 => rgb565_new(0, 42, 21),
        7 => rgb565_new(21, 42, 21),
        8 => rgb565_new(10, 21, 10),
        9 => rgb565_new(31, 0, 0),
        10 => rgb565_new(0, 63, 0),
        11 => rgb565_new(31, 63, 0),
        12 => rgb565_new(0, 0, 31),
        13 => rgb565_new(31, 0, 31),
        14 => rgb565_new(0, 63, 31),
        _ => rgb565_new(31, 63, 31),
    }
}

/// `n` modulo 2^16.
pub open spec fn low16(n: int) -> int {
    n % 0x1_0000
}

/// The brightness of step `n - 232` of the gray ramp, in 16-bit arithmetic.
pub open spec fn gray(n: int) -> int {
    low16((n - 232) * 10 + 8)
}

/// Entry `n` of the 256-colour palette: the ANSI colours, a cube of six steps per channel, and a
/// gray ramp. Numbers past the ramp continue it in 16-bit arithmetic.
pub open spec fn palette(n: int) -> Rgb565 {
    if n < 16 {
        ansi(n)
    } else if n < 232 {
        let i = n - 16;
        rgb((i / 36 % 6 * 31 + 2) / 5, (i / 6 % 6 * 63 + 2) / 5, (i % 6 * 31 + 2) / 5)
    } else {
        rgb(
            low16(gray(n) * 31 + 127) / 255,
            low16(gray(n) * 63 + 127) / 255,
            low16(gray(n) * 31 + 127) / 255,
        )
    }
}

/// `gray` scaled to a channel whose largest value is `top`, in 16-bit arithmetic.
fn gray_channel(shade: u16, top: u16) -> (v: u8)
    requires
        top == 31 || top == 63,
    ensures
        v as int % 64 == low16(shade * top + 127) / 255 % 64,
        v as int % 32 == low16(shade * top + 127) / 255 % 32,
{
    let x: u16 = shade.wrapping_mul(top).wrapping_add(127) / 255;
    proof {
        let p = shade * top;
        assert(low16(low16(p) + 127) == low16(p + 127));
        assert(x <= 257);
    }
    let y: u16 = x % 256;
    y as u8
}

/// The colour of entry `n` of the 256-colour palette.
pub fn color256_to_rgb565(n: u16) -> (c: Rgb565)
    ensures
        c == palette(n as int),
{
    if n < 16 {
        return ansi_color(n as usize);
    }
    if n < 232 {
        let idx: u16 = n - 16;
        let b: u16 = idx % 6;
        let g: u16 = idx / 6 % 6;
        let r: u16 = idx / 36 % 6;
        rgb565_new(((r * 31 + 2) / 5) as u8, ((g * 63 + 2) / 5) as u8, ((b * 31 + 2) / 5) as u8)
    } else {
        let shade: u16 = (n - 232).wrapping_mul(10).wrapping_add(8);
        proof {
            let p = (n - 232) * 10;
            assert(low16(low16(p) + 8) == low16(p + 8));
            assert(shade == gray(n as int));
        }
        let r = gray_channel(shade, 31);
        let g = gray_channel(shade, 63);
        rgb565_new(r, g, r)
    }
}

/// The first eight ANSI colours have red in every odd one, green in every second pair and blue in
/// the upper half, at two thirds; the second eight the same at full strength, but for gray.
pub proof fn law_ansi_colours(i: int)
    requires
        0 <= i < 8,
    ensures
        ansi(i).r == if i % 2 == 1 {
            21
        } else {
            0int
        },
        ansi(i).g == if i / 2 % 2 == 1 {
            42
        } else {
            0int
        },
        ansi(i).b == if i >= 4 {
            21
        } else {
            0int
        },
        i == 0 ==> ansi(8) == (Rgb565 { r: 10, g: 21, b: 10 }),
        i > 0 ==> {
            &&& ansi(8 + i).r == if i % 2 == 1 {
                31
            } else {
                0int
            }
            &&& ansi(8 + i).g == if i / 2 % 2 == 1 {
                63
            } else {
                0int
            }
            &&& ansi(8 + i).b == if i >= 4 {
                31
            } else {
                0int
            }
        },
{
}

/// Whether a channel value is as near as a whole number can be to `level` parts of `parts` of its
/// largest value.
pub open spec fn nearest(v: int, level: int, parts: int, top: int) -> bool {
    -parts <= 2 * (v * parts - level * top) <= parts
}

/// Entries 16 to 231 of the palette are a cube: red counts in 36s, green in 6s and blue in ones,
/// five equal steps each from nothing to full.
pub proof fn law_palette_cube(r: int, g: int, b: int)
    requires
        0 <= r < 6,
        0 <= g < 6,
        0 <= b < 6,
    ensures
        ({
            let c = palette(16 + 36 * r + 6 * g + b);
            nearest(c.r as int, r, 5, 31) && nearest(c.g as int, g, 5, 63) && nearest(
                c.b as int,
                b,
                5,
                31,
            )
        }),
{
    let i = 36 * r + 6 * g + b;
    assert(i / 36 == r && i / 6 == 6 * r + g && i % 6 == b);
    assert((6 * r + g) % 6 == g);
}

/// Entries 232 to 255 are grays, ten 255ths of full brightness apart from eight 255ths on. The
/// first sixteen are the ANSI colours.
pub proof fn law_palette_grays_and_ansi(n: int)
    requires
        0 <= n < 24,
    ensures
        ({
            let c = palette(232 + n);
            nearest(c.r as int, 8 + 10 * n, 255, 31) && nearest(c.g as int, 8 + 10 * n, 255, 63)
                && nearest(c.b as int, 8 + 10 * n, 255, 31)
        }),
        n < 16 ==> palette(n) == ansi(n),
{
}

/// Of each channel the low bits count: five of red, six of green and five of blue.
pub proof fn law_low_bits(r: int, g: int, b: int, k: int)
    requires
        0 <= r < 32,
        0 <= g < 64,
        0 <= b < 32,
        0 <= k,
    ensures
        rgb(32 * k + r, 64 * k + g, 32 * k + b) == (Rgb565 { r: r as u8, g: g as u8, b: b as u8 }),
{
}

/// Past the ramp the brightness goes on in 16-bit arithmetic.
pub proof fn law_past_the_ramp(n: int, k: int)
    requires
        232 <= n,
        0 <= k,
        10 * (n - 232) + 8 - 0x1_0000 * k >= 0,
        10 * (n - 232) + 8 - 0x1_0000 * k < 0x1_0000,
    ensures
        gray(n) == 10 * (n - 232) + 8 - 0x1_0000 * k,
{
}

} // verus!
