use vstd::prelude::*;

verus! {

/// The level, out of `max`, that an 8-bit channel value `v` scales to:
/// `v * max / 255`, rounded down.
pub open spec fn channel_level(v: u8, max: int) -> int {
    (v as int) * max / 255
}

/// The 16-bit value that `rgb(r, g, b)` packs.
///
/// Red and blue are scaled to 5-bit levels and green to a 6-bit level. The
/// packing keeps the top two bits of the red level in bits 11..13, the top
/// three bits of the blue level in bits 5..8, and the top three bits of the
/// green level in bits 0..3.
pub open spec fn packed_rgb(r: u8, g: u8, b: u8) -> int {
    2048 * (channel_level(r, 31) / 8) + 32 * (channel_level(b, 31) / 4) + channel_level(g, 63) / 8
}

proof fn lemma_pack_levels(r5: u16, g6: u16, b5: u16)
    requires
        r5 <= 31,
        b5 <= 31,
        g6 <= 63,
    ensures
        ((r5 & 0xf8u16) << 8u16) | ((b5 & 0xfcu16) << 3u16) | (g6 >> 3u16) == 2048 * (r5 / 8)
            + 32 * (b5 / 4) + g6 / 8,
{
    assert(((r5 & 0xf8u16) << 8u16) | ((b5 & 0xfcu16) << 3u16) | (g6 >> 3u16) == 2048 * (r5 / 8)
        + 32 * (b5 / 4) + g6 / 8) by (bit_vector)
        requires
            r5 <= 31,
            b5 <= 31,
            g6 <= 63,
    ;
}

/// Scales an 8-bit channel value to a level out of `max` (31 or 63).
fn scale_channel(v: u8, max: u16) -> (level: u16)
    requires
        max <= 63,
    ensures
        level == channel_level(v, max as int),
        level <= max,
{
    assert((v as int) * (max as int) <= 255 * 63) by (nonlinear_arith)
        requires
            v <= 255,
            max <= 63,
    ;
    let wide: u16 = (v as u16) * max;
    assert(wide / 255 <= max) by (nonlinear_arith)
        requires
            wide == (v as int) * (max as int),
            v <= 255,
    ;
    wide / 255
}

/// Packs an 8-bit-per-channel colour into the 16-bit value the screen uses.
pub fn rgb(r: u8, g: u8, b: u8) -> (packed: u16)
    ensures
        packed == packed_rgb(r, g, b),
{
    let r5: u16 = scale_channel(r, 31);
    let b5: u16 = scale_channel(b, 31);
    let g6: u16 = scale_channel(g, 63);
    proof {
        lemma_pack_levels(r5, g6, b5);
    }
    ((r5 & 0b11111000) << 8) | ((b5 & 0b11111100) << 3) | (g6 >> 3)
}

/// A colour with 8 bits per channel.
pub struct Colour {
    r: u8,
    g: u8,
    b: u8,
}

impl View for Colour {
    type V = (u8, u8, u8);

    /// The red, green and blue channels.
    closed spec fn view(&self) -> (u8, u8, u8) {
        (self.r, self.g, self.b)
    }
}

impl Colour {
    /// A colour from its red, green and blue channels.
    pub fn new(r: u8, g: u8, b: u8) -> (c: Self)
        ensures
            c@ == (r, g, b),
    {
        Self { r, g, b }
    }

    /// The 16-bit value of this colour, as `rgb` packs it.
    pub open spec fn spec_as_16bit(&self) -> u16 {
        packed_rgb(self@.0, self@.1, self@.2) as u16
    }

    /// The 16-bit value of this colour, as `rgb` packs it.
    pub fn as_16bit(&self) -> (packed: u16)
        ensures
            packed == packed_rgb(self@.0, self@.1, self@.2),
            packed == self.spec_as_16bit(),
    {
        rgb(self.r, self.g, self.b)
    }
}

} // verus!
