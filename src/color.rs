use vstd::prelude::*;

verus! {

/// The RGB565 encoding of a color whose channels are already reduced to
/// 5, 6 and 5 bits: red in bits 15..11, green in 10..5, blue in 4..0.
/// Bits of a channel above its width are dropped.
pub open spec fn pack565(r: u8, g: u8, b: u8) -> u16 {
    ((((r & 31u8) as u16) << 11u16) | (((g & 63u8) as u16) << 5u16) | ((b & 31u8) as u16)) as u16
}

/// Relies on `embedded_graphics::pixelcolor::Rgb565::new`, which masks each
/// channel to its width and shifts it into place, and on `into_storage`,
/// which returns the packed 16-bit value unchanged.
#[verifier::external_body]
fn eg_rgb565(r: u8, g: u8, b: u8) -> (c: u16)
    ensures
        c == pack565(r, g, b),
{
    embedded_graphics::pixelcolor::IntoStorage::into_storage(
        embedded_graphics::pixelcolor::Rgb565::new(r, g, b),
    )
}

/// Packs 5/6/5-bit channels into an RGB565 pixel value.
pub fn rgb565(r: u8, g: u8, b: u8) -> (c: u16)
    ensures
        c == pack565(r, g, b),
{
    eg_rgb565(r, g, b)
}

/// Black: every channel zero.
pub fn black() -> (c: u16)
    ensures
        c == 0,
{
    let c = eg_rgb565(0, 0, 0);
    assert(pack565(0, 0, 0) == 0u16) by (bit_vector);
    c
}

/// White: every channel at its maximum.
pub fn white() -> (c: u16)
    ensures
        c == 0xFFFF,
{
    let c = eg_rgb565(31, 63, 31);
    assert(pack565(31, 63, 31) == 0xFFFFu16) by (bit_vector);
    c
}

/// Red channel (5 bits) of a packed pixel.
pub fn red5(c: u16) -> (r: u8)
    ensures
        r == (c >> 11u16) as u8,
        r < 32,
{
    assert((c >> 11u16) < 32) by (bit_vector);
    (c >> 11u16) as u8
}

/// Green channel (6 bits) of a packed pixel.
pub fn green6(c: u16) -> (g: u8)
    ensures
        g == ((c >> 5u16) & 63u16) as u8,
        g < 64,
{
    assert(((c >> 5u16) & 63u16) < 64) by (bit_vector);
    ((c >> 5u16) & 63u16) as u8
}

/// Blue channel (5 bits) of a packed pixel.
pub fn blue5(c: u16) -> (b: u8)
    ensures
        b == (c & 31u16) as u8,
        b < 32,
{
    assert((c & 31u16) < 32) by (bit_vector);
    (c & 31u16) as u8
}

/// Packing channels that fit their widths and reading them back gives the
/// same channels.
pub proof fn lemma_pack_round_trip(r: u8, g: u8, b: u8)
    requires
        r < 32,
        g < 64,
        b < 32,
    ensures
        (pack565(r, g, b) >> 11u16) as u8 == r,
        ((pack565(r, g, b) >> 5u16) & 63u16) as u8 == g,
        (pack565(r, g, b) & 31u16) as u8 == b,
{
    assert(r < 32 && g < 64 && b < 32 ==> ((((((r & 31u8) as u16) << 11u16) | (((g & 63u8) as u16) << 5u16) | ((b & 31u8) as u16)) as u16) >> 11u16) as u8 == r) by (bit_vector);
    assert(r < 32 && g < 64 && b < 32 ==> (((((((r & 31u8) as u16) << 11u16) | (((g & 63u8) as u16) << 5u16) | ((b & 31u8) as u16)) as u16) >> 5u16) & 63u16) as u8 == g) by (bit_vector);
    assert(r < 32 && g < 64 && b < 32 ==> (((((((r & 31u8) as u16) << 11u16) | (((g & 63u8) as u16) << 5u16) | ((b & 31u8) as u16)) as u16)) & 31u16) as u8 == b) by (bit_vector);
}

/// The two bytes of a pixel in the order the controller receives them:
/// high byte first.
pub fn pixel_bytes_be(c: u16) -> (r: (u8, u8))
    ensures
        r.0 == (c >> 8u16) as u8,
        r.1 == (c & 0xFFu16) as u8,
        r.0 as int * 256 + r.1 as int == c as int,
{
    assert((c >> 8u16) as u8 as int * 256 + (c & 0xFFu16) as u8 as int == c as int) by (bit_vector);
    ((c >> 8u16) as u8, (c & 0xFFu16) as u8)
}

/// The RGB565 value of an 8-bit-per-channel color: each channel keeps its
/// top 5, 6 and 5 bits, the rest is dropped.
pub open spec fn truncate888(r: u8, g: u8, b: u8) -> u16 {
    pack565(r >> 3u8, g >> 2u8, b >> 3u8)
}

/// Converts an 8-bit-per-channel color to RGB565 by truncating each channel.
pub fn from_rgb888(r: u8, g: u8, b: u8) -> (c: u16)
    ensures
        c == truncate888(r, g, b),
{
    eg_rgb565(r >> 3u8, g >> 2u8, b >> 3u8)
}

/// Widening a pixel's channels to 8 bits and truncating them back gives the
/// same pixel: no precision beyond 5/6/5 bits is lost or invented.
pub proof fn lemma_truncate_round_trip(r: u8, g: u8, b: u8)
    requires
        r < 32,
        g < 64,
        b < 32,
    ensures
        truncate888((r << 3u8) as u8, (g << 2u8) as u8, (b << 3u8) as u8) == pack565(r, g, b),
{
    assert(r < 32 ==> ((r << 3u8) as u8) >> 3u8 == r) by (bit_vector);
    assert(g < 64 ==> ((g << 2u8) as u8) >> 2u8 == g) by (bit_vector);
    assert(b < 32 ==> ((b << 3u8) as u8) >> 3u8 == b) by (bit_vector);
}

} // verus!
