//! The pixels that the UI is rendered to, and where a line of them lies.

use vstd::prelude::*;

verus! {

/// A colour whose channels are already multiplied by its alpha.
#[derive(Clone, Copy, Debug, PartialEq, Eq, Structural)]
pub struct PremultipliedColor {
    pub red: u8,
    pub green: u8,
    pub blue: u8,
    pub alpha: u8,
}

/// A pixel in the byte order of the framebuffer.
#[derive(Clone, Copy, Debug, PartialEq, Eq, Structural)]
pub struct Xrgb8888Pixel {
    pub b: u8,
    pub g: u8,
    pub r: u8,
    pub x: u8,
}

impl Default for Xrgb8888Pixel {
    /// The pixel of a fresh buffer.
    fn default() -> (pixel: Xrgb8888Pixel)
        ensures
            pixel == (Xrgb8888Pixel { b: 0, g: 0, r: 0, x: 0 }),
    {
        Xrgb8888Pixel { b: 0, g: 0, r: 0, x: 0 }
    }
}

/// A channel before its sum is divided by 255: the old value by its share, and
/// the colour's own value.
pub open spec fn blend_sum(old_value: u8, added: u8, alpha: u8) -> int {
    old_value * (255 - alpha) + added * 255
}

/// A channel after blending.
pub open spec fn blended(old_value: u8, added: u8, alpha: u8) -> u8 {
    (blend_sum(old_value, added, alpha) / 255 % 256) as u8
}

/// Whether a colour's channels are no larger than its alpha, as in any colour
/// that was multiplied by it.
pub open spec fn premultiplied(color: PremultipliedColor) -> bool {
    color.red <= color.alpha && color.green <= color.alpha && color.blue <= color.alpha
}

/// Whether blending `color` over `pixel` can be computed in 16 bits.
pub open spec fn blendable(pixel: Xrgb8888Pixel, color: PremultipliedColor) -> bool {
    &&& blend_sum(pixel.r, color.red, color.alpha) <= u16::MAX
    &&& blend_sum(pixel.g, color.green, color.alpha) <= u16::MAX
    &&& blend_sum(pixel.b, color.blue, color.alpha) <= u16::MAX
}

fn blend_channel(old_value: u8, added: u8, alpha: u8) -> (value: u8)
    requires
        blend_sum(old_value, added, alpha) <= u16::MAX,
    ensures
        value == blended(old_value, added, alpha),
{
    let inv: u16 = 255 - alpha as u16;
    assert(0 <= old_value * inv <= 255 * 255) by (nonlinear_arith)
        requires
            0 <= old_value <= 255,
            0 <= inv <= 255,
    ;
    let sum: u16 = old_value as u16 * inv + added as u16 * 255;
    let quotient: u16 = sum / 255;
    assert(quotient as u8 == quotient % 256) by (bit_vector);
    quotient as u8
}

impl Xrgb8888Pixel {
    /// Puts `color` over the pixel.
    pub fn blend(&mut self, color: PremultipliedColor)
        requires
            blendable(*old(self), color),
        ensures
            *final(self) == (Xrgb8888Pixel {
                b: blended(old(self).b, color.blue, color.alpha),
                g: blended(old(self).g, color.green, color.alpha),
                r: blended(old(self).r, color.red, color.alpha),
                x: 0xFF,
            }),
    {
        self.r = blend_channel(self.r, color.red, color.alpha);
        self.g = blend_channel(self.g, color.green, color.alpha);
        self.b = blend_channel(self.b, color.blue, color.alpha);
        self.x = 0xFF;
    }

    /// Tells whether blending `color` over the pixel can be computed in 16
    /// bits.
    pub fn can_blend(&self, color: PremultipliedColor) -> (yes: bool)
        ensures
            yes == blendable(*self, color),
    {
        let inv: u32 = 255 - color.alpha as u32;
        assert(0 <= self.r * inv <= 255 * 255 && 0 <= self.g * inv <= 255 * 255 && 0 <= self.b * inv
            <= 255 * 255) by (nonlinear_arith)
            requires
                0 <= self.r <= 255,
                0 <= self.g <= 255,
                0 <= self.b <= 255,
                0 <= inv <= 255,
        ;
        let limit: u32 = u16::MAX as u32;
        self.r as u32 * inv + color.red as u32 * 255 <= limit && self.g as u32 * inv + color.green
            as u32 * 255 <= limit && self.b as u32 * inv + color.blue as u32 * 255 <= limit
    }

    /// An opaque pixel.
    pub fn from_rgb(r: u8, g: u8, b: u8) -> (pixel: Xrgb8888Pixel)
        ensures
            pixel == (Xrgb8888Pixel { b, g, r, x: 0xFF }),
    {
        Xrgb8888Pixel { b, g, r, x: 0xFF }
    }
}

proof fn lemma_channel(old_value: u8, added: u8, alpha: u8)
    requires
        added <= alpha,
    ensures
        blend_sum(old_value, added, alpha) <= 255 * 255,
        blended(old_value, added, alpha) == old_value * (255 - alpha) / 255 + added,
        old_value * (255 - alpha) / 255 + added <= 255,
{
    let kept = old_value * (255 - alpha);
    assert(0 <= kept <= 255 * (255 - alpha)) by (nonlinear_arith)
        requires
            0 <= old_value <= 255,
            0 <= alpha <= 255,
            kept == old_value * (255 - alpha),
    ;
    assert((kept + added * 255) / 255 == kept / 255 + added);
}

/// Any premultiplied colour can be blended, and each channel becomes the share
/// of the old value that shows through, rounded down, plus the colour's own
/// value, without wrapping around.
pub proof fn premultiplied_colours_blend_without_overflow(
    pixel: Xrgb8888Pixel,
    color: PremultipliedColor,
)
    requires
        premultiplied(color),
    ensures
        blendable(pixel, color),
        blended(pixel.r, color.red, color.alpha) == pixel.r * (255 - color.alpha) / 255 + color.red,
        blended(pixel.g, color.green, color.alpha) == pixel.g * (255 - color.alpha) / 255
            + color.green,
        blended(pixel.b, color.blue, color.alpha) == pixel.b * (255 - color.alpha) / 255
            + color.blue,
{
    lemma_channel(pixel.r, color.red, color.alpha);
    lemma_channel(pixel.g, color.green, color.alpha);
    lemma_channel(pixel.b, color.blue, color.alpha);
}

/// An opaque colour replaces what was there.
pub proof fn opaque_colour_replaces(old_value: u8, added: u8)
    ensures
        blended(old_value, added, 255) == added,
{
    assert(blend_sum(old_value, added, 255) == added * 255) by {
        assert(old_value * (255 - 255u8) == 0) by (nonlinear_arith);
    }
}

/// A colour that is fully transparent leaves what was there.
pub proof fn transparent_colour_changes_nothing(old_value: u8)
    ensures
        blended(old_value, 0, 0) == old_value,
{
}

/// Byte `i` of a pixel in memory.
pub open spec fn pixel_byte(pixel: Xrgb8888Pixel, i: int) -> u8 {
    if i == 0 {
        pixel.b
    } else if i == 1 {
        pixel.g
    } else if i == 2 {
        pixel.r
    } else {
        pixel.x
    }
}

/// The bytes of a frame: four to the pixel.
pub open spec fn frame_bytes(pixels: Seq<Xrgb8888Pixel>) -> Seq<u8> {
    Seq::new(4 * pixels.len(), |i: int| pixel_byte(pixels[i / 4], i % 4))
}

/// Lays a frame out in bytes, to import it as a texture.
pub fn to_bytes(pixels: &Vec<Xrgb8888Pixel>) -> (bytes: Vec<u8>)
    ensures
        bytes@ == frame_bytes(pixels@),
        bytes@.len() == 4 * pixels@.len(),
        forall|i: int|
            0 <= i < pixels@.len() ==> {
                &&& bytes@[4 * i] == (#[trigger] pixels@[i]).b
                &&& bytes@[4 * i + 1] == pixels@[i].g
                &&& bytes@[4 * i + 2] == pixels@[i].r
                &&& bytes@[4 * i + 3] == pixels@[i].x
            },
{
    let mut bytes: Vec<u8> = Vec::new();
    let mut i: usize = 0;
    while i < pixels.len()
        invariant
            i <= pixels@.len(),
            bytes@ == frame_bytes(pixels@.take(i as int)),
        decreases pixels@.len() - i,
    {
        let p = pixels[i];
        let ghost before = bytes@;
        bytes.push(p.b);
        bytes.push(p.g);
        bytes.push(p.r);
        bytes.push(p.x);
        proof {
            let done = frame_bytes(pixels@.take(i + 1));
            assert forall|k: int| 0 <= k < done.len() implies bytes@[k] == #[trigger] done[k] by {
                if k < 4 * i {
                    assert(before[k] == frame_bytes(pixels@.take(i as int))[k]);
                }
            }
            assert(bytes@ =~= done);
        }
        i += 1;
    }
    proof {
        assert(pixels@.take(pixels@.len() as int) == pixels@);
    }
    bytes
}

// ---------------------------------------------------------------------------
// Lines
// ---------------------------------------------------------------------------

/// Part of a buffer, from `start` up to but without `end`.
#[derive(Clone, Copy, Debug, PartialEq, Eq, Structural)]
pub struct Span {
    pub start: usize,
    pub end: usize,
}

/// Where columns `start..end` of a line lie in a buffer of `len` pixels with
/// `stride` pixels to the line; nowhere where the buffer ends before.
pub open spec fn line_part(line: int, stride: int, start: int, end: int, len: int) -> Option<(
    int,
    int,
)> {
    if line * stride + end <= len {
        Some((line * stride + start, line * stride + end))
    } else {
        None
    }
}

/// Finds where columns `start..end` of a line lie in the buffer.
pub fn process_line(line: usize, stride: usize, start: usize, end: usize, len: usize) -> (span:
    Option<Span>)
    requires
        line * stride + start <= usize::MAX,
        line * stride + end <= usize::MAX,
        line * stride + end <= len ==> start <= end,
    ensures
        span is Some == line_part(
            line as int,
            stride as int,
            start as int,
            end as int,
            len as int,
        ) is Some,
        span matches Some(s) ==> line_part(
            line as int,
            stride as int,
            start as int,
            end as int,
            len as int,
        ) == Some((s.start as int, s.end as int)),
        span is Some <==> line * stride + end <= len,
        span matches Some(s) ==> s.start == line * stride + start && s.end == line * stride + end,
{
    assert(line * stride >= 0) by (nonlinear_arith)
        requires
            line >= 0,
            stride >= 0,
    ;
    let first: usize = line * stride;
    let from: usize = first + start;
    let to: usize = first + end;
    if to <= len {
        Some(Span { start: from, end: to })
    } else {
        None
    }
}

/// Every line of a full buffer is found, and two lines never share a pixel.
pub proof fn lines_of_a_full_buffer_are_disjoint(
    line: int,
    other: int,
    stride: int,
    height: int,
    start: int,
    end: int,
)
    requires
        0 <= line < other < height,
        0 <= start <= end <= stride,
    ensures
        line_part(line, stride, start, end, stride * height) is Some,
        line_part(other, stride, start, end, stride * height) is Some,
        (line_part(line, stride, 0, stride, stride * height)->0).1 <= (line_part(
            other,
            stride,
            0,
            stride,
            stride * height,
        )->0).0,
{
    assert(line * stride + stride <= other * stride) by (nonlinear_arith)
        requires
            line < other,
            stride >= 0,
    ;
    assert(other * stride + stride <= stride * height) by (nonlinear_arith)
        requires
            other < height,
            stride >= 0,
    ;
}

// ---------------------------------------------------------------------------
// Pixels in plain numbers
// ---------------------------------------------------------------------------

/// A channel after blending is the largest number whose 255-fold is no more than
/// the old value times what shows through plus 255 times the added one, as long
/// as that number fits in a byte.
pub proof fn blending_divides_by_255_and_rounds_down(old_value: u8, added: u8, alpha: u8)
    ensures
        ({
            let sum = old_value * (255 - alpha) + added * 255;
            sum < 256 * 255 ==> blended(old_value, added, alpha) * 255 <= sum < (blended(
                old_value,
                added,
                alpha,
            ) + 1) * 255
        }),
{
    assert(old_value * (255 - alpha) >= 0) by (nonlinear_arith)
        requires
            0 <= old_value,
            0 <= alpha <= 255,
    ;
}

/// A colour can be blended exactly when none of the three sums is above 65535.
pub proof fn blendable_sums_fit_in_16_bits(pixel: Xrgb8888Pixel, color: PremultipliedColor)
    ensures
        blendable(pixel, color) <==> {
            &&& pixel.r * (255 - color.alpha) + color.red * 255 <= 65535
            &&& pixel.g * (255 - color.alpha) + color.green * 255 <= 65535
            &&& pixel.b * (255 - color.alpha) + color.blue * 255 <= 65535
        },
{
}

/// A frame has four bytes to the pixel: blue, green, red, and the unused one.
pub proof fn frame_is_four_bytes_to_the_pixel(pixels: Seq<Xrgb8888Pixel>, i: int)
    requires
        0 <= i < pixels.len(),
    ensures
        frame_bytes(pixels).len() == 4 * pixels.len(),
        frame_bytes(pixels)[4 * i] == pixels[i].b,
        frame_bytes(pixels)[4 * i + 1] == pixels[i].g,
        frame_bytes(pixels)[4 * i + 2] == pixels[i].r,
        frame_bytes(pixels)[4 * i + 3] == pixels[i].x,
{
}

} // verus!
