//! The integer side of text rendering: which characters are drawn and
//! highlighted, which font draws a character, where a pixel sits in the
//! buffer, and how a glyph's coverage blends into it.

use vstd::prelude::*;
use crate::text::{chars_of, control, is_control};

verus! {

/// The characters drawn for `text`, each with its position among all the
/// characters of `text` and whether it is highlighted: control characters
/// are skipped, and a character is highlighted when its position is listed
/// in `highlights`.
pub open spec fn glyph_slots(text: Seq<char>, highlights: Seq<usize>) -> Seq<(usize, char, bool)>
    decreases text.len(),
{
    if text.len() == 0 {
        Seq::empty()
    } else {
        let rest = glyph_slots(text.drop_last(), highlights);
        let i = (text.len() - 1) as usize;
        if is_control(text.last()) {
            rest
        } else {
            rest.push((i, text.last(), highlights.contains(i)))
        }
    }
}

fn contains_index(highlights: &[usize], i: usize) -> (r: bool)
    ensures
        r == highlights@.contains(i),
{
    let mut k: usize = 0;
    while k < highlights.len()
        invariant
            k <= highlights.len(),
            forall|j: int| 0 <= j < k ==> highlights@[j] != i,
        decreases highlights.len() - k,
    {
        if highlights[k] == i {
            return true;
        }
        k = k + 1;
    }
    false
}

/// The characters to draw for `text`, in order, as `glyph_slots` describes.
pub fn glyph_plan(text: &str, highlights: &[usize]) -> (slots: Vec<(usize, char, bool)>)
    ensures
        slots@ == glyph_slots(text@, highlights@),
{
    let chars = chars_of(text);
    let mut slots: Vec<(usize, char, bool)> = Vec::new();
    let mut i: usize = 0;
    while i < chars.len()
        invariant
            i <= chars.len(),
            chars@ == text@,
            slots@ == glyph_slots(chars@.take(i as int), highlights@),
        decreases chars.len() - i,
    {
        let c = chars[i];
        assert(chars@.take(i + 1).drop_last() == chars@.take(i as int));
        if !control(c) {
            let hl = contains_index(highlights, i);
            slots.push((i, c, hl));
        }
        i = i + 1;
    }
    assert(chars@.take(chars.len() as int) == chars@);
    slots
}

/// The first font after the default one that has a glyph for the character
/// (glyph id other than 0), searching from position `from`.
pub open spec fn first_font_with_glyph(ids: Seq<u16>, from: int) -> Option<int>
    decreases ids.len() - from,
{
    if from < 0 || from >= ids.len() {
        None
    } else if ids[from] != 0 {
        Some(from)
    } else {
        first_font_with_glyph(ids, from + 1)
    }
}

/// The font that draws a character, given the glyph id each font has for
/// it: the default font (the first) when it has a glyph, else the first
/// other font that has one, else the default font with its missing glyph.
/// The answer is the font's position and the glyph id.
pub fn pick_font(glyph_ids: &[u16]) -> (choice: (usize, u16))
    requires
        glyph_ids@.len() > 0,
    ensures
        glyph_ids@[0] != 0 ==> choice == (0usize, glyph_ids@[0]),
        glyph_ids@[0] == 0 ==> match first_font_with_glyph(glyph_ids@, 1) {
            Some(k) => choice == (k as usize, glyph_ids@[k]),
            None => choice == (0usize, 0u16),
        },
{
    if glyph_ids[0] != 0 {
        return (0, glyph_ids[0]);
    }
    let mut k: usize = 1;
    while k < glyph_ids.len()
        invariant
            1 <= k <= glyph_ids.len(),
            glyph_ids@[0] == 0,
            first_font_with_glyph(glyph_ids@, 1) == first_font_with_glyph(glyph_ids@, k as int),
        decreases glyph_ids.len() - k,
    {
        if glyph_ids[k] != 0 {
            return (k, glyph_ids[k]);
        }
        k = k + 1;
    }
    (0, glyph_ids[0])
}

/// The byte offset of pixel `(px, py)` in a buffer of 4-byte pixels,
/// `width` pixels to a row, or `None` when the pixel lies outside the
/// `width` × `height` area. Rows at or beyond `i32::MAX` are outside, as
/// the coordinates are `i32`.
pub fn pixel_offset(px: i32, py: i32, width: u32, height: u32) -> (offset: Option<usize>)
    requires
        width * 4 <= i32::MAX,
        width * height * 4 <= usize::MAX,
    ensures
        offset == (if 0 <= px < width && 0 <= py < height && height <= i32::MAX {
            Some(((py * width + px) * 4) as usize)
        } else {
            None
        }),
        offset matches Some(o) ==> o + 4 <= width * height * 4,
{
    if height > 0x7fff_ffff {
        return None;
    }
    if px >= 0 && px < width as i32 && py >= 0 && py < height as i32 {
        let row = py as usize;
        let col = px as usize;
        assert(row * width + col < width * height) by (nonlinear_arith)
            requires
                row < height,
                col < width,
        ;
        assert((row * width + col) * 4 + 4 <= width * height * 4) by (nonlinear_arith)
            requires
                row * width + col < width * height,
        ;
        Some((row * width as usize + col) * 4)
    } else {
        None
    }
}

/// A colour channel of `src` laid over `dst` with opacity `alpha` out of 255.
pub open spec fn blend(src: int, dst: int, alpha: int) -> int {
    (src * alpha + dst * (255 - alpha)) / 255
}

/// One channel blended with `blend`.
pub fn blend_channel(src: u8, dst: u8, alpha: u16) -> (out: u8)
    requires
        alpha <= 255,
    ensures
        out == blend(src as int, dst as int, alpha as int),
{
    let inv = 255 - alpha;
    assert(src * alpha + dst * inv <= 255 * 255) by (nonlinear_arith)
        requires
            src <= 255,
            dst <= 255,
            alpha + inv == 255,
    ;
    ((src as u16 * alpha + dst as u16 * inv) / 255) as u8
}

/// A pixel stored blue, green, red, alpha, with a glyph's colour `(r, g, b)`
/// laid over it at coverage `alpha` out of 255: each colour channel blends
/// with its own component, the alpha channel with full opacity.
pub fn blend_pixel(pixel: (u8, u8, u8, u8), color: (u8, u8, u8), alpha: u16) -> (out: (
    u8,
    u8,
    u8,
    u8,
))
    requires
        alpha <= 255,
    ensures
        out.0 == blend(color.2 as int, pixel.0 as int, alpha as int),
        out.1 == blend(color.1 as int, pixel.1 as int, alpha as int),
        out.2 == blend(color.0 as int, pixel.2 as int, alpha as int),
        out.3 == blend(255, pixel.3 as int, alpha as int),
{
    (
        blend_channel(color.2, pixel.0, alpha),
        blend_channel(color.1, pixel.1, alpha),
        blend_channel(color.0, pixel.2, alpha),
        blend_channel(255, pixel.3, alpha),
    )
}

} // verus!
