//! Bitmap fonts: placing glyphs in a texture atlas, and measuring text.
use vstd::prelude::*;
use vstd::arithmetic::power2::pow2;

use crate::modplay::model::div_trunc;

verus! {

/// The first character a font renders (space).
pub const MIN_CHAR: usize = 0x20;
/// The last character a font renders (tilde).
pub const MAX_CHAR: usize = 0x7E;
/// The number of characters a font renders.
pub const CHAR_NUM: usize = 95;
/// The widest an atlas row gets before glyphs wrap to the next row.
pub const ATLAS_ROW: u32 = 512;

/// How a string is placed relative to its x coordinate.
#[derive(Debug, Copy, Clone, PartialEq, Eq, Structural)]
pub enum HorizAlign {
    Left,
    Center,
    Right,
}

/// Where the glyphs go in an atlas texture, and how big the texture is.
pub struct AtlasLayout {
    pub tex_w: u32,
    pub tex_h: u32,
    /// The top-left corner of each glyph in the atlas; glyphs without an outline sit at (0, 0).
    pub positions: Vec<(u32, u32)>,
}

/// Packing the first `k` glyphs (width and height of those with an outline) in rows of at most
/// 512 pixels: whether a row was ever full, the next x in the current row, the current row's
/// height, the current row's y, and the position of each glyph.
pub open spec fn pack(boxes: Seq<Option<(u32, u32)>>, k: nat) -> (bool, int, int, int, Seq<(u32, u32)>)
    decreases k,
{
    if k == 0 {
        (false, 0, 0, 0, seq![])
    } else {
        let (full, x, rh, y, pos) = pack(boxes, (k - 1) as nat);
        match boxes[k - 1] {
            None => (full, x, rh, y, pos.push((0u32, 0u32))),
            Some((cw, ch)) => {
                let wraps = x + cw > ATLAS_ROW;
                let x1 = if wraps { 0 } else { x };
                let y1 = if wraps { y + rh } else { y };
                let rh1 = if wraps { 0 } else { rh };
                (full || wraps, x1 + cw, if rh1 > ch { rh1 } else { ch as int }, y1, pos.push((x1 as u32, y1 as u32)))
            },
        }
    }
}

/// `p` is the power of two just above `v`: the one that `2^(floor(log2 v) + 1)` gives.
pub open spec fn is_pow2_above(p: int, v: int) -> bool {
    &&& exists|e: nat| p == pow2(e)
    &&& v < p <= 2 * v
}

/// The smallest power of two greater than `v`.
fn pow2_above(v: u32) -> (p: u32)
    requires
        1 <= v < 0x8000_0000,
    ensures
        is_pow2_above(p as int, v as int),
{
    let mut p: u32 = 1;
    let ghost mut e: nat = 0;
    proof {
        vstd::arithmetic::power2::lemma2_to64();
    }
    while p <= v
        invariant
            p as int == pow2(e),
            1 <= p,
            p <= 2 * v,
            p / 2 <= v,
            v < 0x8000_0000,
        decreases 2 * v - p,
    {
        proof {
            vstd::arithmetic::power2::lemma_pow2_unfold(e + 1);
        }
        p = p * 2;
        proof {
            e = e + 1;
        }
    }
    p
}

/// Lays glyphs out in an atlas: rows of at most 512 pixels, each glyph right of the one before
/// unless it would pass the row's end; the texture is 512 wide when a row ever filled, else the
/// power of two above the width used; its height is the power of two above the rows' heights.
pub fn atlas_layout(boxes: &[Option<(u32, u32)>]) -> (r: AtlasLayout)
    requires
        boxes@.len() <= 128,
        forall|k: int| 0 <= k < boxes@.len() ==> (#[trigger] boxes@[k] matches Some((w, h)) ==> w < 0x80_0000 && h < 0x80_0000),
        exists|k: int| 0 <= k < boxes@.len() && (#[trigger] boxes@[k] matches Some((w, h)) && w > 0),
        exists|k: int| 0 <= k < boxes@.len() && (#[trigger] boxes@[k] matches Some((w, h)) && h > 0),
    ensures
        r.positions@ == pack(boxes@, boxes@.len()).4,
        pack(boxes@, boxes@.len()).0 ==> r.tex_w == 512,
        !pack(boxes@, boxes@.len()).0 ==> is_pow2_above(r.tex_w as int, pack(boxes@, boxes@.len()).1),
        is_pow2_above(r.tex_h as int, pack(boxes@, boxes@.len()).3 + pack(boxes@, boxes@.len()).2),
{
    let n = boxes.len();
    let mut overflow = false;
    let mut base_x: u32 = 0;
    let mut curr_y: u32 = 0;
    let mut base_y: u32 = 0;
    let mut positions: Vec<(u32, u32)> = Vec::new();
    let mut k: usize = 0;
    while k < n
        invariant
            n == boxes@.len(),
            n <= 128,
            k <= n,
            forall|j: int| 0 <= j < boxes@.len() ==> (#[trigger] boxes@[j] matches Some((w, h)) ==> w < 0x80_0000 && h < 0x80_0000),
            pack(boxes@, k as nat) == (overflow, base_x as int, curr_y as int, base_y as int, positions@),
            base_x <= 0x80_0000 * k,
            curr_y < 0x80_0000,
            base_y <= 0x80_0000 * k,
        decreases n - k,
    {
        match boxes[k] {
            None => {
                positions.push((0, 0));
            },
            Some((cw, ch)) => {
                if base_x + cw > ATLAS_ROW {
                    overflow = true;
                    base_x = 0;
                    base_y = base_y + curr_y;
                    curr_y = 0;
                }
                positions.push((base_x, base_y));
                base_x = base_x + cw;
                curr_y = if curr_y > ch { curr_y } else { ch };
            },
        }
        k = k + 1;
    }
    proof {
        lemma_pack_nonempty(boxes@, n as nat);
    }
    let total_h = base_y + curr_y;
    let tex_w = if overflow { ATLAS_ROW } else { pow2_above(base_x) };
    let tex_h = pow2_above(total_h);
    AtlasLayout { tex_w, tex_h, positions }
}

/// A glyph of a rendered font: where it sits in the atlas and how big it is there, how far it
/// is drawn from the pen, and how far it moves the pen.
#[derive(Debug, Copy, Clone, PartialEq, Eq, Structural)]
pub struct Glyph {
    pub tex_x: u32,
    pub tex_y: u32,
    pub tex_w: u32,
    pub x_off: i32,
    pub y_off: i32,
    pub w: u32,
    pub h: u32,
}

/// The glyphs of the characters from space to tilde, in a `heapless::Vec` of `CHAR_NUM` places.
#[verifier::external_body]
pub struct GlyphMap {
    map: heapless::Vec<Glyph, CHAR_NUM>,
}

/// The glyphs a glyph map holds, in order.
pub uninterp spec fn glyph_map_items(m: GlyphMap) -> Seq<Glyph>;

/// `heapless::Vec::new`: a glyph map that holds nothing.
#[verifier::external_body]
fn empty_glyph_map() -> (r: GlyphMap)
    ensures
        glyph_map_items(r) == Seq::<Glyph>::empty(),
{
    GlyphMap { map: heapless::Vec::new() }
}

/// `heapless::Vec::push`: appends the glyph when fewer than `CHAR_NUM` are held, else leaves the
/// map as it was; returns whether it appended.
#[verifier::external_body]
fn push_glyph(m: &mut GlyphMap, g: Glyph) -> (ok: bool)
    ensures
        ok == (glyph_map_items(*old(m)).len() < CHAR_NUM),
        glyph_map_items(*final(m)) == (if ok {
            glyph_map_items(*old(m)).push(g)
        } else {
            glyph_map_items(*old(m))
        }),
{
    m.map.push(g).is_ok()
}

/// `heapless::Vec::as_slice`: the glyphs held, in order.
#[verifier::external_body]
fn glyph_slice(m: &GlyphMap) -> (r: &[Glyph])
    ensures
        r@ == glyph_map_items(*m),
{
    m.map.as_slice()
}

/// A font rendered at one scale: its atlas texture (where it lies in video memory and its size)
/// and its glyphs.
pub struct RenderedScale {
    pub scale: u32,
    pub texture: usize,
    pub tex_w: u32,
    pub tex_h: u32,
    pub glyphs: GlyphMap,
}

/// A rendered scale as plain values: scale, texture, texture width and height, glyphs.
pub open spec fn scale_view(r: RenderedScale) -> (u32, usize, u32, u32, Seq<Glyph>) {
    (r.scale, r.texture, r.tex_w, r.tex_h, glyph_map_items(r.glyphs))
}

impl RenderedScale {
    /// A rendered scale holding the glyphs given, up to the first `CHAR_NUM`.
    pub fn new(scale: u32, texture: usize, tex_w: u32, tex_h: u32, glyphs: &[Glyph]) -> (r: RenderedScale)
        ensures
            scale_view(r) == (scale, texture, tex_w, tex_h, glyphs@.take(
                if glyphs@.len() < CHAR_NUM { glyphs@.len() as int } else { CHAR_NUM as int },
            )),
    {
        let mut map = empty_glyph_map();
        let mut k: usize = 0;
        while k < glyphs.len()
            invariant
                k <= glyphs@.len(),
                glyph_map_items(map) == glyphs@.take(if k < CHAR_NUM { k as int } else { CHAR_NUM as int }),
            decreases glyphs@.len() - k,
        {
            let _ = push_glyph(&mut map, glyphs[k]);
            k = k + 1;
            assert(glyph_map_items(map) =~= glyphs@.take(if k < CHAR_NUM { k as int } else { CHAR_NUM as int }));
        }
        RenderedScale { scale, texture, tex_w, tex_h, glyphs: map }
    }
}

/// The rendered scales of a font, in a `heapless::Vec` of `FONT_SCALES` places.
#[verifier::external_body]
pub struct RenderedFonts {
    fonts: heapless::Vec<RenderedScale, FONT_SCALES>,
}

/// The most scales a font is rendered at.
pub const FONT_SCALES: usize = 3;

/// The rendered scales held, in the order they were registered, as plain values.
pub uninterp spec fn rendered_items(f: RenderedFonts) -> Seq<(u32, usize, u32, u32, Seq<Glyph>)>;

/// `heapless::Vec::new`: no scale rendered yet.
#[verifier::external_body]
fn empty_fonts() -> (r: RenderedFonts)
    ensures
        rendered_items(r) == Seq::<(u32, usize, u32, u32, Seq<Glyph>)>::empty(),
{
    RenderedFonts { fonts: heapless::Vec::new() }
}

/// `heapless::Vec::push`: appends the scale when fewer than `FONT_SCALES` are held, else leaves
/// the list as it was; returns whether it appended.
#[verifier::external_body]
fn push_scale(f: &mut RenderedFonts, s: RenderedScale) -> (ok: bool)
    ensures
        ok == (rendered_items(*old(f)).len() < FONT_SCALES),
        rendered_items(*final(f)) == (if ok {
            rendered_items(*old(f)).push(scale_view(s))
        } else {
            rendered_items(*old(f))
        }),
{
    f.fonts.push(s).is_ok()
}

/// `heapless::Vec::as_slice`: the scales held, in order.
#[verifier::external_body]
fn scale_slice(f: &RenderedFonts) -> (r: &[RenderedScale])
    ensures
        r@.len() == rendered_items(*f).len(),
        forall|i: int| 0 <= i < r@.len() ==> scale_view(#[trigger] r@[i]) == rendered_items(*f)[i],
{
    f.fonts.as_slice()
}

/// The index of the first scale equal to `scale`, searching from `k` on.
pub open spec fn find_scale(items: Seq<(u32, usize, u32, u32, Seq<Glyph>)>, scale: u32, k: int) -> Option<int>
    decreases items.len() - k,
{
    if k < 0 || k >= items.len() {
        None
    } else if items[k].0 == scale {
        Some(k)
    } else {
        find_scale(items, scale, k + 1)
    }
}

/// The glyph of a character at a scale: in the first rendering of that scale, the glyph at the
/// character's distance from space; none when no rendering has the scale, or the character is
/// below space or past the glyphs held.
pub open spec fn glyph_at(items: Seq<(u32, usize, u32, u32, Seq<Glyph>)>, c: char, scale: u32) -> Option<(int, Glyph)> {
    match find_scale(items, scale, 0) {
        None => None,
        Some(t) => {
            let idx = c as int - MIN_CHAR;
            if idx < 0 || idx >= items[t].4.len() { None } else { Some((t, items[t].4[idx])) }
        },
    }
}

/// The advance of a character at a scale: that of its glyph, or zero when it has none.
pub open spec fn char_width(items: Seq<(u32, usize, u32, u32, Seq<Glyph>)>, c: char, scale: u32) -> i32 {
    match glyph_at(items, c, scale) {
        None => 0,
        Some((_, g)) => g.w as i32,
    }
}

/// The widths of the first `k` characters of a string, summed modulo 2^32.
pub open spec fn string_width(items: Seq<(u32, usize, u32, u32, Seq<Glyph>)>, s: Seq<char>, scale: u32, k: nat) -> i32
    decreases k,
{
    if k == 0 {
        0
    } else {
        string_width(items, s, scale, (k - 1) as nat).wrapping_add(char_width(items, s[k - 1], scale))
    }
}

impl RenderedFonts {
    /// A font not yet rendered at any scale.
    pub fn new() -> (r: RenderedFonts)
        ensures
            rendered_items(r).len() == 0,
    {
        empty_fonts()
    }

    /// Adds a rendering of the font; dropped when `FONT_SCALES` are held already.
    pub fn register_scale(&mut self, rendered: RenderedScale)
        ensures
            rendered_items(*final(self)) == (if rendered_items(*old(self)).len() < FONT_SCALES {
                rendered_items(*old(self)).push(scale_view(rendered))
            } else {
                rendered_items(*old(self))
            }),
    {
        let _ = push_scale(self, rendered);
    }

    /// The glyph of a character at a scale, with the rendering it belongs to (see `glyph_at`).
    pub fn find_glyph(&self, c: char, scale: u32) -> (r: Option<(&RenderedScale, Glyph)>)
        ensures
            match glyph_at(rendered_items(*self), c, scale) {
                None => r is None,
                Some((t, g)) => r matches Some((f, h)) && h == g && scale_view(*f) == rendered_items(*self)[t],
            },
    {
        let fonts = scale_slice(self);
        let ghost items = rendered_items(*self);
        let mut k: usize = 0;
        while k < fonts.len()
            invariant
                k <= fonts@.len(),
                fonts@.len() == items.len(),
                items == rendered_items(*self),
                forall|i: int| 0 <= i < fonts@.len() ==> scale_view(#[trigger] fonts@[i]) == items[i],
                find_scale(items, scale, 0) == find_scale(items, scale, k as int),
            decreases fonts@.len() - k,
        {
            let font = &fonts[k];
            assert(scale_view(fonts@[k as int]) == items[k as int]);
            if font.scale == scale {
                let code = c as usize;
                if code < MIN_CHAR {
                    return None;
                }
                let idx = code - MIN_CHAR;
                let glyphs = glyph_slice(&font.glyphs);
                if idx >= glyphs.len() {
                    return None;
                }
                return Some((font, glyphs[idx]));
            }
            k = k + 1;
        }
        None
    }

    /// The advance of a character at a scale (see `char_width`).
    pub fn calculate_char_width(&self, c: char, scale: u32) -> (r: i32)
        ensures
            r == char_width(rendered_items(*self), c, scale),
    {
        match self.find_glyph(c, scale) {
            None => 0,
            Some((_, g)) => g.w as i32,
        }
    }

    /// The width of a string at a scale: the sum of its characters' advances, modulo 2^32.
    pub fn calculate_string_width(&self, s: &[char], scale: u32) -> (r: i32)
        ensures
            r == string_width(rendered_items(*self), s@, scale, s@.len()),
    {
        let mut total: i32 = 0;
        let mut k: usize = 0;
        while k < s.len()
            invariant
                k <= s@.len(),
                total == string_width(rendered_items(*self), s@, scale, k as nat),
            decreases s@.len() - k,
        {
            total = total.wrapping_add(self.calculate_char_width(s[k], scale));
            k = k + 1;
        }
        total
    }
}

/// The x where a string of the given width starts: at `x`, half its width left of `x`, or its
/// full width left of `x` (modulo 2^32).
pub fn aligned_x(x: i32, width: i32, align: HorizAlign) -> (r: i32)
    ensures
        r == match align {
            HorizAlign::Left => x,
            HorizAlign::Center => x.wrapping_sub(div_trunc(width as int, 2) as i32),
            HorizAlign::Right => x.wrapping_sub(width),
        },
{
    match align {
        HorizAlign::Left => x,
        HorizAlign::Center => x.wrapping_sub(width / 2),
        HorizAlign::Right => x.wrapping_sub(width),
    }
}


/// A glyph with some width makes the packing wide (or full), and one with some height makes it
/// tall.
proof fn lemma_pack_nonempty(boxes: Seq<Option<(u32, u32)>>, k: nat)
    requires
        k <= boxes.len(),
    ensures
        pack(boxes, k).2 >= 0,
        pack(boxes, k).3 >= 0,
        pack(boxes, k).1 >= 0,
        (exists|j: int| 0 <= j < k && (#[trigger] boxes[j] matches Some((w, h)) && w > 0)) ==> pack(boxes, k).0
            || pack(boxes, k).1 > 0,
        (exists|j: int| 0 <= j < k && (#[trigger] boxes[j] matches Some((w, h)) && h > 0)) ==> pack(boxes, k).3
            + pack(boxes, k).2 > 0,
    decreases k,
{
    if k > 0 {
        lemma_pack_nonempty(boxes, (k - 1) as nat);
        if exists|j: int| 0 <= j < k && (#[trigger] boxes[j] matches Some((w, h)) && w > 0) {
            let j = choose|j: int| 0 <= j < k && (#[trigger] boxes[j] matches Some((w, h)) && w > 0);
            if j < k - 1 {
                assert(exists|j: int| 0 <= j < k - 1 && (#[trigger] boxes[j] matches Some((w, h)) && w > 0));
            }
        }
        if exists|j: int| 0 <= j < k && (#[trigger] boxes[j] matches Some((w, h)) && h > 0) {
            let j = choose|j: int| 0 <= j < k && (#[trigger] boxes[j] matches Some((w, h)) && h > 0);
            if j < k - 1 {
                assert(exists|j: int| 0 <= j < k - 1 && (#[trigger] boxes[j] matches Some((w, h)) && h > 0));
            }
        }
    }
}

/// While no glyph is wider than a row, every packed glyph lies left of the row's end (512 once
/// a row was full, else the current x) and above the bottom of the current row.
proof fn lemma_pack_bounds(boxes: Seq<Option<(u32, u32)>>, k: nat)
    requires
        k <= boxes.len(),
        forall|j: int| 0 <= j < boxes.len() ==> (#[trigger] boxes[j] matches Some((w, h)) ==> w <= ATLAS_ROW),
    ensures
        0 <= pack(boxes, k).1 <= ATLAS_ROW,
        0 <= pack(boxes, k).2,
        0 <= pack(boxes, k).3,
        pack(boxes, k).4.len() == k,
        forall|j: int| 0 <= j < k ==> (#[trigger] boxes[j] matches Some((w, h)) ==> {
            &&& pack(boxes, k).4[j].0 + w <= (if pack(boxes, k).0 { ATLAS_ROW as int } else { pack(boxes, k).1 })
            &&& pack(boxes, k).4[j].1 + h <= pack(boxes, k).3 + pack(boxes, k).2
        }),
    decreases k,
{
    if k > 0 {
        lemma_pack_bounds(boxes, (k - 1) as nat);
        let (full, x, rh, y, pos) = pack(boxes, (k - 1) as nat);
        let p = pack(boxes, k);
        assert forall|j: int| 0 <= j < k implies (#[trigger] boxes[j] matches Some((w, h)) ==> {
            &&& p.4[j].0 + w <= (if p.0 { ATLAS_ROW as int } else { p.1 })
            &&& p.4[j].1 + h <= p.3 + p.2
        }) by {
            if j < k - 1 {
                assert(p.4[j] == pos[j]);
            }
        }
    }
}

/// Every glyph (none wider than a row) lies within the atlas texture, so drawing it writes
/// only inside the texture.
pub proof fn lemma_atlas_fits(boxes: Seq<Option<(u32, u32)>>, tex_w: int, tex_h: int, j: int)
    requires
        forall|k: int| 0 <= k < boxes.len() ==> (#[trigger] boxes[k] matches Some((w, h)) ==> w <= ATLAS_ROW),
        0 <= j < boxes.len(),
        pack(boxes, boxes.len()).0 ==> tex_w == 512,
        !pack(boxes, boxes.len()).0 ==> is_pow2_above(tex_w, pack(boxes, boxes.len()).1),
        is_pow2_above(tex_h, pack(boxes, boxes.len()).3 + pack(boxes, boxes.len()).2),
    ensures
        boxes[j] matches Some((w, h)) ==> {
            &&& pack(boxes, boxes.len()).4[j].0 + w <= tex_w
            &&& pack(boxes, boxes.len()).4[j].1 + h <= tex_h
        },
{
    lemma_pack_bounds(boxes, boxes.len());
}

/// The width of a string is the sum of the widths of its characters: splitting a string
/// splits its width (modulo 2^32).
pub proof fn lemma_string_width_extends(items: Seq<(u32, usize, u32, u32, Seq<Glyph>)>, s: Seq<char>, c: char, scale: u32)
    ensures
        string_width(items, s.push(c), scale, s.len() + 1)
            == string_width(items, s, scale, s.len()).wrapping_add(char_width(items, c, scale)),
{
    assert(s.push(c).subrange(0, s.len() as int) =~= s);
    lemma_width_prefix(items, s.push(c), s, scale, s.len());
}

proof fn lemma_width_prefix(items: Seq<(u32, usize, u32, u32, Seq<Glyph>)>, s: Seq<char>, t: Seq<char>, scale: u32, k: nat)
    requires
        k <= s.len(),
        k <= t.len(),
        forall|i: int| 0 <= i < k ==> s[i] == t[i],
    ensures
        string_width(items, s, scale, k) == string_width(items, t, scale, k),
    decreases k,
{
    if k > 0 {
        lemma_width_prefix(items, s, t, scale, (k - 1) as nat);
    }
}

} // verus!
