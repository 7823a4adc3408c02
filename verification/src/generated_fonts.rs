//! Native font handles for the generated engine, resolved through a [`FontSystem`].
//!
//! The engine names a font by its XeTeX `\font` spec (`[file]:features`) as Unicode scalar
//! values and refers to it afterwards by a handle. Handles count up from 1; a restored table
//! keeps its handles and moves the counter past them. Shaped native text is measured from
//! the font system's glyphs, placed along a saturating cursor.
use vstd::prelude::*;

use crate::font::{
    face_glyph_by_name, face_glyph_count, face_glyph_index, face_has_math, face_math_kern, face_parse_error,
    font_result, math_kern_heights_fit, layout_feature_count, layout_feature_tag, layout_language_count, layout_language_tag,
    layout_script_count, layout_script_tag,
    MathKernCorner, FontData, FontDataModel, FontError, FontMetrics, FontQuery, FontSystem, ShapeFeature,
    ShapeRequest, ShapedText,
};
use crate::ir::{ByteSpan, Direction, GlyphId, Length, PositionedGlyph};
use crate::seqs::{find_first, lemma_first_index, lemma_first_index_is};
use crate::shaping::{parse_spec_shaping, shaping_model, spec_shaping, ShapingModel};
use crate::text::push_char;
use vstd::utf8::*;

verus! {

/// `char::from_u32`: the character with a code point, if the value is a Unicode scalar.
#[verifier::external_body]
fn char_from_u32(u: u32) -> (r: Option<char>)
    ensures
        r is Some <==> is_scalar(u),
        r matches Some(c) ==> c as u32 == u,
{
    char::from_u32(u)
}

/// The character an engine code point names, U+FFFD for a value that is no Unicode scalar.
pub open spec fn scalar_char(cp: i32) -> char {
    if cp >= 0 && is_scalar(cp as u32) {
        (cp as u32) as char
    } else {
        '\u{FFFD}'
    }
}

/// The text of a sequence of engine code points.
pub open spec fn scalars_text(name: Seq<i32>) -> Seq<char> {
    name.map_values(|cp: i32| scalar_char(cp))
}

/// Converts engine code points to a string, replacing values that are no Unicode scalar.
pub fn unicode_scalars_to_string(name: &[i32]) -> (r: String)
    ensures
        r@ == scalars_text(name@),
{
    let mut out = String::new();
    let mut i: usize = 0;
    while i < name.len()
        invariant
            0 <= i <= name@.len(),
            out@ == scalars_text(name@).take(i as int),
        decreases name@.len() - i,
    {
        let cp = name[i];
        let c = if cp >= 0 {
            match char_from_u32(cp as u32) {
                Some(c) => c,
                None => '\u{FFFD}',
            }
        } else {
            '\u{FFFD}'
        };
        proof {
            if cp >= 0 && is_scalar(cp as u32) {
                char_u32_cast(c, cp as u32);
            }
        }
        assert(c == scalar_char(cp));
        push_char(&mut out, c);
        assert(out@ =~= scalars_text(name@).take(i + 1));
        i += 1;
    }
    assert(scalars_text(name@).take(name@.len() as int) =~= scalars_text(name@));
    out
}

/// A UTF-16 surrogate unit.
pub open spec fn is_surrogate(u: u16) -> bool {
    0xd800 <= u <= 0xdfff
}

/// A leading (high) surrogate.
pub open spec fn is_high_surrogate(u: u16) -> bool {
    0xd800 <= u <= 0xdbff
}

/// A trailing (low) surrogate.
pub open spec fn is_low_surrogate(u: u16) -> bool {
    0xdc00 <= u <= 0xdfff
}

/// The code point of a surrogate pair.
pub open spec fn pair_code(hi: u16, lo: u16) -> u32 {
    (0x10000 + (hi - 0xd800) * 0x400 + (lo - 0xdc00)) as u32
}

/// UTF-16 decoding from unit `i` on, as `char::decode_utf16` does with each unpaired
/// surrogate replaced by U+FFFD.
pub open spec fn utf16_from(u: Seq<u16>, i: int) -> Seq<char>
    decreases u.len() - i,
{
    if i < 0 || i >= u.len() {
        Seq::empty()
    } else if !is_surrogate(u[i]) {
        seq![(u[i] as u32) as char] + utf16_from(u, i + 1)
    } else if is_high_surrogate(u[i]) && i + 1 < u.len() && is_low_surrogate(u[i + 1]) {
        seq![pair_code(u[i], u[i + 1]) as char] + utf16_from(u, i + 2)
    } else {
        seq!['\u{FFFD}'] + utf16_from(u, i + 1)
    }
}

/// Decodes UTF-16 text, replacing unpaired surrogates with U+FFFD.
pub fn utf16_to_string(text: &[u16]) -> (r: String)
    ensures
        r@ == utf16_from(text@, 0),
{
    let mut out = String::new();
    let mut i: usize = 0;
    while i < text.len()
        invariant
            0 <= i <= text@.len(),
            out@ + utf16_from(text@, i as int) == utf16_from(text@, 0),
        decreases text@.len() - i,
    {
        let unit = text[i];
        let ghost before = out@;
        if unit < 0xd800 || unit > 0xdfff {
            let c = match char_from_u32(unit as u32) {
                Some(c) => c,
                None => '\u{FFFD}',
            };
            proof {
                char_u32_cast(c, unit as u32);
            }
            push_char(&mut out, c);
            assert(out@ + utf16_from(text@, i + 1) =~= before + utf16_from(text@, i as int));
            i += 1;
        } else if unit <= 0xdbff && i + 1 < text.len() && text[i + 1] >= 0xdc00 && text[i + 1] <= 0xdfff {
            let lo = text[i + 1];
            let code: u32 = 0x10000 + ((unit - 0xd800) as u32) * 0x400 + ((lo - 0xdc00) as u32);
            assert(code == pair_code(unit, lo));
            let c = match char_from_u32(code) {
                Some(c) => c,
                None => '\u{FFFD}',
            };
            proof {
                char_u32_cast(c, code);
            }
            push_char(&mut out, c);
            assert(out@ + utf16_from(text@, i + 2) =~= before + utf16_from(text@, i as int));
            i += 2;
        } else {
            push_char(&mut out, '\u{FFFD}');
            assert(out@ + utf16_from(text@, i + 1) =~= before + utf16_from(text@, i as int));
            i += 1;
        }
    }
    assert(out@ + utf16_from(text@, i as int) =~= out@);
    out
}

/// A glyph id as the engine's 16-bit glyph number, 0 when it does not fit.
pub open spec fn glyph_u16(glyph: GlyphId) -> u16 {
    if glyph.0 <= 0xffff {
        glyph.0 as u16
    } else {
        0
    }
}

/// A glyph id as the engine's 16-bit glyph number, 0 when it does not fit.
pub fn glyph_id_u16(glyph: GlyphId) -> (r: u16)
    ensures
        r == glyph_u16(glyph),
{
    if glyph.0 <= 0xffff {
        glyph.0 as u16
    } else {
        0
    }
}

/// `a + b` held within `i32`, as `i32::saturating_add` gives it.
pub open spec fn sat_add_i32(a: i32, b: i32) -> i32 {
    if a + b > i32::MAX {
        i32::MAX
    } else if a + b < i32::MIN {
        i32::MIN
    } else {
        (a + b) as i32
    }
}

pub(crate) fn saturating_add_i32(a: i32, b: i32) -> (r: i32)
    ensures
        r == sat_add_i32(a, b),
{
    let s = (a as i64) + (b as i64);
    if s > i32::MAX as i64 {
        i32::MAX
    } else if s < i32::MIN as i64 {
        i32::MIN
    } else {
        s as i32
    }
}

/// A glyph of shaped native text, placed for the engine.
#[derive(Clone, Copy, Debug, Default, PartialEq, Eq, Structural)]
pub struct NativeGlyph {
    /// Glyph number in the font.
    pub glyph_id: u16,
    /// Horizontal position from the start of the text.
    pub x: i32,
    /// Vertical offset.
    pub y: i32,
    /// Horizontal advance.
    pub advance: i32,
    /// Start of the glyph's cluster in the UTF-8 text.
    pub cluster_start: u32,
    /// End of the glyph's cluster in the UTF-8 text.
    pub cluster_end: u32,
    /// Start of the glyph's source span, filled in by the engine.
    pub src_start: u32,
    /// End of the glyph's source span, filled in by the engine.
    pub src_end: u32,
}

/// Measurements of shaped native text.
#[derive(Clone, Debug, Default, PartialEq, Eq)]
pub struct NativeTextMetrics {
    /// Total advance.
    pub width: i32,
    /// Height above the baseline.
    pub height: i32,
    /// Depth below the baseline.
    pub depth: i32,
    /// The placed glyphs.
    pub glyphs: Vec<NativeGlyph>,
}

/// The plain contents of native text metrics.
pub struct NativeTextModel {
    pub width: i32,
    pub height: i32,
    pub depth: i32,
    pub glyphs: Seq<NativeGlyph>,
}

impl View for NativeTextMetrics {
    type V = NativeTextModel;

    open spec fn view(&self) -> NativeTextModel {
        NativeTextModel { width: self.width, height: self.height, depth: self.depth, glyphs: self.glyphs@ }
    }
}

/// Where glyph `k` of a shaped run starts: the advances before it, added up with saturation.
pub open spec fn native_cursor(glyphs: Seq<PositionedGlyph>, k: int) -> i32
    decreases k,
{
    if k <= 0 {
        0
    } else {
        sat_add_i32(native_cursor(glyphs, k - 1), glyphs[k - 1].advance.x.0)
    }
}

/// A shaped glyph placed at a cursor position.
pub open spec fn native_glyph(g: PositionedGlyph, cursor: i32) -> NativeGlyph {
    NativeGlyph {
        glyph_id: glyph_u16(g.glyph_id),
        x: sat_add_i32(cursor, g.offset.x.0),
        y: g.offset.y.0,
        advance: g.advance.x.0,
        cluster_start: match g.cluster {
            Some(span) => span.start,
            None => 0,
        },
        cluster_end: match g.cluster {
            Some(span) => span.end,
            None => 0,
        },
        src_start: 0,
        src_end: 0,
    }
}

/// The ascent of the font metrics, 0 without them.
pub open spec fn metrics_height(metrics: Option<FontMetrics>) -> i32 {
    match metrics {
        Some(m) => m.ascent,
        None => 0,
    }
}

/// The negated descent of the font metrics (32-bit, wrapping), 0 without them.
pub open spec fn metrics_depth(metrics: Option<FontMetrics>) -> i32 {
    match metrics {
        Some(m) => vstd::wrapping::i32_specs::wrapping_sub(0, m.descent),
        None => 0,
    }
}

/// The measurements of shaped text: the glyphs placed along the cursor with the run's full
/// advance as width, or, when shaping failed, no glyphs and no width; height and depth come
/// from the font metrics.
pub open spec fn native_metrics(
    shaped: Result<ShapedText, FontError>,
    metrics: Option<FontMetrics>,
) -> NativeTextModel {
    match shaped {
        Ok(t) => NativeTextModel {
            width: native_cursor(t.glyphs@, t.glyphs@.len() as int),
            height: metrics_height(metrics),
            depth: metrics_depth(metrics),
            glyphs: Seq::new(
                t.glyphs@.len(),
                |k: int| native_glyph(t.glyphs@[k], native_cursor(t.glyphs@, k)),
            ),
        },
        Err(_) => NativeTextModel {
            width: 0,
            height: metrics_height(metrics),
            depth: metrics_depth(metrics),
            glyphs: Seq::empty(),
        },
    }
}

/// Measures shaped text for the engine.
pub fn measure_shaped_text(
    shaped: Result<ShapedText, FontError>,
    metrics: Option<FontMetrics>,
) -> (r: NativeTextMetrics)
    ensures
        r@ == native_metrics(shaped, metrics),
{
    let height = match metrics {
        Some(m) => m.ascent,
        None => 0,
    };
    let depth = match metrics {
        Some(m) => 0i32.wrapping_sub(m.descent),
        None => 0,
    };
    let shaped = match shaped {
        Ok(t) => t,
        Err(_) => {
            let r = NativeTextMetrics { width: 0, height, depth, glyphs: Vec::new() };
            assert(r@.glyphs =~= Seq::<NativeGlyph>::empty());
            return r;
        },
    };
    let ghost gs = shaped.glyphs@;
    let ghost want = Seq::new(gs.len(), |k: int| native_glyph(gs[k], native_cursor(gs, k)));
    let mut glyphs: Vec<NativeGlyph> = Vec::new();
    let mut cursor: i32 = 0;
    let mut i: usize = 0;
    while i < shaped.glyphs.len()
        invariant
            gs == shaped.glyphs@,
            want == Seq::new(gs.len(), |k: int| native_glyph(gs[k], native_cursor(gs, k))),
            0 <= i <= gs.len(),
            cursor == native_cursor(gs, i as int),
            glyphs@ == want.take(i as int),
        decreases gs.len() - i,
    {
        let g = shaped.glyphs[i];
        let native = NativeGlyph {
            glyph_id: glyph_id_u16(g.glyph_id),
            x: saturating_add_i32(cursor, g.offset.x.0),
            y: g.offset.y.0,
            advance: g.advance.x.0,
            cluster_start: match g.cluster {
                Some(span) => span.start,
                None => 0,
            },
            cluster_end: match g.cluster {
                Some(span) => span.end,
                None => 0,
            },
            src_start: 0,
            src_end: 0,
        };
        assert(native == native_glyph(gs[i as int], native_cursor(gs, i as int)));
        glyphs.push(native);
        assert(glyphs@ =~= want.take(i + 1));
        cursor = saturating_add_i32(cursor, g.advance.x.0);
        i += 1;
    }
    assert(want.take(gs.len() as int) =~= want);
    NativeTextMetrics { width: cursor, height, depth, glyphs }
}

/// A font the engine loaded through the adapter.
#[derive(Debug)]
pub struct LoadedGeneratedFont {
    data: FontData,
    size: Length,
    spec: String,
    script: Option<[u8; 4]>,
    features: Vec<ShapeFeature>,
}

/// The plain contents of a loaded font: its data, size, `\font` spec, and the shaping
/// options of the spec.
pub struct LoadedModel {
    pub data: FontDataModel,
    pub size: Length,
    pub spec: Seq<char>,
    pub shaping: ShapingModel,
}

impl View for LoadedGeneratedFont {
    type V = LoadedModel;

    closed spec fn view(&self) -> LoadedModel {
        LoadedModel {
            data: self.data@,
            size: self.size,
            spec: self.spec@,
            shaping: shaping_model(self.script, self.features@),
        }
    }
}

/// The loaded font for a `\font` spec at a size, from the font data found for it.
pub open spec fn loaded_model(spec: Seq<char>, size: i32, data: FontDataModel) -> LoadedModel {
    LoadedModel { data, size: Length(size), spec, shaping: spec_shaping(encode_utf8(spec)) }
}

/// Matches table entries with a handle at or after `h`.
pub open spec fn handle_at_least(h: i32) -> spec_fn((i32, LoadedModel)) -> bool {
    |e: (i32, LoadedModel)| e.0 >= h
}

/// Matches the table entry of handle `h`.
pub open spec fn handle_is(h: i32) -> spec_fn((i32, LoadedModel)) -> bool {
    |e: (i32, LoadedModel)| e.0 == h
}

/// A handle table with the font of handle `h` set, kept in handle order.
pub open spec fn insert_sorted(t: Seq<(i32, LoadedModel)>, h: i32, v: LoadedModel) -> Seq<(i32, LoadedModel)> {
    let k = crate::seqs::first_index(t, handle_at_least(h));
    if k < t.len() && t[k].0 == h {
        t.update(k, (h, v))
    } else {
        t.insert(k, (h, v))
    }
}

/// A handle table without handle `h`.
pub open spec fn remove_handle(t: Seq<(i32, LoadedModel)>, h: i32) -> Seq<(i32, LoadedModel)> {
    let k = crate::seqs::first_index(t, handle_is(h));
    if k < t.len() {
        t.remove(k)
    } else {
        t
    }
}

/// Handles in strictly increasing order.
pub open spec fn sorted_handles(t: Seq<(i32, LoadedModel)>) -> bool {
    forall|i: int, j: int| 0 <= i < j < t.len() ==> t[i].0 < t[j].0
}

/// Whether some query for `family` at `size` (a math font) is answered with `result`.
pub open spec fn answers_family<F: FontSystem>(
    fonts: F,
    family: Seq<char>,
    size: i32,
    result: Result<FontDataModel, FontError>,
) -> bool {
    exists|q: FontQuery|
        q.family@ == family && q.size == Length(size) && q.math && #[trigger] fonts.font_answer(q, result)
}

/// The table, next handle and success flag after restoring one entry with the font system's
/// answer for it: a found font is set under the entry's handle and moves the next handle past
/// it; a failure only clears the flag.
pub open spec fn restore_step(
    st: (Seq<(i32, LoadedModel)>, i32, bool),
    entry: (i32, Seq<char>, i32),
    result: Result<FontDataModel, FontError>,
) -> (Seq<(i32, LoadedModel)>, i32, bool) {
    match result {
        Ok(m) => {
            let after = if entry.0 == i32::MAX {
                i32::MAX
            } else {
                (entry.0 + 1) as i32
            };
            (
                insert_sorted(st.0, entry.0, loaded_model(entry.1, entry.2, m)),
                if st.1 >= after {
                    st.1
                } else {
                    after
                },
                st.2,
            )
        },
        Err(_) => (st.0, st.1, false),
    }
}

/// The state after restoring entries in order with the given answers.
pub open spec fn restore_all(
    st: (Seq<(i32, LoadedModel)>, i32, bool),
    entries: Seq<(i32, Seq<char>, i32)>,
    results: Seq<Result<FontDataModel, FontError>>,
) -> (Seq<(i32, LoadedModel)>, i32, bool)
    decreases entries.len(),
{
    if entries.len() == 0 || results.len() < entries.len() {
        st
    } else {
        restore_step(
            restore_all(st, entries.drop_last(), results.take(entries.len() - 1)),
            entries.last(),
            results[entries.len() - 1],
        )
    }
}

/// The plain contents of a font table row.
pub open spec fn table_rows(v: Seq<(i32, String, i32)>) -> Seq<(i32, Seq<char>, i32)> {
    v.map_values(|e: (i32, String, i32)| (e.0, e.1@, e.2))
}

/// Resolves the engine's native font requests through a [`FontSystem`], by handle.
pub struct GeneratedFontSystemAdapter<F> {
    fonts: F,
    next_handle: i32,
    loaded_fonts: Vec<(i32, LoadedGeneratedFont)>,
}

impl<F> GeneratedFontSystemAdapter<F> {
    /// The wrapped font system.
    pub closed spec fn spec_fonts(&self) -> F {
        self.fonts
    }

    /// The handle the next resolved font gets.
    pub closed spec fn spec_next(&self) -> i32 {
        self.next_handle
    }

    /// The loaded fonts by handle, in handle order.
    pub closed spec fn spec_table(&self) -> Seq<(i32, LoadedModel)> {
        self.loaded_fonts@.map_values(|e: (i32, LoadedGeneratedFont)| (e.0, e.1@))
    }

    /// Handles are kept in order, each below the next handle unless that is at its maximum.
    pub open spec fn well_formed(&self) -> bool {
        &&& sorted_handles(self.spec_table())
        &&& forall|i: int|
            0 <= i < self.spec_table().len() ==> #[trigger] self.spec_table()[i].0 < self.spec_next()
                || self.spec_next() == i32::MAX
    }

    /// The font loaded under a handle, if any.
    pub open spec fn loaded(&self, handle: i32) -> Option<LoadedModel> {
        match find_first(self.spec_table(), handle_is(handle)) {
            Some(e) => Some(e.1),
            None => None,
        }
    }

    /// Constructs the adapter wrapping `fonts`; the first handle is 1.
    pub fn new(fonts: F) -> (r: Self)
        ensures
            r.well_formed(),
            r.spec_fonts() == fonts,
            r.spec_next() == 1,
            r.spec_table() == Seq::<(i32, LoadedModel)>::empty(),
    {
        let r = GeneratedFontSystemAdapter { fonts, next_handle: 1, loaded_fonts: Vec::new() };
        assert(r.spec_table() =~= Seq::<(i32, LoadedModel)>::empty());
        r
    }

    /// Returns a reference to the wrapped font system.
    pub fn font_system(&self) -> (r: &F)
        ensures
            *r == self.spec_fonts(),
    {
        &self.fonts
    }

    /// Unwraps and returns the inner font system.
    pub fn into_font_system(self) -> (r: F)
        ensures
            r == self.spec_fonts(),
    {
        self.fonts
    }

    fn find(&self, handle: i32) -> (r: Option<usize>)
        ensures
            r matches Some(k) ==> k < self.spec_table().len() && crate::seqs::first_index(
                self.spec_table(),
                handle_is(handle),
            ) == k,
            r is None ==> crate::seqs::first_index(self.spec_table(), handle_is(handle))
                == self.spec_table().len(),
    {
        let ghost t = self.spec_table();
        let mut i: usize = 0;
        while i < self.loaded_fonts.len()
            invariant
                t == self.spec_table(),
                0 <= i <= t.len(),
                forall|j: int| 0 <= j < i ==> !(handle_is(handle))(#[trigger] t[j]),
            decreases t.len() - i,
        {
            assert(t[i as int].0 == self.loaded_fonts@[i as int].0);
            if self.loaded_fonts[i].0 == handle {
                proof {
                    lemma_first_index_is(t, handle_is(handle), i as int);
                }
                return Some(i);
            }
            i += 1;
        }
        proof {
            lemma_first_index_is(t, handle_is(handle), i as int);
        }
        None
    }

    /// Returns the font data for a loaded handle, or `None` if not found.
    pub fn loaded_font(&self, handle: i32) -> (r: Option<&FontData>)
        ensures
            r is Some <==> self.loaded(handle) is Some,
            r matches Some(d) ==> d@ == self.loaded(handle)->0.data,
    {
        match self.find(handle) {
            Some(k) => {
                proof {
                    lemma_first_index(self.spec_table(), handle_is(handle));
                }
                Some(&self.loaded_fonts[k].1.data)
            },
            None => None,
        }
    }

    /// The size a handle was loaded at.
    pub fn font_size(&self, handle: i32) -> (r: Option<Length>)
        ensures
            r == match self.loaded(handle) {
                Some(m) => Some(m.size),
                None => None::<Length>,
            },
    {
        match self.find(handle) {
            Some(k) => {
                proof {
                    lemma_first_index(self.spec_table(), handle_is(handle));
                }
                Some(self.loaded_fonts[k].1.size)
            },
            None => None,
        }
    }

    /// The `\font` spec a handle was loaded from.
    pub fn font_spec(&self, handle: i32) -> (r: Option<String>)
        ensures
            r is Some <==> self.loaded(handle) is Some,
            r matches Some(s) ==> s@ == self.loaded(handle)->0.spec,
    {
        match self.find(handle) {
            Some(k) => {
                proof {
                    lemma_first_index(self.spec_table(), handle_is(handle));
                }
                Some(self.loaded_fonts[k].1.spec.clone())
            },
            None => None,
        }
    }

    /// Whether a handle names a loaded font; every font loaded here is an OpenType font.
    pub fn using_opentype(&self, handle: i32) -> (r: bool)
        ensures
            r == self.loaded(handle) is Some,
    {
        proof {
            lemma_first_index(self.spec_table(), handle_is(handle));
        }
        self.find(handle).is_some()
    }

    /// Forgets a handle.
    pub fn release_font_handle(&mut self, handle: i32)
        requires
            old(self).well_formed(),
        ensures
            final(self).well_formed(),
            final(self).spec_fonts() == old(self).spec_fonts(),
            final(self).spec_next() == old(self).spec_next(),
            final(self).spec_table() == remove_handle(old(self).spec_table(), handle),
    {
        let ghost t = self.spec_table();
        match self.find(handle) {
            Some(k) => {
                let _ = self.loaded_fonts.remove(k);
                assert(self.spec_table() =~= t.remove(k as int));
                assert forall|i: int, j: int|
                    0 <= i < j < self.spec_table().len() implies self.spec_table()[i].0
                    < self.spec_table()[j].0 by {
                    let ii = if i < k { i } else { i + 1 };
                    let jj = if j < k { j } else { j + 1 };
                    assert(self.spec_table()[i] == t[ii]);
                    assert(self.spec_table()[j] == t[jj]);
                }
                assert forall|i: int| 0 <= i < self.spec_table().len() implies #[trigger] self.spec_table()[i].0
                    < self.spec_next() || self.spec_next() == i32::MAX by {
                    let ii = if i < k { i } else { i + 1 };
                    assert(self.spec_table()[i] == t[ii]);
                }
            },
            None => {},
        }
    }

    /// The loaded fonts as `(handle, spec, size)` rows, in handle order.
    pub fn font_table(&self) -> (r: Vec<(i32, String, i32)>)
        ensures
            table_rows(r@) == self.spec_table().map_values(|e: (i32, LoadedModel)| (e.0, e.1.spec, e.1.size.0)),
    {
        let ghost want = self.spec_table().map_values(|e: (i32, LoadedModel)| (e.0, e.1.spec, e.1.size.0));
        let mut out: Vec<(i32, String, i32)> = Vec::new();
        let mut i: usize = 0;
        while i < self.loaded_fonts.len()
            invariant
                0 <= i <= self.loaded_fonts@.len(),
                want == self.spec_table().map_values(|e: (i32, LoadedModel)| (e.0, e.1.spec, e.1.size.0)),
                table_rows(out@) == want.take(i as int),
                out@.len() == i,
            decreases self.loaded_fonts@.len() - i,
        {
            let entry = &self.loaded_fonts[i];
            assert(self.spec_table()[i as int] == (entry.0, entry.1@));
            assert(entry.1@.spec == entry.1.spec@ && entry.1@.size == entry.1.size);
            let ghost before = out@;
            let spec = entry.1.spec.clone();
            assert(spec@ == entry.1.spec@);
            out.push((entry.0, spec, entry.1.size.0));
            assert(self.spec_table().len() == self.loaded_fonts@.len());
            assert(want[i as int] == (entry.0, entry.1@.spec, entry.1@.size.0));
            assert(out@[i as int] == (entry.0, spec, entry.1.size.0));
            assert(table_rows(out@)[i as int] == want[i as int]);
            assert(table_rows(out@).take(i as int) =~= table_rows(before));
            assert(table_rows(out@) =~= want.take(i + 1));
            i += 1;
        }
        assert(want.take(self.loaded_fonts@.len() as int) =~= want);
        out
    }

    /// Sets the font of a handle, keeping handle order.
    fn insert_loaded(&mut self, handle: i32, font: LoadedGeneratedFont)
        requires
            sorted_handles(old(self).spec_table()),
        ensures
            sorted_handles(final(self).spec_table()),
            final(self).spec_table() == insert_sorted(old(self).spec_table(), handle, font@),
            final(self).spec_fonts() == old(self).spec_fonts(),
            final(self).spec_next() == old(self).spec_next(),
    {
        let ghost t = self.spec_table();
        let ghost v = font@;
        let ghost p = handle_at_least(handle);
        let mut k: usize = 0;
        while k < self.loaded_fonts.len() && self.loaded_fonts[k].0 < handle
            invariant
                t == self.spec_table(),
                *self == *old(self),
                p == handle_at_least(handle),
                0 <= k <= t.len(),
                forall|j: int| 0 <= j < k ==> !p(#[trigger] t[j]),
            decreases t.len() - k,
        {
            assert(t[k as int].0 == self.loaded_fonts@[k as int].0);
            assert(!p(t[k as int]));
            k += 1;
        }
        if k < self.loaded_fonts.len() {
            assert(t[k as int].0 == self.loaded_fonts@[k as int].0);
        }
        proof {
            lemma_first_index_is(t, p, k as int);
        }
        if k < self.loaded_fonts.len() && self.loaded_fonts[k].0 == handle {
            self.loaded_fonts.set(k, (handle, font));
            assert(self.spec_table() =~= t.update(k as int, (handle, v)));
            assert forall|i: int, j: int|
                0 <= i < j < self.spec_table().len() implies self.spec_table()[i].0 < self.spec_table()[j].0 by {
                assert(self.spec_table()[i].0 == t[i].0);
                assert(self.spec_table()[j].0 == t[j].0);
            }
        } else {
            self.loaded_fonts.insert(k, (handle, font));
            assert(self.spec_table() =~= t.insert(k as int, (handle, v)));
            assert forall|i: int, j: int|
                0 <= i < j < self.spec_table().len() implies self.spec_table()[i].0 < self.spec_table()[j].0 by {
                if i < k {
                    assert(self.spec_table()[i] == t[i]);
                    assert(!p(t[i]));
                    if j > k {
                        assert(self.spec_table()[j] == t[j - 1]);
                    }
                } else if i == k {
                    assert(self.spec_table()[j] == t[j - 1]);
                    assert(p(t[k as int]));
                    if j - 1 > k {
                        assert(t[k as int].0 < t[j - 1].0);
                    }
                } else {
                    assert(self.spec_table()[i] == t[i - 1]);
                    assert(self.spec_table()[j] == t[j - 1]);
                }
            }
        }
    }
}

/// The keys of a table after `insert_sorted` are its old keys and the new one.
proof fn lemma_insert_sorted_entries(t: Seq<(i32, LoadedModel)>, h: i32, v: LoadedModel)
    ensures
        forall|i: int|
            0 <= i < insert_sorted(t, h, v).len() ==> (#[trigger] insert_sorted(t, h, v)[i]).0 == h
                || exists|j: int| 0 <= j < t.len() && insert_sorted(t, h, v)[i] == t[j],
{
    let k = crate::seqs::first_index(t, handle_at_least(h));
    lemma_first_index(t, handle_at_least(h));
    let u = insert_sorted(t, h, v);
    assert forall|i: int| 0 <= i < u.len() implies (#[trigger] u[i]).0 == h || exists|j: int|
        0 <= j < t.len() && u[i] == t[j] by {
        if k < t.len() && t[k].0 == h {
            if i != k {
                assert(u[i] == t[i]);
            }
        } else {
            if i < k {
                assert(u[i] == t[i]);
            } else if i > k {
                assert(u[i] == t[i - 1]);
            }
        }
    }
}

/// The request the adapter shapes native text with: the font's id and shaping options, the
/// decoded text left to right, and the text's byte length (held within 32 bits) as source.
pub open spec fn native_request(req: ShapeRequest<'_>, m: LoadedModel, text: Seq<char>) -> bool {
    let len = encode_utf8(text).len();
    &&& req.font == m.data.id
    &&& req.text@ == text
    &&& req.direction == Direction::LeftToRight
    &&& req.source == Some(
        ByteSpan {
            start: 0,
            end: if len <= u32::MAX {
                len as u32
            } else {
                u32::MAX
            },
        },
    )
    &&& shaping_model(req.script, req.features@) == m.shaping
}

fn copy_features(v: &Vec<ShapeFeature>) -> (r: Vec<ShapeFeature>)
    ensures
        r@ == v@,
{
    let mut out: Vec<ShapeFeature> = Vec::new();
    let mut i: usize = 0;
    while i < v.len()
        invariant
            0 <= i <= v@.len(),
            out@ == v@.take(i as int),
        decreases v@.len() - i,
    {
        out.push(v[i]);
        assert(out@ =~= v@.take(i + 1));
        i += 1;
    }
    assert(v@.take(v@.len() as int) =~= v@);
    out
}

/// What resolving a font spec does with the font system's answer: a found font is set under
/// the next handle, which then counts on, unless the handles are used up; otherwise nothing
/// changes and no handle is given.
pub open spec fn resolve_outcome<F: FontSystem>(
    fonts: F,
    next: i32,
    table: Seq<(i32, LoadedModel)>,
    name: Seq<char>,
    size: i32,
    res: Result<FontDataModel, FontError>,
    r: Option<i32>,
    next_after: i32,
    table_after: Seq<(i32, LoadedModel)>,
) -> bool {
    &&& answers_family(fonts, name, size, res)
    &&& match res {
        Ok(m) => if next < i32::MAX {
            &&& r == Some(next)
            &&& next_after == next + 1
            &&& table_after == insert_sorted(table, next, loaded_model(name, size, m))
        } else {
            &&& r is None
            &&& next_after == next
            &&& table_after == table
        },
        Err(_) => {
            &&& r is None
            &&& next_after == next
            &&& table_after == table
        },
    }
}

/// Shaped native text measured from the font system's answer to the adapter's request.
pub open spec fn native_outcome<F: FontSystem>(
    fonts: F,
    m: LoadedModel,
    text: Seq<char>,
    metrics: Option<FontMetrics>,
    req: ShapeRequest<'_>,
    res: Result<ShapedText, FontError>,
    out: NativeTextModel,
) -> bool {
    &&& native_request(req, m, text)
    &&& fonts.shape_answer(req, res)
    &&& out == native_metrics(res, metrics)
}

impl<F: FontSystem> GeneratedFontSystemAdapter<F> {
    /// Loads the font an engine `\font` spec names, at a size, under the next handle.
    ///
    /// `None` when the font system finds no font or the handles are used up.
    pub fn resolve_font_handle(&mut self, name: &[i32], size: i32) -> (r: Option<i32>)
        requires
            old(self).well_formed(),
        ensures
            final(self).well_formed(),
            final(self).spec_fonts() == old(self).spec_fonts(),
            exists|res: Result<FontDataModel, FontError>|
                #[trigger] resolve_outcome(
                    old(self).spec_fonts(),
                    old(self).spec_next(),
                    old(self).spec_table(),
                    scalars_text(name@),
                    size,
                    res,
                    r,
                    final(self).spec_next(),
                    final(self).spec_table(),
                ),
    {
        let spec = unicode_scalars_to_string(name);
        let (script, features) = parse_spec_shaping(spec.as_str());
        let query = FontQuery { family: spec.clone(), size: Length(size), math: true };
        let font = self.fonts.load_font(&query);
        let ghost res = font_result(font);
        assert(answers_family(self.fonts, scalars_text(name@), size, res));
        let data = match font {
            Ok(d) => d,
            Err(_) => {
                assert(resolve_outcome(old(self).spec_fonts(), old(self).spec_next(), old(self).spec_table(), scalars_text(name@), size, res, None, self.spec_next(), self.spec_table()));
                return None;
            },
        };
        let next = match self.next_handle.checked_add(1) {
            Some(n) => n,
            None => {
                assert(resolve_outcome(old(self).spec_fonts(), old(self).spec_next(), old(self).spec_table(), scalars_text(name@), size, res, None, self.spec_next(), self.spec_table()));
                return None;
            },
        };
        let handle = self.next_handle;
        let ghost old_table = self.spec_table();
        let loaded = LoadedGeneratedFont { data, size: Length(size), spec, script, features };
        assert(loaded@ == loaded_model(scalars_text(name@), size, res->Ok_0));
        self.next_handle = next;
        self.insert_loaded(handle, loaded);
        proof {
            lemma_insert_sorted_entries(old_table, handle, loaded@);
            assert forall|i: int| 0 <= i < self.spec_table().len() implies #[trigger] self.spec_table()[i].0
                < self.spec_next() || self.spec_next() == i32::MAX by {
                if self.spec_table()[i].0 != handle {
                    let j = choose|j: int| 0 <= j < old_table.len() && self.spec_table()[i] == old_table[j];
                    assert(old_table[j].0 < handle);
                }
            }
            assert(resolve_outcome(old(self).spec_fonts(), old(self).spec_next(), old(self).spec_table(), scalars_text(name@), size, res, Some(handle), self.spec_next(), self.spec_table()));
        }
        Some(handle)
    }

    /// Reloads a saved font table, keeping its handles; false when some font was not found.
    pub fn restore_font_table(&mut self, table: &[(i32, String, i32)]) -> (r: bool)
        requires
            old(self).well_formed(),
        ensures
            final(self).well_formed(),
            final(self).spec_fonts() == old(self).spec_fonts(),
            exists|results: Seq<Result<FontDataModel, FontError>>|
                {
                    &&& results.len() == table@.len()
                    &&& forall|i: int|
                        0 <= i < table@.len() ==> answers_family(
                            old(self).spec_fonts(),
                            table@[i].1@,
                            table@[i].2,
                            #[trigger] results[i],
                        )
                    &&& restore_all(
                        (old(self).spec_table(), old(self).spec_next(), true),
                        table_rows(table@),
                        results,
                    ) == (final(self).spec_table(), final(self).spec_next(), r)
                },
    {
        let ghost start = (self.spec_table(), self.spec_next(), true);
        let ghost rows = table_rows(table@);
        let ghost mut results: Seq<Result<FontDataModel, FontError>> = Seq::empty();
        let mut ok = true;
        let mut i: usize = 0;
        assert(rows.take(0) =~= Seq::<(i32, Seq<char>, i32)>::empty());
        while i < table.len()
            invariant
                self.well_formed(),
                self.spec_fonts() == old(self).spec_fonts(),
                start == (old(self).spec_table(), old(self).spec_next(), true),
                rows == table_rows(table@),
                0 <= i <= table@.len(),
                results.len() == i,
                forall|j: int|
                    0 <= j < i ==> answers_family(
                        old(self).spec_fonts(),
                        table@[j].1@,
                        table@[j].2,
                        #[trigger] results[j],
                    ),
                restore_all(start, rows.take(i as int), results) == (self.spec_table(), self.spec_next(), ok),
            decreases table@.len() - i,
        {
            let handle = table[i].0;
            let size = table[i].2;
            let query = FontQuery { family: table[i].1.clone(), size: Length(size), math: true };
            let font = self.fonts.load_font(&query);
            let ghost res = font_result(font);
            let ghost before = (self.spec_table(), self.spec_next(), ok);
            assert(answers_family(self.fonts, table@[i as int].1@, table@[i as int].2, res));
            proof {
                assert(rows.take(i + 1).drop_last() =~= rows.take(i as int));
                assert(results.push(res).take(i as int) =~= results);
                assert(rows.take(i + 1).last() == rows[i as int]);
                assert(rows[i as int] == (handle, table@[i as int].1@, size));
                results = results.push(res);
            }
            match font {
                Ok(data) => {
                    let (script, features) = parse_spec_shaping(table[i].1.as_str());
                    let loaded = LoadedGeneratedFont {
                        data,
                        size: Length(size),
                        spec: table[i].1.clone(),
                        script,
                        features,
                    };
                    let ghost old_table = self.spec_table();
                    assert(loaded@ == loaded_model(table@[i as int].1@, size, res->Ok_0));
                    self.insert_loaded(handle, loaded);
                    let after = saturating_add_i32(handle, 1);
                    if after > self.next_handle {
                        self.next_handle = after;
                    }
                    proof {
                        lemma_insert_sorted_entries(old_table, handle, loaded@);
                        assert forall|k: int| 0 <= k < self.spec_table().len() implies #[trigger] self.spec_table()[k].0
                            < self.spec_next() || self.spec_next() == i32::MAX by {
                            if self.spec_table()[k].0 != handle {
                                let j = choose|j: int|
                                    0 <= j < old_table.len() && self.spec_table()[k] == old_table[j];
                                assert(old_table[j].0 < before.1 || before.1 == i32::MAX);
                            }
                        }
                    }
                },
                Err(_) => {
                    ok = false;
                },
            }
            i += 1;
        }
        assert(rows.take(table@.len() as int) =~= rows);
        ok
    }

    /// Shapes UTF-16 text with a loaded font and measures it for the engine; `metrics` are the
    /// font's metrics at its size, when they could be read. An unknown handle measures as
    /// nothing.
    pub fn shape_native_text(&self, font: i32, text: &[u16], metrics: Option<FontMetrics>) -> (r: NativeTextMetrics)
        ensures
            self.loaded(font) is None ==> r@ == (NativeTextModel {
                width: 0,
                height: 0,
                depth: 0,
                glyphs: Seq::empty(),
            }),
            self.loaded(font) matches Some(m) ==> exists|req: ShapeRequest<'_>, res: Result<ShapedText, FontError>|
                #[trigger] native_outcome(self.spec_fonts(), m, utf16_from(text@, 0), metrics, req, res, r@),
    {
        let k = match self.find(font) {
            Some(k) => k,
            None => {
                let r = NativeTextMetrics { width: 0, height: 0, depth: 0, glyphs: Vec::new() };
                assert(r@.glyphs =~= Seq::<NativeGlyph>::empty());
                return r;
            },
        };
        proof {
            lemma_first_index(self.spec_table(), handle_is(font));
        }
        let loaded = &self.loaded_fonts[k].1;
        assert(self.loaded(font) == Some(loaded@));
        let decoded = utf16_to_string(text);
        let bytes = decoded.as_str().as_bytes();
        let len = bytes.len();
        assert(bytes@ == encode_utf8(decoded@));
        let end: u32 = if len <= 0xffff_ffffusize {
            len as u32
        } else {
            0xffff_ffffu32
        };
        let request = ShapeRequest {
            font: loaded.data.font_id(),
            text: decoded.as_str(),
            direction: Direction::LeftToRight,
            source: Some(ByteSpan { start: 0, end }),
            script: loaded.script,
            features: copy_features(&loaded.features),
        };
        assert(native_request(request, loaded@, utf16_from(text@, 0)));
        let shaped = self.fonts.shape_text(&request);
        let r = measure_shaped_text(shaped, metrics);
        assert(native_outcome(self.spec_fonts(), self.loaded(font)->0, utf16_from(text@, 0), metrics, request, shaped, r@));
        r
    }
}

/// Setting the font of a handle in an ordered table makes that handle name the new font
/// and leaves every other handle naming what it named.
pub proof fn lemma_set_handle_then_loaded(t: Seq<(i32, LoadedModel)>, h: i32, v: LoadedModel, other: i32)
    requires
        sorted_handles(t),
    ensures
        find_first(insert_sorted(t, h, v), handle_is(h)) == Some((h, v)),
        other != h ==> find_first(insert_sorted(t, h, v), handle_is(other)) == find_first(t, handle_is(other)),
{
    let u = insert_sorted(t, h, v);
    let p = handle_at_least(h);
    let k = crate::seqs::first_index(t, p);
    lemma_first_index(t, p);
    let q = handle_is(other);
    lemma_first_index(t, q);
    let ko = crate::seqs::first_index(t, q);
    if k < t.len() && t[k].0 == h {
        assert forall|j: int| 0 <= j < k implies !(handle_is(h))(#[trigger] u[j]) by {
            assert(u[j] == t[j]);
        }
        lemma_first_index_is(u, handle_is(h), k);
        if other != h {
            assert forall|j: int| 0 <= j < ko implies !q(#[trigger] u[j]) by {
                if j != k {
                    assert(u[j] == t[j]);
                }
            }
            if ko < t.len() {
                assert(ko != k);
                assert(u[ko] == t[ko]);
            }
            lemma_first_index_is(u, q, ko);
        }
    } else {
        assert forall|j: int| 0 <= j < k implies !(handle_is(h))(#[trigger] u[j]) by {
            assert(u[j] == t[j]);
        }
        lemma_first_index_is(u, handle_is(h), k);
        if other != h {
            if ko < k {
                assert forall|j: int| 0 <= j < ko implies !q(#[trigger] u[j]) by {
                    assert(u[j] == t[j]);
                }
                assert(u[ko] == t[ko]);
                lemma_first_index_is(u, q, ko);
            } else {
                assert forall|j: int| 0 <= j < ko + 1 implies !q(#[trigger] u[j]) by {
                    if j < k {
                        assert(u[j] == t[j]);
                    } else if j > k {
                        assert(u[j] == t[j - 1]);
                    }
                }
                if ko < t.len() {
                    assert(u[ko + 1] == t[ko]);
                }
                lemma_first_index_is(u, q, ko + 1);
            }
        }
    }
}

/// Forgetting a handle in an ordered table leaves it naming no font.
pub proof fn lemma_released_handle_is_gone(t: Seq<(i32, LoadedModel)>, h: i32)
    requires
        sorted_handles(t),
    ensures
        find_first(remove_handle(t, h), handle_is(h)) is None,
{
    let p = handle_is(h);
    let k = crate::seqs::first_index(t, p);
    lemma_first_index(t, p);
    let u = remove_handle(t, h);
    assert forall|j: int| 0 <= j < u.len() implies !p(#[trigger] u[j]) by {
        if k < t.len() {
            if j < k {
                assert(u[j] == t[j]);
            } else {
                assert(u[j] == t[j + 1]);
                assert(t[k].0 < t[j + 1].0);
            }
        } else {
            assert(u[j] == t[j]);
        }
    }
    lemma_first_index_is(u, p, u.len() as int);
}

/// A glyph number as the engine's `i32`.
pub open spec fn engine_glyph(g: Option<GlyphId>) -> i32 {
    match g {
        Some(id) => if id.0 <= i32::MAX {
            id.0 as i32
        } else {
            i32::MAX
        },
        None => 0,
    }
}

fn glyph_to_engine(g: Option<GlyphId>) -> (r: i32)
    ensures
        r == engine_glyph(g),
{
    match g {
        Some(id) => if id.0 <= 0x7fff_ffff {
            id.0 as i32
        } else {
            0x7fff_ffff
        },
        None => 0,
    }
}

impl<F> GeneratedFontSystemAdapter<F> {
    /// Whether a handle names a loaded font with an OpenType `MATH` table; false for an
    /// unknown handle or unreadable font data.
    pub fn is_opentype_math_font(&self, font: i32) -> (r: bool)
        ensures
            r == (self.loaded(font) matches Some(m) && face_parse_error(m.data.bytes) is None
                && face_has_math(m.data.bytes)),
    {
        match self.loaded_font(font) {
            Some(data) => match data.has_opentype_math() {
                Ok(has) => has,
                Err(_) => false,
            },
            None => false,
        }
    }

    /// The glyph of a character code point in a loaded font, 0 when the handle, the code
    /// point or the glyph is unknown.
    pub fn map_char_to_glyph(&self, font: i32, codepoint: i32) -> (r: i32)
        ensures
            r == (if codepoint >= 0 && is_scalar(codepoint as u32) {
                match self.loaded(font) {
                    Some(m) => if face_parse_error(m.data.bytes) is None {
                        engine_glyph(
                            match face_glyph_index(m.data.bytes, scalar_char(codepoint)) {
                                Some(g) => Some(GlyphId(g as u32)),
                                None => None,
                            },
                        )
                    } else {
                        0
                    },
                    None => 0,
                }
            } else {
                0
            }),
    {
        if codepoint < 0 {
            return 0;
        }
        let c = match char_from_u32(codepoint as u32) {
            Some(c) => c,
            None => {
                return 0;
            },
        };
        proof {
            char_u32_cast(c, codepoint as u32);
        }
        match self.loaded_font(font) {
            Some(data) => match data.glyph_index(c) {
                Ok(g) => glyph_to_engine(g),
                Err(_) => 0,
            },
            None => 0,
        }
    }

    /// The glyph of a glyph name in a loaded font, 0 when the handle or the name is unknown.
    pub fn map_glyph_to_index(&self, font: i32, name: &str) -> (r: i32)
        ensures
            r == match self.loaded(font) {
                Some(m) => if face_parse_error(m.data.bytes) is None {
                    engine_glyph(
                        match face_glyph_by_name(m.data.bytes, name@) {
                            Some(g) => Some(GlyphId(g as u32)),
                            None => None,
                        },
                    )
                } else {
                    0
                },
                None => 0,
            },
    {
        match self.loaded_font(font) {
            Some(data) => match data.glyph_index_by_name(name) {
                Ok(g) => glyph_to_engine(g),
                Err(_) => 0,
            },
            None => 0,
        }
    }

    /// The math kern of a glyph corner in a loaded font at a correction height (design
    /// units), 0 when the handle or glyph is unknown, the font data cannot be read, or a
    /// math kern table of the font declares 65535 correction heights.
    pub fn math_kern_at(&self, font: i32, glyph: i32, corner: MathKernCorner, correction_height: i32) -> (r: i32)
        ensures
            r == (if glyph >= 0 {
                match self.loaded(font) {
                    Some(m) => if face_parse_error(m.data.bytes) is None && (glyph > 0xffff
                        || math_kern_heights_fit(m.data.bytes)) {
                        face_math_kern(m.data.bytes, GlyphId(glyph as u32), corner, correction_height)
                    } else {
                        0
                    },
                    None => 0,
                }
            } else {
                0
            }),
    {
        if glyph < 0 {
            return 0;
        }
        match self.loaded_font(font) {
            Some(data) => match data.math_kern_at(GlyphId(glyph as u32), corner, correction_height) {
                Ok(v) => v,
                Err(_) => 0,
            },
            None => 0,
        }
    }

    /// The OpenType layout value that XeTeX's `\XeTeXOT...` queries ask of a loaded font:
    /// `what` selects the query (glyph count, script, language and feature counts and tags),
    /// the parameters are tags and indices; 0 for an unknown handle or query, or unreadable
    /// font data, and values beyond `i32` clamp to its maximum.
    pub fn ot_font_get(&self, font: i32, what: i32, param1: i32, param2: i32, param3: i32) -> (r: i32)
        ensures
            r == match self.loaded(font) {
                Some(m) => ot_font_value(m.data.bytes, what, param1, param2, param3),
                None => 0,
            },
    {
        let data = match self.loaded_font(font) {
            Some(data) => data,
            None => {
                return 0;
            },
        };
        let result = match what {
            1 => data.ot_glyph_count(),
            16 => data.ot_script_count(),
            17 => data.ot_language_count(param1 as u32),
            18 => data.ot_feature_count(param1 as u32, param2 as u32),
            19 => data.ot_script_tag(param1 as u32),
            20 => data.ot_language_tag(param1 as u32, param2 as u32),
            21 => data.ot_feature_tag(param1 as u32, param2 as u32, param3 as u32),
            _ => {
                return 0;
            },
        };
        match result {
            Ok(value) => if value > 0x7fff_ffff {
                i32::MAX
            } else {
                value as i32
            },
            Err(_) => 0,
        }
    }
}


/// An index parameter of a layout query: 0 past 16 bits, as the query answers there.
pub open spec fn ot_index_value(index: u32, value: spec_fn(u16) -> u32) -> u32 {
    if index > 0xffff {
        0
    } else {
        value(index as u16)
    }
}

/// The value of OpenType layout query `what` (1: glyph count, 16 to 18: script, language
/// and feature counts, 19 to 21: their tags) on font bytes, clamped to `i32`; 0 for an
/// unknown query or bytes that do not parse.
pub open spec fn ot_font_value(bytes: Seq<u8>, what: i32, p1: i32, p2: i32, p3: i32) -> i32 {
    let v: Option<u32> = match what {
        1 => Some(face_glyph_count(bytes) as u32),
        16 => Some(layout_script_count(bytes)),
        17 => Some(layout_language_count(bytes, p1 as u32)),
        18 => Some(layout_feature_count(bytes, p1 as u32, p2 as u32)),
        19 => Some(ot_index_value(p1 as u32, |i: u16| layout_script_tag(bytes, i))),
        20 => Some(ot_index_value(p2 as u32, |i: u16| layout_language_tag(bytes, p1 as u32, i))),
        21 => Some(ot_index_value(p3 as u32, |i: u16| layout_feature_tag(bytes, p1 as u32, p2 as u32, i))),
        _ => None,
    };
    if face_parse_error(bytes) is Some {
        0
    } else {
        match v {
            Some(value) => if value > 0x7fff_ffff {
                i32::MAX
            } else {
                value as i32
            },
            None => 0,
        }
    }
}

} // verus!
