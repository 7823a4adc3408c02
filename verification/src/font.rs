//! Font boundary types: queries, shaping requests and results, and composed font services.
use vstd::prelude::*;

use crate::ir::{ByteSpan, Direction, FontId, GlyphId, Length, Point, PositionedGlyph};
use crate::seqs::{find_first, lemma_first_index, lemma_first_index_is, lemma_first_index_push};
use crate::text::{bytes_eq, bytes_to_vec, str_eq};
use vstd::std_specs::iter::IteratorSpec;
use vstd::string::StringSliceAdditionalSpecFns;
use vstd::utf8::*;

verus! {

/// Font lookup request.
#[derive(Clone, Debug, PartialEq, Eq)]
pub struct FontQuery {
    /// Family name as seen by the font resolver.
    pub family: String,
    /// Size in scaled points.
    pub size: Length,
    /// Whether math font tables are required.
    pub math: bool,
}

/// Corner of an OpenType `MathKernInfo` record (mirrors HarfBuzz `hb_ot_math_kern_t`).
#[derive(Clone, Copy, Debug, PartialEq, Eq, Structural)]
pub enum MathKernCorner {
    /// Superscript on the right.
    TopRight,
    /// Superscript on the left.
    TopLeft,
    /// Subscript on the right.
    BottomRight,
    /// Subscript on the left.
    BottomLeft,
}

/// One part of an OpenType math glyph assembly, with all measurements in scaled points.
#[derive(Clone, Copy, Debug, PartialEq, Eq, Structural)]
pub struct MathAssemblyPart {
    /// Glyph id for this assembly part.
    pub glyph: u32,
    /// Start connector overlap at the leading edge, in scaled points.
    pub start_connector: i32,
    /// End connector overlap at the trailing edge, in scaled points.
    pub end_connector: i32,
    /// Full advance along the assembly axis, in scaled points.
    pub full_advance: i32,
    /// Whether this part is an extender (repeatable to reach the target size).
    pub extender: bool,
}

/// Overall font metrics in TeX scaled point units.
#[derive(Clone, Copy, Debug, Default, PartialEq, Eq, Structural)]
pub struct FontMetrics {
    /// Distance from baseline to top of typical ascenders.
    pub ascent: i32,
    /// Distance from baseline to bottom of typical descenders (negative).
    pub descent: i32,
    /// Height of a lowercase x.
    pub xheight: i32,
    /// Height of a capital letter.
    pub capheight: i32,
    /// Italic slant as a fixed point angle.
    pub slant: i32,
}

/// Metrics for a single glyph in TeX scaled point units.
#[derive(Clone, Copy, Debug, Default, PartialEq, Eq, Structural)]
pub struct FontGlyphMetrics {
    /// Horizontal advance width.
    pub width: i32,
    /// Height above baseline.
    pub height: i32,
    /// Depth below baseline.
    pub depth: i32,
}

/// OpenType feature request (tag + value), e.g. `ssty=1` for math script size substitution.
#[derive(Clone, Copy, Debug, PartialEq, Eq)]
pub struct ShapeFeature {
    /// Four byte OpenType feature tag, e.g. `*b"ssty"`.
    pub tag: [u8; 4],
    /// One based alternate index for `ssty`, `0` disables the feature.
    pub value: u32,
}

/// Text shaping request.
#[derive(Clone, Debug, PartialEq, Eq)]
pub struct ShapeRequest<'a> {
    /// Font to use for shaping, identified by its `FontId`.
    pub font: FontId,
    /// Input text to shape.
    pub text: &'a str,
    /// Text direction for the buffer.
    pub direction: Direction,
    /// Source span for cluster mapping.
    pub source: Option<ByteSpan>,
    /// OpenType script tag override, e.g. `*b"math"`, for features under the `math` script.
    pub script: Option<[u8; 4]>,
    /// OpenType features to apply during shaping, e.g. `ssty=1`.
    pub features: Vec<ShapeFeature>,
}

/// Shaped text result.
#[derive(Clone, Debug, PartialEq, Eq)]
pub struct ShapedText {
    /// Glyphs in visual order.
    pub glyphs: Vec<PositionedGlyph>,
}

impl ShapedText {
    /// Construct a `ShapedText` from a glyph vec.
    pub fn new(glyphs: Vec<PositionedGlyph>) -> (r: Self)
        ensures
            r.glyphs@ == glyphs@,
    {
        ShapedText { glyphs }
    }
}

/// Font system failure.
#[derive(Clone, Debug, PartialEq, Eq)]
#[non_exhaustive]
pub enum FontError {
    /// Font was not found by the loader.
    NotFound {
        /// Family name that was requested.
        family: String,
    },
    /// Font exists but cannot satisfy the request.
    Invalid {
        /// Family name.
        family: String,
        /// Reason the font is unusable.
        message: String,
    },
    /// Text shaping is not supported by this font system.
    ShapingUnsupported {
        /// Reason shaping is unsupported.
        message: String,
    },
}

/// Loaded font identity plus the font program it was loaded from.
#[derive(Debug, Eq)]
pub struct FontData {
    /// Stable font identity.
    pub id: FontId,
    /// Canonical font family or face name.
    pub canonical_name: String,
    bytes: Vec<u8>,
}

/// The plain contents of loaded font data.
pub struct FontDataModel {
    pub id: FontId,
    pub canonical_name: Seq<char>,
    pub bytes: Seq<u8>,
}

impl View for FontData {
    type V = FontDataModel;

    closed spec fn view(&self) -> FontDataModel {
        FontDataModel { id: self.id, canonical_name: self.canonical_name@, bytes: self.bytes@ }
    }
}

impl PartialEq for FontData {
    /// Font data are equal when their ids, canonical names and font programs are.
    fn eq(&self, other: &Self) -> (r: bool) {
        self.id == other.id && str_eq(self.canonical_name.as_str(), other.canonical_name.as_str())
            && bytes_eq(self.bytes.as_slice(), other.bytes.as_slice())
    }
}

impl vstd::std_specs::cmp::PartialEqSpecImpl for FontData {
    open spec fn obeys_eq_spec() -> bool {
        true
    }

    open spec fn eq_spec(&self, other: &Self) -> bool {
        self@ == other@
    }
}

impl FontData {
    /// Create font data from an id, canonical name, and the font program's bytes.
    pub fn new(id: FontId, canonical_name: &str, bytes: &[u8]) -> (r: Self)
        ensures
            r@ == (FontDataModel { id, canonical_name: canonical_name@, bytes: bytes@ }),
    {
        FontData { id, canonical_name: canonical_name.to_owned(), bytes: bytes_to_vec(bytes) }
    }

    /// The font's id.
    pub(crate) fn font_id(&self) -> (r: FontId)
        ensures
            r == self@.id,
    {
        self.id
    }

    /// The font program's bytes, which this library always holds.
    pub fn bytes(&self) -> (r: Option<&[u8]>)
        ensures
            r matches Some(b) && b@ == self@.bytes,
    {
        Some(self.bytes.as_slice())
    }
}

impl Clone for FontData {
    fn clone(&self) -> (r: Self)
        ensures
            r@ == self@,
    {
        FontData {
            id: self.id,
            canonical_name: self.canonical_name.clone(),
            bytes: bytes_to_vec(self.bytes.as_slice()),
        }
    }
}

/// The plain contents of a font loading result.
pub open spec fn font_result(r: Result<FontData, FontError>) -> Result<FontDataModel, FontError> {
    match r {
        Ok(f) => Ok(f@),
        Err(e) => Err(e),
    }
}

/// Font loading and text shaping.
pub trait FontSystem {
    /// Whether `result` is an answer this system gives to a font query; a system that does
    /// not describe its answers may give any.
    open spec fn font_answer(&self, query: FontQuery, result: Result<FontDataModel, FontError>) -> bool {
        true
    }

    /// Whether `result` is an answer this system gives to a shaping request; a system that
    /// does not describe its answers may give any.
    open spec fn shape_answer(&self, request: ShapeRequest<'_>, result: Result<ShapedText, FontError>) -> bool {
        true
    }

    /// Load a font for a query.
    fn load_font(&self, query: &FontQuery) -> (r: Result<FontData, FontError>)
        ensures
            self.font_answer(*query, font_result(r)),
    ;

    /// Shape text into positioned glyphs.
    fn shape_text(&self, request: &ShapeRequest<'_>) -> (r: Result<ShapedText, FontError>)
        ensures
            self.shape_answer(*request, r),
    ;
}

/// Font loading half of a font system.
pub trait FontLoader {
    /// Whether `result` is an answer this loader gives to a font query; a loader that does
    /// not describe its answers may give any.
    open spec fn loader_answer(&self, query: FontQuery, result: Result<FontDataModel, FontError>) -> bool {
        true
    }

    /// Load a font for a query.
    fn load_font(&self, query: &FontQuery) -> (r: Result<FontData, FontError>)
        ensures
            self.loader_answer(*query, font_result(r)),
    ;
}

/// Text shaping half of a font system, decoupled from any concrete shaper crate.
pub trait TextShaper {
    /// Whether `result` is an answer this shaper gives to a shaping request; a shaper that
    /// does not describe its answers may give any.
    open spec fn shaper_answer(&self, request: ShapeRequest<'_>, result: Result<ShapedText, FontError>) -> bool {
        true
    }

    /// Shape text into positioned glyphs.
    fn shape_text(&self, request: &ShapeRequest<'_>) -> (r: Result<ShapedText, FontError>)
        ensures
            self.shaper_answer(*request, r),
    ;
}

impl<T: FontSystem + ?Sized> FontSystem for &T {
    open spec fn font_answer(&self, query: FontQuery, result: Result<FontDataModel, FontError>) -> bool {
        (**self).font_answer(query, result)
    }

    open spec fn shape_answer(&self, request: ShapeRequest<'_>, result: Result<ShapedText, FontError>) -> bool {
        (**self).shape_answer(request, result)
    }

    fn load_font(&self, query: &FontQuery) -> (r: Result<FontData, FontError>) {
        (**self).load_font(query)
    }

    fn shape_text(&self, request: &ShapeRequest<'_>) -> (r: Result<ShapedText, FontError>) {
        (**self).shape_text(request)
    }
}

impl<T: FontLoader + ?Sized> FontLoader for &T {
    open spec fn loader_answer(&self, query: FontQuery, result: Result<FontDataModel, FontError>) -> bool {
        (**self).loader_answer(query, result)
    }

    fn load_font(&self, query: &FontQuery) -> (r: Result<FontData, FontError>) {
        (**self).load_font(query)
    }
}

impl<T: TextShaper + ?Sized> TextShaper for &T {
    open spec fn shaper_answer(&self, request: ShapeRequest<'_>, result: Result<ShapedText, FontError>) -> bool {
        (**self).shaper_answer(request, result)
    }

    fn shape_text(&self, request: &ShapeRequest<'_>) -> (r: Result<ShapedText, FontError>) {
        (**self).shape_text(request)
    }
}

/// The answer to a query for a family that is not there: not found, naming the family.
pub open spec fn missing_family(query: FontQuery, result: Result<FontDataModel, FontError>) -> bool {
    result matches Err(FontError::NotFound { family }) && family@ == query.family@
}

/// Deterministic empty font system: it finds no font and shapes no text.
#[derive(Clone, Copy, Debug)]
pub struct NoFontSystem;

impl Default for NoFontSystem {
    fn default() -> (r: Self) {
        NoFontSystem
    }
}

impl FontSystem for NoFontSystem {
    open spec fn font_answer(&self, query: FontQuery, result: Result<FontDataModel, FontError>) -> bool {
        missing_family(query, result)
    }

    open spec fn shape_answer(&self, request: ShapeRequest<'_>, result: Result<ShapedText, FontError>) -> bool {
        result matches Err(FontError::ShapingUnsupported { message }) && message@
            == "no font shaper configured"@
    }

    fn load_font(&self, query: &FontQuery) -> (r: Result<FontData, FontError>) {
        Err(FontError::NotFound { family: query.family.clone() })
    }

    fn shape_text(&self, request: &ShapeRequest<'_>) -> (r: Result<ShapedText, FontError>) {
        Err(FontError::ShapingUnsupported { message: "no font shaper configured".to_owned() })
    }
}

/// Font system assembled from independent loading and shaping services.
#[derive(Clone, Debug, PartialEq, Eq)]
pub struct ComposedFontSystem<L, S> {
    loader: L,
    shaper: S,
}

impl<L, S> ComposedFontSystem<L, S> {
    /// The loading service.
    pub closed spec fn spec_loader(&self) -> L {
        self.loader
    }

    /// The shaping service.
    pub closed spec fn spec_shaper(&self) -> S {
        self.shaper
    }

    /// Create a font system from a loader and shaper.
    pub fn new(loader: L, shaper: S) -> (r: Self)
        ensures
            r.spec_loader() == loader,
            r.spec_shaper() == shaper,
    {
        ComposedFontSystem { loader, shaper }
    }

    /// Borrow the font loader.
    pub fn loader(&self) -> (r: &L)
        ensures
            *r == self.spec_loader(),
    {
        &self.loader
    }

    /// Borrow the text shaper.
    pub fn shaper(&self) -> (r: &S)
        ensures
            *r == self.spec_shaper(),
    {
        &self.shaper
    }

    /// Split this font system into its loader and shaper.
    pub fn into_parts(self) -> (r: (L, S))
        ensures
            r == (self.spec_loader(), self.spec_shaper()),
    {
        (self.loader, self.shaper)
    }
}

impl<L: FontLoader, S: TextShaper> FontSystem for ComposedFontSystem<L, S> {
    open spec fn font_answer(&self, query: FontQuery, result: Result<FontDataModel, FontError>) -> bool {
        self.spec_loader().loader_answer(query, result)
    }

    open spec fn shape_answer(&self, request: ShapeRequest<'_>, result: Result<ShapedText, FontError>) -> bool {
        self.spec_shaper().shaper_answer(request, result)
    }

    fn load_font(&self, query: &FontQuery) -> (r: Result<FontData, FontError>) {
        self.loader.load_font(query)
    }

    fn shape_text(&self, request: &ShapeRequest<'_>) -> (r: Result<ShapedText, FontError>) {
        self.shaper.shape_text(request)
    }
}

/// Matches fonts by canonical name.
pub open spec fn font_named(name: Seq<char>) -> spec_fn(FontData) -> bool {
    |f: FontData| f@.canonical_name == name
}

/// Byte width of the UTF-8 encoding of `c`, as `char::len_utf8` gives it.
pub open spec fn utf8_width(c: char) -> nat {
    let u = c as u32;
    if u < 0x80 {
        1
    } else if u < 0x800 {
        2
    } else if u < 0x10000 {
        3
    } else {
        4
    }
}

/// Byte offset of character `k` of `s` in its UTF-8 encoding.
pub open spec fn utf8_offset(s: Seq<char>, k: int) -> nat
    decreases k,
{
    if k <= 0 {
        0
    } else {
        utf8_offset(s, k - 1) + utf8_width(s[k - 1])
    }
}

/// Where the cluster of a fallback glyph starts: at the character's byte offset, moved by
/// the source span's start when there is one (32-bit arithmetic that wraps).
pub open spec fn fallback_start(source: Option<ByteSpan>, offset: nat) -> u32 {
    match source {
        Some(span) => vstd::wrapping::u32_specs::wrapping_add(span.start, offset as u32),
        None => offset as u32,
    }
}

/// The fallback glyph for character `k` of `s`: the code point as glyph id, one em of
/// advance, placed `k` ems along, with the character's bytes as its cluster.
pub open spec fn fallback_glyph(s: Seq<char>, k: int, source: Option<ByteSpan>) -> PositionedGlyph {
    let start = fallback_start(source, utf8_offset(s, k));
    PositionedGlyph {
        glyph_id: GlyphId(s[k] as u32),
        offset: Point {
            x: Length(vstd::wrapping::i32_specs::wrapping_mul(k as i32, 65536)),
            y: Length(0),
        },
        advance: Point { x: Length(65536), y: Length(0) },
        cluster: Some(
            ByteSpan {
                start,
                end: vstd::wrapping::u32_specs::wrapping_add(start, utf8_width(s[k]) as u32),
            },
        ),
    }
}

/// One fallback glyph per character of the text.
pub open spec fn fallback_glyphs(s: Seq<char>, source: Option<ByteSpan>) -> Seq<PositionedGlyph> {
    Seq::new(s.len(), |k: int| fallback_glyph(s, k, source))
}

/// The UTF-8 bytes of `s` from character `k` on, with the offset of `k`, are all of them.
proof fn lemma_utf8_offset(s: Seq<char>, k: int)
    requires
        0 <= k <= s.len(),
    ensures
        utf8_offset(s, k) + encode_utf8(s.subrange(k, s.len() as int)).len() == encode_utf8(s).len(),
        k <= utf8_offset(s, k),
    decreases k,
{
    if k == 0 {
        assert(s.subrange(0, s.len() as int) =~= s);
    } else {
        lemma_utf8_offset(s, k - 1);
        let t = s.subrange(k - 1, s.len() as int);
        assert(t.drop_first() =~= s.subrange(k, s.len() as int));
        assert(t[0] == s[k - 1]);
        char_is_scalar(t[0]);
        assert(encode_scalar(t[0] as u32).len() == utf8_width(t[0]));
        assert(encode_utf8(t) == encode_scalar(t[0] as u32) + encode_utf8(t.drop_first()));
    }
}

fn char_width(c: char) -> (r: usize)
    ensures
        r == utf8_width(c),
{
    let u = c as u32;
    if u < 0x80 {
        1
    } else if u < 0x800 {
        2
    } else if u < 0x10000 {
        3
    } else {
        4
    }
}

/// Font system backed by an in process font map, for embedded and browser environments.
#[derive(Clone, Debug, PartialEq, Eq)]
pub struct InMemoryFontSystem {
    fonts: Vec<FontData>,
    shape_without_native_engine: bool,
}

impl InMemoryFontSystem {
    /// No two stored fonts share a canonical name.
    pub closed spec fn well_formed(&self) -> bool {
        forall|i: int, j: int|
            0 <= i < j < self.fonts@.len() ==> self.fonts@[i]@.canonical_name
                != self.fonts@[j]@.canonical_name
    }

    /// The stored fonts.
    pub closed spec fn stored(&self) -> Seq<FontData> {
        self.fonts@
    }

    /// The font stored under a family name, if any.
    pub open spec fn spec_get(&self, family: Seq<char>) -> Option<FontDataModel> {
        match find_first(self.stored(), font_named(family)) {
            Some(f) => Some(f@),
            None => None,
        }
    }

    /// The number of stored fonts.
    pub closed spec fn spec_len(&self) -> nat {
        self.fonts@.len()
    }

    /// Whether text is shaped by the deterministic fallback.
    pub closed spec fn spec_fallback(&self) -> bool {
        self.shape_without_native_engine
    }

    /// Create an empty in memory font system.
    pub fn new() -> (r: Self)
        ensures
            r.well_formed(),
            r.spec_len() == 0,
            !r.spec_fallback(),
            forall|family: Seq<char>| r.spec_get(family) is None,
    {
        InMemoryFontSystem { fonts: Vec::new(), shape_without_native_engine: false }
    }

    /// Enable deterministic fallback shaping for tests and bootstrap, without a native
    /// shaping engine.
    pub fn with_fallback_shaping(self) -> (r: Self)
        ensures
            r.spec_fallback(),
            r.stored() == self.stored(),
            r.well_formed() == self.well_formed(),
    {
        let mut out = self;
        out.shape_without_native_engine = true;
        out
    }

    /// Add a font by family name and return `self`.
    pub fn with_font(self, family: &str, bytes: &[u8]) -> (r: Self)
        requires
            self.well_formed(),
        ensures
            r.well_formed(),
            r.spec_get(family@) == Some(
                FontDataModel { id: FontId(self.spec_len() as u32), canonical_name: family@, bytes: bytes@ },
            ),
            forall|f: Seq<char>| f != family@ ==> r.spec_get(f) == self.spec_get(f),
            r.spec_len() == self.spec_len() + if self.spec_get(family@) is Some {
                0nat
            } else {
                1nat
            },
            r.spec_fallback() == self.spec_fallback(),
    {
        let mut out = self;
        out.insert(family, bytes);
        out
    }

    /// Insert or replace a font; its id is the number of fonts stored before.
    pub fn insert(&mut self, family: &str, bytes: &[u8])
        requires
            old(self).well_formed(),
        ensures
            final(self).well_formed(),
            final(self).spec_get(family@) == Some(
                FontDataModel { id: FontId(old(self).spec_len() as u32), canonical_name: family@, bytes: bytes@ },
            ),
            forall|f: Seq<char>| f != family@ ==> final(self).spec_get(f) == old(self).spec_get(f),
            final(self).spec_len() == old(self).spec_len() + if old(self).spec_get(family@) is Some {
                0nat
            } else {
                1nat
            },
            final(self).spec_fallback() == old(self).spec_fallback(),
    {
        #[verifier::truncate]
        let id = FontId(self.fonts.len() as u32);
        let font = FontData::new(id, family, bytes);
        self.insert_font_data(font);
    }

    /// Add a font the application already constructed and return `self`.
    pub fn with_font_data(self, font: FontData) -> (r: Self)
        requires
            self.well_formed(),
        ensures
            r.well_formed(),
            r.spec_get(font@.canonical_name) == Some(font@),
            forall|f: Seq<char>| f != font@.canonical_name ==> r.spec_get(f) == self.spec_get(f),
            r.spec_len() == self.spec_len() + if self.spec_get(font@.canonical_name) is Some {
                0nat
            } else {
                1nat
            },
            r.spec_fallback() == self.spec_fallback(),
    {
        let mut out = self;
        out.insert_font_data(font);
        out
    }

    /// Insert or replace a font keyed by its canonical name.
    pub fn insert_font_data(&mut self, font: FontData)
        requires
            old(self).well_formed(),
        ensures
            final(self).well_formed(),
            final(self).spec_get(font@.canonical_name) == Some(font@),
            forall|f: Seq<char>| f != font@.canonical_name ==> final(self).spec_get(f) == old(self).spec_get(f),
            final(self).spec_len() == old(self).spec_len() + if old(self).spec_get(
                font@.canonical_name,
            ) is Some {
                0nat
            } else {
                1nat
            },
            final(self).spec_fallback() == old(self).spec_fallback(),
    {
        let ghost name = font@.canonical_name;
        let ghost old_store = self.fonts@;
        let ghost f_g = font;
        let mut i: usize = 0;
        while i < self.fonts.len()
            invariant
                0 <= i <= self.fonts@.len(),
                self.fonts@ == old_store,
                old(self).fonts@ == old_store,
                old(self).well_formed(),
                self.shape_without_native_engine == old(self).shape_without_native_engine,
                f_g == font,
                name == f_g@.canonical_name,
                forall|j: int| 0 <= j < i ==> !(font_named(name))(#[trigger] self.fonts@[j]),
            decreases self.fonts@.len() - i,
        {
            if str_eq(self.fonts[i].canonical_name.as_str(), font.canonical_name.as_str()) {
                proof {
                    assert(self.fonts@[i as int]@.canonical_name == self.fonts@[i as int].canonical_name@);
                    assert((font_named(name))(self.fonts@[i as int]));
                    lemma_first_index_is(old_store, font_named(name), i as int);
                }
                self.fonts.set(i, font);
                proof {
                    assert(self.fonts@ == old_store.update(i as int, f_g));
                    assert forall|n: Seq<char>| n != name implies #[trigger] find_first(
                        self.fonts@,
                        font_named(n),
                    ) == find_first(old_store, font_named(n)) by {
                        lemma_update_other_font(old_store, i as int, f_g, n);
                    }
                    assert((font_named(name))(self.fonts@[i as int]));
                    lemma_first_index_is(self.fonts@, font_named(name), i as int);
                    assert forall|a: int, b: int|
                        0 <= a < b < self.fonts@.len() implies self.fonts@[a]@.canonical_name
                        != self.fonts@[b]@.canonical_name by {
                        if a != i && b != i {
                            assert(self.fonts@[a] == old_store[a]);
                            assert(self.fonts@[b] == old_store[b]);
                        } else if a == i {
                            assert(self.fonts@[b] == old_store[b]);
                        } else {
                            assert(self.fonts@[a] == old_store[a]);
                        }
                    }
                }
                return;
            }
            assert(!(font_named(name))(self.fonts@[i as int]));
            i += 1;
        }
        proof {
            lemma_first_index_is(old_store, font_named(name), i as int);
        }
        let ghost before = self.fonts@;
        self.fonts.push(font);
        proof {
            assert(self.fonts@ == before.push(f_g));
            assert forall|a: int, b: int|
                0 <= a < b < self.fonts@.len() implies self.fonts@[a]@.canonical_name
                != self.fonts@[b]@.canonical_name by {
                assert(self.fonts@[a] == before[a]);
                if b < before.len() {
                    assert(self.fonts@[b] == before[b]);
                } else {
                    assert(!(font_named(name))(before[a]));
                }
            }
            lemma_first_index_is(self.fonts@, font_named(name), i as int);
            assert forall|n: Seq<char>| n != name implies #[trigger] find_first(
                self.fonts@,
                font_named(n),
            ) == find_first(before, font_named(n)) by {
                lemma_push_other_font(before, f_g, n);
            }
        }
    }
}

proof fn lemma_update_other_font(s: Seq<FontData>, i: int, x: FontData, n: Seq<char>)
    requires
        0 <= i < s.len(),
        (font_named(x@.canonical_name))(s[i]),
        n != x@.canonical_name,
    ensures
        find_first(s.update(i, x), font_named(n)) == find_first(s, font_named(n)),
{
    let p = font_named(n);
    let t = s.update(i, x);
    lemma_first_index(s, p);
    let f = crate::seqs::first_index(s, p);
    assert(!p(s[i]));
    assert(!p(t[i]));
    assert forall|j: int| 0 <= j < f implies !p(#[trigger] t[j]) by {
        if j != i {
            assert(t[j] == s[j]);
        }
    }
    if f < s.len() {
        assert(f != i);
        assert(t[f] == s[f]);
    }
    lemma_first_index_is(t, p, f);
}

proof fn lemma_push_other_font(s: Seq<FontData>, x: FontData, n: Seq<char>)
    requires
        n != x@.canonical_name,
    ensures
        find_first(s.push(x), font_named(n)) == find_first(s, font_named(n)),
{
    let p = font_named(n);
    lemma_first_index_push(s, p, x);
    lemma_first_index(s, p);
    let f = crate::seqs::first_index(s, p);
    if f < s.len() {
        assert(s.push(x)[f] == s[f]);
    }
}

impl Default for InMemoryFontSystem {
    fn default() -> (r: Self)
        ensures
            r.well_formed(),
            r.spec_len() == 0,
            !r.spec_fallback(),
    {
        InMemoryFontSystem::new()
    }
}

/// The answer of an in memory font system to a query: the font stored under the family.
pub open spec fn stored_answer(
    fonts: &InMemoryFontSystem,
    query: FontQuery,
    result: Result<FontDataModel, FontError>,
) -> bool {
    match fonts.spec_get(query.family@) {
        Some(m) => result == Ok::<FontDataModel, FontError>(m),
        None => missing_family(query, result),
    }
}

/// The answer of an in memory font system to a shaping request: the fallback glyphs when
/// fallback shaping is on, unsupported otherwise.
pub open spec fn fallback_answer(
    fonts: &InMemoryFontSystem,
    request: ShapeRequest<'_>,
    result: Result<ShapedText, FontError>,
) -> bool {
    if fonts.spec_fallback() {
        result matches Ok(t) && t.glyphs@ == fallback_glyphs(request.text@, request.source)
    } else {
        result matches Err(FontError::ShapingUnsupported { message }) && message@
            == "fallback shaping is disabled"@
    }
}

impl InMemoryFontSystem {
    fn lookup(&self, query: &FontQuery) -> (r: Result<FontData, FontError>)
        ensures
            stored_answer(self, *query, font_result(r)),
    {
        let ghost p = font_named(query.family@);
        let mut i: usize = 0;
        while i < self.fonts.len()
            invariant
                0 <= i <= self.fonts@.len(),
                p == font_named(query.family@),
                forall|j: int| 0 <= j < i ==> !p(#[trigger] self.fonts@[j]),
            decreases self.fonts@.len() - i,
        {
            if str_eq(self.fonts[i].canonical_name.as_str(), query.family.as_str()) {
                proof {
                    assert(self.fonts@[i as int]@.canonical_name == self.fonts@[i as int].canonical_name@);
                    lemma_first_index_is(self.fonts@, p, i as int);
                }
                return Ok(self.fonts[i].clone());
            }
            proof {
                assert(self.fonts@[i as int]@.canonical_name == self.fonts@[i as int].canonical_name@);
            }
            i += 1;
        }
        proof {
            lemma_first_index_is(self.fonts@, p, i as int);
        }
        Err(FontError::NotFound { family: query.family.clone() })
    }

    fn fallback_shape(&self, request: &ShapeRequest<'_>) -> (r: Result<ShapedText, FontError>)
        ensures
            fallback_answer(self, *request, r),
    {
        if !self.shape_without_native_engine {
            return Err(
                FontError::ShapingUnsupported { message: "fallback shaping is disabled".to_owned() },
            );
        }
        broadcast use vstd::string::group_string_axioms;

        let text = request.text;
        let ghost s = text@;
        let bytes = text.as_bytes();
        let n = bytes.len();
        assert(bytes@ == encode_utf8(s));
        proof {
            lemma_utf8_offset(s, 0);
            lemma_utf8_offset(s, s.len() as int);
        }
        let mut glyphs: Vec<PositionedGlyph> = Vec::new();
        let mut index: usize = 0;
        let mut offset: usize = 0;
        for c in it: text.chars()
            invariant
                s == text@,
                n == encode_utf8(s).len(),
                it.seq() == s,
                index == it.index(),
                0 <= index <= s.len(),
                offset == utf8_offset(s, index as int),
                offset + encode_utf8(s.subrange(index as int, s.len() as int)).len() == n,
                index <= offset,
                glyphs@ == fallback_glyphs(s, request.source).take(index as int),
        {
            proof {
                lemma_utf8_offset(s, index + 1);
            }
            let width = char_width(c);
            let start = match request.source {
                Some(span) => span.start.wrapping_add(offset as u32),
                None => offset as u32,
            };
            #[verifier::truncate]
            let k = index as i32;
            let glyph = PositionedGlyph {
                glyph_id: GlyphId(c as u32),
                offset: Point { x: Length(k.wrapping_mul(65536)), y: Length(0) },
                advance: Point { x: Length(65536), y: Length(0) },
                cluster: Some(ByteSpan { start, end: start.wrapping_add(width as u32) }),
            };
            assert(glyph == fallback_glyph(s, index as int, request.source));
            glyphs.push(glyph);
            assert(glyphs@ =~= fallback_glyphs(s, request.source).take(index + 1));
            index += 1;
            offset += width;
        }
        assert(fallback_glyphs(s, request.source).take(s.len() as int) =~= fallback_glyphs(s, request.source));
        Ok(ShapedText { glyphs })
    }
}

impl FontSystem for InMemoryFontSystem {
    open spec fn font_answer(&self, query: FontQuery, result: Result<FontDataModel, FontError>) -> bool {
        stored_answer(self, query, result)
    }

    open spec fn shape_answer(&self, request: ShapeRequest<'_>, result: Result<ShapedText, FontError>) -> bool {
        fallback_answer(self, request, result)
    }

    fn load_font(&self, query: &FontQuery) -> (r: Result<FontData, FontError>) {
        self.lookup(query)
    }

    fn shape_text(&self, request: &ShapeRequest<'_>) -> (r: Result<ShapedText, FontError>) {
        self.fallback_shape(request)
    }
}

impl FontLoader for InMemoryFontSystem {
    open spec fn loader_answer(&self, query: FontQuery, result: Result<FontDataModel, FontError>) -> bool {
        stored_answer(self, query, result)
    }

    fn load_font(&self, query: &FontQuery) -> (r: Result<FontData, FontError>) {
        self.lookup(query)
    }
}

impl TextShaper for InMemoryFontSystem {
    open spec fn shaper_answer(&self, request: ShapeRequest<'_>, result: Result<ShapedText, FontError>) -> bool {
        fallback_answer(self, request, result)
    }

    fn shape_text(&self, request: &ShapeRequest<'_>) -> (r: Result<ShapedText, FontError>) {
        self.fallback_shape(request)
    }
}

/// The first character start in `b` after `from`, or the end of `b`.
pub open spec fn next_char_start(b: Seq<u8>, from: int) -> int
    decreases b.len() - from,
{
    if from + 1 >= b.len() {
        b.len() as int
    } else if !is_continuation_byte(b[from + 1]) {
        from + 1
    } else {
        next_char_start(b, from + 1)
    }
}

/// `x + y` in 32 bits, held at the maximum.
pub open spec fn sat_add(x: u32, y: u32) -> u32 {
    if x + y > u32::MAX {
        u32::MAX
    } else {
        (x + y) as u32
    }
}

/// The source span of a shaped cluster: from the cluster's byte offset (at most the text's
/// length) to the start of the next character, both moved by the source start and the end
/// held within the source span.
pub open spec fn cluster_span(text: Seq<char>, source: ByteSpan, cluster: u32) -> ByteSpan {
    let b = encode_utf8(text);
    let start = if cluster <= b.len() {
        cluster as int
    } else {
        b.len() as int
    };
    let end = next_char_start(b, start);
    let shifted_end = sat_add(source.start, end as u32);
    ByteSpan {
        start: sat_add(source.start, start as u32),
        end: if shifted_end <= source.end {
            shifted_end
        } else {
            source.end
        },
    }
}

fn next_start(b: &[u8], from: usize) -> (r: usize)
    requires
        from <= b@.len(),
    ensures
        r == next_char_start(b@, from as int),
{
    let mut i = from;
    while b.len() - i > 1
        invariant
            from <= i < b@.len() || i == from,
            i <= b@.len(),
            next_char_start(b@, from as int) == next_char_start(b@, i as int),
        decreases b@.len() - i,
    {
        if b[i + 1] < 0x80 || b[i + 1] > 0xbf {
            return i + 1;
        }
        i += 1;
    }
    b.len()
}

/// Maps a shaper cluster (a byte offset into the shaped text) to a span of the source.
pub fn cluster_source_span(text: &str, source: ByteSpan, cluster: u32) -> (r: ByteSpan)
    ensures
        r == cluster_span(text@, source, cluster),
{
    let b = text.as_bytes();
    let ghost bv = encode_utf8(text@);
    assert(b@ == bv);
    let len = b.len();
    let start: usize = if (cluster as u64) <= (len as u64) {
        cluster as usize
    } else {
        len
    };
    let end = next_start(b, start);
    #[verifier::truncate]
    let start32 = start as u32;
    #[verifier::truncate]
    let end32 = end as u32;
    let shifted_end = source.start.saturating_add(end32);
    ByteSpan {
        start: source.start.saturating_add(start32),
        end: if shifted_end <= source.end {
            shifted_end
        } else {
            source.end
        },
    }
}

/// Index of the first kern height above a correction height among the `count` heights of a
/// math kern table (a height that cannot be read never stops the search), or `count`.
pub open spec fn kern_index(heights: Seq<Option<i16>>, correction_height: i32) -> int {
    crate::seqs::first_index(
        heights,
        |h: Option<i16>| h matches Some(v) && correction_height < v as i32,
    )
}

/// The value of an OpenType `MathKern` table at a correction height in design units: the
/// kern at the index of the first height above it, 0 when that kern cannot be read.
pub open spec fn kern_value(heights: Seq<Option<i16>>, kerns: Seq<Option<i16>>, correction_height: i32) -> i32 {
    let k = kern_index(heights, correction_height);
    if k < kerns.len() {
        match kerns[k] {
            Some(v) => v as i32,
            None => 0,
        }
    } else {
        0
    }
}

fn kern_height_above(h: Option<i16>, correction_height: i32) -> (r: bool)
    ensures
        r == (h matches Some(v) && correction_height < v as i32),
{
    match h {
        Some(v) => correction_height < v as i32,
        None => false,
    }
}

/// Evaluates a math kern table, given as its readable heights and kerns, at a correction
/// height.
pub fn math_kern_value(heights: &[Option<i16>], kerns: &[Option<i16>], correction_height: i32) -> (r: i32)
    ensures
        r == kern_value(heights@, kerns@, correction_height),
{
    let ghost p = |h: Option<i16>| h matches Some(v) && correction_height < v as i32;
    let mut i: usize = 0;
    while i < heights.len() && !kern_height_above(heights[i], correction_height)
        invariant
            p == (|h: Option<i16>| h matches Some(v) && correction_height < v as i32),
            0 <= i <= heights@.len(),
            forall|j: int| 0 <= j < i ==> !p(#[trigger] heights@[j]),
        decreases heights@.len() - i,
    {
        i += 1;
    }
    proof {
        if i < heights@.len() {
            assert(p(heights@[i as int]));
        }
        lemma_first_index_is(heights@, p, i as int);
    }
    if i < kerns.len() {
        match kerns[i] {
            Some(v) => v as i32,
            None => 0,
        }
    } else {
        0
    }
}

/// Where a math font parameter of TeX's symbol or extension fonts comes from.
#[derive(Clone, Copy, Debug, PartialEq, Eq, Structural)]
pub enum MathParameterSource {
    /// The OpenType math constant with this index, scaled to the font size (or a percentage).
    Constant(i32),
    /// The font size itself (the quad).
    Size,
    /// The smaller of one and a half times the font size and the `delim1` parameter.
    DelimiterLimit,
    /// Not provided: zero.
    Zero,
}

/// The source of TeX symbol font (`\fam2`) parameter `parameter` in an OpenType math font.
pub open spec fn symbol_parameter_source(parameter: i32) -> MathParameterSource {
    if parameter == 5 {
        MathParameterSource::Constant(6)
    } else if parameter == 6 {
        MathParameterSource::Size
    } else if parameter == 8 {
        MathParameterSource::Constant(33)
    } else if parameter == 9 {
        MathParameterSource::Constant(32)
    } else if parameter == 10 {
        MathParameterSource::Constant(22)
    } else if parameter == 11 {
        MathParameterSource::Constant(35)
    } else if parameter == 12 {
        MathParameterSource::Constant(34)
    } else if parameter == 13 || parameter == 14 {
        MathParameterSource::Constant(11)
    } else if parameter == 15 {
        MathParameterSource::Constant(12)
    } else if parameter == 16 || parameter == 17 {
        MathParameterSource::Constant(8)
    } else if parameter == 18 {
        MathParameterSource::Constant(14)
    } else if parameter == 19 {
        MathParameterSource::Constant(10)
    } else if parameter == 20 {
        MathParameterSource::Constant(2)
    } else if parameter == 21 {
        MathParameterSource::DelimiterLimit
    } else if parameter == 22 {
        MathParameterSource::Constant(5)
    } else {
        MathParameterSource::Zero
    }
}

/// The source of TeX symbol font parameter `parameter` in an OpenType math font.
pub fn math_symbol_parameter_source(parameter: i32) -> (r: MathParameterSource)
    ensures
        r == symbol_parameter_source(parameter),
{
    match parameter {
        5 => MathParameterSource::Constant(6),
        6 => MathParameterSource::Size,
        8 => MathParameterSource::Constant(33),
        9 => MathParameterSource::Constant(32),
        10 => MathParameterSource::Constant(22),
        11 => MathParameterSource::Constant(35),
        12 => MathParameterSource::Constant(34),
        13 | 14 => MathParameterSource::Constant(11),
        15 => MathParameterSource::Constant(12),
        16 | 17 => MathParameterSource::Constant(8),
        18 => MathParameterSource::Constant(14),
        19 => MathParameterSource::Constant(10),
        20 => MathParameterSource::Constant(2),
        21 => MathParameterSource::DelimiterLimit,
        22 => MathParameterSource::Constant(5),
        _ => MathParameterSource::Zero,
    }
}

/// The source of TeX extension font (`\fam3`) parameter `parameter` in an OpenType math
/// font.
pub open spec fn extension_parameter_source(parameter: i32) -> MathParameterSource {
    if parameter == 5 {
        MathParameterSource::Constant(6)
    } else if parameter == 6 {
        MathParameterSource::Size
    } else if parameter == 8 {
        MathParameterSource::Constant(38)
    } else if parameter == 9 {
        MathParameterSource::Constant(18)
    } else if parameter == 10 {
        MathParameterSource::Constant(20)
    } else if parameter == 11 {
        MathParameterSource::Constant(19)
    } else if parameter == 12 {
        MathParameterSource::Constant(21)
    } else if parameter == 13 {
        MathParameterSource::Constant(26)
    } else {
        MathParameterSource::Zero
    }
}

/// The source of TeX extension font parameter `parameter` in an OpenType math font.
pub fn math_extension_parameter_source(parameter: i32) -> (r: MathParameterSource)
    ensures
        r == extension_parameter_source(parameter),
{
    match parameter {
        5 => MathParameterSource::Constant(6),
        6 => MathParameterSource::Size,
        8 => MathParameterSource::Constant(38),
        9 => MathParameterSource::Constant(18),
        10 => MathParameterSource::Constant(20),
        11 => MathParameterSource::Constant(19),
        12 => MathParameterSource::Constant(21),
        13 => MathParameterSource::Constant(26),
        _ => MathParameterSource::Zero,
    }
}

/// The OpenType `MathConstants` records that TeX's font parameters are read from.
#[derive(Clone, Copy, Debug, PartialEq, Eq, Structural)]
pub enum MathConstant {
    /// Least height of a delimited subformula.
    DelimitedSubFormulaMinHeight,
    /// Height of the math axis.
    AxisHeight,
    /// Height up to which a base needs no raised accent.
    AccentBaseHeight,
    /// Standard shift down of a subscript.
    SubscriptShiftDown,
    /// Least drop of a subscript baseline below the base's bottom.
    SubscriptBaselineDropMin,
    /// Standard shift up of a superscript.
    SuperscriptShiftUp,
    /// Shift up of a superscript in a cramped style.
    SuperscriptShiftUpCramped,
    /// Greatest drop of a superscript baseline below the base's top.
    SuperscriptBaselineDropMax,
    /// Least gap between an upper limit and the operator.
    UpperLimitGapMin,
    /// Least rise of an upper limit baseline above the operator.
    UpperLimitBaselineRiseMin,
    /// Least gap between a lower limit and the operator.
    LowerLimitGapMin,
    /// Least drop of a lower limit baseline below the operator.
    LowerLimitBaselineDropMin,
    /// Standard shift up of a stack's top element.
    StackTopShiftUp,
    /// Least gap between the elements of a stack.
    StackGapMin,
    /// Standard shift up of a fraction numerator.
    FractionNumeratorShiftUp,
    /// Shift up of a fraction numerator in display style.
    FractionNumeratorDisplayStyleShiftUp,
    /// Standard shift down of a fraction denominator.
    FractionDenominatorShiftDown,
    /// Shift down of a fraction denominator in display style.
    FractionDenominatorDisplayStyleShiftDown,
    /// Thickness of a fraction bar.
    FractionRuleThickness,
}

/// The index of a record in the OpenType `MathConstants` table, counting from its first
/// record, `ScriptPercentScaleDown`, in the order the OpenType specification lists them.
pub open spec fn math_constant_index(c: MathConstant) -> i32 {
    match c {
        MathConstant::DelimitedSubFormulaMinHeight => 2,
        MathConstant::AxisHeight => 5,
        MathConstant::AccentBaseHeight => 6,
        MathConstant::SubscriptShiftDown => 8,
        MathConstant::SubscriptBaselineDropMin => 10,
        MathConstant::SuperscriptShiftUp => 11,
        MathConstant::SuperscriptShiftUpCramped => 12,
        MathConstant::SuperscriptBaselineDropMax => 14,
        MathConstant::UpperLimitGapMin => 18,
        MathConstant::UpperLimitBaselineRiseMin => 19,
        MathConstant::LowerLimitGapMin => 20,
        MathConstant::LowerLimitBaselineDropMin => 21,
        MathConstant::StackTopShiftUp => 22,
        MathConstant::StackGapMin => 26,
        MathConstant::FractionNumeratorShiftUp => 32,
        MathConstant::FractionNumeratorDisplayStyleShiftUp => 33,
        MathConstant::FractionDenominatorShiftDown => 34,
        MathConstant::FractionDenominatorDisplayStyleShiftDown => 35,
        MathConstant::FractionRuleThickness => 38,
    }
}

/// The parameter comes from the given `MathConstants` record.
pub open spec fn from_constant(source: MathParameterSource, c: MathConstant) -> bool {
    source == MathParameterSource::Constant(math_constant_index(c))
}

/// Every TeX symbol font parameter from `num1` (8) to `axis_height` (22) is provided by an
/// OpenType math font, `delim2` (21) as a limit and every other one from a `MathConstants`
/// record; `x_height` (5) is too, and `quad` (6) is the font size. No other parameter is.
pub proof fn lemma_symbol_parameters_are_provided(parameter: i32)
    ensures
        8 <= parameter <= 22 && parameter != 21 ==> symbol_parameter_source(parameter) is Constant,
        parameter == 5 ==> symbol_parameter_source(parameter) is Constant,
        parameter == 6 ==> symbol_parameter_source(parameter) == MathParameterSource::Size,
        parameter == 21 ==> symbol_parameter_source(parameter) == MathParameterSource::DelimiterLimit,
        parameter < 5 || parameter == 7 || parameter > 22 ==> symbol_parameter_source(parameter)
            == MathParameterSource::Zero,
{
}

/// The TeX symbol font parameters follow the TeX to OpenType correspondence of
/// Unicode math engines: the fraction shifts `num1`, `num2`, `denom1`, `denom2` from the
/// fraction records (display style for the first of each pair), `num3` from the stack
/// top shift, `sup1`..`sup3`, `sub1`, `sub2` and the drops from the script records,
/// `delim1` from the delimited subformula height, `axis_height` and `x_height` from their
/// records.
pub proof fn lemma_symbol_parameters_follow_open_type()
    ensures
        from_constant(symbol_parameter_source(5), MathConstant::AccentBaseHeight),
        from_constant(symbol_parameter_source(8), MathConstant::FractionNumeratorDisplayStyleShiftUp),
        from_constant(symbol_parameter_source(9), MathConstant::FractionNumeratorShiftUp),
        from_constant(symbol_parameter_source(10), MathConstant::StackTopShiftUp),
        from_constant(symbol_parameter_source(11), MathConstant::FractionDenominatorDisplayStyleShiftDown),
        from_constant(symbol_parameter_source(12), MathConstant::FractionDenominatorShiftDown),
        from_constant(symbol_parameter_source(13), MathConstant::SuperscriptShiftUp),
        from_constant(symbol_parameter_source(14), MathConstant::SuperscriptShiftUp),
        from_constant(symbol_parameter_source(15), MathConstant::SuperscriptShiftUpCramped),
        from_constant(symbol_parameter_source(16), MathConstant::SubscriptShiftDown),
        from_constant(symbol_parameter_source(17), MathConstant::SubscriptShiftDown),
        from_constant(symbol_parameter_source(18), MathConstant::SuperscriptBaselineDropMax),
        from_constant(symbol_parameter_source(19), MathConstant::SubscriptBaselineDropMin),
        from_constant(symbol_parameter_source(20), MathConstant::DelimitedSubFormulaMinHeight),
        from_constant(symbol_parameter_source(22), MathConstant::AxisHeight),
{
}

/// The TeX extension font parameters follow the same correspondence: `default_rule_thickness`
/// from the fraction rule thickness, `big_op_spacing1` to `big_op_spacing4` from the limit
/// records, `big_op_spacing5` from the stack gap, `x_height` from its record.
pub proof fn lemma_extension_parameters_follow_open_type()
    ensures
        from_constant(extension_parameter_source(5), MathConstant::AccentBaseHeight),
        from_constant(extension_parameter_source(8), MathConstant::FractionRuleThickness),
        from_constant(extension_parameter_source(9), MathConstant::UpperLimitGapMin),
        from_constant(extension_parameter_source(10), MathConstant::LowerLimitGapMin),
        from_constant(extension_parameter_source(11), MathConstant::UpperLimitBaselineRiseMin),
        from_constant(extension_parameter_source(12), MathConstant::LowerLimitBaselineDropMin),
        from_constant(extension_parameter_source(13), MathConstant::StackGapMin),
        extension_parameter_source(6) == MathParameterSource::Size,
{
}

/// `x / 2` rounded toward zero, as Rust divides.
pub open spec fn half_toward_zero(x: int) -> int {
    if x >= 0 {
        x / 2
    } else {
        -((-x) / 2)
    }
}

/// The `delim2` limit: the smaller of one and a half times the size (rounded toward zero)
/// and `delim1`, held within `i32`.
pub open spec fn delimiter_limit(size: i32, delim1: i32) -> i32 {
    let a = half_toward_zero(size * 3);
    let m = if a <= delim1 {
        a
    } else {
        delim1 as int
    };
    if m < i32::MIN {
        i32::MIN
    } else {
        m as i32
    }
}

/// The `delim2` limit: the smaller of one and a half times the size and `delim1`.
pub fn math_delimiter_limit(size: i32, delim1: i32) -> (r: i32)
    ensures
        r == delimiter_limit(size, delim1),
{
    let p: i64 = size as i64 * 3;
    let a: i64 = if p >= 0 {
        p / 2
    } else {
        -((-p) / 2)
    };
    let m: i64 = if a <= delim1 as i64 {
        a
    } else {
        delim1 as i64
    };
    if m < i32::MIN as i64 {
        i32::MIN
    } else {
        m as i32
    }
}

/// Whether an OpenType math constant is a percentage, which is not scaled to the font size.
pub open spec fn is_percentage_constant(constant: i32) -> bool {
    constant == 0 || constant == 1 || constant == 55
}

/// Whether an OpenType math constant is a percentage, which is not scaled to the font size.
pub fn is_math_constant_percentage(constant: i32) -> (r: bool)
    ensures
        r == is_percentage_constant(constant),
{
    constant == 0 || constant == 1 || constant == 55
}

/// The clusters of fallback glyphs tile the text: each glyph's cluster ends where the next
/// one's starts (for texts whose UTF-8 encoding fits 32-bit offsets).
pub proof fn lemma_fallback_clusters_are_contiguous(s: Seq<char>, source: Option<ByteSpan>, k: int)
    requires
        0 <= k,
        k + 1 < s.len(),
        encode_utf8(s).len() <= u32::MAX,
    ensures
        fallback_glyph(s, k, source).cluster->0.end == fallback_glyph(s, k + 1, source).cluster->0.start,
{
    lemma_utf8_offset(s, k + 1);
    let o = utf8_offset(s, k);
    let w = utf8_width(s[k]);
    assert(utf8_offset(s, k + 1) == o + w);
    assert(o + w <= u32::MAX);
    assert((o as u32) as int == o);
    assert(((o + w) as u32) as int == o + w);
}

/// The debug text of the error `ttf_parser::Face::parse` gives for font bytes (face index
/// 0), or `None` when they parse.
pub uninterp spec fn face_parse_error(bytes: Seq<u8>) -> Option<Seq<char>>;

/// What `Face::glyph_index` gives for a character in the face parsed from font bytes
/// (`None` too when they do not parse).
pub uninterp spec fn face_glyph_index(bytes: Seq<u8>, c: char) -> Option<u16>;

/// What `Face::glyph_index_by_name` gives for a glyph name in the face parsed from font
/// bytes (`None` too when they do not parse).
pub uninterp spec fn face_glyph_by_name(bytes: Seq<u8>, name: Seq<char>) -> Option<u16>;

/// Whether the face parsed from font bytes has an OpenType `MATH` table.
pub uninterp spec fn face_has_math(bytes: Seq<u8>) -> bool;

/// `Face::number_of_glyphs` of the face parsed from font bytes.
pub uninterp spec fn face_glyph_count(bytes: Seq<u8>) -> u16;

/// The number of correction heights of the math kern table of a glyph corner, `None` when
/// the font has none for it.
pub uninterp spec fn face_kern_count(bytes: Seq<u8>, glyph: u16, corner: MathKernCorner) -> Option<u16>;

/// Correction height `index` of the math kern table of a glyph corner.
pub uninterp spec fn face_kern_height(bytes: Seq<u8>, glyph: u16, corner: MathKernCorner, index: u16) -> Option<i16>;

/// Kern value `index` of the math kern table of a glyph corner.
pub uninterp spec fn face_kern_value(bytes: Seq<u8>, glyph: u16, corner: MathKernCorner, index: u16) -> Option<i16>;

/// Parses font bytes with `ttf_parser::Face::parse` (face 0) and gives the `Debug` text of
/// its error, if any.
#[verifier::external_body]
fn parse_error_text(bytes: &[u8]) -> (r: Option<String>)
    ensures
        r is None <==> face_parse_error(bytes@) is None,
        r matches Some(m) ==> face_parse_error(bytes@) == Some(m@),
{
    ttf_parser::Face::parse(bytes, 0).err().map(|error| format!("{error:?}"))
}

/// `Face::glyph_index` on the face parsed from `bytes`.
#[verifier::external_body]
fn ttf_glyph_index(bytes: &[u8], c: char) -> (r: Option<u16>)
    ensures
        r == face_glyph_index(bytes@, c),
{
    ttf_parser::Face::parse(bytes, 0).ok().and_then(|face| face.glyph_index(c)).map(|glyph| glyph.0)
}

/// `Face::glyph_index_by_name` on the face parsed from `bytes`.
#[verifier::external_body]
fn ttf_glyph_by_name(bytes: &[u8], name: &str) -> (r: Option<u16>)
    ensures
        r == face_glyph_by_name(bytes@, name@),
{
    ttf_parser::Face::parse(bytes, 0).ok().and_then(|face| face.glyph_index_by_name(name)).map(
        |glyph| glyph.0,
    )
}

/// Whether `Face::tables().math` is present in the face parsed from `bytes`.
#[verifier::external_body]
fn ttf_has_math(bytes: &[u8]) -> (r: bool)
    ensures
        r == face_has_math(bytes@),
{
    ttf_parser::Face::parse(bytes, 0).map_or(false, |face| face.tables().math.is_some())
}

/// `Face::number_of_glyphs` of the face parsed from `bytes`.
#[verifier::external_body]
fn ttf_glyph_count(bytes: &[u8]) -> (r: u16)
    ensures
        r == face_glyph_count(bytes@),
{
    ttf_parser::Face::parse(bytes, 0).map_or(0, |face| face.number_of_glyphs())
}

/// The big-endian 16-bit value at a position of the font bytes, when it lies within them.
pub open spec fn be_u16_at(b: Seq<u8>, i: int) -> Option<int> {
    if 0 <= i && i + 1 < b.len() {
        Some(b[i] as int * 256 + b[i + 1] as int)
    } else {
        None
    }
}

/// The big-endian 32-bit value at a position of the font bytes, when it lies within them.
pub open spec fn be_u32_at(b: Seq<u8>, i: int) -> Option<int> {
    if 0 <= i && i + 3 < b.len() {
        Some(((b[i] as int * 256 + b[i + 1] as int) * 256 + b[i + 2] as int) * 256 + b[i + 3] as int)
    } else {
        None
    }
}

/// Where the table directory of the first face starts: at the front, or for a font
/// collection (`ttcf`) where its first offset points.
pub open spec fn face_directory(b: Seq<u8>) -> Option<int> {
    if b.len() >= 4 && b[0] == 0x74 && b[1] == 0x74 && b[2] == 0x63 && b[3] == 0x66 {
        be_u32_at(b, 12)
    } else {
        Some(0)
    }
}

/// The offset of table record `j` of the directory at `d`, when its tag is `MATH`.
pub open spec fn math_record_offset(b: Seq<u8>, d: int, j: int) -> Option<int> {
    let r = d + 12 + 16 * j;
    if 0 <= r && r + 3 < b.len() && b[r] == 0x4d && b[r + 1] == 0x41 && b[r + 2] == 0x54 && b[r + 3] == 0x48 {
        be_u32_at(b, r + 8)
    } else {
        None
    }
}

/// Where the MathKernInfo table of a MATH table at `t` starts: through the glyph info
/// offset at `t + 6` and the kern info offset at 6 into the glyph info, when both are set.
pub open spec fn kern_info_start(b: Seq<u8>, t: int) -> Option<int> {
    match be_u16_at(b, t + 6) {
        Some(g) => if g != 0 {
            match be_u16_at(b, t + g + 6) {
                Some(k) => if k != 0 {
                    Some(t + g + k)
                } else {
                    None
                },
                None => None,
            }
        } else {
            None
        },
        None => None,
    }
}

/// Corner `c` of kern info record `i` of the MathKernInfo table at `k` names a MathKern
/// table that declares 65535 correction heights.
pub open spec fn corner_overflows(b: Seq<u8>, k: int, i: int, c: int) -> bool {
    match be_u16_at(b, k + 4 + 8 * i + 2 * c) {
        Some(o) => o != 0 && be_u16_at(b, k + o) == Some(0xffffint),
        None => false,
    }
}

/// Some record of the MathKernInfo table at `k` names a MathKern table with 65535 heights.
pub open spec fn kern_info_overflows(b: Seq<u8>, k: int) -> bool {
    match be_u16_at(b, k + 2) {
        Some(n) => exists|i: int, c: int| 0 <= i < n && 0 <= c < 4 && #[trigger] corner_overflows(b, k, i, c),
        None => false,
    }
}

/// Table record `j` is no MATH table with such a MathKern table.
pub open spec fn math_record_fits(b: Seq<u8>, d: int, j: int) -> bool {
    match math_record_offset(b, d, j) {
        Some(t) => match kern_info_start(b, t) {
            Some(k) => !kern_info_overflows(b, k),
            None => true,
        },
        None => true,
    }
}

/// No MATH table of the first face holds a MathKern table that declares 65535 correction
/// heights: `ttf_parser` sizes the kern values of such a table by adding one to the count,
/// which overflows.
pub open spec fn math_kern_heights_fit(b: Seq<u8>) -> bool {
    match face_directory(b) {
        Some(d) => match be_u16_at(b, d + 4) {
            Some(n) => forall|j: int| 0 <= j < n ==> #[trigger] math_record_fits(b, d, j),
            None => true,
        },
        None => true,
    }
}

fn read_be16(b: &[u8], i: u64) -> (r: Option<u64>)
    ensures
        r is Some <==> be_u16_at(b@, i as int) is Some,
        r matches Some(v) ==> v as int == be_u16_at(b@, i as int)->0 && v < 0x1_0000,
{
    if i >= b.len() as u64 || i + 1 >= b.len() as u64 {
        return None;
    }
    let i = i as usize;
    Some(b[i] as u64 * 256 + b[i + 1] as u64)
}

fn read_be32(b: &[u8], i: u64) -> (r: Option<u64>)
    ensures
        r is Some <==> be_u32_at(b@, i as int) is Some,
        r matches Some(v) ==> v as int == be_u32_at(b@, i as int)->0 && v < 0x1_0000_0000,
{
    if i >= b.len() as u64 || (b.len() as u64) - i < 4 {
        return None;
    }
    let i = i as usize;
    Some(((b[i] as u64 * 256 + b[i + 1] as u64) * 256 + b[i + 2] as u64) * 256 + b[i + 3] as u64)
}

fn kern_info_overflows_at(b: &[u8], k: u64) -> (r: bool)
    requires
        k < 0x1_0004_0000,
    ensures
        r == kern_info_overflows(b@, k as int),
{
    let n = match read_be16(b, k + 2) {
        Some(n) => n,
        None => {
            return false;
        },
    };
    let mut i: u64 = 0;
    while i < n
        invariant
            0 <= i <= n,
            n < 0x1_0000,
            k < 0x1_0004_0000,
            be_u16_at(b@, k + 2) == Some(n as int),
            forall|ii: int, cc: int| 0 <= ii < i && 0 <= cc < 4 ==> !#[trigger] corner_overflows(b@, k as int, ii, cc),
        decreases n - i,
    {
        let mut c: u64 = 0;
        while c < 4
            invariant
                0 <= c <= 4,
                i < n,
                n < 0x1_0000,
                k < 0x1_0004_0000,
                forall|ii: int, cc: int| 0 <= ii < i && 0 <= cc < 4 ==> !#[trigger] corner_overflows(b@, k as int, ii, cc),
                forall|cc: int| 0 <= cc < c ==> !#[trigger] corner_overflows(b@, k as int, i as int, cc),
                be_u16_at(b@, k + 2) == Some(n as int),
            decreases 4 - c,
        {
            match read_be16(b, k + 4 + 8 * i + 2 * c) {
                Some(o) => {
                    if o != 0 {
                        if let Some(h) = read_be16(b, k + o) {
                            if h == 0xffff {
                                assert(corner_overflows(b@, k as int, i as int, c as int));
                                return true;
                            }
                        }
                    }
                },
                None => {},
            }
            assert(!corner_overflows(b@, k as int, i as int, c as int));
            c += 1;
        }
        i += 1;
    }
    false
}

/// Whether the font bytes hold no MathKern table that would overflow `ttf_parser`'s count.
fn math_kern_heights_fit_in(b: &[u8]) -> (r: bool)
    ensures
        r == math_kern_heights_fit(b@),
{
    let d: u64 = if b.len() >= 4 && b[0] == 0x74 && b[1] == 0x74 && b[2] == 0x63 && b[3] == 0x66 {
        match read_be32(b, 12) {
            Some(d) => d,
            None => {
                return true;
            },
        }
    } else {
        0
    };
    assert(face_directory(b@) == Some(d as int));
    let n = match read_be16(b, d + 4) {
        Some(n) => n,
        None => {
            return true;
        },
    };
    let mut j: u64 = 0;
    while j < n
        invariant
            0 <= j <= n,
            n < 0x1_0000,
            d < 0x1_0000_0000,
            face_directory(b@) == Some(d as int),
            be_u16_at(b@, d + 4) == Some(n as int),
            forall|jj: int| 0 <= jj < j ==> #[trigger] math_record_fits(b@, d as int, jj),
        decreases n - j,
    {
        let r = d + 12 + 16 * j;
        let is_math = r + 3 < b.len() as u64 && b[r as usize] == 0x4d && b[(r + 1) as usize] == 0x41
            && b[(r + 2) as usize] == 0x54 && b[(r + 3) as usize] == 0x48;
        if is_math {
            if let Some(t) = read_be32(b, r + 8) {
                if let Some(g) = read_be16(b, t + 6) {
                    if g != 0 {
                        if let Some(k) = read_be16(b, t + g + 6) {
                            if k != 0 {
                                if kern_info_overflows_at(b, t + g + k) {
                                    assert(!math_record_fits(b@, d as int, j as int));
                                    return false;
                                }
                            }
                        }
                    }
                }
            }
        }
        assert(math_record_fits(b@, d as int, j as int));
        j += 1;
    }
    true
}

/// `Kern::count` of the math kern table of a glyph corner in the face parsed from `bytes`.
#[verifier::external_body]
fn ttf_kern_count(bytes: &[u8], glyph: u16, corner: MathKernCorner) -> (r: Option<u16>)
    requires
        math_kern_heights_fit(bytes@),
    ensures
        r == face_kern_count(bytes@, glyph, corner),
{
    let face = ttf_parser::Face::parse(bytes, 0).ok()?;
    let info = face.tables().math?.glyph_info?.kern_infos?.get(ttf_parser::GlyphId(glyph))?;
    let kern = match corner {
        MathKernCorner::TopRight => info.top_right,
        MathKernCorner::TopLeft => info.top_left,
        MathKernCorner::BottomRight => info.bottom_right,
        MathKernCorner::BottomLeft => info.bottom_left,
    };
    kern.map(|kern| kern.count())
}

/// `Kern::height` of the math kern table of a glyph corner in the face parsed from `bytes`.
#[verifier::external_body]
fn ttf_kern_height(bytes: &[u8], glyph: u16, corner: MathKernCorner, index: u16) -> (r: Option<i16>)
    requires
        math_kern_heights_fit(bytes@),
    ensures
        r == face_kern_height(bytes@, glyph, corner, index),
{
    let face = ttf_parser::Face::parse(bytes, 0).ok()?;
    let info = face.tables().math?.glyph_info?.kern_infos?.get(ttf_parser::GlyphId(glyph))?;
    let kern = match corner {
        MathKernCorner::TopRight => info.top_right,
        MathKernCorner::TopLeft => info.top_left,
        MathKernCorner::BottomRight => info.bottom_right,
        MathKernCorner::BottomLeft => info.bottom_left,
    };
    kern?.height(index).map(|value| value.value)
}

/// `Kern::kern` of the math kern table of a glyph corner in the face parsed from `bytes`.
#[verifier::external_body]
fn ttf_kern_value(bytes: &[u8], glyph: u16, corner: MathKernCorner, index: u16) -> (r: Option<i16>)
    requires
        math_kern_heights_fit(bytes@),
    ensures
        r == face_kern_value(bytes@, glyph, corner, index),
{
    let face = ttf_parser::Face::parse(bytes, 0).ok()?;
    let info = face.tables().math?.glyph_info?.kern_infos?.get(ttf_parser::GlyphId(glyph))?;
    let kern = match corner {
        MathKernCorner::TopRight => info.top_right,
        MathKernCorner::TopLeft => info.top_left,
        MathKernCorner::BottomRight => info.bottom_right,
        MathKernCorner::BottomLeft => info.bottom_left,
    };
    kern?.kern(index).map(|value| value.value)
}

/// One of the two OpenType layout tables whose script lists the layout queries read.
#[derive(Clone, Copy, Debug, PartialEq, Eq, Structural)]
pub enum LayoutTableKind {
    /// The glyph substitution table (`GSUB`).
    Substitution,
    /// The glyph positioning table (`GPOS`).
    Positioning,
}

/// The number of scripts in the script list of a layout table of the face parsed from font
/// bytes, `None` when the face has no such table.
pub uninterp spec fn face_script_count(bytes: Seq<u8>, layout: LayoutTableKind) -> Option<u16>;

/// The tag of script `index` of a layout table's script list, packed big endian.
pub uninterp spec fn face_script_tag(bytes: Seq<u8>, layout: LayoutTableKind, index: u16) -> Option<u32>;

/// The number of (non-default) languages of the script with a tag in a layout table, `None`
/// when the table or the script is missing.
pub uninterp spec fn face_language_count(bytes: Seq<u8>, layout: LayoutTableKind, script: u32) -> Option<u16>;

/// The tag of language `index` of the script with a tag in a layout table.
pub uninterp spec fn face_language_tag(bytes: Seq<u8>, layout: LayoutTableKind, script: u32, index: u16) -> Option<u32>;

/// The number of feature indices of the default language system of a script, `None` when
/// the table, the script or its default language system is missing.
pub uninterp spec fn face_default_feature_count(bytes: Seq<u8>, layout: LayoutTableKind, script: u32) -> Option<u16>;

/// The number of feature indices of the language system with a tag under a script, `None`
/// when the table, the script or that language system is missing.
pub uninterp spec fn face_language_feature_count(
    bytes: Seq<u8>,
    layout: LayoutTableKind,
    script: u32,
    language: u32,
) -> Option<u16>;

/// Feature index `index` of the default language system of a script.
pub uninterp spec fn face_default_feature_index(bytes: Seq<u8>, layout: LayoutTableKind, script: u32, index: u16) -> Option<u16>;

/// Feature index `index` of the language system with a tag under a script.
pub uninterp spec fn face_language_feature_index(
    bytes: Seq<u8>,
    layout: LayoutTableKind,
    script: u32,
    language: u32,
    index: u16,
) -> Option<u16>;

/// The tag of entry `feature` of a layout table's feature list.
pub uninterp spec fn face_feature_tag(bytes: Seq<u8>, layout: LayoutTableKind, feature: u16) -> Option<u32>;

/// `RecordList::len` of the script list of `Face::tables().gsub` or `.gpos` of the face
/// parsed from `bytes`; `None` when the face has no such table.
#[verifier::external_body]
fn ttf_script_count(bytes: &[u8], layout: LayoutTableKind) -> (r: Option<u16>)
    ensures
        r == face_script_count(bytes@, layout),
{
    let face = ttf_parser::Face::parse(bytes, 0).ok()?;
    let table = match layout {
        LayoutTableKind::Substitution => face.tables().gsub,
        LayoutTableKind::Positioning => face.tables().gpos,
    }?;
    Some(table.scripts.len())
}

/// The tag of `RecordList::get(index)` of a layout table's script list.
#[verifier::external_body]
fn ttf_script_tag(bytes: &[u8], layout: LayoutTableKind, index: u16) -> (r: Option<u32>)
    ensures
        r == face_script_tag(bytes@, layout, index),
{
    let face = ttf_parser::Face::parse(bytes, 0).ok()?;
    let table = match layout {
        LayoutTableKind::Substitution => face.tables().gsub,
        LayoutTableKind::Positioning => face.tables().gpos,
    }?;
    table.scripts.get(index).map(|script| script.tag.0)
}

/// `languages.len()` of the script that `RecordList::index` and `get` find by tag in a
/// layout table's script list.
#[verifier::external_body]
fn ttf_language_count(bytes: &[u8], layout: LayoutTableKind, script: u32) -> (r: Option<u16>)
    ensures
        r == face_language_count(bytes@, layout, script),
{
    let face = ttf_parser::Face::parse(bytes, 0).ok()?;
    let table = match layout {
        LayoutTableKind::Substitution => face.tables().gsub,
        LayoutTableKind::Positioning => face.tables().gpos,
    }?;
    let found = table.scripts.index(ttf_parser::Tag(script)).and_then(|i| table.scripts.get(i))?;
    Some(found.languages.len())
}

/// The tag of `languages.get(index)` of the script found by tag in a layout table.
#[verifier::external_body]
fn ttf_language_tag(bytes: &[u8], layout: LayoutTableKind, script: u32, index: u16) -> (r: Option<u32>)
    ensures
        r == face_language_tag(bytes@, layout, script, index),
{
    let face = ttf_parser::Face::parse(bytes, 0).ok()?;
    let table = match layout {
        LayoutTableKind::Substitution => face.tables().gsub,
        LayoutTableKind::Positioning => face.tables().gpos,
    }?;
    let found = table.scripts.index(ttf_parser::Tag(script)).and_then(|i| table.scripts.get(i))?;
    found.languages.get(index).map(|language| language.tag.0)
}

/// `feature_indices.len()` of the `default_language` of the script found by tag.
#[verifier::external_body]
fn ttf_default_feature_count(bytes: &[u8], layout: LayoutTableKind, script: u32) -> (r: Option<u16>)
    ensures
        r == face_default_feature_count(bytes@, layout, script),
{
    let face = ttf_parser::Face::parse(bytes, 0).ok()?;
    let table = match layout {
        LayoutTableKind::Substitution => face.tables().gsub,
        LayoutTableKind::Positioning => face.tables().gpos,
    }?;
    let found = table.scripts.index(ttf_parser::Tag(script)).and_then(|i| table.scripts.get(i))?;
    Some(found.default_language?.feature_indices.len())
}

/// `feature_indices.len()` of the language system found by tag (`index` and `get`) under
/// the script found by tag.
#[verifier::external_body]
fn ttf_language_feature_count(bytes: &[u8], layout: LayoutTableKind, script: u32, language: u32) -> (r: Option<u16>)
    ensures
        r == face_language_feature_count(bytes@, layout, script, language),
{
    let face = ttf_parser::Face::parse(bytes, 0).ok()?;
    let table = match layout {
        LayoutTableKind::Substitution => face.tables().gsub,
        LayoutTableKind::Positioning => face.tables().gpos,
    }?;
    let found = table.scripts.index(ttf_parser::Tag(script)).and_then(|i| table.scripts.get(i))?;
    let list = found.languages;
    Some(list.index(ttf_parser::Tag(language)).and_then(|i| list.get(i))?.feature_indices.len())
}

/// `feature_indices.get(index)` of the `default_language` of the script found by tag.
#[verifier::external_body]
fn ttf_default_feature_index(bytes: &[u8], layout: LayoutTableKind, script: u32, index: u16) -> (r: Option<u16>)
    ensures
        r == face_default_feature_index(bytes@, layout, script, index),
{
    let face = ttf_parser::Face::parse(bytes, 0).ok()?;
    let table = match layout {
        LayoutTableKind::Substitution => face.tables().gsub,
        LayoutTableKind::Positioning => face.tables().gpos,
    }?;
    let found = table.scripts.index(ttf_parser::Tag(script)).and_then(|i| table.scripts.get(i))?;
    found.default_language?.feature_indices.get(index)
}

/// `feature_indices.get(index)` of the language system found by tag under the script found
/// by tag.
#[verifier::external_body]
fn ttf_language_feature_index(
    bytes: &[u8],
    layout: LayoutTableKind,
    script: u32,
    language: u32,
    index: u16,
) -> (r: Option<u16>)
    ensures
        r == face_language_feature_index(bytes@, layout, script, language, index),
{
    let face = ttf_parser::Face::parse(bytes, 0).ok()?;
    let table = match layout {
        LayoutTableKind::Substitution => face.tables().gsub,
        LayoutTableKind::Positioning => face.tables().gpos,
    }?;
    let found = table.scripts.index(ttf_parser::Tag(script)).and_then(|i| table.scripts.get(i))?;
    let list = found.languages;
    list.index(ttf_parser::Tag(language)).and_then(|i| list.get(i))?.feature_indices.get(index)
}

/// The tag of `features.get(feature)` of a layout table.
#[verifier::external_body]
fn ttf_feature_tag(bytes: &[u8], layout: LayoutTableKind, feature: u16) -> (r: Option<u32>)
    ensures
        r == face_feature_tag(bytes@, layout, feature),
{
    let face = ttf_parser::Face::parse(bytes, 0).ok()?;
    let table = match layout {
        LayoutTableKind::Substitution => face.tables().gsub,
        LayoutTableKind::Positioning => face.tables().gpos,
    }?;
    table.features.get(feature).map(|entry| entry.tag.0)
}

/// The layout table whose script list the script queries read: the one with more scripts,
/// the substitution table on a tie, or the only one present.
pub open spec fn larger_layout(bytes: Seq<u8>) -> Option<LayoutTableKind> {
    match (face_script_count(bytes, LayoutTableKind::Substitution), face_script_count(bytes, LayoutTableKind::Positioning)) {
        (Some(sub), Some(pos)) => if pos > sub {
            Some(LayoutTableKind::Positioning)
        } else {
            Some(LayoutTableKind::Substitution)
        },
        (Some(_), None) => Some(LayoutTableKind::Substitution),
        (None, Some(_)) => Some(LayoutTableKind::Positioning),
        (None, None) => None,
    }
}

/// The number of scripts of the larger script list, 0 without layout tables.
pub open spec fn layout_script_count(bytes: Seq<u8>) -> u32 {
    match larger_layout(bytes) {
        Some(t) => match face_script_count(bytes, t) {
            Some(n) => n as u32,
            None => 0,
        },
        None => 0,
    }
}

/// The tag of script `index` of the larger script list, 0 when there is none.
pub open spec fn layout_script_tag(bytes: Seq<u8>, index: u16) -> u32 {
    match larger_layout(bytes) {
        Some(t) => match face_script_tag(bytes, t, index) {
            Some(tag) => tag,
            None => 0,
        },
        None => 0,
    }
}

/// The number of languages of a script in one layout table, 0 when it is missing.
pub open spec fn table_language_count(bytes: Seq<u8>, t: LayoutTableKind, script: u32) -> u32 {
    match face_language_count(bytes, t, script) {
        Some(n) => n as u32,
        None => 0,
    }
}

/// The languages of a script summed over both layout tables.
pub open spec fn layout_language_count(bytes: Seq<u8>, script: u32) -> u32 {
    (table_language_count(bytes, LayoutTableKind::Substitution, script) + table_language_count(
        bytes,
        LayoutTableKind::Positioning,
        script,
    )) as u32
}

/// The language tag that one layout table answers for an index: `None` when the script is
/// missing there or has no more languages than the index, so the next table is asked.
pub open spec fn table_language_tag(bytes: Seq<u8>, t: LayoutTableKind, script: u32, index: u16) -> Option<u32> {
    match face_language_count(bytes, t, script) {
        Some(n) => if index < n {
            Some(
                match face_language_tag(bytes, t, script, index) {
                    Some(tag) => tag,
                    None => 0,
                },
            )
        } else {
            None
        },
        None => None,
    }
}

/// Language tag `index` of a script: the substitution table answers first, then the
/// positioning table, else 0.
pub open spec fn layout_language_tag(bytes: Seq<u8>, script: u32, index: u16) -> u32 {
    match table_language_tag(bytes, LayoutTableKind::Substitution, script, index) {
        Some(tag) => tag,
        None => match table_language_tag(bytes, LayoutTableKind::Positioning, script, index) {
            Some(tag) => tag,
            None => 0,
        },
    }
}

/// The language system that a language tag selects under a script: the one with that tag
/// (`Some(tag)`) when the tag is not 0 and the script has it, else the default one (`None`)
/// when the script has one; the outer `None` when there is neither.
pub open spec fn selected_language_system(bytes: Seq<u8>, t: LayoutTableKind, script: u32, language: u32) -> Option<Option<u32>> {
    if language != 0 && face_language_feature_count(bytes, t, script, language) is Some {
        Some(Some(language))
    } else if face_default_feature_count(bytes, t, script) is Some {
        Some(None)
    } else {
        None
    }
}

/// The number of feature indices of a language system (`None`: the default one).
pub open spec fn system_feature_count(bytes: Seq<u8>, t: LayoutTableKind, script: u32, system: Option<u32>) -> Option<u16> {
    match system {
        Some(language) => face_language_feature_count(bytes, t, script, language),
        None => face_default_feature_count(bytes, t, script),
    }
}

/// Feature index `index` of a language system (`None`: the default one).
pub open spec fn system_feature_index(
    bytes: Seq<u8>,
    t: LayoutTableKind,
    script: u32,
    system: Option<u32>,
    index: u16,
) -> Option<u16> {
    match system {
        Some(language) => face_language_feature_index(bytes, t, script, language, index),
        None => face_default_feature_index(bytes, t, script, index),
    }
}

/// The features of the selected language system in one layout table, 0 without one.
pub open spec fn table_feature_count(bytes: Seq<u8>, t: LayoutTableKind, script: u32, language: u32) -> u32 {
    match selected_language_system(bytes, t, script, language) {
        Some(system) => match system_feature_count(bytes, t, script, system) {
            Some(n) => n as u32,
            None => 0,
        },
        None => 0,
    }
}

/// The features of the selected language systems summed over both layout tables.
pub open spec fn layout_feature_count(bytes: Seq<u8>, script: u32, language: u32) -> u32 {
    (table_feature_count(bytes, LayoutTableKind::Substitution, script, language) + table_feature_count(
        bytes,
        LayoutTableKind::Positioning,
        script,
        language,
    )) as u32
}

/// The feature tag that one layout table answers for an index: the tag of the feature the
/// selected language system lists there (0 when the feature list lacks it), `None` when the
/// table has no such system, too few features, or no index at that place.
pub open spec fn table_feature_tag(bytes: Seq<u8>, t: LayoutTableKind, script: u32, language: u32, index: u16) -> Option<u32> {
    match selected_language_system(bytes, t, script, language) {
        Some(system) => match system_feature_count(bytes, t, script, system) {
            Some(n) => if index < n {
                match system_feature_index(bytes, t, script, system, index) {
                    Some(feature) => Some(
                        match face_feature_tag(bytes, t, feature) {
                            Some(tag) => tag,
                            None => 0,
                        },
                    ),
                    None => None,
                }
            } else {
                None
            },
            None => None,
        },
        None => None,
    }
}

/// Feature tag `index` of a script and language: the substitution table answers first,
/// then the positioning table, else 0.
pub open spec fn layout_feature_tag(bytes: Seq<u8>, script: u32, language: u32, index: u16) -> u32 {
    match table_feature_tag(bytes, LayoutTableKind::Substitution, script, language, index) {
        Some(tag) => tag,
        None => match table_feature_tag(bytes, LayoutTableKind::Positioning, script, language, index) {
            Some(tag) => tag,
            None => 0,
        },
    }
}

/// The italic correction (`MathValue::value`) the MATH glyph info gives a glyph, `None`
/// when the face, the table or the glyph's entry is missing.
pub uninterp spec fn face_italic_correction(bytes: Seq<u8>, glyph: u16) -> Option<i16>;

/// The top accent attachment the MATH glyph info gives a glyph.
pub uninterp spec fn face_top_accent(bytes: Seq<u8>, glyph: u16) -> Option<i16>;

/// The minimum connector overlap of the MATH variants table, `None` without one.
pub uninterp spec fn face_min_connector_overlap(bytes: Seq<u8>) -> Option<u16>;

/// Variant `index` of a glyph's construction in the MATH variants table, as the variant's
/// glyph and advance.
pub uninterp spec fn face_variant(bytes: Seq<u8>, glyph: u16, horizontal: bool, index: u16) -> Option<(u16, u16)>;

/// The number of parts of a glyph's assembly, `None` when it has no assembly.
pub uninterp spec fn face_assembly_count(bytes: Seq<u8>, glyph: u16, horizontal: bool) -> Option<u16>;

/// Part `index` of a glyph's assembly: glyph, start and end connector lengths, full advance,
/// and whether it is an extender.
pub uninterp spec fn face_assembly_part(bytes: Seq<u8>, glyph: u16, horizontal: bool, index: u16) -> Option<
    (u16, u16, u16, u16, bool),
>;

/// `MathValues::get` of the italic corrections of the face parsed from `bytes`.
#[verifier::external_body]
fn ttf_italic_correction(bytes: &[u8], glyph: u16) -> (r: Option<i16>)
    ensures
        r == face_italic_correction(bytes@, glyph),
{
    let face = ttf_parser::Face::parse(bytes, 0).ok()?;
    let values = face.tables().math?.glyph_info?.italic_corrections?;
    values.get(ttf_parser::GlyphId(glyph)).map(|value| value.value)
}

/// `MathValues::get` of the top accent attachments of the face parsed from `bytes`.
#[verifier::external_body]
fn ttf_top_accent(bytes: &[u8], glyph: u16) -> (r: Option<i16>)
    ensures
        r == face_top_accent(bytes@, glyph),
{
    let face = ttf_parser::Face::parse(bytes, 0).ok()?;
    let values = face.tables().math?.glyph_info?.top_accent_attachments?;
    values.get(ttf_parser::GlyphId(glyph)).map(|value| value.value)
}

/// `Variants::min_connector_overlap` of the face parsed from `bytes`.
#[verifier::external_body]
fn ttf_min_connector_overlap(bytes: &[u8]) -> (r: Option<u16>)
    ensures
        r == face_min_connector_overlap(bytes@),
{
    let face = ttf_parser::Face::parse(bytes, 0).ok()?;
    Some(face.tables().math?.variants?.min_connector_overlap)
}

/// `GlyphConstructions::get` then `variants.get(index)` in the horizontal or vertical
/// constructions of the face parsed from `bytes`.
#[verifier::external_body]
fn ttf_variant(bytes: &[u8], glyph: u16, horizontal: bool, index: u16) -> (r: Option<(u16, u16)>)
    ensures
        r == face_variant(bytes@, glyph, horizontal, index),
{
    let face = ttf_parser::Face::parse(bytes, 0).ok()?;
    let variants = face.tables().math?.variants?;
    let constructions = if horizontal { variants.horizontal_constructions } else { variants.vertical_constructions };
    let variant = constructions.get(ttf_parser::GlyphId(glyph))?.variants.get(index)?;
    Some((variant.variant_glyph.0, variant.advance_measurement))
}

/// `parts.len()` of the assembly of a glyph's construction in the face parsed from `bytes`.
#[verifier::external_body]
fn ttf_assembly_count(bytes: &[u8], glyph: u16, horizontal: bool) -> (r: Option<u16>)
    ensures
        r == face_assembly_count(bytes@, glyph, horizontal),
{
    let face = ttf_parser::Face::parse(bytes, 0).ok()?;
    let variants = face.tables().math?.variants?;
    let constructions = if horizontal { variants.horizontal_constructions } else { variants.vertical_constructions };
    Some(constructions.get(ttf_parser::GlyphId(glyph))?.assembly?.parts.len())
}

/// `parts.get(index)` of the assembly of a glyph's construction in the face parsed from
/// `bytes`.
#[verifier::external_body]
fn ttf_assembly_part(bytes: &[u8], glyph: u16, horizontal: bool, index: u16) -> (r: Option<(u16, u16, u16, u16, bool)>)
    ensures
        r == face_assembly_part(bytes@, glyph, horizontal, index),
{
    let face = ttf_parser::Face::parse(bytes, 0).ok()?;
    let variants = face.tables().math?.variants?;
    let constructions = if horizontal { variants.horizontal_constructions } else { variants.vertical_constructions };
    let part = constructions.get(ttf_parser::GlyphId(glyph))?.assembly?.parts.get(index)?;
    Some((part.glyph_id.0, part.start_connector_length, part.end_connector_length, part.full_advance, part.part_flags.extender()))
}

/// A MathValue of a glyph in font design units, 0 when it has none.
pub open spec fn glyph_value(glyph: GlyphId, value: spec_fn(u16) -> Option<i16>) -> i32 {
    if glyph.0 > 0xffff {
        0
    } else {
        match value(glyph.0 as u16) {
            Some(v) => v as i32,
            None => 0,
        }
    }
}

/// An assembly part in font design units.
pub open spec fn assembly_part(p: (u16, u16, u16, u16, bool)) -> MathAssemblyPart {
    MathAssemblyPart {
        glyph: p.0 as u32,
        start_connector: p.1 as i32,
        end_connector: p.2 as i32,
        full_advance: p.3 as i32,
        extender: p.4,
    }
}

/// The parts among the first `n` of a glyph's assembly, read in order until one cannot be.
pub open spec fn assembly_parts_upto(bytes: Seq<u8>, glyph: u16, horizontal: bool, n: nat) -> Seq<MathAssemblyPart>
    decreases n,
{
    if n == 0 {
        Seq::empty()
    } else {
        let prev = assembly_parts_upto(bytes, glyph, horizontal, (n - 1) as nat);
        if prev.len() == n - 1 && face_assembly_part(bytes, glyph, horizontal, (n - 1) as u16) is Some {
            prev.push(assembly_part(face_assembly_part(bytes, glyph, horizontal, (n - 1) as u16)->0))
        } else {
            prev
        }
    }
}

/// The parts of a glyph's assembly in font design units: none past 16 bits or without an
/// assembly.
pub open spec fn assembly_parts(bytes: Seq<u8>, glyph: GlyphId, horizontal: bool) -> Seq<MathAssemblyPart> {
    if glyph.0 > 0xffff {
        Seq::empty()
    } else {
        match face_assembly_count(bytes, glyph.0 as u16, horizontal) {
            Some(n) => assembly_parts_upto(bytes, glyph.0 as u16, horizontal, n as nat),
            None => Seq::empty(),
        }
    }
}

/// Once a part cannot be read, no later one is taken.
proof fn lemma_assembly_parts_stop(bytes: Seq<u8>, glyph: u16, horizontal: bool, i: nat, n: nat)
    requires
        i <= n,
        assembly_parts_upto(bytes, glyph, horizontal, i).len() < i,
    ensures
        assembly_parts_upto(bytes, glyph, horizontal, n) == assembly_parts_upto(bytes, glyph, horizontal, i),
    decreases n - i,
{
    if i < n {
        lemma_assembly_parts_len(bytes, glyph, horizontal, (i + 1) as nat);
        lemma_assembly_parts_stop(bytes, glyph, horizontal, (i + 1) as nat, n);
    }
}

proof fn lemma_assembly_parts_len(bytes: Seq<u8>, glyph: u16, horizontal: bool, n: nat)
    ensures
        assembly_parts_upto(bytes, glyph, horizontal, n).len() <= n,
    decreases n,
{
    if n > 0 {
        lemma_assembly_parts_len(bytes, glyph, horizontal, (n - 1) as nat);
    }
}

/// The error of a font whose bytes do not parse: invalid, with the parser's error text.
pub open spec fn invalid_face(family: Seq<char>, error: Seq<char>, e: FontError) -> bool {
    e matches FontError::Invalid { family: f, message: m } && f@ == family && m@ == "invalid font data: "@
        + error
}

/// The error for font bytes whose MathKern table declares 65535 correction heights.
pub open spec fn oversized_kern_table(family: Seq<char>, e: FontError) -> bool {
    e matches FontError::Invalid { family: f, message: m } && f@ == family && m@
        == "invalid font data: a math kern table declares 65535 correction heights"@
}

/// The answer of a face query: the parse error when the bytes do not parse, the value
/// otherwise.
pub open spec fn face_answer<T>(font: FontDataModel, value: T, r: Result<T, FontError>) -> bool {
    match face_parse_error(font.bytes) {
        Some(error) => r matches Err(e) && invalid_face(font.canonical_name, error, e),
        None => r == Ok::<T, FontError>(value),
    }
}

/// The correction heights of the math kern table of a glyph corner, by index.
pub open spec fn face_kern_heights(bytes: Seq<u8>, glyph: u16, corner: MathKernCorner, count: u16) -> Seq<Option<i16>> {
    Seq::new(count as nat, |i: int| face_kern_height(bytes, glyph, corner, i as u16))
}

/// The kern values of the math kern table of a glyph corner, by index.
pub open spec fn face_kern_values(bytes: Seq<u8>, glyph: u16, corner: MathKernCorner, count: u16) -> Seq<Option<i16>> {
    Seq::new(count as nat + 1, |i: int| face_kern_value(bytes, glyph, corner, i as u16))
}

/// The math kern of a glyph corner at a correction height, in design units: 0 for a glyph
/// beyond 16 bits or without a kern table there.
pub open spec fn face_math_kern(bytes: Seq<u8>, glyph: GlyphId, corner: MathKernCorner, correction_height: i32) -> i32 {
    if glyph.0 > 0xffff {
        0
    } else {
        match face_kern_count(bytes, glyph.0 as u16, corner) {
            Some(count) => kern_value(
                face_kern_heights(bytes, glyph.0 as u16, corner, count),
                face_kern_values(bytes, glyph.0 as u16, corner, count),
                correction_height,
            ),
            None => 0,
        }
    }
}

impl FontData {
    fn parse_check(&self) -> (r: Result<(), FontError>)
        ensures
            face_parse_error(self@.bytes) is None ==> r is Ok,
            face_parse_error(self@.bytes) matches Some(error) ==> (r matches Err(e) && invalid_face(
                self@.canonical_name,
                error,
                e,
            )),
    {
        match parse_error_text(self.bytes.as_slice()) {
            Some(text) => Err(
                FontError::Invalid {
                    family: self.canonical_name.clone(),
                    message: String::from_str("invalid font data: ").concat(text.as_str()),
                },
            ),
            None => Ok(()),
        }
    }

    /// Look up a glyph id by Unicode codepoint.
    pub fn glyph_index(&self, codepoint: char) -> (r: Result<Option<GlyphId>, FontError>)
        ensures
            face_answer(
                self@,
                match face_glyph_index(self@.bytes, codepoint) {
                    Some(g) => Some(GlyphId(g as u32)),
                    None => None,
                },
                r,
            ),
    {
        self.parse_check()?;
        Ok(
            match ttf_glyph_index(self.bytes.as_slice(), codepoint) {
                Some(g) => Some(GlyphId(g as u32)),
                None => None,
            },
        )
    }

    /// Look up a glyph id by glyph name.
    pub fn glyph_index_by_name(&self, name: &str) -> (r: Result<Option<GlyphId>, FontError>)
        ensures
            face_answer(
                self@,
                match face_glyph_by_name(self@.bytes, name@) {
                    Some(g) => Some(GlyphId(g as u32)),
                    None => None,
                },
                r,
            ),
    {
        self.parse_check()?;
        Ok(
            match ttf_glyph_by_name(self.bytes.as_slice(), name) {
                Some(g) => Some(GlyphId(g as u32)),
                None => None,
            },
        )
    }

    /// Report whether the font has an OpenType math table.
    pub fn has_opentype_math(&self) -> (r: Result<bool, FontError>)
        ensures
            face_answer(self@, face_has_math(self@.bytes), r),
    {
        self.parse_check()?;
        Ok(ttf_has_math(self.bytes.as_slice()))
    }

    /// Number of glyphs in the font (`\XeTeXcountglyphs`).
    pub fn ot_glyph_count(&self) -> (r: Result<u32, FontError>)
        ensures
            face_answer(self@, face_glyph_count(self@.bytes) as u32, r),
    {
        self.parse_check()?;
        Ok(ttf_glyph_count(self.bytes.as_slice()) as u32)
    }

    /// Evaluate one OpenType math `MathKernInfo` corner at a correction height in font
    /// design units.
    ///
    /// A font holding a MathKern table that declares 65535 correction heights is refused
    /// with an error for every glyph in range, before its kern tables are read.
    pub fn math_kern_at(&self, glyph: GlyphId, corner: MathKernCorner, correction_height: i32) -> (r: Result<i32, FontError>)
        ensures
            glyph.0 > 0xffff || math_kern_heights_fit(self@.bytes) ==> face_answer(
                self@,
                face_math_kern(self@.bytes, glyph, corner, correction_height),
                r,
            ),
            glyph.0 <= 0xffff && !math_kern_heights_fit(self@.bytes) ==> match face_parse_error(self@.bytes) {
                Some(error) => r matches Err(e) && invalid_face(self@.canonical_name, error, e),
                None => r matches Err(e) && oversized_kern_table(self@.canonical_name, e),
            },
    {
        self.parse_check()?;
        if glyph.0 > 0xffff {
            return Ok(0);
        }
        let g = glyph.0 as u16;
        let bytes = self.bytes.as_slice();
        if !math_kern_heights_fit_in(bytes) {
            return Err(
                FontError::Invalid {
                    family: self.canonical_name.clone(),
                    message: String::from_str("invalid font data: a math kern table declares 65535 correction heights"),
                },
            );
        }
        let count = match ttf_kern_count(bytes, g, corner) {
            Some(count) => count,
            None => {
                return Ok(0);
            },
        };
        let ghost heights = face_kern_heights(bytes@, g, corner, count);
        let ghost p = |h: Option<i16>| h matches Some(v) && correction_height < v as i32;
        let mut i: u16 = 0;
        while i < count && !kern_height_above(ttf_kern_height(bytes, g, corner, i), correction_height)
            invariant
                math_kern_heights_fit(bytes@),
                heights == face_kern_heights(bytes@, g, corner, count),
                p == (|h: Option<i16>| h matches Some(v) && correction_height < v as i32),
                0 <= i <= count,
                forall|j: int| 0 <= j < i ==> !p(#[trigger] heights[j]),
            decreases count - i,
        {
            assert(heights[i as int] == face_kern_height(bytes@, g, corner, i));
            i += 1;
        }
        proof {
            if i < count {
                assert(heights[i as int] == face_kern_height(bytes@, g, corner, i));
                assert(p(heights[i as int]));
            }
            lemma_first_index_is(heights, p, i as int);
            assert(face_kern_values(bytes@, g, corner, count)[i as int] == face_kern_value(bytes@, g, corner, i));
        }
        Ok(
            match ttf_kern_value(bytes, g, corner, i) {
                Some(v) => v as i32,
                None => 0,
            },
        )
    }
}


fn layout_language_count_in(bytes: &[u8], t: LayoutTableKind, script: u32) -> (r: u32)
    ensures
        r == table_language_count(bytes@, t, script),
{
    match ttf_language_count(bytes, t, script) {
        Some(n) => n as u32,
        None => 0,
    }
}

fn layout_language_tag_in(bytes: &[u8], t: LayoutTableKind, script: u32, index: u16) -> (r: Option<u32>)
    ensures
        r == table_language_tag(bytes@, t, script, index),
{
    match ttf_language_count(bytes, t, script) {
        Some(n) => if index < n {
            Some(
                match ttf_language_tag(bytes, t, script, index) {
                    Some(tag) => tag,
                    None => 0,
                },
            )
        } else {
            None
        },
        None => None,
    }
}

fn select_language_system(bytes: &[u8], t: LayoutTableKind, script: u32, language: u32) -> (r: Option<Option<u32>>)
    ensures
        r == selected_language_system(bytes@, t, script, language),
{
    if language != 0 && ttf_language_feature_count(bytes, t, script, language).is_some() {
        Some(Some(language))
    } else if ttf_default_feature_count(bytes, t, script).is_some() {
        Some(None)
    } else {
        None
    }
}

fn language_system_feature_count(bytes: &[u8], t: LayoutTableKind, script: u32, system: Option<u32>) -> (r: Option<u16>)
    ensures
        r == system_feature_count(bytes@, t, script, system),
{
    match system {
        Some(language) => ttf_language_feature_count(bytes, t, script, language),
        None => ttf_default_feature_count(bytes, t, script),
    }
}

fn language_system_feature_index(
    bytes: &[u8],
    t: LayoutTableKind,
    script: u32,
    system: Option<u32>,
    index: u16,
) -> (r: Option<u16>)
    ensures
        r == system_feature_index(bytes@, t, script, system, index),
{
    match system {
        Some(language) => ttf_language_feature_index(bytes, t, script, language, index),
        None => ttf_default_feature_index(bytes, t, script, index),
    }
}

fn layout_feature_count_in(bytes: &[u8], t: LayoutTableKind, script: u32, language: u32) -> (r: u32)
    ensures
        r == table_feature_count(bytes@, t, script, language),
{
    match select_language_system(bytes, t, script, language) {
        Some(system) => match language_system_feature_count(bytes, t, script, system) {
            Some(n) => n as u32,
            None => 0,
        },
        None => 0,
    }
}

fn layout_feature_tag_in(bytes: &[u8], t: LayoutTableKind, script: u32, language: u32, index: u16) -> (r: Option<u32>)
    ensures
        r == table_feature_tag(bytes@, t, script, language, index),
{
    let system = match select_language_system(bytes, t, script, language) {
        Some(system) => system,
        None => {
            return None;
        },
    };
    let n = match language_system_feature_count(bytes, t, script, system) {
        Some(n) => n,
        None => {
            return None;
        },
    };
    if index >= n {
        return None;
    }
    match language_system_feature_index(bytes, t, script, system, index) {
        Some(feature) => Some(
            match ttf_feature_tag(bytes, t, feature) {
                Some(tag) => tag,
                None => 0,
            },
        ),
        None => None,
    }
}

impl FontData {
    /// Number of OpenType layout scripts from the larger layout script list.
    pub fn ot_script_count(&self) -> (r: Result<u32, FontError>)
        ensures
            face_answer(self@, layout_script_count(self@.bytes), r),
    {
        self.parse_check()?;
        let bytes = self.bytes.as_slice();
        let sub = ttf_script_count(bytes, LayoutTableKind::Substitution);
        let pos = ttf_script_count(bytes, LayoutTableKind::Positioning);
        Ok(
            match (sub, pos) {
                (Some(s), Some(p)) => if p > s {
                    p as u32
                } else {
                    s as u32
                },
                (Some(s), None) => s as u32,
                (None, Some(p)) => p as u32,
                (None, None) => 0,
            },
        )
    }

    /// OpenType script tag at `index` of the larger script list, packed big endian; 0 for an
    /// index beyond 16 bits, before the font is read.
    pub fn ot_script_tag(&self, index: u32) -> (r: Result<u32, FontError>)
        ensures
            index > 0xffff ==> r == Ok::<u32, FontError>(0),
            index <= 0xffff ==> face_answer(self@, layout_script_tag(self@.bytes, index as u16), r),
    {
        if index > 0xffff {
            return Ok(0);
        }
        let index = index as u16;
        self.parse_check()?;
        let bytes = self.bytes.as_slice();
        let sub = ttf_script_count(bytes, LayoutTableKind::Substitution);
        let pos = ttf_script_count(bytes, LayoutTableKind::Positioning);
        let larger = match (sub, pos) {
            (Some(s), Some(p)) => if p > s {
                LayoutTableKind::Positioning
            } else {
                LayoutTableKind::Substitution
            },
            (Some(_), None) => LayoutTableKind::Substitution,
            (None, Some(_)) => LayoutTableKind::Positioning,
            (None, None) => {
                return Ok(0);
            },
        };
        Ok(
            match ttf_script_tag(bytes, larger, index) {
                Some(tag) => tag,
                None => 0,
            },
        )
    }

    /// Number of languages under `script_tag`, summed across OpenType layout tables.
    pub fn ot_language_count(&self, script_tag: u32) -> (r: Result<u32, FontError>)
        ensures
            face_answer(self@, layout_language_count(self@.bytes, script_tag), r),
    {
        self.parse_check()?;
        let bytes = self.bytes.as_slice();
        let sub = layout_language_count_in(bytes, LayoutTableKind::Substitution, script_tag);
        let pos = layout_language_count_in(bytes, LayoutTableKind::Positioning, script_tag);
        Ok(sub + pos)
    }

    /// Language tag at `index` under `script_tag` (`\XeTeXOTlanguagetag`); 0 for an index
    /// beyond 16 bits, before the font is read.
    pub fn ot_language_tag(&self, script_tag: u32, index: u32) -> (r: Result<u32, FontError>)
        ensures
            index > 0xffff ==> r == Ok::<u32, FontError>(0),
            index <= 0xffff ==> face_answer(self@, layout_language_tag(self@.bytes, script_tag, index as u16), r),
    {
        if index > 0xffff {
            return Ok(0);
        }
        let index = index as u16;
        self.parse_check()?;
        let bytes = self.bytes.as_slice();
        match layout_language_tag_in(bytes, LayoutTableKind::Substitution, script_tag, index) {
            Some(tag) => Ok(tag),
            None => Ok(
                match layout_language_tag_in(bytes, LayoutTableKind::Positioning, script_tag, index) {
                    Some(tag) => tag,
                    None => 0,
                },
            ),
        }
    }

    /// Number of features under `script_tag` and `language_tag` (0: the default language
    /// system), summed across OpenType layout tables.
    pub fn ot_feature_count(&self, script_tag: u32, language_tag: u32) -> (r: Result<u32, FontError>)
        ensures
            face_answer(self@, layout_feature_count(self@.bytes, script_tag, language_tag), r),
    {
        self.parse_check()?;
        let bytes = self.bytes.as_slice();
        let sub = layout_feature_count_in(bytes, LayoutTableKind::Substitution, script_tag, language_tag);
        let pos = layout_feature_count_in(bytes, LayoutTableKind::Positioning, script_tag, language_tag);
        Ok(sub + pos)
    }

    /// Feature tag at `index` under `script_tag`/`language_tag` (`\XeTeXOTfeaturetag`); 0
    /// for an index beyond 16 bits, before the font is read.
    pub fn ot_feature_tag(&self, script_tag: u32, language_tag: u32, index: u32) -> (r: Result<u32, FontError>)
        ensures
            index > 0xffff ==> r == Ok::<u32, FontError>(0),
            index <= 0xffff ==> face_answer(
                self@,
                layout_feature_tag(self@.bytes, script_tag, language_tag, index as u16),
                r,
            ),
    {
        if index > 0xffff {
            return Ok(0);
        }
        let index = index as u16;
        self.parse_check()?;
        let bytes = self.bytes.as_slice();
        match layout_feature_tag_in(bytes, LayoutTableKind::Substitution, script_tag, language_tag, index) {
            Some(tag) => Ok(tag),
            None => Ok(
                match layout_feature_tag_in(bytes, LayoutTableKind::Positioning, script_tag, language_tag, index) {
                    Some(tag) => tag,
                    None => 0,
                },
            ),
        }
    }
}

impl FontData {
    /// OpenType math italic correction of a glyph in font design units (0 when it has none).
    pub fn math_italic_correction_units(&self, glyph: GlyphId) -> (r: Result<i32, FontError>)
        ensures
            face_answer(self@, glyph_value(glyph, |g: u16| face_italic_correction(self@.bytes, g)), r),
    {
        self.parse_check()?;
        if glyph.0 > 0xffff {
            return Ok(0);
        }
        Ok(
            match ttf_italic_correction(self.bytes.as_slice(), glyph.0 as u16) {
                Some(v) => v as i32,
                None => 0,
            },
        )
    }

    /// Top accent attachment of a glyph in font design units (0 when it has none).
    pub fn math_accent_position_units(&self, glyph: GlyphId) -> (r: Result<i32, FontError>)
        ensures
            face_answer(self@, glyph_value(glyph, |g: u16| face_top_accent(self@.bytes, g)), r),
    {
        self.parse_check()?;
        if glyph.0 > 0xffff {
            return Ok(0);
        }
        Ok(
            match ttf_top_accent(self.bytes.as_slice(), glyph.0 as u16) {
                Some(v) => v as i32,
                None => 0,
            },
        )
    }

    /// Minimum connector overlap of assembly parts in font design units (0 without a
    /// variants table).
    pub fn math_min_connector_overlap_units(&self) -> (r: Result<i32, FontError>)
        ensures
            face_answer(
                self@,
                match face_min_connector_overlap(self@.bytes) {
                    Some(v) => v as i32,
                    None => 0,
                },
                r,
            ),
    {
        self.parse_check()?;
        Ok(
            match ttf_min_connector_overlap(self.bytes.as_slice()) {
                Some(v) => v as i32,
                None => 0,
            },
        )
    }

    /// Math variant `index` of a glyph: the variant glyph and its advance in font design units.
    pub fn math_variant_units(&self, glyph: GlyphId, index: u16, horizontal: bool) -> (r: Result<Option<(u32, i32)>, FontError>)
        ensures
            face_answer(
                self@,
                if glyph.0 > 0xffff {
                    None
                } else {
                    match face_variant(self@.bytes, glyph.0 as u16, horizontal, index) {
                        Some(v) => Some((v.0 as u32, v.1 as i32)),
                        None => None,
                    }
                },
                r,
            ),
    {
        self.parse_check()?;
        if glyph.0 > 0xffff {
            return Ok(None);
        }
        Ok(
            match ttf_variant(self.bytes.as_slice(), glyph.0 as u16, horizontal, index) {
                Some(v) => Some((v.0 as u32, v.1 as i32)),
                None => None,
            },
        )
    }

    /// The parts of a glyph's assembly in font design units, in order.
    pub fn math_assembly_units(&self, glyph: GlyphId, horizontal: bool) -> (r: Result<Vec<MathAssemblyPart>, FontError>)
        ensures
            match face_parse_error(self@.bytes) {
                Some(error) => r matches Err(e) && invalid_face(self@.canonical_name, error, e),
                None => r matches Ok(parts) && parts@ == assembly_parts(self@.bytes, glyph, horizontal),
            },
    {
        self.parse_check()?;
        let mut out: Vec<MathAssemblyPart> = Vec::new();
        if glyph.0 > 0xffff {
            return Ok(out);
        }
        let g = glyph.0 as u16;
        let bytes = self.bytes.as_slice();
        let n = match ttf_assembly_count(bytes, g, horizontal) {
            Some(n) => n,
            None => {
                return Ok(out);
            },
        };
        let mut i: u16 = 0;
        while i < n
            invariant
                0 <= i <= n,
                n == face_assembly_count(bytes@, g, horizontal)->0,
                out@ == assembly_parts_upto(bytes@, g, horizontal, i as nat),
                out@.len() == i,
            ensures
                out@ == assembly_parts_upto(bytes@, g, horizontal, n as nat),
            decreases n - i,
        {
            match ttf_assembly_part(bytes, g, horizontal, i) {
                Some(p) => {
                    out.push(
                        MathAssemblyPart {
                            glyph: p.0 as u32,
                            start_connector: p.1 as i32,
                            end_connector: p.2 as i32,
                            full_advance: p.3 as i32,
                            extender: p.4,
                        },
                    );
                    i += 1;
                },
                None => {
                    proof {
                        lemma_assembly_parts_stop(bytes@, g, horizontal, (i + 1) as nat, n as nat);
                    }
                    break;
                },
            }
        }
        Ok(out)
    }
}

} // verus!
