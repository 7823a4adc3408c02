use mathtex::font::{
    cluster_source_span, is_math_constant_percentage, math_delimiter_limit,
    math_extension_parameter_source, math_kern_value, math_symbol_parameter_source,
    ComposedFontSystem, MathParameterSource, FontData, FontError, FontLoader, FontQuery, FontSystem,
    InMemoryFontSystem, NoFontSystem, ShapeRequest, ShapedText, TextShaper,
};
use mathtex::ir::{ByteSpan, Direction, FontId, GlyphId, Length, Point, PositionedGlyph};
use mathtex::resource::{InMemoryResourceProvider, ResourceKind};
use mathtex::resource_font::{font_id_for_name, ResourceFontSystem};

fn request<'a>(text: &'a str, source: Option<ByteSpan>) -> ShapeRequest<'a> {
    ShapeRequest {
        font: FontId(0),
        text,
        direction: Direction::LeftToRight,
        source,
        script: None,
        features: Vec::new(),
    }
}

#[test]
fn fallback_shaping_preserves_source_clusters() {
    let fonts = InMemoryFontSystem::new().with_fallback_shaping();
    let shaped = FontSystem::shape_text(&fonts, &request("ab", Some(ByteSpan { start: 4, end: 6 })))
        .expect("fallback shaping should work");

    assert_eq!(shaped.glyphs.len(), 2);
    assert_eq!(shaped.glyphs[0].glyph_id, GlyphId('a' as u32));
    assert_eq!(shaped.glyphs[0].cluster, Some(ByteSpan { start: 4, end: 5 }));
    assert_eq!(shaped.glyphs[1].cluster, Some(ByteSpan { start: 5, end: 6 }));
}

#[test]
fn fallback_shaping_spans_multibyte_characters_and_places_glyphs_by_em() {
    let fonts = InMemoryFontSystem::new().with_fallback_shaping();
    let shaped = FontSystem::shape_text(&fonts, &request("aé∑", None)).expect("fallback shaping");
    let clusters: Vec<_> = shaped.glyphs.iter().map(|g| g.cluster).collect();
    assert_eq!(
        clusters,
        vec![
            Some(ByteSpan { start: 0, end: 1 }),
            Some(ByteSpan { start: 1, end: 3 }),
            Some(ByteSpan { start: 3, end: 6 }),
        ]
    );
    assert_eq!(shaped.glyphs[2].glyph_id, GlyphId('∑' as u32));
    assert_eq!(shaped.glyphs[2].offset, Point { x: Length(2 * 65_536), y: Length(0) });
    assert_eq!(shaped.glyphs[1].advance, Point { x: Length(65_536), y: Length(0) });
}

#[test]
fn fallback_shaping_is_off_by_default() {
    let fonts = InMemoryFontSystem::new();
    let error = FontSystem::shape_text(&fonts, &request("x", None)).expect_err("disabled");
    assert_eq!(
        error,
        FontError::ShapingUnsupported { message: "fallback shaping is disabled".to_string() }
    );
}

#[test]
fn in_memory_fonts_are_numbered_by_insertion_and_replaced_by_family() {
    let mut fonts = InMemoryFontSystem::new().with_font("A", b"first").with_font("B", b"second");
    fonts.insert("A", b"third");
    let query = |family: &str| FontQuery {
        family: family.to_string(),
        size: Length::from_scaled_points(65_536),
        math: false,
    };
    let a = FontSystem::load_font(&fonts, &query("A")).expect("A is stored");
    assert_eq!(a.id, FontId(2));
    assert_eq!(a.bytes().expect("library owned bytes"), b"third");
    let b = FontLoader::load_font(&fonts, &query("B")).expect("B is stored");
    assert_eq!(b.id, FontId(1));
    assert_eq!(
        FontSystem::load_font(&fonts, &query("C")).expect_err("C is not stored"),
        FontError::NotFound { family: "C".to_string() }
    );
    let shared = FontData::new(FontId(40), "C", b"app");
    let fonts = fonts.with_font_data(shared.clone());
    assert_eq!(FontSystem::load_font(&fonts, &query("C")).expect("C is stored"), shared);
}

#[test]
fn no_font_system_makes_missing_font_explicit() {
    let error = NoFontSystem
        .load_font(&FontQuery { family: "missing".to_string(), size: Length::zero(), math: false })
        .expect_err("font should be missing");

    assert_eq!(error, FontError::NotFound { family: "missing".to_string() });
}

#[derive(Clone, Debug, Default, PartialEq, Eq)]
struct TestLoader;

impl FontLoader for TestLoader {
    fn load_font(&self, query: &FontQuery) -> Result<FontData, FontError> {
        Ok(FontData::new(FontId(9), &query.family, b"parsed-by-rust-loader"))
    }
}

#[derive(Clone, Debug, Default, PartialEq, Eq)]
struct TestShaper;

impl TextShaper for TestShaper {
    fn shape_text(&self, request: &ShapeRequest<'_>) -> Result<ShapedText, FontError> {
        Ok(ShapedText::new(vec![PositionedGlyph {
            glyph_id: GlyphId(100),
            offset: Point::default(),
            advance: Point { x: Length::from_scaled_points(request.text.len() as i32), y: Length::zero() },
            cluster: request.source,
        }]))
    }
}

#[test]
fn composed_font_system_splits_loading_from_shaping() {
    let fonts = ComposedFontSystem::new(TestLoader, TestShaper);

    let font = fonts
        .load_font(&FontQuery {
            family: "Latin Modern Math".to_string(),
            size: Length::from_scaled_points(12 * 65_536),
            math: true,
        })
        .expect("loader should resolve font");
    let shaped = fonts
        .shape_text(&ShapeRequest {
            font: font.id,
            text: "xy",
            direction: Direction::LeftToRight,
            source: Some(ByteSpan { start: 2, end: 4 }),
            script: None,
            features: Vec::new(),
        })
        .expect("shaper should shape text");

    assert_eq!(font.id, FontId(9));
    assert_eq!(font.bytes().expect("library owned bytes"), b"parsed-by-rust-loader");
    assert_eq!(shaped.glyphs[0].glyph_id, GlyphId(100));
    assert_eq!(shaped.glyphs[0].cluster, Some(ByteSpan { start: 2, end: 4 }));
}

#[test]
fn cluster_source_span_runs_to_the_next_character() {
    let source = ByteSpan { start: 10, end: 20 };
    assert_eq!(cluster_source_span("aé∑", source, 0), ByteSpan { start: 10, end: 11 });
    assert_eq!(cluster_source_span("aé∑", source, 1), ByteSpan { start: 11, end: 13 });
    assert_eq!(cluster_source_span("aé∑", source, 3), ByteSpan { start: 13, end: 16 });
    // A cluster past the text is clamped to its end.
    assert_eq!(cluster_source_span("aé∑", source, 99), ByteSpan { start: 16, end: 16 });
    // The end stays inside the source span.
    assert_eq!(
        cluster_source_span("abc", ByteSpan { start: 10, end: 11 }, 1),
        ByteSpan { start: 11, end: 11 }
    );
    assert_eq!(
        cluster_source_span("ab", ByteSpan { start: u32::MAX - 1, end: u32::MAX }, 1),
        ByteSpan { start: u32::MAX, end: u32::MAX }
    );
}

#[test]
fn font_ids_are_fnv1a_hashes_of_names() {
    assert_eq!(font_id_for_name(""), FontId(2_166_136_261));
    assert_eq!(font_id_for_name("a"), FontId(0xe40c_292c));
    assert_eq!(font_id_for_name("foobar"), FontId(0xbf9c_f968));
}

#[test]
fn resource_font_system_loads_fonts_through_resource_provider() {
    let resources = InMemoryResourceProvider::new().with_resource(
        "Latin Modern Math.otf",
        ResourceKind::Font,
        b"font-bytes",
    );
    let mut fonts = ResourceFontSystem::new(resources);

    let font = fonts
        .load_font(&FontQuery {
            family: "Latin Modern Math.otf".to_string(),
            size: Length::from_scaled_points(655_360),
            math: true,
        })
        .expect("font should resolve through resource provider");

    assert_eq!(font.canonical_name, "Latin Modern Math.otf");
    assert_eq!(font.bytes().expect("library owned bytes"), b"font-bytes");
    assert_eq!(font.id, font_id_for_name("Latin Modern Math.otf"));
    assert_eq!(fonts.cached_font_count(), 1);

    let cached = fonts
        .load_font(&FontQuery {
            family: "Latin Modern Math.otf".to_string(),
            size: Length::from_scaled_points(327_680),
            math: true,
        })
        .expect("cached font should resolve without another cache entry");

    assert_eq!(cached, font);
    assert_eq!(fonts.cached_font_count(), 1);
}

#[test]
fn resource_font_system_reports_missing_font_as_font_error() {
    let mut fonts = ResourceFontSystem::new(InMemoryResourceProvider::new());

    let error = fonts
        .load_font(&FontQuery { family: "missing.otf".to_string(), size: Length::zero(), math: false })
        .expect_err("missing resource should be a font error");

    assert_eq!(error, FontError::NotFound { family: "missing.otf".to_string() });
    assert_eq!(fonts.cached_font_count(), 0);
}

#[test]
fn resource_font_system_keeps_shaping_explicitly_separate() {
    let fonts = ResourceFontSystem::new(InMemoryResourceProvider::new());

    let error = fonts.shape_text(&request("x", None)).expect_err("resource adapter should not shape text");

    match error {
        FontError::ShapingUnsupported { message } => {
            assert!(message.contains("does not shape text"));
        }
        other => panic!("unexpected error: {other:?}"),
    }
}

#[test]
fn math_kern_tables_select_the_kern_after_the_last_lower_height() {
    let heights = [Some(100), Some(200)];
    let kerns = [Some(44), Some(24), Some(-5)];
    assert_eq!(math_kern_value(&heights, &kerns, 50), 44);
    assert_eq!(math_kern_value(&heights, &kerns, 100), 24);
    assert_eq!(math_kern_value(&heights, &kerns, 150), 24);
    assert_eq!(math_kern_value(&heights, &kerns, 300), -5);
    assert_eq!(math_kern_value(&[None, Some(200)], &kerns, 0), 24);
    assert_eq!(math_kern_value(&heights, &[Some(1)], 300), 0);
    assert_eq!(math_kern_value(&[], &[None], 0), 0);
}

#[test]
fn tex_font_parameters_map_to_opentype_math_constants() {
    assert_eq!(math_symbol_parameter_source(5), MathParameterSource::Constant(6));
    assert_eq!(math_symbol_parameter_source(6), MathParameterSource::Size);
    assert_eq!(math_symbol_parameter_source(14), MathParameterSource::Constant(11));
    assert_eq!(math_symbol_parameter_source(17), MathParameterSource::Constant(8));
    assert_eq!(math_symbol_parameter_source(21), MathParameterSource::DelimiterLimit);
    assert_eq!(math_symbol_parameter_source(22), MathParameterSource::Constant(5));
    assert_eq!(math_symbol_parameter_source(7), MathParameterSource::Zero);
    assert_eq!(math_extension_parameter_source(8), MathParameterSource::Constant(38));
    assert_eq!(math_extension_parameter_source(13), MathParameterSource::Constant(26));
    assert_eq!(math_extension_parameter_source(14), MathParameterSource::Zero);
    assert!(is_math_constant_percentage(55));
    assert!(!is_math_constant_percentage(2));
}

#[test]
fn delimiter_limit_is_one_and_a_half_sizes_at_most() {
    assert_eq!(math_delimiter_limit(655_360, 2_000_000), 983_040);
    assert_eq!(math_delimiter_limit(655_360, 100), 100);
    assert_eq!(math_delimiter_limit(-3, 0), -4);
    assert_eq!(math_delimiter_limit(i32::MIN, 0), i32::MIN);
    assert_eq!(math_delimiter_limit(i32::MAX, i32::MAX), i32::MAX);
}

#[test]
fn face_queries_report_unparsable_font_bytes() {
    let font = FontData::new(FontId(3), "broken.otf", b"not a font");
    let invalid = FontError::Invalid {
        family: "broken.otf".to_string(),
        message: "invalid font data: UnknownMagic".to_string(),
    };
    assert_eq!(font.glyph_index('x'), Err(invalid.clone()));
    assert_eq!(font.glyph_index_by_name("x"), Err(invalid.clone()));
    assert_eq!(font.has_opentype_math(), Err(invalid.clone()));
    assert_eq!(font.ot_glyph_count(), Err(invalid.clone()));
    assert_eq!(font.math_kern_at(GlyphId(1), mathtex::font::MathKernCorner::TopRight, 0), Err(invalid));
}

/// A font of three tables (`head`, `hhea`, `maxp`) with seven glyphs and no character map.
fn minimal_font() -> Vec<u8> {
    let mut b: Vec<u8> = Vec::new();
    b.extend_from_slice(&[0, 1, 0, 0, 0, 3, 0, 0, 0, 0, 0, 0]);
    for (tag, offset, length) in [(b"head", 60u32, 54u32), (b"hhea", 114, 36), (b"maxp", 150, 6)] {
        b.extend_from_slice(tag);
        b.extend_from_slice(&[0, 0, 0, 0]);
        b.extend_from_slice(&offset.to_be_bytes());
        b.extend_from_slice(&length.to_be_bytes());
    }
    let mut head = vec![0u8; 54];
    head[..4].copy_from_slice(&[0, 1, 0, 0]);
    head[12..16].copy_from_slice(&[0x5f, 0x0f, 0x3c, 0xf5]);
    head[18..20].copy_from_slice(&1000u16.to_be_bytes());
    b.extend_from_slice(&head);
    let mut hhea = vec![0u8; 36];
    hhea[..4].copy_from_slice(&[0, 1, 0, 0]);
    hhea[4..6].copy_from_slice(&800i16.to_be_bytes());
    hhea[6..8].copy_from_slice(&(-200i16).to_be_bytes());
    hhea[34..36].copy_from_slice(&1u16.to_be_bytes());
    b.extend_from_slice(&hhea);
    b.extend_from_slice(&[0, 0, 0x50, 0, 0, 7]);
    b
}

#[test]
fn face_queries_read_the_parsed_font() {
    let font = FontData::new(FontId(1), "mini.ttf", &minimal_font());
    assert_eq!(font.ot_glyph_count(), Ok(7));
    assert_eq!(font.has_opentype_math(), Ok(false));
    assert_eq!(font.glyph_index('a'), Ok(None));
    assert_eq!(font.glyph_index_by_name("a"), Ok(None));
    assert_eq!(font.math_kern_at(GlyphId(1), mathtex::font::MathKernCorner::BottomLeft, 10), Ok(0));
    assert_eq!(font.math_kern_at(GlyphId(0x1_0000), mathtex::font::MathKernCorner::TopLeft, 10), Ok(0));
}

fn be16(words: &[u16]) -> Vec<u8> {
    words.iter().flat_map(|w| w.to_be_bytes()).collect()
}

fn tag(t: &[u8; 4]) -> u32 {
    u32::from_be_bytes(*t)
}

fn font_with_layout() -> Vec<u8> {
    font_with_layout_tables(false)
}

fn font_with_layout_tables(with_gpos: bool) -> Vec<u8> {
    // GSUB: one script 'latn' with a default language system (feature 0) and 'TRK '
    // (features 1 and 0); features 'liga' and 'kern'; no lookups.
    let mut gsub = be16(&[1, 0, 10, 46, 68]);
    gsub.extend(be16(&[1]));
    gsub.extend_from_slice(b"latn");
    gsub.extend(be16(&[8]));
    gsub.extend(be16(&[10, 1]));
    gsub.extend_from_slice(b"TRK ");
    gsub.extend(be16(&[18]));
    gsub.extend(be16(&[0, 0xffff, 1, 0]));
    gsub.extend(be16(&[0, 0xffff, 2, 1, 0]));
    gsub.extend(be16(&[2]));
    gsub.extend_from_slice(b"liga");
    gsub.extend(be16(&[14]));
    gsub.extend_from_slice(b"kern");
    gsub.extend(be16(&[18]));
    gsub.extend(be16(&[0, 0, 0, 0]));
    gsub.extend(be16(&[0]));
    assert_eq!(gsub.len(), 70);

    let mut head = vec![0u8; 54];
    head[..4].copy_from_slice(&[0, 1, 0, 0]);
    head[12..16].copy_from_slice(&[0x5f, 0x0f, 0x3c, 0xf5]);
    head[18..20].copy_from_slice(&1000u16.to_be_bytes());
    let mut hhea = vec![0u8; 36];
    hhea[..4].copy_from_slice(&[0, 1, 0, 0]);
    hhea[34..36].copy_from_slice(&1u16.to_be_bytes());
    let maxp = vec![0, 0, 0x50, 0, 0, 7];

    // GPOS: scripts 'arab' and 'latn', each with a default language system listing feature
    // 0 ('mark'); no lookups.
    let mut gpos = be16(&[1, 0, 10, 48, 60]);
    gpos.extend(be16(&[2]));
    gpos.extend_from_slice(b"arab");
    gpos.extend(be16(&[14]));
    gpos.extend_from_slice(b"latn");
    gpos.extend(be16(&[26]));
    for _ in 0..2 {
        gpos.extend(be16(&[4, 0, 0, 0xffff, 1, 0]));
    }
    gpos.extend(be16(&[1]));
    gpos.extend_from_slice(b"mark");
    gpos.extend(be16(&[8, 0, 0]));
    gpos.extend(be16(&[0]));
    assert_eq!(gpos.len(), 62);

    let mut tables: Vec<(&[u8; 4], Vec<u8>)> = vec![(b"GSUB", gsub), (b"head", head), (b"hhea", hhea), (b"maxp", maxp)];
    if with_gpos {
        tables.insert(0, (b"GPOS", gpos));
    }
    let mut b = vec![0, 1, 0, 0];
    b.extend(be16(&[tables.len() as u16, 0, 0, 0]));
    let mut offset = 12 + 16 * tables.len() as u32;
    for (t, data) in &tables {
        b.extend_from_slice(*t);
        b.extend_from_slice(&[0, 0, 0, 0]);
        b.extend_from_slice(&offset.to_be_bytes());
        b.extend_from_slice(&(data.len() as u32).to_be_bytes());
        offset += data.len() as u32;
    }
    for (_, data) in &tables {
        b.extend_from_slice(data);
    }
    b
}

#[test]
fn layout_queries_walk_the_script_and_feature_lists() {
    let font = FontData::new(FontId(3), "layout.ttf", &font_with_layout());
    let latn = tag(b"latn");
    let trk = tag(b"TRK ");
    assert_eq!(font.ot_script_count(), Ok(1));
    assert_eq!(font.ot_script_tag(0), Ok(latn));
    assert_eq!(font.ot_script_tag(1), Ok(0));
    assert_eq!(font.ot_script_tag(0x1_0000), Ok(0));
    assert_eq!(font.ot_language_count(latn), Ok(1));
    assert_eq!(font.ot_language_count(tag(b"grek")), Ok(0));
    assert_eq!(font.ot_language_tag(latn, 0), Ok(trk));
    assert_eq!(font.ot_language_tag(latn, 1), Ok(0));
    assert_eq!(font.ot_feature_count(latn, 0), Ok(1));
    assert_eq!(font.ot_feature_count(latn, trk), Ok(2));
    // An unknown language falls back to the default language system.
    assert_eq!(font.ot_feature_count(latn, tag(b"DEU ")), Ok(1));
    assert_eq!(font.ot_feature_tag(latn, trk, 0), Ok(tag(b"kern")));
    assert_eq!(font.ot_feature_tag(latn, trk, 1), Ok(tag(b"liga")));
    assert_eq!(font.ot_feature_tag(latn, 0, 0), Ok(tag(b"liga")));
    assert_eq!(font.ot_feature_tag(latn, trk, 2), Ok(0));
    assert_eq!(font.ot_feature_tag(latn, trk, 0x1_0000), Ok(0));
}

#[test]
fn layout_queries_on_fonts_without_layout_tables_or_unreadable_bytes() {
    let font = FontData::new(FontId(4), "mini.ttf", &minimal_font());
    assert_eq!(font.ot_script_count(), Ok(0));
    assert_eq!(font.ot_script_tag(0), Ok(0));
    assert_eq!(font.ot_language_count(tag(b"latn")), Ok(0));
    assert_eq!(font.ot_feature_tag(tag(b"latn"), 0, 0), Ok(0));
    let junk = FontData::new(FontId(5), "junk.otf", b"junk");
    assert!(matches!(junk.ot_script_count(), Err(FontError::Invalid { .. })));
    assert!(matches!(junk.ot_feature_count(0, 0), Err(FontError::Invalid { .. })));
    // An index beyond 16 bits answers 0 before the bytes are read.
    assert_eq!(junk.ot_script_tag(0x1_0000), Ok(0));
}

#[test]
fn font_data_equality_compares_id_name_and_program() {
    let a = FontData::new(FontId(1), "a.otf", b"abc");
    assert_eq!(a, FontData::new(FontId(1), "a.otf", b"abc"));
    assert_ne!(a, FontData::new(FontId(2), "a.otf", b"abc"));
    assert_ne!(a, FontData::new(FontId(1), "b.otf", b"abc"));
    assert_ne!(a, FontData::new(FontId(1), "a.otf", b"abd"));
    assert_eq!(a.clone(), a);
}

#[test]
fn layout_queries_prefer_the_larger_script_list_and_sum_both_tables() {
    let font = FontData::new(FontId(6), "both.ttf", &font_with_layout_tables(true));
    let latn = tag(b"latn");
    let arab = tag(b"arab");
    let trk = tag(b"TRK ");
    assert_eq!(font.ot_script_count(), Ok(2));
    assert_eq!(font.ot_script_tag(0), Ok(arab));
    assert_eq!(font.ot_script_tag(1), Ok(latn));
    assert_eq!(font.ot_language_count(latn), Ok(1));
    assert_eq!(font.ot_language_count(arab), Ok(0));
    assert_eq!(font.ot_language_tag(latn, 0), Ok(trk));
    assert_eq!(font.ot_feature_count(latn, 0), Ok(2));
    assert_eq!(font.ot_feature_count(latn, trk), Ok(3));
    assert_eq!(font.ot_feature_count(arab, trk), Ok(1));
    assert_eq!(font.ot_feature_tag(latn, 0, 0), Ok(tag(b"liga")));
    assert_eq!(font.ot_feature_tag(arab, 0, 0), Ok(tag(b"mark")));
    assert_eq!(font.ot_feature_tag(arab, 0, 1), Ok(0));
}

fn font_with_tables(extra: Vec<(&'static [u8; 4], Vec<u8>)>) -> Vec<u8> {
    let mut head = vec![0u8; 54];
    head[..4].copy_from_slice(&[0, 1, 0, 0]);
    head[12..16].copy_from_slice(&[0x5f, 0x0f, 0x3c, 0xf5]);
    head[18..20].copy_from_slice(&1000u16.to_be_bytes());
    let mut hhea = vec![0u8; 36];
    hhea[..4].copy_from_slice(&[0, 1, 0, 0]);
    hhea[34..36].copy_from_slice(&1u16.to_be_bytes());
    let maxp = vec![0, 0, 0x50, 0, 0, 7];
    let mut tables = extra;
    tables.extend([(b"head", head), (b"hhea", hhea), (b"maxp", maxp)]);
    let mut b = vec![0, 1, 0, 0];
    b.extend(be16(&[tables.len() as u16, 0, 0, 0]));
    let mut offset = 12 + 16 * tables.len() as u32;
    for (t, data) in &tables {
        b.extend_from_slice(*t);
        b.extend_from_slice(&[0, 0, 0, 0]);
        b.extend_from_slice(&offset.to_be_bytes());
        b.extend_from_slice(&(data.len() as u32).to_be_bytes());
        offset += data.len() as u32;
    }
    for (_, data) in &tables {
        b.extend_from_slice(data);
    }
    b
}

#[test]
fn math_kern_tables_declaring_65535_heights_are_refused() {
    // MATH: glyph info at 10, kern info at 8 into it; one record for glyph 1 whose top
    // right kern table (at 18 into the kern info) declares 65535 heights.
    let mut math = be16(&[1, 0, 0, 10, 0]);
    math.extend(be16(&[0, 0, 0, 8]));
    math.extend(be16(&[12, 1, 18, 0, 0, 0]));
    math.extend(be16(&[1, 1, 1]));
    math.extend(be16(&[0xffff]));
    let font = FontData::new(FontId(7), "kern.otf", &font_with_tables(vec![(b"MATH", math.clone())]));
    assert_eq!(font.has_opentype_math(), Ok(true));
    assert_eq!(
        font.math_kern_at(GlyphId(1), mathtex::font::MathKernCorner::TopRight, 0),
        Err(FontError::Invalid {
            family: "kern.otf".to_string(),
            message: "invalid font data: a math kern table declares 65535 correction heights".to_string(),
        })
    );
    // Glyph ids past 16 bits are answered before the tables are read.
    assert_eq!(font.math_kern_at(GlyphId(0x1_0000), mathtex::font::MathKernCorner::TopRight, 0), Ok(0));
    // The same table with one height is read normally: below the height the first kern.
    let mut fine = math;
    fine.truncate(fine.len() - 2);
    fine.extend(be16(&[1, 100, 0, 7, 0, 9, 0]));
    let font = FontData::new(FontId(8), "kern.otf", &font_with_tables(vec![(b"MATH", fine)]));
    assert_eq!(font.math_kern_at(GlyphId(1), mathtex::font::MathKernCorner::TopRight, 50), Ok(7));
    assert_eq!(font.math_kern_at(GlyphId(1), mathtex::font::MathKernCorner::TopRight, 150), Ok(9));
    assert_eq!(font.math_kern_at(GlyphId(2), mathtex::font::MathKernCorner::TopRight, 150), Ok(0));
}

#[test]
fn math_glyph_info_and_variants_are_read_in_design_units() {
    let mut math = be16(&[1, 0, 0, 10, 32]);
    // Glyph info: italic corrections at 8.
    math.extend(be16(&[8, 0, 0, 0]));
    // Italic corrections: coverage at 8, one record of -25 for glyph 3.
    math.extend(be16(&[8, 1, (-25i16) as u16, 0]));
    math.extend(be16(&[1, 1, 3]));
    // Variants: overlap 5, vertical coverage at 12, one vertical construction at 18.
    math.extend(be16(&[5, 12, 0, 1, 0, 18]));
    math.extend(be16(&[1, 1, 3]));
    // Construction: assembly at 8, one variant (glyph 10, advance 700).
    math.extend(be16(&[8, 1, 10, 700]));
    // Assembly: italic correction record, two parts, the second an extender.
    math.extend(be16(&[0, 0, 2, 11, 10, 20, 300, 0, 12, 30, 40, 500, 1]));
    let font = FontData::new(FontId(9), "math.otf", &font_with_tables(vec![(b"MATH", math)]));
    assert_eq!(font.math_italic_correction_units(GlyphId(3)), Ok(-25));
    assert_eq!(font.math_italic_correction_units(GlyphId(4)), Ok(0));
    assert_eq!(font.math_accent_position_units(GlyphId(3)), Ok(0));
    assert_eq!(font.math_min_connector_overlap_units(), Ok(5));
    assert_eq!(font.math_variant_units(GlyphId(3), 0, false), Ok(Some((10, 700))));
    assert_eq!(font.math_variant_units(GlyphId(3), 1, false), Ok(None));
    assert_eq!(font.math_variant_units(GlyphId(3), 0, true), Ok(None));
    let part = |glyph, start_connector, end_connector, full_advance, extender| mathtex::font::MathAssemblyPart {
        glyph,
        start_connector,
        end_connector,
        full_advance,
        extender,
    };
    assert_eq!(
        font.math_assembly_units(GlyphId(3), false),
        Ok(vec![part(11, 10, 20, 300, false), part(12, 30, 40, 500, true)])
    );
    assert_eq!(font.math_assembly_units(GlyphId(3), true), Ok(vec![]));
    assert_eq!(font.math_assembly_units(GlyphId(0x1_0000), false), Ok(vec![]));
    let junk = FontData::new(FontId(10), "junk.otf", b"junk");
    assert!(matches!(junk.math_italic_correction_units(GlyphId(3)), Err(FontError::Invalid { .. })));
    assert!(matches!(junk.math_assembly_units(GlyphId(3), false), Err(FontError::Invalid { .. })));
}
