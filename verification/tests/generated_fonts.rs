use mathtex::font::{FontError, FontMetrics, InMemoryFontSystem, ShapedText};
use mathtex::generated_fonts::{
    glyph_id_u16, measure_shaped_text, unicode_scalars_to_string, utf16_to_string,
    GeneratedFontSystemAdapter, NativeGlyph,
};
use mathtex::ir::{ByteSpan, GlyphId, Length, Point, PositionedGlyph};

fn scalars(s: &str) -> Vec<i32> {
    s.chars().map(|c| c as i32).collect()
}

#[test]
fn engine_code_points_become_text_with_replacements() {
    assert_eq!(unicode_scalars_to_string(&[0x61, 0x2211, -1, 0xd800, 0x11_0000, 0x1_f600]), "a∑\u{fffd}\u{fffd}\u{fffd}😀");
}

#[test]
fn utf16_decoding_pairs_surrogates_and_replaces_lone_ones() {
    assert_eq!(utf16_to_string(&[0x61, 0xd83d, 0xde00, 0x62]), "a😀b");
    assert_eq!(utf16_to_string(&[0xd83d, 0x61, 0xde00]), "\u{fffd}a\u{fffd}");
    assert_eq!(utf16_to_string(&[0xd83d]), "\u{fffd}");
    assert_eq!(utf16_to_string(&[]), "");
}

#[test]
fn glyph_ids_beyond_sixteen_bits_become_zero() {
    assert_eq!(glyph_id_u16(GlyphId(0xffff)), 0xffff);
    assert_eq!(glyph_id_u16(GlyphId(0x1_0000)), 0);
}

fn glyph(id: u32, advance: i32, offset: i32, cluster: Option<ByteSpan>) -> PositionedGlyph {
    PositionedGlyph {
        glyph_id: GlyphId(id),
        offset: Point { x: Length(offset), y: Length(7) },
        advance: Point { x: Length(advance), y: Length(0) },
        cluster,
    }
}

#[test]
fn shaped_text_is_placed_along_a_saturating_cursor() {
    let metrics = FontMetrics { ascent: 700, descent: -200, xheight: 0, capheight: 0, slant: 0 };
    let shaped = ShapedText::new(vec![
        glyph(5, 100, 3, Some(ByteSpan { start: 0, end: 1 })),
        glyph(6, i32::MAX, 0, None),
        glyph(7, 10, 1, Some(ByteSpan { start: 2, end: 4 })),
    ]);
    let measured = measure_shaped_text(Ok(shaped), Some(metrics));
    assert_eq!(measured.width, i32::MAX);
    assert_eq!(measured.height, 700);
    assert_eq!(measured.depth, 200);
    assert_eq!(
        measured.glyphs,
        vec![
            NativeGlyph { glyph_id: 5, x: 3, y: 7, advance: 100, cluster_start: 0, cluster_end: 1, src_start: 0, src_end: 0 },
            NativeGlyph { glyph_id: 6, x: 100, y: 7, advance: i32::MAX, cluster_start: 0, cluster_end: 0, src_start: 0, src_end: 0 },
            NativeGlyph { glyph_id: 7, x: i32::MAX, y: 7, advance: 10, cluster_start: 2, cluster_end: 4, src_start: 0, src_end: 0 },
        ]
    );
    let failed = measure_shaped_text(Err(FontError::ShapingUnsupported { message: "no".to_string() }), None);
    assert_eq!((failed.width, failed.height, failed.depth, failed.glyphs.len()), (0, 0, 0, 0));
}

#[test]
fn adapter_hands_out_handles_from_one_and_keeps_them_in_order() {
    let fonts = InMemoryFontSystem::new()
        .with_font("lmroman10-regular.otf", b"roman")
        .with_font("latinmodern-math.otf:script=math;+ssty=0", b"math")
        .with_fallback_shaping();
    let mut adapter = GeneratedFontSystemAdapter::new(fonts);

    assert_eq!(adapter.resolve_font_handle(&scalars("missing.otf"), 655_360), None);
    let roman = adapter.resolve_font_handle(&scalars("lmroman10-regular.otf"), 655_360);
    let math = adapter.resolve_font_handle(&scalars("latinmodern-math.otf:script=math;+ssty=0"), 458_752);
    assert_eq!((roman, math), (Some(1), Some(2)));
    assert!(adapter.using_opentype(2));
    assert_eq!(adapter.font_spec(2).as_deref(), Some("latinmodern-math.otf:script=math;+ssty=0"));
    assert_eq!(adapter.loaded_font(1).map(|f| f.canonical_name.clone()), Some("lmroman10-regular.otf".to_string()));
    assert_eq!(
        adapter.font_table(),
        vec![
            (1, "lmroman10-regular.otf".to_string(), 655_360),
            (2, "latinmodern-math.otf:script=math;+ssty=0".to_string(), 458_752),
        ]
    );

    adapter.release_font_handle(1);
    assert!(!adapter.using_opentype(1));
    assert_eq!(adapter.font_table().len(), 1);
    assert_eq!(adapter.resolve_font_handle(&scalars("lmroman10-regular.otf"), 655_360), Some(3));
}

#[test]
fn restoring_a_font_table_keeps_handles_and_moves_the_counter_past_them() {
    let fonts = InMemoryFontSystem::new().with_font("a.otf", b"a").with_font("b.otf", b"b");
    let mut adapter = GeneratedFontSystemAdapter::new(fonts);
    let restored = adapter.restore_font_table(&[
        (7, "b.otf".to_string(), 65_536),
        (3, "a.otf".to_string(), 131_072),
        (5, "gone.otf".to_string(), 65_536),
    ]);
    assert!(!restored);
    assert_eq!(
        adapter.font_table(),
        vec![(3, "a.otf".to_string(), 131_072), (7, "b.otf".to_string(), 65_536)]
    );
    assert_eq!(adapter.resolve_font_handle(&scalars("a.otf"), 65_536), Some(8));
    assert!(adapter.restore_font_table(&[(3, "b.otf".to_string(), 1)]));
    assert_eq!(adapter.font_spec(3).as_deref(), Some("b.otf"));
}

#[test]
fn native_text_is_shaped_with_the_loaded_font() {
    let fonts = InMemoryFontSystem::new().with_font("x.otf", b"x").with_fallback_shaping();
    let mut adapter = GeneratedFontSystemAdapter::new(fonts);
    let handle = adapter.resolve_font_handle(&scalars("x.otf"), 655_360).expect("font loads");
    let metrics = FontMetrics { ascent: 10, descent: -3, xheight: 0, capheight: 0, slant: 0 };
    let measured = adapter.shape_native_text(handle, &[0x61, 0xe9], Some(metrics));
    assert_eq!(measured.width, 2 * 65_536);
    assert_eq!((measured.height, measured.depth), (10, 3));
    assert_eq!(measured.glyphs.len(), 2);
    // Fallback glyph offsets already count ems, and the cursor adds the advances again.
    assert_eq!((measured.glyphs[1].glyph_id, measured.glyphs[1].x), (0xe9, 2 * 65_536));
    assert_eq!((measured.glyphs[1].cluster_start, measured.glyphs[1].cluster_end), (1, 3));
    let unknown = adapter.shape_native_text(99, &[0x61], Some(metrics));
    assert_eq!((unknown.width, unknown.height, unknown.glyphs.len()), (0, 0, 0));
}

fn font_with_cmap() -> Vec<u8> {
    let mut b: Vec<u8> = Vec::new();
    b.extend_from_slice(&[0, 1, 0, 0, 0, 4, 0, 0, 0, 0, 0, 0]);
    let tables: [(&[u8; 4], u32, u32); 4] =
        [(b"cmap", 76, 44), (b"head", 120, 54), (b"hhea", 174, 36), (b"maxp", 210, 6)];
    for (tag, offset, length) in tables {
        b.extend_from_slice(tag);
        b.extend_from_slice(&[0, 0, 0, 0]);
        b.extend_from_slice(&offset.to_be_bytes());
        b.extend_from_slice(&length.to_be_bytes());
    }
    // cmap: one Windows Unicode subtable of format 4 mapping 'a' to glyph 5.
    b.extend_from_slice(&[0, 0, 0, 1, 0, 3, 0, 1, 0, 0, 0, 12]);
    for word in [4u16, 32, 0, 4, 4, 1, 0, 0x61, 0xffff, 0, 0x61, 0xffff, 5u16.wrapping_sub(0x61), 1, 0, 0] {
        b.extend_from_slice(&word.to_be_bytes());
    }
    let mut head = vec![0u8; 54];
    head[..4].copy_from_slice(&[0, 1, 0, 0]);
    head[12..16].copy_from_slice(&[0x5f, 0x0f, 0x3c, 0xf5]);
    head[18..20].copy_from_slice(&1000u16.to_be_bytes());
    b.extend_from_slice(&head);
    let mut hhea = vec![0u8; 36];
    hhea[..4].copy_from_slice(&[0, 1, 0, 0]);
    hhea[4..6].copy_from_slice(&800i16.to_be_bytes());
    hhea[6..8].copy_from_slice(&(-200i16).to_be_bytes());
    hhea[34..36].copy_from_slice(&1u16.to_be_bytes());
    b.extend_from_slice(&hhea);
    b.extend_from_slice(&[0, 0, 0x50, 0, 0, 7]);
    b
}

#[test]
fn adapter_answers_glyph_queries_from_the_loaded_face() {
    let bytes = font_with_cmap();
    let fonts = InMemoryFontSystem::new().with_font("mini.ttf", &bytes).with_font("junk.otf", b"junk");
    let mut adapter = GeneratedFontSystemAdapter::new(fonts);
    let mini = adapter.resolve_font_handle(&scalars("mini.ttf"), 655_360).expect("font loads");
    let junk = adapter.resolve_font_handle(&scalars("junk.otf"), 655_360).expect("font loads");

    assert_eq!(adapter.map_char_to_glyph(mini, 'a' as i32), 5);
    assert_eq!(adapter.map_char_to_glyph(mini, 'b' as i32), 0);
    assert_eq!(adapter.map_char_to_glyph(mini, -1), 0);
    assert_eq!(adapter.map_char_to_glyph(mini, 0xd800), 0);
    assert_eq!(adapter.map_char_to_glyph(junk, 'a' as i32), 0);
    assert_eq!(adapter.map_char_to_glyph(99, 'a' as i32), 0);

    assert!(!adapter.is_opentype_math_font(mini));
    assert!(!adapter.is_opentype_math_font(junk));
    assert!(!adapter.is_opentype_math_font(99));

    assert_eq!(adapter.map_glyph_to_index(mini, "a"), 0);
    assert_eq!(adapter.map_glyph_to_index(99, "a"), 0);

    let corner = mathtex::font::MathKernCorner::TopRight;
    assert_eq!(adapter.math_kern_at(mini, 5, corner, 100), 0);
    assert_eq!(adapter.math_kern_at(mini, -5, corner, 100), 0);
    assert_eq!(adapter.math_kern_at(99, 5, corner, 100), 0);
}

fn be16(words: &[u16]) -> Vec<u8> {
    words.iter().flat_map(|w| w.to_be_bytes()).collect()
}

fn tag(t: &[u8; 4]) -> u32 {
    u32::from_be_bytes(*t)
}

fn font_with_layout() -> Vec<u8> {
    // GSUB: one script 'latn' with a default language system (feature 0) and 'TRK '
    // (features 1 and 0); features 'liga' and 'kern'; no lookups.
    let mut gsub = be16(&[1, 0, 10, 46, 68]);
    gsub.extend(be16(&[1]));
    gsub.extend_from_slice(b"latn");
    gsub.extend(be16(&[8]));
    gsub.extend(be16(&[10, 1]));
    gsub.extend_from_slice(b"TRK ");
    gsub.extend(be16(&[18]));
    gsub.extend(be16(&[0, 0xffff, 1, 0]));
    gsub.extend(be16(&[0, 0xffff, 2, 1, 0]));
    gsub.extend(be16(&[2]));
    gsub.extend_from_slice(b"liga");
    gsub.extend(be16(&[14]));
    gsub.extend_from_slice(b"kern");
    gsub.extend(be16(&[18]));
    gsub.extend(be16(&[0, 0, 0, 0]));
    gsub.extend(be16(&[0]));
    assert_eq!(gsub.len(), 70);

    let mut head = vec![0u8; 54];
    head[..4].copy_from_slice(&[0, 1, 0, 0]);
    head[12..16].copy_from_slice(&[0x5f, 0x0f, 0x3c, 0xf5]);
    head[18..20].copy_from_slice(&1000u16.to_be_bytes());
    let mut hhea = vec![0u8; 36];
    hhea[..4].copy_from_slice(&[0, 1, 0, 0]);
    hhea[34..36].copy_from_slice(&1u16.to_be_bytes());
    let maxp = vec![0, 0, 0x50, 0, 0, 7];

    let tables: Vec<(&[u8; 4], Vec<u8>)> = vec![(b"GSUB", gsub), (b"head", head), (b"hhea", hhea), (b"maxp", maxp)];
    let mut b = vec![0, 1, 0, 0];
    b.extend(be16(&[tables.len() as u16, 0, 0, 0]));
    let mut offset = 12 + 16 * tables.len() as u32;
    for (t, data) in &tables {
        b.extend_from_slice(*t);
        b.extend_from_slice(&[0, 0, 0, 0]);
        b.extend_from_slice(&offset.to_be_bytes());
        b.extend_from_slice(&(data.len() as u32).to_be_bytes());
        offset += data.len() as u32;
    }
    for (_, data) in &tables {
        b.extend_from_slice(data);
    }
    b
}

#[test]
fn layout_queries_answer_through_the_adapter() {
    let layout = font_with_layout();
    let fonts = InMemoryFontSystem::new()
        .with_font("layout.ttf", &layout)
        .with_font("mini.ttf", &font_with_cmap())
        .with_font("junk.otf", b"junk");
    let mut adapter = GeneratedFontSystemAdapter::new(fonts);
    let font = adapter.resolve_font_handle(&scalars("layout.ttf"), 655_360).expect("font loads");
    let mini = adapter.resolve_font_handle(&scalars("mini.ttf"), 655_360).expect("font loads");
    let junk = adapter.resolve_font_handle(&scalars("junk.otf"), 655_360).expect("font loads");
    let latn = tag(b"latn") as i32;
    let trk = tag(b"TRK ") as i32;

    assert_eq!(adapter.ot_font_get(font, 1, 0, 0, 0), 7);
    assert_eq!(adapter.ot_font_get(font, 16, 0, 0, 0), 1);
    assert_eq!(adapter.ot_font_get(font, 17, latn, 0, 0), 1);
    assert_eq!(adapter.ot_font_get(font, 18, latn, trk, 0), 2);
    assert_eq!(adapter.ot_font_get(font, 19, 0, 0, 0), latn);
    assert_eq!(adapter.ot_font_get(font, 20, latn, 0, 0), trk);
    assert_eq!(adapter.ot_font_get(font, 21, latn, trk, 1), tag(b"liga") as i32);
    assert_eq!(adapter.ot_font_get(font, 21, latn, trk, -1), 0);
    assert_eq!(adapter.ot_font_get(font, 2, 0, 0, 0), 0);
    assert_eq!(adapter.ot_font_get(mini, 1, 0, 0, 0), 7);
    assert_eq!(adapter.ot_font_get(mini, 16, 0, 0, 0), 0);
    assert_eq!(adapter.ot_font_get(junk, 1, 0, 0, 0), 0);
    assert_eq!(adapter.ot_font_get(99, 1, 0, 0, 0), 0);
    assert_eq!(adapter.font_size(font), Some(Length(655_360)));
    assert_eq!(adapter.font_size(99), None);
}
