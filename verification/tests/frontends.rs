use mathtex::frontends::{
    font_filename, font_name, native_math_document, rebase_source_spans_to_input, tex_error,
};
use mathtex::ir::{
    ByteSpan, Direction, FontId, FontRef, Fragment, GlyphId, GlyphRun, LayoutNode, LayoutNodeKind,
    Length, NodeId, Point, PositionedGlyph, Rect, SourceId, SourceMap, SourceMapEntry, SourceRange,
    SourceRole, Style,
};

#[test]
fn font_specs_name_their_font_files() {
    assert_eq!(font_filename("[latinmodern-math.otf]:script=math"), "latinmodern-math.otf");
    assert_eq!(font_filename("  lmroman10-regular:mapping=tex-text "), "lmroman10-regular");
    assert_eq!(font_filename("fonts/opentype/x.otf"), "fonts");
    assert_eq!(font_filename("[unterminated"), "unterminated");
    assert_eq!(font_filename("[ padded.otf ]"), " padded.otf ");
    assert_eq!(font_name("[ padded.otf ]"), "padded.otf");
    assert_eq!(font_name(""), "");
}

#[test]
fn transcripts_report_the_first_tex_error_line() {
    assert_eq!(tex_error("This is TeX\n! Undefined control sequence.\nl.1 \\foo\n! Second.\n"), Some("! Undefined control sequence.".to_string()));
    assert_eq!(tex_error("ok\r\n   ! Indented error\r\n"), Some("   ! Indented error".to_string()));
    assert_eq!(tex_error("!No space\n"), None);
    assert_eq!(tex_error(""), None);
    assert_eq!(tex_error("last line\n! Missing $ inserted."), Some("! Missing $ inserted.".to_string()));
}

#[test]
fn native_documents_wrap_the_expression_in_math_mode() {
    let doc = native_math_document("x^2");
    assert!(doc.starts_with("\\catcode`\\{=1 \\catcode`\\}=2 "));
    assert!(doc.contains("\\font\\mf=\"[latinmodern-math.otf]:script=math\" at 10pt "));
    assert!(doc.contains("\\def\\sqrt{\\Uradical\"0 \"221A } "));
    assert!(doc.ends_with("\\hbox{$x^2\\relax$}\\end"));
}

fn range(start: u32, end: u32) -> SourceRange {
    SourceRange { source: SourceId(0), span: ByteSpan { start, end } }
}

#[test]
fn rebasing_moves_spans_into_the_caller_text_and_drops_the_rest() {
    let glyphs = vec![
        PositionedGlyph { glyph_id: GlyphId(1), offset: Point::default(), advance: Point::default(), cluster: Some(ByteSpan { start: 10, end: 11 }) },
        PositionedGlyph { glyph_id: GlyphId(2), offset: Point::default(), advance: Point::default(), cluster: Some(ByteSpan { start: 2, end: 3 }) },
        PositionedGlyph { glyph_id: GlyphId(3), offset: Point::default(), advance: Point::default(), cluster: None },
    ];
    let run = LayoutNode {
        id: NodeId(0),
        origin: Point::default(),
        bounds: Rect::default(),
        primary_source: Some(range(10, 14)),
        style: Style::default(),
        kind: LayoutNodeKind::GlyphRun(GlyphRun {
            font: FontRef { id: FontId(1), name: "f".into(), size: Length::zero(), features: vec![] },
            direction: Direction::LeftToRight,
            script: None,
            language: None,
            glyphs,
        }),
    };
    let outside = LayoutNode { id: NodeId(1), primary_source: Some(range(12, 20)), ..run.clone() };
    let mut source_map = SourceMap::default();
    source_map.entries = vec![
        SourceMapEntry { node: NodeId(0), range: range(10, 15), role: SourceRole::Primary },
        SourceMapEntry { node: NodeId(1), range: range(9, 12), role: SourceRole::Primary },
        SourceMapEntry { node: NodeId(1), range: range(13, 12), role: SourceRole::Primary },
    ];
    let mut fragment = Fragment { nodes: vec![run, outside], source_map, ..Fragment::default() };

    rebase_source_spans_to_input(&mut fragment, 10, 5);

    assert_eq!(fragment.nodes[0].primary_source, Some(range(0, 4)));
    assert_eq!(fragment.nodes[1].primary_source, None);
    match &fragment.nodes[0].kind {
        LayoutNodeKind::GlyphRun(run) => {
            let clusters: Vec<_> = run.glyphs.iter().map(|g| g.cluster).collect();
            assert_eq!(clusters, vec![Some(ByteSpan { start: 0, end: 1 }), None, None]);
        }
        other => panic!("unexpected node kind: {other:?}"),
    }
    assert_eq!(
        fragment.source_map.entries,
        vec![SourceMapEntry { node: NodeId(0), range: range(0, 5), role: SourceRole::Primary }]
    );
}
