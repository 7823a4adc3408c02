use mathtex::ir::{
    BoxKind, BoxMetrics, ByteSpan, Color, Direction, FontId, FontRef, Fragment, GlyphId, GlyphRun, Kern,
    LayoutBox, LayoutNode, LayoutNodeKind, Length, NodeId, Point, PositionedGlyph, Rect, SourceId,
    SourceMap, SourceRange, SourceRole, Style, Surface,
};
use mathtex::svg::{
    color_to_hex, escape_attr, glyph_source_attrs, select_root, source_attrs, source_range_attrs, svg_walk,
    GlyphDefs, SvgVisit,
};

fn node(id: u32, kind: LayoutNodeKind) -> LayoutNode {
    LayoutNode {
        id: NodeId(id),
        origin: Point::default(),
        bounds: Rect::default(),
        primary_source: None,
        style: Style::default(),
        kind,
    }
}

fn boxed(children: Vec<NodeId>) -> LayoutNodeKind {
    LayoutNodeKind::Box(LayoutBox { kind: BoxKind::Horizontal, metrics: BoxMetrics::default(), children })
}

#[test]
fn root_is_the_first_box_no_node_lists() {
    let fragment = Fragment {
        nodes: vec![
            node(0, boxed(vec![])),
            node(1, LayoutNodeKind::Group { children: vec![NodeId(2)] }),
            node(2, boxed(vec![NodeId(0)])),
            node(3, boxed(vec![])),
        ],
        ..Fragment::default()
    };
    assert_eq!(select_root(&fragment), Some(NodeId(3)));
    assert_eq!(select_root(&Fragment::default()), None);
    let no_box = Fragment { nodes: vec![node(0, LayoutNodeKind::Group { children: vec![] })], ..Fragment::default() };
    assert_eq!(select_root(&no_box), None);
}

#[test]
fn attribute_values_escape_markup_characters() {
    assert_eq!(escape_attr(r#"a<b & "c">"#), "a&lt;b &amp; &quot;c&quot;&gt;");
    assert_eq!(escape_attr("Latin Modern Math"), "Latin Modern Math");
    assert_eq!(escape_attr(""), "");
}

#[test]
fn colors_are_written_as_rgba_hex() {
    assert_eq!(color_to_hex(Color { r: 12, g: 34, b: 56, a: 255 }), "#0c2238ff");
    assert_eq!(color_to_hex(Color { r: 1, g: 2, b: 3, a: 128 }), "#01020380");
}

#[test]
fn source_attributes_prefer_the_node_primary_source() {
    let range = SourceRange { source: SourceId(4), span: ByteSpan { start: 11, end: 12 } };
    assert_eq!(
        source_range_attrs(range),
        r#" data-source-id="4" data-source-start="11" data-source-end="12""#
    );

    let mut source_map = SourceMap::default();
    let input = source_map.add_source("input");
    source_map.add_entry(
        NodeId(3),
        SourceRange { source: input, span: ByteSpan { start: 2, end: 9 } },
        SourceRole::Primary,
    );
    let fragment = Fragment { source_map, ..Fragment::default() };
    let mapped = node(3, boxed(vec![]));
    assert_eq!(
        source_attrs(&mapped, &fragment),
        r#" data-source-id="0" data-source-start="2" data-source-end="9""#
    );
    let own = LayoutNode { primary_source: Some(range), ..node(3, boxed(vec![])) };
    assert_eq!(source_attrs(&own, &fragment), r#" data-source-id="4" data-source-start="11" data-source-end="12""#);
    assert_eq!(source_attrs(&node(5, boxed(vec![])), &fragment), "");
}

fn at(x: i32, y: i32) -> Point {
    Point { x: Length(x), y: Length(y) }
}

fn glyph_run(glyphs: Vec<PositionedGlyph>) -> LayoutNodeKind {
    LayoutNodeKind::GlyphRun(GlyphRun {
        font: FontRef { id: FontId(1), name: "Nested".to_string(), size: Length(10 * 65_536), features: vec![] },
        direction: Direction::LeftToRight,
        script: None,
        language: None,
        glyphs,
    })
}

fn glyph(id: u32, offset: Point) -> PositionedGlyph {
    PositionedGlyph { glyph_id: GlyphId(id), offset, advance: Point::default(), cluster: None }
}

#[test]
fn svg_accumulates_nested_origins() {
    // Relative child (3,0) plus glyph run (5,0) yields absolute x=8, y=baseline.
    let root = node(1, boxed(vec![NodeId(2)]));
    let child = LayoutNode { origin: at(3 * 65_536, 0), ..node(2, boxed(vec![NodeId(3)])) };
    let run = LayoutNode { origin: at(5 * 65_536, 0), ..node(3, glyph_run(vec![glyph(7, Point::default())])) };
    let fragment = Fragment {
        surface: Surface { width: Length(20 * 65_536), height: Length(10 * 65_536), baseline: Length(4 * 65_536) },
        // Children are emitted before the root, as in the engine depth first emission.
        nodes: vec![run, child, root],
        ..Fragment::default()
    };
    let walk = svg_walk(&fragment);
    let glyph_at: Vec<Point> = walk
        .iter()
        .filter_map(|v| match v {
            SvgVisit::Glyph { at, .. } => Some(*at),
            _ => None,
        })
        .collect();
    assert_eq!(glyph_at, vec![at(8 * 65_536, 4 * 65_536)]);
    assert!(!walk.iter().any(|v| matches!(v, SvgVisit::Glyph { at: p, .. } if *p == at(0, 0) || *p == at(5 * 65_536, 0))));
    assert_eq!(
        walk,
        vec![
            SvgVisit::Enter { node: NodeId(1), at: at(0, 4 * 65_536) },
            SvgVisit::Enter { node: NodeId(2), at: at(3 * 65_536, 4 * 65_536) },
            SvgVisit::Enter { node: NodeId(3), at: at(8 * 65_536, 4 * 65_536) },
            SvgVisit::Glyph { node: NodeId(3), index: 0, at: at(8 * 65_536, 4 * 65_536) },
            SvgVisit::Leave { node: NodeId(3) },
            SvgVisit::Leave { node: NodeId(2) },
            SvgVisit::Leave { node: NodeId(1) },
        ]
    );
}

#[test]
fn walk_without_a_root_draws_every_node_and_skips_unknown_children() {
    let kern = LayoutNodeKind::Kern(Kern { amount: Length(5) });
    let fragment = Fragment {
        surface: Surface { baseline: Length(10), ..Surface::default() },
        nodes: vec![
            LayoutNode { origin: at(1, 2), ..node(0, LayoutNodeKind::Group { children: vec![NodeId(9), NodeId(1)] }) },
            LayoutNode { origin: at(i32::MAX, -20), ..node(1, kern) },
        ],
        ..Fragment::default()
    };
    assert_eq!(
        svg_walk(&fragment),
        vec![
            SvgVisit::Enter { node: NodeId(0), at: at(1, 12) },
            SvgVisit::Enter { node: NodeId(1), at: at(i32::MAX, -8) },
            SvgVisit::Leave { node: NodeId(0) },
            SvgVisit::Enter { node: NodeId(1), at: at(i32::MAX, -10) },
        ]
    );
    assert_eq!(svg_walk(&Fragment::default()), vec![]);
}

#[test]
fn glyphs_are_placed_at_their_offsets_from_the_run() {
    let run = LayoutNode {
        origin: at(100, 0),
        ..node(4, glyph_run(vec![glyph(1, at(0, 0)), glyph(2, at(30, -5)), glyph(3, at(i32::MAX, 0))]))
    };
    let fragment = Fragment { nodes: vec![node(0, boxed(vec![NodeId(4)])), run], ..Fragment::default() };
    let glyphs: Vec<(usize, Point)> = svg_walk(&fragment)
        .into_iter()
        .filter_map(|v| match v {
            SvgVisit::Glyph { index, at, .. } => Some((index, at)),
            _ => None,
        })
        .collect();
    assert_eq!(glyphs, vec![(0, at(100, 0)), (1, at(130, -5)), (2, at(i32::MAX, 0))]);
}

#[test]
fn repeated_outlines_share_one_definition() {
    let mut defs = GlyphDefs::new();
    assert!(defs.is_empty());
    assert_eq!(defs.markup(), "");
    assert_eq!(defs.intern("M0 0 L10 0 Z"), 0);
    assert_eq!(defs.intern("M1 1 Z"), 1);
    assert_eq!(defs.intern("M0 0 L10 0 Z"), 0);
    assert_eq!(defs.intern(""), 2);
    assert!(!defs.is_empty());
    assert_eq!(defs.markup(), r#"<path id="g0" d="M0 0 L10 0 Z"/><path id="g1" d="M1 1 Z"/><path id="g2" d=""/>"#);
}

#[test]
fn svg_exposes_primary_source_range() {
    let mut source_map = SourceMap::default();
    let source = source_map.add_source("input");
    source_map.add_entry(NodeId(3), SourceRange { source, span: ByteSpan { start: 2, end: 9 } }, SourceRole::Primary);
    let rule = node(
        3,
        LayoutNodeKind::Rule(mathtex::ir::Rule {
            size: mathtex::ir::Size { width: Length(65_536), height: Length(32_768) },
            color: Color::default(),
        }),
    );
    let fragment = Fragment {
        surface: Surface { width: Length(65_536), height: Length(65_536), baseline: Length(0) },
        nodes: vec![rule.clone()],
        source_map,
        ..Fragment::default()
    };
    let attrs = source_attrs(&rule, &fragment);
    assert!(attrs.contains(r#"data-source-id="0""#));
    assert!(attrs.contains(r#"data-source-start="2""#));
    assert!(attrs.contains(r#"data-source-end="9""#));
    assert_eq!(svg_walk(&fragment), vec![SvgVisit::Enter { node: NodeId(3), at: at(0, 0) }]);
}

#[test]
fn svg_prefers_node_primary_source_over_source_map_lookup() {
    let group = LayoutNode {
        primary_source: Some(SourceRange { source: SourceId(4), span: ByteSpan { start: 11, end: 12 } }),
        style: Style {
            foreground: Color { r: 12, g: 34, b: 56, a: 255 },
            background: Some(Color { r: 1, g: 2, b: 3, a: 255 }),
            opacity: mathtex::ir::Alpha(128),
        },
        ..node(1, LayoutNodeKind::Group { children: vec![] })
    };
    let fragment = Fragment { nodes: vec![group.clone()], ..Fragment::default() };
    let attrs = source_attrs(&group, &fragment);
    assert!(attrs.contains(r#"data-source-id="4""#));
    assert!(attrs.contains(r#"data-source-start="11""#));
    assert!(attrs.contains(r#"data-source-end="12""#));
    assert_eq!(color_to_hex(group.style.foreground), "#0c2238ff");
    assert_eq!(color_to_hex(group.style.background.expect("background")), "#010203ff");
}

#[test]
fn svg_emits_positioned_glyphs_with_cluster_sources() {
    let mut source_map = SourceMap::default();
    let source = source_map.add_source("input");
    source_map.add_entry(NodeId(9), SourceRange { source, span: ByteSpan { start: 4, end: 8 } }, SourceRole::Primary);
    let mut first = glyph(42, Point::default());
    first.advance = at(65_536, 0);
    first.cluster = Some(ByteSpan { start: 4, end: 6 });
    let mut second = glyph(43, at(65_536, 0));
    second.advance = at(2 * 65_536, 0);
    second.cluster = Some(ByteSpan { start: 6, end: 8 });
    let mut kind = glyph_run(vec![first, second]);
    if let LayoutNodeKind::GlyphRun(run) = &mut kind {
        run.font.id = FontId(7);
        run.font.name = "Test Font".to_string();
    }
    let run = LayoutNode { origin: at(65_536, 2 * 65_536), ..node(9, kind) };
    let fragment = Fragment {
        surface: Surface { width: Length(4 * 65_536), height: Length(2 * 65_536), baseline: Length(65_536) },
        nodes: vec![run.clone()],
        source_map,
        ..Fragment::default()
    };
    assert_eq!(escape_attr("Test Font"), "Test Font");
    assert_eq!(glyph_source_attrs(&fragment, &run, 0), r#" data-source-id="0" data-source-start="4" data-source-end="6""#);
    assert_eq!(glyph_source_attrs(&fragment, &run, 1), r#" data-source-id="0" data-source-start="6" data-source-end="8""#);
    // No box parent: the run starts at the baseline on the left edge, so it lands at (1, 3)
    // points and its second glyph at (2, 3).
    assert_eq!(
        svg_walk(&fragment),
        vec![
            SvgVisit::Enter { node: NodeId(9), at: at(65_536, 3 * 65_536) },
            SvgVisit::Glyph { node: NodeId(9), index: 0, at: at(65_536, 3 * 65_536) },
            SvgVisit::Glyph { node: NodeId(9), index: 1, at: at(2 * 65_536, 3 * 65_536) },
            SvgVisit::Leave { node: NodeId(9) },
        ]
    );
}
