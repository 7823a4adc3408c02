use mathtex::ir::{
    BoxKind, BoxMetrics, ByteSpan, Direction, FontId, FontRef, Fragment, GlyphId, GlyphRun, LayoutBox,
    LayoutList, LayoutNode, LayoutNodeKind, Length, ListKind, NodeId, Point, PositionedGlyph, Rect,
    SourceMap, SourceRange, SourceRole, Style,
};

#[test]
fn source_map_tracks_multiple_sources_for_node() {
    let mut source_map = SourceMap::default();
    let input = source_map.add_source("input");
    let package = source_map.add_source("amsmath.sty");
    let input_again = source_map.intern_source("input");

    source_map.add_entry(
        NodeId(7),
        SourceRange { source: input, span: ByteSpan { start: 1, end: 5 } },
        SourceRole::Primary,
    );
    source_map.add_entry(
        NodeId(7),
        SourceRange { source: package, span: ByteSpan { start: 10, end: 20 } },
        SourceRole::Package,
    );
    source_map.add_entry(
        NodeId(7),
        SourceRange { source: input, span: ByteSpan { start: 0, end: 16 } },
        SourceRole::ResourceRequest,
    );

    let entries = source_map.entries_for_node(NodeId(7)).len();

    assert_eq!(input_again, input);
    assert_eq!(source_map.sources.len(), 2);
    assert_eq!(entries, 3);
    assert_eq!(source_map.source(input).expect("input source").name, "input");
    assert_eq!(
        source_map.primary_range_for_node(NodeId(7)),
        Some(SourceRange { source: input, span: ByteSpan { start: 1, end: 5 } })
    );

    let fragment = Fragment { source_map, ..Fragment::default() };
    let origins = fragment.source_origins_for_node(NodeId(7));
    assert_eq!(origins.len(), 3);
    assert_eq!(origins[0].source.name, "input");
    assert_eq!(origins[0].span, ByteSpan { start: 1, end: 5 });
    assert_eq!(origins[1].source.name, "amsmath.sty");
    assert_eq!(origins[1].role, SourceRole::Package);
    assert_eq!(origins[2].role, SourceRole::ResourceRequest);
}

#[test]
fn fragment_resolves_glyph_clusters_to_original_source_ranges() {
    let mut source_map = SourceMap::default();
    let input = source_map.add_source("input");
    let node = NodeId(4);
    source_map.add_entry(
        node,
        SourceRange { source: input, span: ByteSpan { start: 0, end: 6 } },
        SourceRole::Primary,
    );
    let fragment = Fragment {
        source_map,
        nodes: vec![LayoutNode {
            id: node,
            origin: Point::default(),
            bounds: Rect::default(),
            primary_source: None,
            style: Style::default(),
            kind: LayoutNodeKind::GlyphRun(GlyphRun {
                font: FontRef { id: FontId(1), name: "test".into(), size: Length::zero(), features: vec![] },
                direction: Direction::LeftToRight,
                script: None,
                language: None,
                glyphs: vec![PositionedGlyph {
                    glyph_id: GlyphId(9),
                    offset: Point::default(),
                    advance: Point::default(),
                    cluster: Some(ByteSpan { start: 2, end: 4 }),
                }],
            }),
        }],
        ..Fragment::default()
    };

    assert_eq!(fragment.node(node).expect("node").id, node);
    assert_eq!(
        fragment.glyph_source_range(node, 0),
        Some(SourceRange { source: input, span: ByteSpan { start: 2, end: 4 } })
    );
    let origin = fragment.glyph_source_origin(node, 0).expect("glyph source origin");
    assert_eq!(origin.source.name, "input");
    assert_eq!(origin.span, ByteSpan { start: 2, end: 4 });
    assert_eq!(origin.role, SourceRole::Primary);
    assert_eq!(fragment.glyph_source_range(node, 1), None);
}

#[test]
fn ir_represents_tex_boxes_and_lists_without_renderer_terms() {
    let list = LayoutNode {
        id: NodeId(1),
        origin: Point::default(),
        bounds: Rect::default(),
        primary_source: None,
        style: Style::default(),
        kind: LayoutNodeKind::List(LayoutList { kind: ListKind::Math, children: vec![NodeId(2)] }),
    };
    let boxed = LayoutNode {
        id: NodeId(2),
        origin: Point { x: Length::zero(), y: Length::from_scaled_points(10_000) },
        bounds: Rect::default(),
        primary_source: None,
        style: Style::default(),
        kind: LayoutNodeKind::Box(LayoutBox {
            kind: BoxKind::Horizontal,
            metrics: BoxMetrics {
                width: Length::from_scaled_points(65_536),
                height: Length::from_scaled_points(32_768),
                depth: Length::from_scaled_points(16_384),
                shift: Length::zero(),
            },
            children: vec![],
        }),
    };
    let glyphs = LayoutNode {
        id: NodeId(3),
        origin: Point { x: Length::zero(), y: Length::from_scaled_points(50_000) },
        bounds: Rect::default(),
        primary_source: None,
        style: Style::default(),
        kind: LayoutNodeKind::GlyphRun(GlyphRun {
            font: FontRef { id: FontId(1), name: "test".into(), size: Length::zero(), features: vec![] },
            direction: Direction::LeftToRight,
            script: None,
            language: None,
            glyphs: vec![],
        }),
    };

    let fragment = Fragment { nodes: vec![list, boxed, glyphs], ..Fragment::default() };

    assert_eq!(fragment.nodes[0].baseline_y(), None);
    assert_eq!(fragment.nodes[1].baseline_y(), Some(Length::from_scaled_points(42_768)));
    assert_eq!(fragment.nodes[2].baseline_y(), Some(Length::from_scaled_points(50_000)));

    match &fragment.nodes[0].kind {
        LayoutNodeKind::List(layout_list) => {
            assert_eq!(layout_list.kind, ListKind::Math);
            assert_eq!(layout_list.children, vec![NodeId(2)]);
        }
        other => panic!("unexpected node: {other:?}"),
    }

    match &fragment.nodes[1].kind {
        LayoutNodeKind::Box(layout_box) => {
            assert_eq!(layout_box.kind, BoxKind::Horizontal);
            assert_eq!(layout_box.metrics.depth, Length::from_scaled_points(16_384));
            assert_eq!(layout_box.metrics.baseline_offset(), Length::from_scaled_points(32_768));
            assert_eq!(layout_box.metrics.total_height(), Length::from_scaled_points(49_152));
        }
        other => panic!("unexpected node: {other:?}"),
    }
}
