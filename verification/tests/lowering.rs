use mathtex::ir::{
    BoxKind, ByteSpan, FragmentKind, FragmentMetadata, LayoutNodeKind, Length, NodeId, Point,
    SourceRole,
};
use mathtex::lowering::{
    generated_node_to_fragment, place_child, start_cursor, Cursor, FontLabel, GeneratedIrBuilder,
    GeneratedLayoutCapture, NativeGlyphSnapshot, NodeKind, NodeSnapshot, NodeStore, ParentBox, SourceSpanSnapshot,
};

fn node(kind: NodeKind, width: i32, height: i32, depth: i32) -> NodeSnapshot {
    NodeSnapshot {
        kind,
        width,
        height,
        depth,
        shift: 0,
        list: None,
        link: None,
        glue_sign: 0,
        glue_order: 0,
        glue_stretch_order: 0,
        glue_shrink_order: 0,
        stretch_amount: 0,
        shrink_amount: 0,
        font: 0,
        character: 0,
        native_glyphs: Vec::new(),
        source: None,
        enclosing_sources: Vec::new(),
    }
}

fn metadata() -> FragmentMetadata {
    FragmentMetadata {
        engine_profile: "tex".into(),
        format_id: "plain".into(),
        fragment_kind: FragmentKind::MathInline,
    }
}

fn sample_store() -> NodeStore {
    // 0: hbox [1: char, 2: glue, 3: kern, 4: rule (running height), 5: penalty-like other]
    let mut hbox = node(NodeKind::HorizontalBox, 100, 20, 5);
    hbox.list = Some(1);
    hbox.glue_sign = 1;
    hbox.glue_order = 0;
    hbox.source = Some(SourceSpanSnapshot { name: "input".into(), start: 0, end: 9 });
    let mut ch = node(NodeKind::Character, 10, 7, 0);
    ch.link = Some(2);
    ch.font = 3;
    ch.character = 65;
    ch.source = Some(SourceSpanSnapshot { name: "input".into(), start: 1, end: 2 });
    ch.enclosing_sources = vec![SourceSpanSnapshot { name: "macros.tex".into(), start: 4, end: 8 }];
    let mut glue = node(NodeKind::Glue, 6, 0, 0);
    glue.link = Some(3);
    glue.stretch_amount = 4;
    let mut kern = node(NodeKind::Kern, 2, 0, 0);
    kern.link = Some(4);
    let mut rule = node(NodeKind::Rule, 3, -1_073_741_824, -1_073_741_824);
    rule.link = Some(5);
    let other = node(NodeKind::Other, 0, 0, 0);
    NodeStore {
        nodes: vec![hbox, ch, glue, kern, rule, other],
        fonts: vec![FontLabel { font: 3, name: Some("cmr10".into()), size: 655360 }],
    }
}

#[test]
fn lowering_places_children_along_the_box_and_emits_children_first() {
    let store = sample_store();
    let fragment = generated_node_to_fragment(&store, 0, metadata()).expect("root is a box");
    assert_eq!(fragment.nodes.len(), 5);
    for (i, n) in fragment.nodes.iter().enumerate() {
        assert_eq!(n.id, NodeId(i as u32));
    }
    assert_eq!(fragment.nodes[0].origin, Point { x: Length(0), y: Length(0) });
    assert_eq!(fragment.nodes[1].origin, Point { x: Length(10), y: Length(0) });
    assert_eq!(fragment.nodes[2].origin, Point { x: Length(20), y: Length(0) });
    assert_eq!(fragment.nodes[3].origin, Point { x: Length(22), y: Length(0) });
    match &fragment.nodes[0].kind {
        LayoutNodeKind::GlyphRun(run) => {
            assert_eq!(run.font.name, "cmr10");
            assert_eq!(run.font.size, Length(655360));
            assert_eq!(run.glyphs[0].glyph_id.0, 65);
            assert_eq!(run.glyphs[0].advance.x, Length(10));
        }
        other => panic!("unexpected {other:?}"),
    }
    match &fragment.nodes[1].kind {
        LayoutNodeKind::Glue(glue) => assert_eq!(glue.amount, Length(6)),
        other => panic!("unexpected {other:?}"),
    }
    match &fragment.nodes[3].kind {
        LayoutNodeKind::Rule(rule) => {
            assert_eq!(rule.size.width, Length(3));
            assert_eq!(rule.size.height, Length(25));
        }
        other => panic!("unexpected {other:?}"),
    }
    match &fragment.nodes[4].kind {
        LayoutNodeKind::Box(b) => {
            assert_eq!(b.kind, BoxKind::Horizontal);
            assert_eq!(b.children, vec![NodeId(0), NodeId(1), NodeId(2), NodeId(3)]);
        }
        other => panic!("unexpected {other:?}"),
    }
    assert_eq!(fragment.surface.width, Length(100));
    assert_eq!(fragment.surface.height, Length(25));
    assert_eq!(fragment.surface.baseline, Length(20));
    assert_eq!(fragment.source_map.sources.len(), 2);
    let entries = fragment.source_map.entries_for_node(NodeId(0));
    assert_eq!(entries.len(), 2);
    assert_eq!(entries[0].role, SourceRole::Primary);
    assert_eq!(entries[0].range.span, ByteSpan { start: 1, end: 2 });
    assert_eq!(entries[1].role, SourceRole::EnclosingConstruct);
    assert_eq!(fragment.primary_source_for_node(NodeId(4)).expect("box source").span, ByteSpan { start: 0, end: 9 });
}

#[test]
fn vertical_lists_stack_nodes_from_the_top() {
    let mut vbox = node(NodeKind::VerticalBox, 50, 30, 4);
    vbox.list = Some(1);
    let mut inner = node(NodeKind::HorizontalBox, 20, 8, 2);
    inner.shift = 3;
    inner.link = Some(2);
    let mut kern = node(NodeKind::Kern, 5, 0, 0);
    kern.link = Some(3);
    let mut rule = node(NodeKind::Rule, -1_073_741_824, 1, 1);
    rule.link = None;
    let store = NodeStore { nodes: vec![vbox, inner, kern, rule], fonts: vec![] };
    let fragment = generated_node_to_fragment(&store, 0, metadata()).expect("root is a box");
    assert_eq!(fragment.nodes.len(), 4);
    assert_eq!(fragment.nodes[0].origin, Point { x: Length(3), y: Length(-22) });
    assert_eq!(fragment.nodes[1].origin, Point { x: Length(0), y: Length(-20) });
    assert_eq!(fragment.nodes[2].origin, Point { x: Length(0), y: Length(-14) });
    match &fragment.nodes[2].kind {
        LayoutNodeKind::Rule(rule) => assert_eq!(rule.size.width, Length(50)),
        other => panic!("unexpected {other:?}"),
    }
    match &fragment.nodes[3].kind {
        LayoutNodeKind::Box(b) => assert_eq!(b.kind, BoxKind::Vertical),
        other => panic!("unexpected {other:?}"),
    }
}

#[test]
fn native_words_keep_their_shaped_glyphs_and_clusters() {
    let mut word = node(NodeKind::NativeWord, 30, 7, 2);
    word.font = 9;
    word.native_glyphs = vec![
        NativeGlyphSnapshot { glyph_id: 12, x: 0, y: 0, advance: 15, src_start: 0, src_end: 1 },
        NativeGlyphSnapshot { glyph_id: 13, x: 15, y: 1, advance: 15, src_start: 0, src_end: 0 },
    ];
    let store = NodeStore { nodes: vec![word], fonts: vec![FontLabel { font: 9, name: None, size: 10 }] };
    let fragment = generated_node_to_fragment(&store, 0, metadata()).expect("root is a glyph node");
    match &fragment.nodes[0].kind {
        LayoutNodeKind::GlyphRun(run) => {
            assert_eq!(run.font.name, "generated-font-9");
            assert_eq!(run.glyphs.len(), 2);
            assert_eq!(run.glyphs[0].cluster, Some(ByteSpan { start: 0, end: 1 }));
            assert_eq!(run.glyphs[1].cluster, None);
            assert_eq!(run.glyphs[1].offset, Point { x: Length(15), y: Length(1) });
        }
        other => panic!("unexpected {other:?}"),
    }
}

#[test]
fn roots_that_lower_to_nothing_give_no_fragment() {
    let store = NodeStore { nodes: vec![node(NodeKind::OutputWhatsit, 0, 0, 0)], fonts: vec![] };
    assert!(generated_node_to_fragment(&store, 0, metadata()).is_none());
    assert!(generated_node_to_fragment(&store, 7, metadata()).is_none());
    let capture = GeneratedLayoutCapture { last_shipout_box: Some(0), ..GeneratedLayoutCapture::default() };
    assert!(capture.to_fragment(&store, metadata()).is_none());
    assert!(capture.last_shipout_snapshot(&store).is_some());
    let capture = GeneratedLayoutCapture::default();
    assert!(capture.to_fragment_with_recorded_source(&sample_store(), metadata()).is_none());
    let capture = GeneratedLayoutCapture { captured_fragment_root: Some(0), ..GeneratedLayoutCapture::default() };
    assert_eq!(capture.to_fragment(&sample_store(), metadata()).expect("box").nodes.len(), 5);
}

#[test]
fn stretched_glue_advances_by_its_set_width() {
    let mut parent = node(NodeKind::HorizontalBox, 0, 0, 0);
    parent.glue_sign = 2;
    parent.glue_order = 1;
    let mut glue = node(NodeKind::Glue, 10, 0, 0);
    glue.glue_shrink_order = 1;
    glue.shrink_amount = 3;
    let (origin, next) = place_child(false, start_cursor(&parent), &glue, parent.glue_sign, parent.glue_order);
    assert_eq!(origin, Point { x: Length(0), y: Length(0) });
    assert_eq!(next, Cursor { h: 7, v: 0 });
    glue.glue_shrink_order = 0;
    let (_, next) = place_child(false, Cursor { h: 1, v: 0 }, &glue, 2, 1);
    assert_eq!(next, Cursor { h: 11, v: 0 });
}

#[test]
fn running_rule_dimensions_come_from_the_enclosing_box() {
    let store = NodeStore {
        nodes: vec![node(NodeKind::Rule, -1_073_741_824, -1_073_741_824, 4)],
        fonts: Vec::new(),
    };
    let mut builder = GeneratedIrBuilder::new(&store, metadata());
    let at = Point { x: Length(7), y: Length(9) };
    let vertical = ParentBox { vertical: true, width: 500, height: 30, depth: 6 };
    let horizontal = ParentBox { vertical: false, width: 500, height: 30, depth: 6 };
    assert_eq!(builder.emit_node(0, at, Some(vertical)), Some(NodeId(0)));
    assert_eq!(builder.emit_node(0, at, Some(horizontal)), Some(NodeId(1)));
    assert_eq!(builder.emit_node(0, at, None), Some(NodeId(2)));
    assert_eq!(builder.emit_node(1, at, None), None);
    let fragment = builder.finish_with_root(NodeId(2)).expect("root exists");
    let sizes: Vec<(i32, i32)> = fragment
        .nodes
        .iter()
        .map(|n| match &n.kind {
            LayoutNodeKind::Rule(r) => (r.size.width.0, r.size.height.0),
            _ => panic!("rule expected"),
        })
        .collect();
    // Vertical parent: the width is the box's; horizontal parent: height and depth are.
    assert_eq!(sizes, vec![(500, -1_073_741_820), (-1_073_741_824, 34), (-1_073_741_824, -1_073_741_820)]);
    assert!(fragment.nodes.iter().all(|n| n.origin == at && n.primary_source.is_none()));
    assert!(fragment.source_map.entries.is_empty());
}
