use mathtex::ir::{FragmentKind, FragmentMetadata, Glue, Kern, LayoutNodeKind, Length, NodeId, Point, Surface};
use mathtex::{EmitNode, IrEmitter};

#[test]
fn finishing_after_a_sequence_of_calls_keeps_every_emission_in_order() {
    let metadata = FragmentMetadata {
        engine_profile: "tex".to_string(),
        format_id: "plain".to_string(),
        fragment_kind: FragmentKind::Text,
    };
    let mut emitter = IrEmitter::new(metadata.clone());
    let at = |x: i32| EmitNode { origin: Point { x: Length(x), y: Length(0) }, ..EmitNode::default() };
    let first = Surface { width: Length(5), height: Length(6), baseline: Length(2) };
    let last = Surface { width: Length(50), height: Length(60), baseline: Length(20) };
    emitter.set_surface(first);
    assert_eq!(emitter.emit_kern(at(1), Kern { amount: Length(3) }), NodeId(0));
    emitter.set_surface(last);
    assert_eq!(emitter.emit_glue(at(2), Glue { amount: Length(4) }), NodeId(1));
    assert_eq!(emitter.emit_kern(at(3), Kern { amount: Length(5) }), NodeId(2));
    let fragment = emitter.finish();
    assert_eq!(fragment.metadata, metadata);
    assert_eq!(fragment.surface, last);
    assert!(fragment.source_map.sources.is_empty() && fragment.source_map.entries.is_empty());
    let ids: Vec<NodeId> = fragment.nodes.iter().map(|n| n.id).collect();
    assert_eq!(ids, vec![NodeId(0), NodeId(1), NodeId(2)]);
    assert!(fragment.nodes.iter().all(|n| n.primary_source.is_none()));
    assert_eq!(fragment.nodes[1].kind, LayoutNodeKind::Glue(Glue { amount: Length(4) }));
    assert_eq!(fragment.nodes[2].origin.x, Length(3));
    assert_eq!(IrEmitter::new(FragmentMetadata::default()).finish().surface, Surface::default());
}
