//! IR emitter that records layout nodes with sequential identifiers.
use vstd::prelude::*;

use crate::ir::{
    Fragment, FragmentMetadata, Glue, GlyphRun, Kern, LayoutBox, LayoutList, LayoutNode,
    LayoutNodeKind, Length, ListKind, NodeId, Point, Rect, Rule, SourceFile, SourceMap,
    SourceMapEntry, Style, Surface,
};

verus! {

/// Geometry and style carried by a single layout node during emission.
#[derive(Clone, Copy, Debug, Default, PartialEq, Eq, Structural)]
pub struct EmitNode {
    /// Position of the node origin in fragment coordinates.
    pub origin: Point,
    /// Bounding box of the node in fragment coordinates.
    pub bounds: Rect,
    /// TeX style level applied to nodes within this region.
    pub style: Style,
}

impl EmitNode {
    /// Returns a copy of this node with the style set to `style`.
    pub fn with_style(self, style: Style) -> (r: Self)
        ensures
            r == (EmitNode { style, ..self }),
    {
        let mut out = self;
        out.style = style;
        out
    }
}

/// The layout node an emission records.
pub open spec fn emitted_node(id: NodeId, node: EmitNode, kind: LayoutNodeKind) -> LayoutNode {
    LayoutNode {
        id,
        origin: node.origin,
        bounds: node.bounds,
        primary_source: None,
        style: node.style,
        kind,
    }
}

/// The plain contents of a fragment under construction.
pub struct EmitterState {
    pub metadata: FragmentMetadata,
    pub surface: Surface,
    pub nodes: Seq<LayoutNode>,
    pub sources: Seq<SourceFile>,
    pub entries: Seq<SourceMapEntry>,
}

/// The contents of a fragment.
pub open spec fn emitter_state(f: Fragment) -> EmitterState {
    EmitterState {
        metadata: f.metadata,
        surface: f.surface,
        nodes: f.nodes@,
        sources: f.source_map.sources@,
        entries: f.source_map.entries@,
    }
}

/// One call on an emitter: setting the surface, or emitting a node of a kind.
pub enum EmitterCall {
    SetSurface(Surface),
    Emit(EmitNode, LayoutNodeKind),
}

/// What one call does to a fragment's contents: a surface replaces the surface; an emission
/// appends the node with the next identifier.
pub open spec fn emitter_step(s: EmitterState, call: EmitterCall) -> EmitterState {
    match call {
        EmitterCall::SetSurface(surface) => EmitterState { surface, ..s },
        EmitterCall::Emit(node, kind) => EmitterState {
            nodes: s.nodes.push(emitted_node(NodeId(s.nodes.len() as u32), node, kind)),
            ..s
        },
    }
}

/// The zero surface a new emitter starts with.
pub open spec fn zero_surface() -> Surface {
    Surface { width: Length(0), height: Length(0), baseline: Length(0) }
}

/// The contents an emitter made for `metadata` holds after a sequence of calls.
pub open spec fn emitter_run(metadata: FragmentMetadata, calls: Seq<EmitterCall>) -> EmitterState
    decreases calls.len(),
{
    if calls.len() == 0 {
        EmitterState {
            metadata,
            surface: zero_surface(),
            nodes: Seq::empty(),
            sources: Seq::empty(),
            entries: Seq::empty(),
        }
    } else {
        emitter_step(emitter_run(metadata, calls.drop_last()), calls.last())
    }
}

/// The number of emissions among calls.
pub open spec fn emission_count(calls: Seq<EmitterCall>) -> nat
    decreases calls.len(),
{
    if calls.len() == 0 {
        0
    } else {
        emission_count(calls.drop_last()) + if calls.last() is Emit {
            1nat
        } else {
            0nat
        }
    }
}

/// The surface the last surface call set, the zero surface without one.
pub open spec fn last_surface(calls: Seq<EmitterCall>) -> Surface
    decreases calls.len(),
{
    if calls.len() == 0 {
        zero_surface()
    } else {
        match calls.last() {
            EmitterCall::SetSurface(s) => s,
            EmitterCall::Emit(_, _) => last_surface(calls.drop_last()),
        }
    }
}

/// After any sequence of calls on a new emitter (fewer than 2^32 emissions), the fragment
/// keeps its metadata, holds one node per emission with identifiers 0, 1, 2, ... in
/// emission order and no primary sources, has an empty source map, and has the surface
/// last set.
pub proof fn lemma_emitter_run(metadata: FragmentMetadata, calls: Seq<EmitterCall>)
    requires
        emission_count(calls) <= u32::MAX,
    ensures
        emitter_run(metadata, calls).metadata == metadata,
        emitter_run(metadata, calls).nodes.len() == emission_count(calls),
        forall|i: int|
            0 <= i < emitter_run(metadata, calls).nodes.len() ==> (#[trigger] emitter_run(metadata, calls).nodes[i]).id
                == NodeId(i as u32) && emitter_run(metadata, calls).nodes[i].primary_source is None,
        emitter_run(metadata, calls).sources.len() == 0,
        emitter_run(metadata, calls).entries.len() == 0,
        emitter_run(metadata, calls).surface == last_surface(calls),
    decreases calls.len(),
{
    if calls.len() > 0 {
        lemma_emitter_run(metadata, calls.drop_last());
    }
}

/// IR emitter for layout code, replacing TeX shipout.
#[derive(Clone, Debug)]
pub struct IrEmitter {
    fragment: Fragment,
    next_node: u32,
}

impl IrEmitter {
    /// Node identifiers equal positions, and the next identifier is the node count.
    pub closed spec fn well_formed(self) -> bool {
        &&& self.next_node as int == self.fragment.nodes@.len()
        &&& forall|i: int|
            0 <= i < self.fragment.nodes@.len() ==> (#[trigger] self.fragment.nodes@[i]).id
                == NodeId(i as u32)
    }

    /// The fragment built so far.
    pub closed spec fn spec_fragment(self) -> Fragment {
        self.fragment
    }

    /// The nodes emitted so far, in emission order.
    pub closed spec fn spec_nodes(self) -> Seq<LayoutNode> {
        self.fragment.nodes@
    }

    /// Creates a new emitter for a fragment with the given metadata.
    pub fn new(metadata: FragmentMetadata) -> (r: Self)
        ensures
            r.well_formed(),
            r.spec_nodes().len() == 0,
            r.spec_fragment().metadata == metadata,
            r.spec_fragment().source_map.sources@.len() == 0,
            r.spec_fragment().source_map.entries@.len() == 0,
            r.spec_fragment().surface == (Surface {
                width: crate::ir::Length(0),
                height: crate::ir::Length(0),
                baseline: crate::ir::Length(0),
            }),
            emitter_state(r.spec_fragment()) == emitter_run(metadata, Seq::empty()),
    {
        let zero = crate::ir::Length(0);
        IrEmitter {
            fragment: Fragment {
                surface: Surface { width: zero, height: zero, baseline: zero },
                nodes: Vec::new(),
                source_map: SourceMap { sources: Vec::new(), entries: Vec::new() },
                metadata,
            },
            next_node: 0,
        }
    }

    /// Sets the drawing surface dimensions for the current fragment.
    pub fn set_surface(&mut self, surface: Surface)
        requires
            old(self).well_formed(),
        ensures
            final(self).well_formed(),
            final(self).spec_fragment() == (Fragment { surface, ..old(self).spec_fragment() }),
            emitter_state(final(self).spec_fragment()) == emitter_step(
                emitter_state(old(self).spec_fragment()),
                EmitterCall::SetSurface(surface),
            ),
    {
        self.fragment.surface = surface;
    }

    /// Emits a box node and returns its identifier.
    pub fn emit_box(&mut self, node: EmitNode, layout_box: LayoutBox) -> (id: NodeId)
        requires
            old(self).well_formed(),
            old(self).spec_nodes().len() < u32::MAX,
        ensures
            final(self).well_formed(),
            id == NodeId(old(self).spec_nodes().len() as u32),
            final(self).spec_fragment() == (Fragment {
                nodes: final(self).spec_fragment().nodes,
                ..old(self).spec_fragment()
            }),
            final(self).spec_nodes() == old(self).spec_nodes().push(
                emitted_node(id, node, LayoutNodeKind::Box(layout_box)),
            ),
            emitter_state(final(self).spec_fragment()) == emitter_step(
                emitter_state(old(self).spec_fragment()),
                EmitterCall::Emit(node, LayoutNodeKind::Box(layout_box)),
            ),
    {
        self.emit(node, LayoutNodeKind::Box(layout_box))
    }

    /// Emits a list node wrapping the given children and returns its identifier.
    pub fn emit_list(&mut self, node: EmitNode, kind: ListKind, children: Vec<NodeId>) -> (id: NodeId)
        requires
            old(self).well_formed(),
            old(self).spec_nodes().len() < u32::MAX,
        ensures
            final(self).well_formed(),
            id == NodeId(old(self).spec_nodes().len() as u32),
            final(self).spec_fragment() == (Fragment {
                nodes: final(self).spec_fragment().nodes,
                ..old(self).spec_fragment()
            }),
            final(self).spec_nodes() == old(self).spec_nodes().push(
                emitted_node(id, node, LayoutNodeKind::List(LayoutList { kind, children })),
            ),
            emitter_state(final(self).spec_fragment()) == emitter_step(
                emitter_state(old(self).spec_fragment()),
                EmitterCall::Emit(node, LayoutNodeKind::List(LayoutList { kind, children })),
            ),
    {
        self.emit(node, LayoutNodeKind::List(LayoutList { kind, children }))
    }

    /// Emits a glyph run node and returns its identifier.
    pub fn emit_glyph_run(&mut self, node: EmitNode, glyph_run: GlyphRun) -> (id: NodeId)
        requires
            old(self).well_formed(),
            old(self).spec_nodes().len() < u32::MAX,
        ensures
            final(self).well_formed(),
            id == NodeId(old(self).spec_nodes().len() as u32),
            final(self).spec_fragment() == (Fragment {
                nodes: final(self).spec_fragment().nodes,
                ..old(self).spec_fragment()
            }),
            final(self).spec_nodes() == old(self).spec_nodes().push(
                emitted_node(id, node, LayoutNodeKind::GlyphRun(glyph_run)),
            ),
            emitter_state(final(self).spec_fragment()) == emitter_step(
                emitter_state(old(self).spec_fragment()),
                EmitterCall::Emit(node, LayoutNodeKind::GlyphRun(glyph_run)),
            ),
    {
        self.emit(node, LayoutNodeKind::GlyphRun(glyph_run))
    }

    /// Emits a rule node and returns its identifier.
    pub fn emit_rule(&mut self, node: EmitNode, rule: Rule) -> (id: NodeId)
        requires
            old(self).well_formed(),
            old(self).spec_nodes().len() < u32::MAX,
        ensures
            final(self).well_formed(),
            id == NodeId(old(self).spec_nodes().len() as u32),
            final(self).spec_fragment() == (Fragment {
                nodes: final(self).spec_fragment().nodes,
                ..old(self).spec_fragment()
            }),
            final(self).spec_nodes() == old(self).spec_nodes().push(
                emitted_node(id, node, LayoutNodeKind::Rule(rule)),
            ),
            emitter_state(final(self).spec_fragment()) == emitter_step(
                emitter_state(old(self).spec_fragment()),
                EmitterCall::Emit(node, LayoutNodeKind::Rule(rule)),
            ),
    {
        self.emit(node, LayoutNodeKind::Rule(rule))
    }

    /// Emits a glue node and returns its identifier.
    pub fn emit_glue(&mut self, node: EmitNode, glue: Glue) -> (id: NodeId)
        requires
            old(self).well_formed(),
            old(self).spec_nodes().len() < u32::MAX,
        ensures
            final(self).well_formed(),
            id == NodeId(old(self).spec_nodes().len() as u32),
            final(self).spec_fragment() == (Fragment {
                nodes: final(self).spec_fragment().nodes,
                ..old(self).spec_fragment()
            }),
            final(self).spec_nodes() == old(self).spec_nodes().push(
                emitted_node(id, node, LayoutNodeKind::Glue(glue)),
            ),
            emitter_state(final(self).spec_fragment()) == emitter_step(
                emitter_state(old(self).spec_fragment()),
                EmitterCall::Emit(node, LayoutNodeKind::Glue(glue)),
            ),
    {
        self.emit(node, LayoutNodeKind::Glue(glue))
    }

    /// Emits a kern node and returns its identifier.
    pub fn emit_kern(&mut self, node: EmitNode, kern: Kern) -> (id: NodeId)
        requires
            old(self).well_formed(),
            old(self).spec_nodes().len() < u32::MAX,
        ensures
            final(self).well_formed(),
            id == NodeId(old(self).spec_nodes().len() as u32),
            final(self).spec_fragment() == (Fragment {
                nodes: final(self).spec_fragment().nodes,
                ..old(self).spec_fragment()
            }),
            final(self).spec_nodes() == old(self).spec_nodes().push(
                emitted_node(id, node, LayoutNodeKind::Kern(kern)),
            ),
            emitter_state(final(self).spec_fragment()) == emitter_step(
                emitter_state(old(self).spec_fragment()),
                EmitterCall::Emit(node, LayoutNodeKind::Kern(kern)),
            ),
    {
        self.emit(node, LayoutNodeKind::Kern(kern))
    }

    /// Consumes the emitter and returns the completed fragment.
    pub fn finish(self) -> (r: Fragment)
        requires
            self.well_formed(),
        ensures
            r == self.spec_fragment(),
            forall|i: int| 0 <= i < r.nodes@.len() ==> (#[trigger] r.nodes@[i]).id == NodeId(i as u32),
    {
        self.fragment
    }

    fn emit(&mut self, node: EmitNode, kind: LayoutNodeKind) -> (id: NodeId)
        requires
            old(self).well_formed(),
            old(self).spec_nodes().len() < u32::MAX,
        ensures
            final(self).well_formed(),
            id == NodeId(old(self).spec_nodes().len() as u32),
            final(self).spec_fragment() == (Fragment {
                nodes: final(self).spec_fragment().nodes,
                ..old(self).spec_fragment()
            }),
            final(self).spec_nodes() == old(self).spec_nodes().push(emitted_node(id, node, kind)),
    {
        let id = NodeId(self.next_node);
        self.fragment.nodes.push(
            LayoutNode {
                id,
                origin: node.origin,
                bounds: node.bounds,
                primary_source: None,
                style: node.style,
                kind,
            },
        );
        self.next_node = self.next_node + 1;
        id
    }
}

/// The identifier an emitter hands out next is never held by a node it emitted before.
pub proof fn lemma_emitted_ids_distinct(e: IrEmitter, i: int, j: int)
    requires
        0 <= i < e.spec_nodes().len(),
        0 <= j < e.spec_nodes().len(),
        i != j,
        e.well_formed(),
    ensures
        e.spec_nodes()[i].id != e.spec_nodes()[j].id,
{
}

} // verus!
