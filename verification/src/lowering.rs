//! Lowering of captured engine node lists into renderer neutral IR fragments.
//!
//! The engine's node memory is read into a [`NodeStore`]: one [`NodeSnapshot`] per node,
//! addressed by index, lists linked through `list` and `link`. Lowering walks a box tree from
//! a root, places every child with TeX's `hlist_out`/`vlist_out` cursor rules, and records one
//! IR node per box, rule, glue, kern and glyph, children before their box.
use vstd::prelude::*;

use crate::ir::{
    BoxKind, BoxMetrics, ByteSpan, Color, Direction, FontId, FontRef, Fragment, FragmentMetadata,
    Glue, GlyphId, GlyphRun, Kern, LayoutBox, LayoutNode, LayoutNodeKind, Length, NodeId, Point,
    PositionedGlyph, Rect, Rule, Size, SourceFile, SourceMap, SourceMapEntry, SourceRange, SourceRole, Style,
    Surface, default_style, primary_entry_of_node, source_has_name,
};
use crate::seqs::{find_first, lemma_first_index};
use crate::session::{int_decimal, int_text};

verus! {

/// Kind of a captured engine node.
#[derive(Clone, Copy, Debug, PartialEq, Eq, Structural)]
#[non_exhaustive]
pub enum NodeKind {
    /// Horizontal list box (`\hbox`).
    HorizontalBox,
    /// Vertical list box (`\vbox`).
    VerticalBox,
    /// Unset box from an alignment.
    UnsetBox,
    /// Rule.
    Rule,
    /// Glue.
    Glue,
    /// Kern.
    Kern,
    /// Character from a TFM font.
    Character,
    /// Ligature.
    Ligature,
    /// Shaped word from a native font.
    NativeWord,
    /// Single glyph from a native font.
    NativeGlyph,
    /// Whatsit that writes output.
    OutputWhatsit,
    /// Any other node: penalties, marks, inserts, math nodes.
    Other,
}

/// Source location recorded for a node.
#[derive(Clone, Debug, PartialEq, Eq)]
pub struct SourceSpanSnapshot {
    /// Name of the source.
    pub name: String,
    /// Inclusive start byte.
    pub start: u32,
    /// Exclusive end byte.
    pub end: u32,
}

/// A glyph of a native word, positioned by the shaper.
#[derive(Clone, Copy, Debug, PartialEq, Eq, Structural)]
pub struct NativeGlyphSnapshot {
    /// Glyph index in the font.
    pub glyph_id: u16,
    /// Horizontal offset in scaled points.
    pub x: i32,
    /// Vertical offset in scaled points.
    pub y: i32,
    /// Horizontal advance in scaled points.
    pub advance: i32,
    /// Start of the source bytes the glyph came from.
    pub src_start: u32,
    /// End of the source bytes the glyph came from; not after `src_start` means unmapped.
    pub src_end: u32,
}

/// A captured engine node, as the lowering reads it.
#[derive(Clone, Debug)]
pub struct NodeSnapshot {
    /// Node kind.
    pub kind: NodeKind,
    /// Width in scaled points (natural width for glue).
    pub width: i32,
    /// Height in scaled points.
    pub height: i32,
    /// Depth in scaled points.
    pub depth: i32,
    /// Shift of a box in its enclosing list.
    pub shift: i32,
    /// First node of a box's list.
    pub list: Option<usize>,
    /// Next node in the enclosing list.
    pub link: Option<usize>,
    /// Glue sign of a box: 1 stretching, 2 shrinking, 0 natural.
    pub glue_sign: i32,
    /// Glue order of a box.
    pub glue_order: i32,
    /// Stretch order of a glue node.
    pub glue_stretch_order: i32,
    /// Shrink order of a glue node.
    pub glue_shrink_order: i32,
    /// Stretch a glue node gets in its enclosing box: the box's glue set ratio times the
    /// glue's stretch, rounded, as the host computed it.
    pub stretch_amount: i32,
    /// Shrink a glue node gets in its enclosing box, computed like `stretch_amount`.
    pub shrink_amount: i32,
    /// Font number of a glyph node.
    pub font: i32,
    /// Character or glyph code of a glyph node.
    pub character: i32,
    /// Shaped glyphs of a native word.
    pub native_glyphs: Vec<NativeGlyphSnapshot>,
    /// Primary source of the node.
    pub source: Option<SourceSpanSnapshot>,
    /// Enclosing construct sources, innermost first.
    pub enclosing_sources: Vec<SourceSpanSnapshot>,
}

/// Name and size of an engine font.
#[derive(Clone, Debug)]
pub struct FontLabel {
    /// Engine font number.
    pub font: i32,
    /// Native font spec or TFM font name, when the engine knows one.
    pub name: Option<String>,
    /// Size in scaled points.
    pub size: i32,
}

/// Captured engine nodes, addressed by index, and the fonts they use.
#[derive(Clone, Debug)]
pub struct NodeStore {
    /// Node snapshots; a handle is an index into this vector.
    pub nodes: Vec<NodeSnapshot>,
    /// Fonts referenced by glyph nodes.
    pub fonts: Vec<FontLabel>,
}

/// Enclosing box dimensions used to resolve running rule dimensions.
#[derive(Clone, Copy, Debug, PartialEq, Eq, Structural)]
pub struct ParentBox {
    /// The enclosing list is vertical.
    pub vertical: bool,
    /// Width of the enclosing box.
    pub width: i32,
    /// Height of the enclosing box.
    pub height: i32,
    /// Depth of the enclosing box.
    pub depth: i32,
}

/// Where an emitted IR node came from: its node, origin and enclosing box.
#[derive(Clone, Copy, Debug, PartialEq, Eq, Structural)]
pub struct NodeOrigin {
    /// Handle of the captured node.
    pub handle: usize,
    /// Origin the node was placed at.
    pub origin: Point,
    /// The enclosing box, for nodes inside one.
    pub parent: Option<ParentBox>,
}

/// A running rule dimension: the rule takes it from its enclosing box.
pub open spec fn null_flag() -> i32 {
    -0x4000_0000i32
}

/// The most nodes one lowering visits.
pub open spec fn visit_budget() -> nat {
    16384
}

/// Dimensions `(width, height, depth)` of a rule once running dimensions are resolved:
/// in a vertical list a running width is the box's, in a horizontal list a running height
/// or depth is the box's.
pub open spec fn rule_dimensions(s: NodeSnapshot, parent: Option<ParentBox>) -> (i32, i32, i32) {
    match parent {
        Some(p) => if p.vertical {
            (if s.width == null_flag() { p.width } else { s.width }, s.height, s.depth)
        } else {
            (
                s.width,
                if s.height == null_flag() { p.height } else { s.height },
                if s.depth == null_flag() { p.depth } else { s.depth },
            )
        },
        None => (s.width, s.height, s.depth),
    }
}

/// Sum of two dimensions as 32-bit arithmetic wraps it.
pub open spec fn wrap_add(a: i32, b: i32) -> i32 {
    (a + b) as i32
}

/// Difference of two dimensions as 32-bit arithmetic wraps it.
pub open spec fn wrap_sub(a: i32, b: i32) -> i32 {
    (a - b) as i32
}

fn add_wrapping(a: i32, b: i32) -> (r: i32)
    ensures
        r == wrap_add(a, b),
{
    let wide: i64 = a as i64 + b as i64;
    wide as i32
}

fn sub_wrapping(a: i32, b: i32) -> (r: i32)
    ensures
        r == wrap_sub(a, b),
{
    let wide: i64 = a as i64 - b as i64;
    wide as i32
}

/// The origin point of a node, at the top left of nothing: `(0, 0)`.
pub open spec fn zero_point() -> Point {
    Point { x: Length(0), y: Length(0) }
}

/// The bounds an emitted node gets from its snapshot.
pub open spec fn node_bounds(s: NodeSnapshot) -> Rect {
    Rect {
        origin: zero_point(),
        size: Size { width: Length(s.width), height: Length(wrap_add(s.height, s.depth)) },
    }
}

/// The glyph a TFM character node becomes.
pub open spec fn char_glyph(s: NodeSnapshot) -> PositionedGlyph {
    PositionedGlyph {
        glyph_id: GlyphId(s.character as u32),
        offset: zero_point(),
        advance: Point { x: Length(s.width), y: Length(0) },
        cluster: None,
    }
}

/// The glyph a shaped native glyph becomes; a source span that is not after its start is
/// no span.
pub open spec fn native_glyph(g: NativeGlyphSnapshot) -> PositionedGlyph {
    PositionedGlyph {
        glyph_id: GlyphId(g.glyph_id as u32),
        offset: Point { x: Length(g.x), y: Length(g.y) },
        advance: Point { x: Length(g.advance), y: Length(0) },
        cluster: if g.src_end > g.src_start {
            Some(ByteSpan { start: g.src_start, end: g.src_end })
        } else {
            None
        },
    }
}

/// The glyphs a native word becomes: its shaped glyphs, or its character when it has none.
pub open spec fn native_glyphs(s: NodeSnapshot) -> Seq<PositionedGlyph> {
    if s.native_glyphs@.len() == 0 {
        seq![char_glyph(s)]
    } else {
        s.native_glyphs@.map_values(|g: NativeGlyphSnapshot| native_glyph(g))
    }
}

/// Matches font labels for the given font number.
pub open spec fn label_of_font(font: i32) -> spec_fn(FontLabel) -> bool {
    |l: FontLabel| l.font == font
}

/// The name a glyph run uses for a font: the engine's name for it, or `generated-font-N`.
pub open spec fn font_label(fonts: Seq<FontLabel>, font: i32) -> Seq<char> {
    match find_first(fonts, label_of_font(font)) {
        Some(l) => match l.name {
            Some(n) => n@,
            None => "generated-font-"@ + int_decimal(font as int),
        },
        None => "generated-font-"@ + int_decimal(font as int),
    }
}

/// The size a glyph run uses for a font, zero for a font the store does not list.
pub open spec fn font_size(fonts: Seq<FontLabel>, font: i32) -> i32 {
    match find_first(fonts, label_of_font(font)) {
        Some(l) => l.size,
        None => 0,
    }
}

/// The glyph run a glyph node becomes, given the glyphs it holds.
pub open spec fn glyph_run_ok(fonts: Seq<FontLabel>, s: NodeSnapshot, g: GlyphRun, glyphs: Seq<PositionedGlyph>) -> bool {
    &&& g.font.id == FontId(s.font as u32)
    &&& g.font.name@ == font_label(fonts, s.font)
    &&& g.font.size == Length(font_size(fonts, s.font))
    &&& g.font.features@.len() == 0
    &&& g.direction == Direction::LeftToRight
    &&& g.script is None
    &&& g.language is None
    &&& g.glyphs@ == glyphs
}

/// The box kind a box node becomes.
pub open spec fn box_kind(kind: NodeKind) -> BoxKind {
    match kind {
        NodeKind::VerticalBox => BoxKind::Vertical,
        NodeKind::HorizontalBox => BoxKind::Horizontal,
        _ => BoxKind::Math,
    }
}

/// The box a box node's children are placed in.
pub open spec fn parent_of(s: NodeSnapshot) -> ParentBox {
    ParentBox { vertical: s.kind == NodeKind::VerticalBox, width: s.width, height: s.height, depth: s.depth }
}

/// The node is a box.
pub open spec fn is_box(kind: NodeKind) -> bool {
    kind == NodeKind::HorizontalBox || kind == NodeKind::VerticalBox || kind == NodeKind::UnsetBox
}

/// Item `k` of the list from `first`: the handle reached by following `link` `k` times;
/// the list stops at a missing link or at a handle outside the store.
pub open spec fn list_item(store: NodeStore, first: Option<usize>, k: nat) -> Option<usize>
    decreases k,
{
    if k == 0 {
        first
    } else {
        match list_item(store, first, (k - 1) as nat) {
            Some(h) => if h < store.nodes@.len() {
                store.nodes@[h as int].link
            } else {
                None
            },
            None => None,
        }
    }
}

/// Item `k` of the list is a captured node.
pub open spec fn item_present(store: NodeStore, first: Option<usize>, k: nat) -> bool {
    list_item(store, first, k) matches Some(h) && h < store.nodes@.len()
}

/// The cursor before item `k` of a box's list: the start, moved past each earlier item.
pub open spec fn cursor_before(store: NodeStore, first: Option<usize>, pbox: NodeSnapshot, k: nat) -> Cursor
    decreases k,
{
    if k == 0 {
        spec_start_cursor(pbox)
    } else {
        let prev = cursor_before(store, first, pbox, (k - 1) as nat);
        if item_present(store, first, (k - 1) as nat) {
            spec_place_child(
                pbox.kind == NodeKind::VerticalBox,
                prev,
                store.nodes@[list_item(store, first, (k - 1) as nat)->0 as int],
                pbox.glue_sign,
                pbox.glue_order,
            ).1
        } else {
            prev
        }
    }
}

/// Where item `k` of a box's list is placed.
pub open spec fn item_origin(store: NodeStore, first: Option<usize>, pbox: NodeSnapshot, k: nat) -> Point {
    spec_place_child(
        pbox.kind == NodeKind::VerticalBox,
        cursor_before(store, first, pbox, k),
        store.nodes@[list_item(store, first, k)->0 as int],
        pbox.glue_sign,
        pbox.glue_order,
    ).0
}

/// The items among the first `m` of a box's list that lower to an IR node, as their handles
/// and origins, in list order.
pub open spec fn lowered_items(store: NodeStore, first: Option<usize>, pbox: NodeSnapshot, m: nat) -> Seq<(usize, Point)>
    decreases m,
{
    if m == 0 {
        Seq::empty()
    } else {
        let k = (m - 1) as nat;
        let h = list_item(store, first, k)->0;
        lowered_items(store, first, pbox, k) + if item_present(store, first, k) && lowers_to_node(
            store.nodes@[h as int].kind,
        ) {
            seq![(h, item_origin(store, first, pbox, k))]
        } else {
            Seq::empty()
        }
    }
}

/// The children of a box are the nodes emitted for the items of its list that lower to a
/// node, among its first `m` items, in list order: each child's origin names the item, the
/// place the box's cursor puts it, and the box as its parent.
pub open spec fn children_from(
    store: NodeStore,
    first: Option<usize>,
    pbox: NodeSnapshot,
    m: nat,
    children: Seq<NodeId>,
    origins: Seq<NodeOrigin>,
) -> bool {
    &&& forall|k: nat| k < m ==> #[trigger] item_present(store, first, k)
    &&& children.len() == lowered_items(store, first, pbox, m).len()
    &&& forall|j: int|
        0 <= j < children.len() ==> (#[trigger] children[j]).0 < origins.len() && origins[children[j].0 as int]
            == (NodeOrigin {
            handle: lowered_items(store, first, pbox, m)[j].0,
            origin: lowered_items(store, first, pbox, m)[j].1,
            parent: Some(parent_of(pbox)),
        })
}

/// The IR kind of node `i` is what its snapshot lowers to; a box's children were emitted
/// before it, in order, with the box as their parent.
pub open spec fn kind_ok(
    store: NodeStore,
    origins: Seq<NodeOrigin>,
    s: NodeSnapshot,
    parent: Option<ParentBox>,
    kind: LayoutNodeKind,
    i: int,
) -> bool {
    if is_box(s.kind) {
        kind matches LayoutNodeKind::Box(b) && b.kind == box_kind(s.kind) && b.metrics == (BoxMetrics {
            width: Length(s.width),
            height: Length(s.height),
            depth: Length(s.depth),
            shift: Length(s.shift),
        }) && (forall|k: int| 0 <= k < b.children@.len() ==> 0 <= (#[trigger] b.children@[k]).0 < i)
            && (forall|k: int, l: int| 0 <= k < l < b.children@.len() ==> b.children@[k].0 < b.children@[l].0)
            && exists|m: nat| #[trigger] children_from(store, s.list, s, m, b.children@, origins)
    } else if s.kind == NodeKind::Rule {
        let (w, h, d) = rule_dimensions(s, parent);
        kind == LayoutNodeKind::Rule(
            Rule {
                size: Size { width: Length(w), height: Length(wrap_add(h, d)) },
                color: Color { r: 0, g: 0, b: 0, a: 255 },
            },
        )
    } else if s.kind == NodeKind::Glue {
        kind == LayoutNodeKind::Glue(Glue { amount: Length(s.width) })
    } else if s.kind == NodeKind::Kern {
        kind == LayoutNodeKind::Kern(Kern { amount: Length(s.width) })
    } else if s.kind == NodeKind::Character {
        kind matches LayoutNodeKind::GlyphRun(g) && glyph_run_ok(store.fonts@, s, g, seq![char_glyph(s)])
    } else if s.kind == NodeKind::NativeWord || s.kind == NodeKind::NativeGlyph {
        kind matches LayoutNodeKind::GlyphRun(g) && glyph_run_ok(store.fonts@, s, g, native_glyphs(s))
    } else {
        false
    }
}

/// The primary source recorded for a node is its snapshot's, under a registered source of
/// the same name.
pub open spec fn primary_ok(sources: Seq<SourceFile>, primary: Option<SourceRange>, src: Option<SourceSpanSnapshot>) -> bool {
    match src {
        None => primary is None,
        Some(sp) => primary matches Some(r) && r.span == (ByteSpan { start: sp.start, end: sp.end })
            && exists|k: int|
            0 <= k < sources.len() && (#[trigger] sources[k]).id == r.source && sources[k].name@
                == sp.name@,
    }
}

/// IR node `i` is the lowering of the captured node its origin names.
pub open spec fn node_ok(
    store: NodeStore,
    nodes: Seq<LayoutNode>,
    sources: Seq<SourceFile>,
    origins: Seq<NodeOrigin>,
    i: int,
) -> bool {
    let o = origins[i];
    let n = nodes[i];
    &&& o.handle < store.nodes@.len()
    &&& n.id == NodeId(i as u32)
    &&& n.origin == o.origin
    &&& n.bounds == node_bounds(store.nodes@[o.handle as int])
    &&& n.style == default_style()
    &&& primary_ok(sources, n.primary_source, store.nodes@[o.handle as int].source)
    &&& kind_ok(store, origins, store.nodes@[o.handle as int], o.parent, n.kind, i)
}

/// A box node holds the nodes of its whole list: its children are the lowering of every item
/// up to where the list ends.
pub open spec fn box_complete(store: NodeStore, nodes: Seq<LayoutNode>, origins: Seq<NodeOrigin>, i: int) -> bool {
    let s = store.nodes@[origins[i].handle as int];
    is_box(s.kind) ==> (nodes[i].kind matches LayoutNodeKind::Box(b) && exists|m: nat|
        #[trigger] children_from(store, s.list, s, m, b.children@, origins) && !item_present(store, s.list, m))
}

/// Completeness of a box node survives appending nodes and origins.
proof fn lemma_box_complete_extends(
    store: NodeStore,
    nodes: Seq<LayoutNode>,
    origins: Seq<NodeOrigin>,
    nodes2: Seq<LayoutNode>,
    origins2: Seq<NodeOrigin>,
    i: int,
)
    requires
        0 <= i < nodes.len(),
        0 <= i < origins.len(),
        extends(nodes, nodes2),
        extends(origins, origins2),
        box_complete(store, nodes, origins, i),
    ensures
        box_complete(store, nodes2, origins2, i),
{
    assert(nodes2[i] == nodes2.subrange(0, nodes.len() as int)[i]);
    assert(origins2[i] == origins2.subrange(0, origins.len() as int)[i]);
    let s = store.nodes@[origins[i].handle as int];
    if is_box(s.kind) {
        let b = nodes[i].kind->Box_0;
        let m = choose|m: nat|
            #[trigger] children_from(store, s.list, s, m, b.children@, origins) && !item_present(store, s.list, m);
        assert forall|j: int| 0 <= j < b.children@.len() implies (#[trigger] b.children@[j]).0 < origins2.len()
            && origins2[b.children@[j].0 as int] == origins[b.children@[j].0 as int] by {
            let c = b.children@[j].0 as int;
            assert(origins2[c] == origins2.subrange(0, origins.len() as int)[c]);
        }
        assert(children_from(store, s.list, s, m, b.children@, origins2));
    }
}

/// `b` starts with `a`.
pub open spec fn extends<T>(a: Seq<T>, b: Seq<T>) -> bool {
    a.len() <= b.len() && b.subrange(0, a.len() as int) == a
}

/// A node's facts survive appending nodes, origins and sources.
proof fn lemma_node_ok_extends(
    store: NodeStore,
    nodes: Seq<LayoutNode>,
    sources: Seq<SourceFile>,
    origins: Seq<NodeOrigin>,
    nodes2: Seq<LayoutNode>,
    sources2: Seq<SourceFile>,
    origins2: Seq<NodeOrigin>,
    i: int,
)
    requires
        0 <= i < nodes.len(),
        0 <= i < origins.len(),
        extends(nodes, nodes2),
        extends(sources, sources2),
        extends(origins, origins2),
        node_ok(store, nodes, sources, origins, i),
    ensures
        node_ok(store, nodes2, sources2, origins2, i),
{
    assert(nodes2[i] == nodes2.subrange(0, nodes.len() as int)[i]);
    assert(origins2[i] == origins2.subrange(0, origins.len() as int)[i]);
    let s = store.nodes@[origins[i].handle as int];
    match s.source {
        None => {},
        Some(sp) => {
            let r = nodes[i].primary_source->0;
            let k = choose|k: int|
                0 <= k < sources.len() && (#[trigger] sources[k]).id == r.source && sources[k].name@
                    == sp.name@;
            assert(sources2[k] == sources2.subrange(0, sources.len() as int)[k]);
        },
    }
    if is_box(s.kind) {
        let b = nodes[i].kind->Box_0;
        let m = choose|m: nat| #[trigger] children_from(store, s.list, s, m, b.children@, origins);
        assert forall|j: int| 0 <= j < b.children@.len() implies (#[trigger] b.children@[j]).0 < origins2.len()
            && origins2[b.children@[j].0 as int] == origins[b.children@[j].0 as int] by {
            let c = b.children@[j].0 as int;
            assert(origins2[c] == origins2.subrange(0, origins.len() as int)[c]);
        }
        assert(children_from(store, s.list, s, m, b.children@, origins2));
    }
}

/// The range a span names: its bytes, under the first registered source of its name.
pub open spec fn span_range(sources: Seq<SourceFile>, sp: SourceSpanSnapshot) -> SourceRange {
    SourceRange {
        source: find_first(sources, source_has_name(sp.name@))->0.id,
        span: ByteSpan { start: sp.start, end: sp.end },
    }
}

/// A source of the span's name is registered.
pub open spec fn span_registered(sources: Seq<SourceFile>, sp: SourceSpanSnapshot) -> bool {
    find_first(sources, source_has_name(sp.name@)) is Some
}

/// The enclosing construct entries a node records, one per span, in order.
pub open spec fn enclosing_entries(sources: Seq<SourceFile>, id: NodeId, spans: Seq<SourceSpanSnapshot>) -> Seq<SourceMapEntry> {
    spans.map_values(|sp: SourceSpanSnapshot| SourceMapEntry { node: id, range: span_range(sources, sp), role: SourceRole::EnclosingConstruct })
}

/// The source map entries a node records: none without a primary source; else its primary
/// entry, then one enclosing construct entry per enclosing span.
pub open spec fn recorded_entries(sources: Seq<SourceFile>, id: NodeId, s: NodeSnapshot) -> Seq<SourceMapEntry> {
    match s.source {
        None => Seq::empty(),
        Some(sp) => seq![SourceMapEntry { node: id, range: span_range(sources, sp), role: SourceRole::Primary }]
            + enclosing_entries(sources, id, s.enclosing_sources@),
    }
}

/// The primary source a node records: its span's range, when it has one.
pub open spec fn recorded_primary(sources: Seq<SourceFile>, s: NodeSnapshot) -> Option<SourceRange> {
    match s.source {
        Some(sp) => Some(span_range(sources, sp)),
        None => None,
    }
}

/// The sources of a node with a primary source, and of its enclosing spans, are registered.
pub open spec fn spans_registered(sources: Seq<SourceFile>, s: NodeSnapshot) -> bool {
    s.source matches Some(sp) ==> span_registered(sources, sp) && forall|j: int|
        0 <= j < s.enclosing_sources@.len() ==> span_registered(sources, #[trigger] s.enclosing_sources@[j])
}

/// Registers a span's source name when it is new and gives the span's range.
fn intern_span(map: &mut SourceMap, sp: &SourceSpanSnapshot) -> (r: SourceRange)
    ensures
        final(map).entries@ == old(map).entries@,
        extends(old(map).sources@, final(map).sources@),
        span_registered(final(map).sources@, *sp),
        r == span_range(final(map).sources@, *sp),
        forall|q: Seq<char>|
            find_first(old(map).sources@, source_has_name(q)) is Some ==> #[trigger] find_first(
                final(map).sources@,
                source_has_name(q),
            ) == find_first(old(map).sources@, source_has_name(q)),
{
    let ghost before = map.sources@;
    let source = map.intern_source(sp.name.as_str());
    proof {
        let after = map.sources@;
        let p = source_has_name(sp.name@);
        lemma_first_index(before, p);
        if find_first(before, p) is None {
            assert(after =~= before.push(after.last()));
            crate::seqs::lemma_first_index_push(before, p, after.last());
        }
        assert(after.subrange(0, before.len() as int) =~= before) by {
            if after.len() > before.len() {
                assert(after.subrange(0, before.len() as int) =~= after.drop_last());
            }
        }
        assert forall|q: Seq<char>| find_first(before, source_has_name(q)) is Some implies #[trigger] find_first(
            after,
            source_has_name(q),
        ) == find_first(before, source_has_name(q)) by {
            crate::seqs::lemma_find_first_prefix(before, after, source_has_name(q));
        }
    }
    SourceRange { source, span: ByteSpan { start: sp.start, end: sp.end } }
}

/// Lowers captured nodes into an IR fragment.
pub struct GeneratedIrBuilder<'a> {
    store: &'a NodeStore,
    fragment: Fragment,
    next_node: u32,
    visits_remaining: usize,
    origins: Ghost<Seq<NodeOrigin>>,
}

impl<'a> GeneratedIrBuilder<'a> {
    /// The store being lowered.
    pub closed spec fn spec_store(&self) -> NodeStore {
        *self.store
    }

    /// The fragment built so far.
    pub closed spec fn spec_fragment(&self) -> Fragment {
        self.fragment
    }

    /// Where each emitted node came from.
    pub closed spec fn spec_origins(&self) -> Seq<NodeOrigin> {
        self.origins@
    }

    /// Visits left before lowering stops.
    pub closed spec fn spec_visits(&self) -> nat {
        self.visits_remaining as nat
    }

    /// Every emitted node is the lowering of its origin, identifiers are positions, and the
    /// nodes emitted and the visits left stay within the budget.
    pub closed spec fn well_formed(&self) -> bool {
        &&& self.next_node as int == self.fragment.nodes@.len()
        &&& self.origins@.len() == self.fragment.nodes@.len()
        &&& self.fragment.nodes@.len() + self.visits_remaining <= visit_budget()
        &&& forall|i: int|
            0 <= i < self.fragment.nodes@.len() ==> #[trigger] node_ok(
                *self.store,
                self.fragment.nodes@,
                self.fragment.source_map.sources@,
                self.origins@,
                i,
            )
        &&& forall|j: int|
            0 <= j < self.fragment.source_map.entries@.len() ==> (#[trigger] self.fragment.source_map.entries@[j]).node.0
                < self.fragment.nodes@.len()
        &&& forall|i: int|
            0 <= i < self.fragment.nodes@.len() ==> (#[trigger] self.fragment.nodes@[i]).primary_source
                == self.fragment.source_map.spec_primary_range(self.fragment.nodes@[i].id)
        &&& self.visits_remaining > 0 ==> forall|i: int|
            0 <= i < self.fragment.nodes@.len() ==> #[trigger] box_complete(
                *self.store,
                self.fragment.nodes@,
                self.origins@,
                i,
            )
    }

    /// Starts lowering nodes of `store` into a fragment with the given metadata.
    pub fn new(store: &'a NodeStore, metadata: FragmentMetadata) -> (r: Self)
        ensures
            r.well_formed(),
            r.spec_store() == *store,
            r.spec_fragment().nodes@.len() == 0,
            r.spec_fragment().metadata == metadata,
            r.spec_fragment().surface == (Surface { width: Length(0), height: Length(0), baseline: Length(0) }),
            r.spec_visits() == visit_budget(),
    {
        let zero = Length(0);
        GeneratedIrBuilder {
            store,
            fragment: Fragment {
                surface: Surface { width: zero, height: zero, baseline: zero },
                nodes: Vec::new(),
                source_map: SourceMap { sources: Vec::new(), entries: Vec::new() },
                metadata,
            },
            next_node: 0,
            visits_remaining: 16384,
            origins: Ghost(Seq::empty()),
        }
    }

    fn consume_visit(&mut self) -> (r: bool)
        requires
            old(self).well_formed(),
        ensures
            final(self).well_formed(),
            r == (old(self).visits_remaining > 0),
            r ==> final(self).visits_remaining == old(self).visits_remaining - 1,
            !r ==> final(self).visits_remaining == old(self).visits_remaining,
            final(self).fragment == old(self).fragment,
            final(self).origins == old(self).origins,
            final(self).store == old(self).store,
            final(self).next_node == old(self).next_node,
    {
        if self.visits_remaining == 0 {
            return false;
        }
        self.visits_remaining -= 1;
        true
    }

    /// Records an IR node for a captured node, with its primary source and the enclosing
    /// construct sources after it.
    fn emit_with_primary_source(
        &mut self,
        snapshot: &NodeSnapshot,
        origin: Point,
        kind: LayoutNodeKind,
        _preferred_primary_source: Option<SourceRange>,
        Ghost(handle): Ghost<usize>,
        Ghost(parent): Ghost<Option<ParentBox>>,
    ) -> (id: NodeId)
        requires
            old(self).well_formed(),
            old(self).fragment.nodes@.len() + old(self).visits_remaining < visit_budget(),
            handle < old(self).store.nodes@.len(),
            *snapshot == old(self).store.nodes@[handle as int],
            kind_ok(
                *old(self).store,
                old(self).origins@.push(NodeOrigin { handle, origin, parent }),
                *snapshot,
                parent,
                kind,
                old(self).fragment.nodes@.len() as int,
            ),
            old(self).visits_remaining > 0 && is_box(snapshot.kind) ==> (kind matches LayoutNodeKind::Box(b)
                && exists|m: nat|
                #[trigger] children_from(
                    *old(self).store,
                    snapshot.list,
                    *snapshot,
                    m,
                    b.children@,
                    old(self).origins@.push(NodeOrigin { handle, origin, parent }),
                ) && !item_present(*old(self).store, snapshot.list, m)),
        ensures
            final(self).well_formed(),
            id == NodeId(old(self).fragment.nodes@.len() as u32),
            final(self).fragment.nodes@ == old(self).fragment.nodes@.push(
                LayoutNode {
                    id,
                    origin,
                    bounds: node_bounds(*snapshot),
                    primary_source: recorded_primary(final(self).fragment.source_map.sources@, *snapshot),
                    style: default_style(),
                    kind,
                },
            ),
            final(self).fragment.source_map.entries@ == old(self).fragment.source_map.entries@
                + recorded_entries(final(self).fragment.source_map.sources@, id, *snapshot),
            spans_registered(final(self).fragment.source_map.sources@, *snapshot),
            extends(old(self).fragment.nodes@, final(self).fragment.nodes@),
            extends(old(self).fragment.source_map.sources@, final(self).fragment.source_map.sources@),
            final(self).origins@ == old(self).origins@.push(NodeOrigin { handle, origin, parent }),
            extends(old(self).origins@, final(self).origins@),
            final(self).visits_remaining == old(self).visits_remaining,
            final(self).store == old(self).store,
            final(self).fragment.metadata == old(self).fragment.metadata,
            final(self).fragment.surface == old(self).fragment.surface,
    {
        let ghost o = NodeOrigin { handle, origin, parent };
        let ghost nodes0 = self.fragment.nodes@;
        let ghost sources0 = self.fragment.source_map.sources@;
        let ghost entries0 = self.fragment.source_map.entries@;
        let ghost origins0 = self.origins@;
        let id = NodeId(self.next_node);
        self.next_node = self.next_node + 1;
        let mut primary: Option<SourceRange> = None;
        proof {
            lemma_extends_refl(sources0);
        }
        match &snapshot.source {
            Some(span) => {
                let range = intern_span(&mut self.fragment.source_map, span);
                self.fragment.source_map.add_entry(id, range, SourceRole::Primary);
                primary = Some(range);
                let ghost first_entry = SourceMapEntry { node: id, range, role: SourceRole::Primary };
                let spans = &snapshot.enclosing_sources;
                proof {
                    assert(self.fragment.source_map.entries@ =~= entries0 + seq![first_entry]
                        + enclosing_entries(self.fragment.source_map.sources@, id, spans@.take(0)));
                }
                let mut i: usize = 0;
                while i < spans.len()
                    invariant
                        0 <= i <= spans@.len(),
                        spans == &snapshot.enclosing_sources,
                        extends(sources0, self.fragment.source_map.sources@),
                        span_registered(self.fragment.source_map.sources@, *span),
                        forall|j: int| 0 <= j < i ==> span_registered(self.fragment.source_map.sources@, #[trigger] spans@[j]),
                        range == span_range(self.fragment.source_map.sources@, *span),
                        first_entry == (SourceMapEntry { node: id, range, role: SourceRole::Primary }),
                        self.fragment.source_map.entries@ == entries0 + seq![first_entry]
                            + enclosing_entries(self.fragment.source_map.sources@, id, spans@.take(i as int)),
                        self.fragment.nodes@ == nodes0,
                        self.origins@ == origins0,
                        self.next_node == old(self).next_node + 1,
                        self.visits_remaining == old(self).visits_remaining,
                        self.store == old(self).store,
                        self.fragment.metadata == old(self).fragment.metadata,
                        self.fragment.surface == old(self).fragment.surface,
                    decreases spans@.len() - i,
                {
                    let sp = &spans[i];
                    let ghost before = self.fragment.source_map.sources@;
                    let ghost entries_before = self.fragment.source_map.entries@;
                    let r = intern_span(&mut self.fragment.source_map, sp);
                    let ghost after = self.fragment.source_map.sources@;
                    proof {
                        lemma_extends_trans(sources0, before, after);
                        assert(span_range(after, *span) == span_range(before, *span));
                        assert forall|j: int| 0 <= j < i implies span_registered(after, #[trigger] spans@[j])
                            && span_range(after, spans@[j]) == span_range(before, spans@[j]) by {
                            assert(span_registered(before, spans@[j]));
                        }
                        assert(enclosing_entries(after, id, spans@.take(i as int)) =~= enclosing_entries(
                            before,
                            id,
                            spans@.take(i as int),
                        ));
                    }
                    self.fragment.source_map.add_entry(id, r, SourceRole::EnclosingConstruct);
                    i += 1;
                    proof {
                        assert(enclosing_entries(after, id, spans@.take(i as int)) =~= enclosing_entries(
                            after,
                            id,
                            spans@.take(i - 1),
                        ).push(SourceMapEntry { node: id, range: r, role: SourceRole::EnclosingConstruct }));
                        assert(self.fragment.source_map.entries@ =~= entries0 + seq![first_entry]
                            + enclosing_entries(after, id, spans@.take(i as int)));
                    }
                }
                proof {
                    assert(spans@.take(spans@.len() as int) =~= spans@);
                }
            },
            None => {},
        }
        let ghost sources2 = self.fragment.source_map.sources@;
        let ghost entries2 = self.fragment.source_map.entries@;
        let ghost added = recorded_entries(sources2, id, *snapshot);
        proof {
            if snapshot.source is None {
                assert(entries2 =~= entries0 + added);
            } else {
                assert(entries2 =~= entries0 + added);
            }
            assert(primary == recorded_primary(sources2, *snapshot));
            if snapshot.source is Some {
                let sp = snapshot.source->0;
                let q = source_has_name(sp.name@);
                lemma_first_index(sources2, q);
                let k = crate::seqs::first_index(sources2, q);
                assert(sources2[k].id == primary->0.source && sources2[k].name@ == sp.name@);
                assert(primary_ok(sources2, primary, snapshot.source));
            }
        }
        self.fragment.nodes.push(
            LayoutNode {
                id,
                origin,
                bounds: Rect {
                    origin: Point { x: Length(0), y: Length(0) },
                    size: Size {
                        width: Length(snapshot.width),
                        height: Length(add_wrapping(snapshot.height, snapshot.depth)),
                    },
                },
                primary_source: primary,
                style: Style::default(),
                kind,
            },
        );
        proof {
            self.origins@ = self.origins@.push(o);
        }
        proof {
            assert(self.origins@ == origins0.push(o));
            let nodes1 = self.fragment.nodes@;
            let origins1 = self.origins@;
            assert(nodes1.subrange(0, nodes0.len() as int) =~= nodes0);
            assert(origins1.subrange(0, origins0.len() as int) =~= origins0);
            assert(extends(origins0, origins1));
            assert forall|i: int| 0 <= i < nodes1.len() implies #[trigger] node_ok(
                *self.store,
                nodes1,
                sources2,
                origins1,
                i,
            ) by {
                if i < nodes0.len() {
                    assert(node_ok(*old(self).store, nodes0, sources0, origins0, i));
                    lemma_node_ok_extends(
                        *self.store,
                        nodes0,
                        sources0,
                        origins0,
                        nodes1,
                        sources2,
                        origins1,
                        i,
                    );
                } else {
                    assert(nodes1[i].id == id);
                }
            }
            if self.visits_remaining > 0 {
                assert forall|i: int| 0 <= i < nodes1.len() implies #[trigger] box_complete(
                    *self.store,
                    nodes1,
                    origins1,
                    i,
                ) by {
                    if i < nodes0.len() {
                        assert(box_complete(*old(self).store, nodes0, origins0, i));
                        lemma_box_complete_extends(*self.store, nodes0, origins0, nodes1, origins1, i);
                    } else {
                        assert(origins1[i] == o);
                        assert(nodes1[i].kind == kind);
                    }
                }
            }
            assert forall|j: int| 0 <= j < entries2.len() implies (#[trigger] entries2[j]).node.0 < nodes1.len() by {
                if j < entries0.len() {
                    assert(entries2[j] == entries0[j]);
                } else {
                    assert(entries2[j] == added[j - entries0.len()]);
                }
            }
            assert forall|i: int| 0 <= i < nodes1.len() implies (#[trigger] nodes1[i]).primary_source
                == self.fragment.source_map.spec_primary_range(nodes1[i].id) by {
                let p = primary_entry_of_node(nodes1[i].id);
                crate::seqs::lemma_first_index_append(entries0, added, p);
                if i < nodes0.len() {
                    assert(nodes1[i] == nodes0[i]);
                    assert(node_ok(*old(self).store, nodes0, sources0, origins0, i));
                    assert forall|j: int| 0 <= j < added.len() implies !p(#[trigger] added[j]) by {}
                    crate::seqs::lemma_first_index_is(added, p, added.len() as int);
                    lemma_first_index(entries0, p);
                    if crate::seqs::first_index(entries0, p) < entries0.len() {
                        assert(entries2[crate::seqs::first_index(entries0, p)] == entries0[crate::seqs::first_index(entries0, p)]);
                    }
                } else {
                    assert forall|j: int| 0 <= j < entries0.len() implies !p(#[trigger] entries0[j]) by {}
                    crate::seqs::lemma_first_index_is(entries0, p, entries0.len() as int);
                    if snapshot.source is Some {
                        crate::seqs::lemma_first_index_is(added, p, 0);
                        assert(entries2[entries0.len() as int] == added[0]);
                    } else {
                        crate::seqs::lemma_first_index_is(added, p, 0);
                    }
                }
            }
        }
        id
    }

    /// The font reference a glyph run of `font` carries.
    fn font_ref(&self, font: i32) -> (r: FontRef)
        ensures
            r.id == FontId(font as u32),
            r.name@ == font_label(self.store.fonts@, font),
            r.size == Length(font_size(self.store.fonts@, font)),
            r.features@.len() == 0,
    {
        let ghost p = label_of_font(font);
        let fonts = &self.store.fonts;
        let mut i: usize = 0;
        while i < fonts.len()
            invariant
                0 <= i <= fonts@.len(),
                fonts == &self.store.fonts,
                p == label_of_font(font),
                forall|j: int| 0 <= j < i ==> !p(#[trigger] fonts@[j]),
            decreases fonts@.len() - i,
        {
            if fonts[i].font == font {
                proof {
                    crate::seqs::lemma_first_index_is(fonts@, p, i as int);
                }
                let name = match &fonts[i].name {
                    Some(n) => n.clone(),
                    None => String::from_str("generated-font-").concat(int_text(font).as_str()),
                };
                return FontRef { id: FontId(font as u32), name, size: Length(fonts[i].size), features: Vec::new() };
            }
            i += 1;
        }
        proof {
            crate::seqs::lemma_first_index_is(fonts@, p, i as int);
        }
        FontRef {
            id: FontId(font as u32),
            name: String::from_str("generated-font-").concat(int_text(font).as_str()),
            size: Length(0),
            features: Vec::new(),
        }
    }

    /// The glyph run a glyph node becomes.
    fn glyph_run(&self, snapshot: &NodeSnapshot, glyphs: Vec<PositionedGlyph>) -> (r: GlyphRun)
        ensures
            glyph_run_ok(self.store.fonts@, *snapshot, r, glyphs@),
    {
        GlyphRun {
            font: self.font_ref(snapshot.font),
            direction: Direction::LeftToRight,
            script: None,
            language: None,
            glyphs,
        }
    }

    /// Lowers the node at `handle`, which has already been counted against the budget.
    fn emit_visited(&mut self, handle: usize, origin: Point, parent: Option<ParentBox>) -> (r: Option<NodeId>)
        requires
            old(self).well_formed(),
            old(self).fragment.nodes@.len() + old(self).visits_remaining < visit_budget(),
        ensures
            final(self).well_formed(),
            extends(old(self).fragment.nodes@, final(self).fragment.nodes@),
            extends(old(self).fragment.source_map.sources@, final(self).fragment.source_map.sources@),
            extends(old(self).origins@, final(self).origins@),
            final(self).visits_remaining <= old(self).visits_remaining,
            final(self).fragment.nodes@.len() + final(self).visits_remaining <= old(self).fragment.nodes@.len() + old(self).visits_remaining + 1,
            final(self).store == old(self).store,
            final(self).fragment.metadata == old(self).fragment.metadata,
            final(self).fragment.surface == old(self).fragment.surface,
            r matches Some(id) ==> id.0 as int == final(self).fragment.nodes@.len() - 1
                && final(self).origins@.last() == (NodeOrigin { handle, origin, parent })
                && final(self).fragment.nodes@.len() > old(self).fragment.nodes@.len(),
            r is None ==> final(self).fragment.nodes@ == old(self).fragment.nodes@
                && final(self).origins@ == old(self).origins@
                && final(self).visits_remaining == old(self).visits_remaining,
            r is Some <==> handle < old(self).store.nodes@.len() && lowers_to_node(
                old(self).store.nodes@[handle as int].kind,
            ),
        decreases old(self).visits_remaining, 2nat,
    {
        if handle >= self.store.nodes.len() {
            proof {
                lemma_extends_refl(self.fragment.nodes@);
                lemma_extends_refl(self.fragment.source_map.sources@);
                lemma_extends_refl(self.origins@);
            }
            return None;
        }
        let store = self.store;
        let snapshot = &store.nodes[handle];
        let ghost o = NodeOrigin { handle, origin, parent };
        let ghost len = self.fragment.nodes@.len() as int;
        match snapshot.kind {
            NodeKind::HorizontalBox | NodeKind::VerticalBox | NodeKind::UnsetBox => {
                Some(self.emit_box(handle, snapshot, origin, Ghost(parent)))
            },
            NodeKind::Rule => {
                let mut width = snapshot.width;
                let mut height = snapshot.height;
                let mut depth = snapshot.depth;
                if let Some(p) = parent {
                    if p.vertical {
                        if width == -1_073_741_824i32 {
                            width = p.width;
                        }
                    } else {
                        if height == -1_073_741_824i32 {
                            height = p.height;
                        }
                        if depth == -1_073_741_824i32 {
                            depth = p.depth;
                        }
                    }
                }
                let kind = LayoutNodeKind::Rule(
                    Rule {
                        size: Size { width: Length(width), height: Length(add_wrapping(height, depth)) },
                        color: Color::default(),
                    },
                );
                Some(self.emit_with_primary_source(snapshot, origin, kind, None, Ghost(handle), Ghost(parent)))
            },
            NodeKind::Glue => {
                let kind = LayoutNodeKind::Glue(Glue { amount: Length(snapshot.width) });
                Some(self.emit_with_primary_source(snapshot, origin, kind, None, Ghost(handle), Ghost(parent)))
            },
            NodeKind::Kern => {
                let kind = LayoutNodeKind::Kern(Kern { amount: Length(snapshot.width) });
                Some(self.emit_with_primary_source(snapshot, origin, kind, None, Ghost(handle), Ghost(parent)))
            },
            NodeKind::Character => {
                let glyphs = vec![PositionedGlyph {
                    glyph_id: GlyphId(snapshot.character as u32),
                    offset: Point { x: Length(0), y: Length(0) },
                    advance: Point { x: Length(snapshot.width), y: Length(0) },
                    cluster: None,
                }];
                assert(glyphs@ == seq![char_glyph(*snapshot)]);
                let run = self.glyph_run(snapshot, glyphs);
                let kind = LayoutNodeKind::GlyphRun(run);
                Some(self.emit_with_primary_source(snapshot, origin, kind, None, Ghost(handle), Ghost(parent)))
            },
            NodeKind::NativeWord | NodeKind::NativeGlyph => {
                Some(self.emit_native_glyph_run(handle, snapshot, origin, Ghost(parent)))
            },
            _ => {
                proof {
                    lemma_extends_refl(self.fragment.nodes@);
                    lemma_extends_refl(self.fragment.source_map.sources@);
                    lemma_extends_refl(self.origins@);
                }
                None
            },
        }
    }

    /// Lowers a native word or glyph node into a glyph run.
    fn emit_native_glyph_run(
        &mut self,
        handle: usize,
        snapshot: &NodeSnapshot,
        origin: Point,
        Ghost(parent): Ghost<Option<ParentBox>>,
    ) -> (id: NodeId)
        requires
            old(self).well_formed(),
            old(self).fragment.nodes@.len() + old(self).visits_remaining < visit_budget(),
            handle < old(self).store.nodes@.len(),
            *snapshot == old(self).store.nodes@[handle as int],
            snapshot.kind == NodeKind::NativeWord || snapshot.kind == NodeKind::NativeGlyph,
        ensures
            final(self).well_formed(),
            id == NodeId(old(self).fragment.nodes@.len() as u32),
            final(self).fragment.nodes@.len() == old(self).fragment.nodes@.len() + 1,
            extends(old(self).fragment.nodes@, final(self).fragment.nodes@),
            extends(old(self).fragment.source_map.sources@, final(self).fragment.source_map.sources@),
            final(self).origins@ == old(self).origins@.push(NodeOrigin { handle, origin, parent }),
            extends(old(self).origins@, final(self).origins@),
            final(self).visits_remaining == old(self).visits_remaining,
            final(self).store == old(self).store,
            final(self).fragment.metadata == old(self).fragment.metadata,
            final(self).fragment.surface == old(self).fragment.surface,
    {
        let glyphs = if snapshot.native_glyphs.len() == 0 {
            let g = vec![PositionedGlyph {
                glyph_id: GlyphId(snapshot.character as u32),
                offset: Point { x: Length(0), y: Length(0) },
                advance: Point { x: Length(snapshot.width), y: Length(0) },
                cluster: None,
            }];
            assert(g@ == seq![char_glyph(*snapshot)]);
            g
        } else {
            let mut out: Vec<PositionedGlyph> = Vec::with_capacity(snapshot.native_glyphs.len());
            let mut i: usize = 0;
            while i < snapshot.native_glyphs.len()
                invariant
                    0 <= i <= snapshot.native_glyphs@.len(),
                    out@ == snapshot.native_glyphs@.take(i as int).map_values(
                        |g: NativeGlyphSnapshot| native_glyph(g),
                    ),
                decreases snapshot.native_glyphs@.len() - i,
            {
                let g = snapshot.native_glyphs[i];
                let cluster = if g.src_end > g.src_start {
                    Some(ByteSpan { start: g.src_start, end: g.src_end })
                } else {
                    None
                };
                out.push(
                    PositionedGlyph {
                        glyph_id: GlyphId(g.glyph_id as u32),
                        offset: Point { x: Length(g.x), y: Length(g.y) },
                        advance: Point { x: Length(g.advance), y: Length(0) },
                        cluster,
                    },
                );
                i += 1;
                assert(out@ =~= snapshot.native_glyphs@.take(i as int).map_values(
                    |g: NativeGlyphSnapshot| native_glyph(g),
                ));
            }
            assert(snapshot.native_glyphs@.take(snapshot.native_glyphs@.len() as int)
                =~= snapshot.native_glyphs@);
            out
        };
        let run = self.glyph_run(snapshot, glyphs);
        self.emit_with_primary_source(
            snapshot,
            origin,
            LayoutNodeKind::GlyphRun(run),
            None,
            Ghost(handle),
            Ghost(parent),
        )
    }

    /// Lowers a box node: its children first, placed by the box's cursor, then the box.
    fn emit_box(
        &mut self,
        handle: usize,
        snapshot: &NodeSnapshot,
        origin: Point,
        Ghost(parent): Ghost<Option<ParentBox>>,
    ) -> (id: NodeId)
        requires
            old(self).well_formed(),
            old(self).fragment.nodes@.len() + old(self).visits_remaining < visit_budget(),
            handle < old(self).store.nodes@.len(),
            *snapshot == old(self).store.nodes@[handle as int],
            is_box(snapshot.kind),
        ensures
            final(self).well_formed(),
            id.0 as int == final(self).fragment.nodes@.len() - 1,
            final(self).fragment.nodes@.len() > old(self).fragment.nodes@.len(),
            extends(old(self).fragment.nodes@, final(self).fragment.nodes@),
            extends(old(self).fragment.source_map.sources@, final(self).fragment.source_map.sources@),
            extends(old(self).origins@, final(self).origins@),
            final(self).origins@.last() == (NodeOrigin { handle, origin, parent }),
            final(self).visits_remaining <= old(self).visits_remaining,
            final(self).fragment.nodes@.len() + final(self).visits_remaining <= old(self).fragment.nodes@.len() + old(self).visits_remaining + 1,
            final(self).store == old(self).store,
            final(self).fragment.metadata == old(self).fragment.metadata,
            final(self).fragment.surface == old(self).fragment.surface,
        decreases old(self).visits_remaining, 1nat,
    {
        let ghost nodes0 = self.fragment.nodes@;
        let ghost sources0 = self.fragment.source_map.sources@;
        let ghost origins0 = self.origins@;
        let children = self.emit_children(snapshot.list, snapshot, Ghost(handle));
        let kind = match snapshot.kind {
            NodeKind::VerticalBox => BoxKind::Vertical,
            NodeKind::HorizontalBox => BoxKind::Horizontal,
            NodeKind::UnsetBox => BoxKind::Math,
            _ => BoxKind::Math,
        };
        let ghost nodes1 = self.fragment.nodes@;
        let ghost sources1 = self.fragment.source_map.sources@;
        let ghost origins1 = self.origins@;
        let layout_box = LayoutBox {
            kind,
            metrics: BoxMetrics {
                width: Length(snapshot.width),
                height: Length(snapshot.height),
                depth: Length(snapshot.depth),
                shift: Length(snapshot.shift),
            },
            children,
        };
        let ghost pushed = self.origins@.push(NodeOrigin { handle, origin, parent });
        proof {
            let m = choose|m: nat| #[trigger] children_from(*self.store, snapshot.list, *snapshot, m, children@, origins1)
                && (item_present(*self.store, snapshot.list, m) ==> self.visits_remaining == 0);
            assert forall|k: int| 0 <= k < layout_box.children@.len() implies 0 <= (
            #[trigger] layout_box.children@[k]).0 < nodes1.len() && pushed[layout_box.children@[k].0 as int]
                == origins1[layout_box.children@[k].0 as int] by {
                let c = layout_box.children@[k].0 as int;
                assert(pushed[c] == origins1[c]);
            }
            assert(children_from(*self.store, snapshot.list, *snapshot, m, layout_box.children@, pushed));
        }
        let id = self.emit_with_primary_source(
            snapshot,
            origin,
            LayoutNodeKind::Box(layout_box),
            None,
            Ghost(handle),
            Ghost(parent),
        );
        proof {
            lemma_extends_trans(nodes0, nodes1, self.fragment.nodes@);
            lemma_extends_trans(sources0, sources1, self.fragment.source_map.sources@);
            lemma_extends_trans(origins0, origins1, self.origins@);
        }
        id
    }

    /// Lowers the nodes of a box's list, placing each with the box's cursor, and returns the
    /// identifiers of the nodes that were emitted, in list order.
    fn emit_children(&mut self, first: Option<usize>, parent_box: &NodeSnapshot, Ghost(parent_handle): Ghost<usize>) -> (r: Vec<NodeId>)
        requires
            old(self).well_formed(),
            old(self).fragment.nodes@.len() + old(self).visits_remaining < visit_budget(),
        ensures
            final(self).well_formed(),
            final(self).fragment.nodes@.len() + final(self).visits_remaining < visit_budget(),
            final(self).fragment.nodes@.len() + final(self).visits_remaining <= old(self).fragment.nodes@.len() + old(self).visits_remaining,
            extends(old(self).fragment.nodes@, final(self).fragment.nodes@),
            extends(old(self).fragment.source_map.sources@, final(self).fragment.source_map.sources@),
            extends(old(self).origins@, final(self).origins@),
            final(self).visits_remaining <= old(self).visits_remaining,
            final(self).store == old(self).store,
            final(self).fragment.metadata == old(self).fragment.metadata,
            final(self).fragment.surface == old(self).fragment.surface,
            forall|k: int|
                0 <= k < r@.len() ==> old(self).fragment.nodes@.len() <= (#[trigger] r@[k]).0
                    < final(self).fragment.nodes@.len(),
            forall|k: int, l: int| 0 <= k < l < r@.len() ==> r@[k].0 < r@[l].0,
            exists|m: nat|
                #[trigger] children_from(*old(self).store, first, *parent_box, m, r@, final(self).origins@)
                    && (item_present(*old(self).store, first, m) ==> final(self).visits_remaining == 0),
        decreases old(self).visits_remaining, 0nat,
    {
        let vertical = match parent_box.kind {
            NodeKind::VerticalBox => true,
            _ => false,
        };
        let pb = ParentBox { vertical, width: parent_box.width, height: parent_box.height, depth: parent_box.depth };
        let mut position = start_cursor(parent_box);
        let mut children: Vec<NodeId> = Vec::new();
        let mut cursor = first;
        let ghost nodes0 = self.fragment.nodes@;
        let ghost sources0 = self.fragment.source_map.sources@;
        let ghost origins0 = self.origins@;
        let ghost visits0 = self.visits_remaining;
        let ghost store0 = *self.store;
        let ghost mut k: nat = 0;
        proof {
            lemma_extends_refl(nodes0);
            lemma_extends_refl(sources0);
            lemma_extends_refl(origins0);
        }
        while cursor.is_some()
            invariant
                self.well_formed(),
                self.fragment.nodes@.len() + self.visits_remaining < visit_budget(),
                extends(nodes0, self.fragment.nodes@),
                extends(sources0, self.fragment.source_map.sources@),
                extends(origins0, self.origins@),
                self.visits_remaining <= visits0,
                self.fragment.nodes@.len() + self.visits_remaining <= nodes0.len() + visits0,
                visits0 == old(self).visits_remaining,
                nodes0 == old(self).fragment.nodes@,
                sources0 == old(self).fragment.source_map.sources@,
                origins0 == old(self).origins@,
                self.store == old(self).store,
                store0 == *self.store,
                self.fragment.metadata == old(self).fragment.metadata,
                self.fragment.surface == old(self).fragment.surface,
                pb == parent_of(*parent_box),
                vertical == (parent_box.kind == NodeKind::VerticalBox),
                cursor == list_item(store0, first, k),
                position == cursor_before(store0, first, *parent_box, k),
                forall|k: int|
                    0 <= k < children@.len() ==> nodes0.len() <= (#[trigger] children@[k]).0
                        < self.fragment.nodes@.len(),
                forall|k: int, l: int| 0 <= k < l < children@.len() ==> children@[k].0 < children@[l].0,
                children_from(store0, first, *parent_box, k, children@, self.origins@),
            ensures
                children_from(store0, first, *parent_box, k, children@, self.origins@),
                item_present(store0, first, k) ==> self.visits_remaining == 0,
                self.well_formed(),
                self.fragment.nodes@.len() + self.visits_remaining < visit_budget(),
                extends(nodes0, self.fragment.nodes@),
                extends(sources0, self.fragment.source_map.sources@),
                extends(origins0, self.origins@),
                self.visits_remaining <= visits0,
                self.fragment.nodes@.len() + self.visits_remaining <= nodes0.len() + visits0,
                self.store == old(self).store,
                self.fragment.metadata == old(self).fragment.metadata,
                self.fragment.surface == old(self).fragment.surface,
                forall|k: int|
                    0 <= k < children@.len() ==> nodes0.len() <= (#[trigger] children@[k]).0
                        < self.fragment.nodes@.len(),
                forall|k: int, l: int| 0 <= k < l < children@.len() ==> children@[k].0 < children@[l].0,
            decreases self.visits_remaining,
        {
            let handle = match cursor {
                Some(h) => h,
                None => break,
            };
            if handle >= self.store.nodes.len() {
                break;
            }
            let store = self.store;
            let snapshot = &store.nodes[handle];
            let (origin, next) = place_child(vertical, position, snapshot, parent_box.glue_sign, parent_box.glue_order);
            if !self.consume_visit() {
                break;
            }
            position = next;
            let ghost nodes1 = self.fragment.nodes@;
            let ghost sources1 = self.fragment.source_map.sources@;
            let ghost origins1 = self.origins@;
            let ghost before_children = children@;
            let ghost k0 = k;
            proof {
                assert(item_present(store0, first, k0));
                assert(origin == item_origin(store0, first, *parent_box, k0));
            }
            match self.emit_visited(handle, origin, Some(pb)) {
                Some(child) => {
                    children.push(child);
                },
                None => {},
            }
            proof {
                k = k0 + 1;
                let origins2 = self.origins@;
                let li0 = lowered_items(store0, first, *parent_box, k0);
                let li1 = lowered_items(store0, first, *parent_box, k);
                assert(list_item(store0, first, k0) == Some(handle));
                assert(cursor_before(store0, first, *parent_box, k) == next);
                assert forall|kk: nat| kk < k implies #[trigger] item_present(store0, first, kk) by {
                    if kk < k0 {
                        assert(item_present(store0, first, kk));
                    }
                }
                assert forall|j: int| 0 <= j < children@.len() implies nodes0.len() <= (#[trigger] children@[j]).0
                    < self.fragment.nodes@.len() && children@[j].0 < origins2.len() && origins2[children@[j].0 as int]
                    == (NodeOrigin { handle: li1[j].0, origin: li1[j].1, parent: Some(parent_of(*parent_box)) }) by {
                    if j < before_children.len() {
                        let c = children@[j].0 as int;
                        assert(children@[j] == before_children[j]);
                        assert(before_children[j].0 < origins1.len());
                        assert(origins2[c] == origins2.subrange(0, origins1.len() as int)[c]);
                        assert(li1[j] == li0[j]);
                    } else {
                        assert(li1[j] == (handle, origin));
                    }
                }
                assert(children_from(store0, first, *parent_box, k, children@, origins2));
                lemma_extends_trans(nodes0, nodes1, self.fragment.nodes@);
                lemma_extends_trans(sources0, sources1, self.fragment.source_map.sources@);
                lemma_extends_trans(origins0, origins1, self.origins@);
            }
            cursor = snapshot.link;
        }
        children
    }

    /// Lowers the node at `handle` and everything under it, placed at `origin`.
    pub fn emit_node(&mut self, handle: usize, origin: Point, parent: Option<ParentBox>) -> (r: Option<NodeId>)
        requires
            old(self).well_formed(),
        ensures
            final(self).well_formed(),
            extends(old(self).spec_fragment().nodes@, final(self).spec_fragment().nodes@),
            extends(old(self).spec_origins(), final(self).spec_origins()),
            final(self).spec_store() == old(self).spec_store(),
            final(self).spec_fragment().metadata == old(self).spec_fragment().metadata,
            final(self).spec_fragment().surface == old(self).spec_fragment().surface,
            r matches Some(id) ==> id.0 as int == final(self).spec_fragment().nodes@.len() - 1
                && final(self).spec_origins().last() == (NodeOrigin { handle, origin, parent }),
            r is None ==> final(self).spec_fragment().nodes@ == old(self).spec_fragment().nodes@,
            r is Some <==> old(self).spec_visits() > 0 && handle < old(self).spec_store().nodes@.len()
                && lowers_to_node(old(self).spec_store().nodes@[handle as int].kind),
            lowering_holds(
                final(self).spec_store(),
                final(self).spec_fragment(),
                final(self).spec_origins(),
                final(self).spec_visits(),
            ),
    {
        if !self.consume_visit() {
            proof {
                lemma_extends_refl(self.fragment.nodes@);
                lemma_extends_refl(self.origins@);
            }
            return None;
        }
        let r = self.emit_visited(handle, origin, parent);
        r
    }

    /// Ends lowering with `root` as the fragment's root; a box root sets the surface.
    pub fn finish_with_root(self, root: NodeId) -> (r: Option<Fragment>)
        requires
            self.well_formed(),
        ensures
            r is Some <==> root.0 < self.spec_fragment().nodes@.len(),
            r matches Some(f) ==> f.nodes@ == self.spec_fragment().nodes@ && f.source_map
                == self.spec_fragment().source_map && f.metadata == self.spec_fragment().metadata
                && f.surface == root_surface(self.spec_fragment().surface, self.spec_fragment().nodes@[root.0 as int]),
    {
        let mut fragment = self.fragment;
        if root.0 as usize >= fragment.nodes.len() {
            return None;
        }
        let surface = match &fragment.nodes[root.0 as usize].kind {
            LayoutNodeKind::Box(layout_box) => Some(
                Surface {
                    width: layout_box.metrics.width,
                    height: Length(add_wrapping(layout_box.metrics.height.0, layout_box.metrics.depth.0)),
                    baseline: layout_box.metrics.height,
                },
            ),
            _ => None,
        };
        if let Some(s) = surface {
            fragment.surface = s;
        }
        Some(fragment)
    }
}

/// The captured node becomes an IR node: boxes, rules, glue, kerns and glyphs do.
pub open spec fn lowers_to_node(kind: NodeKind) -> bool {
    is_box(kind) || kind == NodeKind::Rule || kind == NodeKind::Glue || kind == NodeKind::Kern
        || kind == NodeKind::Character || kind == NodeKind::NativeWord || kind == NodeKind::NativeGlyph
}

/// Every node is the lowering of the captured node its origin names.
pub open spec fn node_ok_all(store: NodeStore, nodes: Seq<LayoutNode>, sources: Seq<SourceFile>, origins: Seq<NodeOrigin>) -> bool {
    &&& origins.len() == nodes.len()
    &&& forall|i: int| 0 <= i < nodes.len() ==> #[trigger] node_ok(store, nodes, sources, origins, i)
}

/// What lowering keeps of a fragment: every node is the lowering of the captured node its
/// origin names (kind, size, bounds, place, and for a box its children, from the snapshot and
/// the enclosing box); every source map entry is of an emitted node and every node's primary
/// source is the one the map gives it; and while the visit budget lasts, every box holds the
/// nodes of its whole list.
pub open spec fn lowering_holds(store: NodeStore, f: Fragment, origins: Seq<NodeOrigin>, visits: nat) -> bool {
    &&& node_ok_all(store, f.nodes@, f.source_map.sources@, origins)
    &&& forall|j: int| 0 <= j < f.source_map.entries@.len() ==> (#[trigger] f.source_map.entries@[j]).node.0 < f.nodes@.len()
    &&& forall|i: int|
        0 <= i < f.nodes@.len() ==> (#[trigger] f.nodes@[i]).primary_source == f.source_map.spec_primary_range(
            f.nodes@[i].id,
        )
    &&& visits > 0 ==> forall|i: int| 0 <= i < f.nodes@.len() ==> #[trigger] box_complete(store, f.nodes@, origins, i)
}

/// A fragment lowered from the box tree at `root`: every node is the lowering of a captured
/// node, the last one is the root's, placed at the origin with no enclosing box, every
/// node's primary source is the one the source map gives it, and the surface is the root
/// box's.
pub open spec fn lowered_from(f: Fragment, store: NodeStore, root: usize) -> bool {
    &&& forall|i: int|
        0 <= i < f.nodes@.len() ==> (#[trigger] f.nodes@[i]).primary_source == f.source_map.spec_primary_range(
            f.nodes@[i].id,
        )
    &&& exists|origins: Seq<NodeOrigin>|
        #[trigger] node_ok_all(store, f.nodes@, f.source_map.sources@, origins) && f.nodes@.len() > 0
            && origins.last() == (NodeOrigin { handle: root, origin: zero_point(), parent: None })
            && f.surface == root_surface(
            Surface { width: Length(0), height: Length(0), baseline: Length(0) },
            f.nodes@.last(),
        )
}

/// The surface a fragment gets from its root: a box root's width, total height and
/// baseline at its height; any other root leaves the surface as it was.
pub open spec fn root_surface(surface: Surface, root: LayoutNode) -> Surface {
    match root.kind {
        LayoutNodeKind::Box(b) => Surface {
            width: b.metrics.width,
            height: Length(wrap_add(b.metrics.height.0, b.metrics.depth.0)),
            baseline: b.metrics.height,
        },
        _ => surface,
    }
}

proof fn lemma_extends_refl<T>(a: Seq<T>)
    ensures
        extends(a, a),
{
    assert(a.subrange(0, a.len() as int) =~= a);
}

proof fn lemma_extends_trans<T>(a: Seq<T>, b: Seq<T>, c: Seq<T>)
    requires
        extends(a, b),
        extends(b, c),
    ensures
        extends(a, c),
{
    assert(c.subrange(0, a.len() as int) =~= c.subrange(0, b.len() as int).subrange(0, a.len() as int));
}

/// A list cursor: the horizontal and vertical position of the next node.
#[derive(Clone, Copy, Debug, PartialEq, Eq, Structural)]
pub struct Cursor {
    /// Horizontal position.
    pub h: i32,
    /// Vertical position.
    pub v: i32,
}

/// Where the cursor of a box's list starts: at the left edge, and for a vertical list at
/// the top of the box.
pub open spec fn spec_start_cursor(parent: NodeSnapshot) -> Cursor {
    Cursor { h: 0, v: if parent.kind == NodeKind::VerticalBox { wrap_sub(0, parent.height) } else { 0 } }
}

/// Where the cursor of a box's list starts.
pub fn start_cursor(parent: &NodeSnapshot) -> (r: Cursor)
    ensures
        r == spec_start_cursor(*parent),
{
    match parent.kind {
        NodeKind::VerticalBox => Cursor { h: 0, v: sub_wrapping(0, parent.height) },
        _ => Cursor { h: 0, v: 0 },
    }
}

/// The node occupies space: boxes, rules and glyphs.
pub open spec fn has_extent(kind: NodeKind) -> bool {
    is_box(kind) || kind == NodeKind::Rule || kind == NodeKind::Character || kind == NodeKind::NativeWord
        || kind == NodeKind::NativeGlyph || kind == NodeKind::Ligature
}

/// The node is spacing: kerns and glue.
pub open spec fn is_spacing(kind: NodeKind) -> bool {
    kind == NodeKind::Kern || kind == NodeKind::Glue
}

/// How far a node advances the cursor: glue its set width when it stretches or shrinks at
/// the box's glue order, every other node its width.
pub open spec fn advance_of(s: NodeSnapshot, glue_sign: i32, glue_order: i32) -> i32 {
    if s.kind == NodeKind::Glue {
        if glue_sign == 1 && s.glue_stretch_order == glue_order {
            wrap_add(s.width, s.stretch_amount)
        } else if glue_sign == 2 && s.glue_shrink_order == glue_order {
            wrap_sub(s.width, s.shrink_amount)
        } else {
            s.width
        }
    } else {
        s.width
    }
}

/// Where a node of a box's list is placed and where the cursor goes next, as TeX's
/// `hlist_out` and `vlist_out` move it: across by the advance in a horizontal list, with boxes
/// shifted down by their shift; down by height and depth in a vertical list, with boxes
/// shifted right, spacing moving the cursor by its advance, other nodes leaving it.
pub open spec fn spec_place_child(vertical: bool, c: Cursor, s: NodeSnapshot, glue_sign: i32, glue_order: i32) -> (Point, Cursor) {
    let advance = advance_of(s, glue_sign, glue_order);
    if vertical {
        if is_spacing(s.kind) {
            (Point { x: Length(0), y: Length(c.v) }, Cursor { h: c.h, v: wrap_add(c.v, advance) })
        } else if has_extent(s.kind) {
            let top = wrap_add(c.v, s.height);
            (
                Point { x: Length(if is_box(s.kind) { s.shift } else { 0 }), y: Length(top) },
                Cursor { h: c.h, v: wrap_add(top, s.depth) },
            )
        } else {
            (Point { x: Length(0), y: Length(c.v) }, c)
        }
    } else {
        (
            Point { x: Length(c.h), y: Length(if is_box(s.kind) { s.shift } else { 0 }) },
            Cursor { h: wrap_add(c.h, advance), v: c.v },
        )
    }
}

/// Places one node of a box's list and advances the cursor.
pub fn place_child(vertical: bool, cursor: Cursor, snapshot: &NodeSnapshot, glue_sign: i32, glue_order: i32) -> (r: (Point, Cursor))
    ensures
        r == spec_place_child(vertical, cursor, *snapshot, glue_sign, glue_order),
{
    let true_box = match snapshot.kind {
        NodeKind::HorizontalBox | NodeKind::VerticalBox | NodeKind::UnsetBox => true,
        _ => false,
    };
    let extent = true_box || match snapshot.kind {
        NodeKind::Rule | NodeKind::Character | NodeKind::NativeWord | NodeKind::NativeGlyph
        | NodeKind::Ligature => true,
        _ => false,
    };
    let spacing = match snapshot.kind {
        NodeKind::Kern | NodeKind::Glue => true,
        _ => false,
    };
    let advance = match snapshot.kind {
        NodeKind::Glue => {
            if glue_sign == 1 && snapshot.glue_stretch_order == glue_order {
                add_wrapping(snapshot.width, snapshot.stretch_amount)
            } else if glue_sign == 2 && snapshot.glue_shrink_order == glue_order {
                sub_wrapping(snapshot.width, snapshot.shrink_amount)
            } else {
                snapshot.width
            }
        },
        _ => snapshot.width,
    };
    if vertical {
        if spacing {
            (Point { x: Length(0), y: Length(cursor.v) }, Cursor { h: cursor.h, v: add_wrapping(cursor.v, advance) })
        } else if extent {
            let top = add_wrapping(cursor.v, snapshot.height);
            (
                Point { x: Length(if true_box { snapshot.shift } else { 0 }), y: Length(top) },
                Cursor { h: cursor.h, v: add_wrapping(top, snapshot.depth) },
            )
        } else {
            (Point { x: Length(0), y: Length(cursor.v) }, cursor)
        }
    } else {
        (
            Point { x: Length(cursor.h), y: Length(if true_box { snapshot.shift } else { 0 }) },
            Cursor { h: add_wrapping(cursor.h, advance), v: cursor.v },
        )
    }
}

/// Converts the box tree at `root` to an IR fragment with the given metadata.
///
/// The fragment exists exactly when `root` names a captured box, rule, glue, kern or glyph.
pub fn generated_node_to_fragment(store: &NodeStore, root: usize, metadata: FragmentMetadata) -> (r: Option<Fragment>)
    ensures
        r is Some <==> root < store.nodes@.len() && lowers_to_node(store.nodes@[root as int].kind),
        r matches Some(f) ==> f.metadata == metadata && lowered_from(f, *store, root),
{
    let mut builder = GeneratedIrBuilder::new(store, metadata);
    let root_node = match builder.emit_node(root, Point { x: Length(0), y: Length(0) }, None) {
        Some(id) => id,
        None => return None,
    };
    let ghost frag = builder.fragment;
    let ghost origins = builder.origins@;
    let r = builder.finish_with_root(root_node);
    proof {
        assert(node_ok_all(*store, frag.nodes@, frag.source_map.sources@, origins));
        let f = r->0;
        assert(f.nodes@ == frag.nodes@);
        assert(node_ok_all(*store, f.nodes@, f.source_map.sources@, origins));
        assert(f.nodes@.last() == frag.nodes@[root_node.0 as int]);
        assert(origins.last() == (NodeOrigin { handle: root, origin: zero_point(), parent: None }));
    }
    r
}

/// Layout capture statistics read from the engine after a run.
#[derive(Clone, Copy, Debug, Default, PartialEq, Eq, Structural)]
pub struct GeneratedLayoutCapture {
    /// Number of times a page was built and sent to output.
    pub page_builds: usize,
    /// Number of completed shipout calls.
    pub shipouts: usize,
    /// Number of `\special` outputs recorded.
    pub special_outputs: usize,
    /// Number of picture file loads.
    pub picture_loads: usize,
    /// Number of source special whatsits emitted.
    pub source_specials: usize,
    /// Number of `\write` whatsit diagnostics recorded.
    pub write_whatsit_diagnostics: usize,
    /// Number of pdf extension calls recorded.
    pub pdf_extensions: usize,
    /// Total bytes written to the engine transcript.
    pub transcript_bytes: usize,
    /// Number of times the page top was pruned.
    pub page_top_prunes: usize,
    /// Node handle of the most recent shipped out box, if any.
    pub last_shipout_box: Option<usize>,
    /// Node handle of the captured fragment root, if any.
    pub captured_fragment_root: Option<usize>,
    /// Final abort status code from the engine, if it aborted.
    pub last_abort_status: Option<i32>,
}

/// The node a capture is lowered from: the captured fragment root, else the last shipped box.
pub open spec fn capture_root(c: GeneratedLayoutCapture) -> Option<usize> {
    match c.captured_fragment_root {
        Some(h) => Some(h),
        None => c.last_shipout_box,
    }
}

impl GeneratedLayoutCapture {
    /// Snapshot of the last shipped out box, or `None` if none was shipped.
    pub fn last_shipout_snapshot<'s>(&self, store: &'s NodeStore) -> (r: Option<&'s NodeSnapshot>)
        ensures
            match self.last_shipout_box {
                Some(h) => if h < store.nodes@.len() {
                    r == Some(&store.nodes@[h as int])
                } else {
                    r is None
                },
                None => r is None,
            },
    {
        match self.last_shipout_box {
            Some(h) => if h < store.nodes.len() {
                Some(&store.nodes[h])
            } else {
                None
            },
            None => None,
        }
    }

    /// Converts the captured output to an IR `Fragment`.
    pub fn to_fragment(&self, store: &NodeStore, metadata: FragmentMetadata) -> (r: Option<Fragment>)
        ensures
            r is Some <==> (capture_root(*self) matches Some(root) && root < store.nodes@.len()
                && lowers_to_node(store.nodes@[root as int].kind)),
            r matches Some(f) ==> f.metadata == metadata && lowered_from(f, *store, capture_root(*self)->0),
    {
        let root = match self.captured_fragment_root {
            Some(h) => h,
            None => match self.last_shipout_box {
                Some(h) => h,
                None => return None,
            },
        };
        generated_node_to_fragment(store, root, metadata)
    }

    /// Converts the captured output to an IR `Fragment`; the source name and span are not
    /// used, the nodes carry the sources the engine recorded.
    pub fn to_fragment_with_source(
        &self,
        store: &NodeStore,
        metadata: FragmentMetadata,
        _source_name: &str,
        _source_span: ByteSpan,
    ) -> (r: Option<Fragment>)
        ensures
            r is Some <==> (capture_root(*self) matches Some(root) && root < store.nodes@.len()
                && lowers_to_node(store.nodes@[root as int].kind)),
            r matches Some(f) ==> f.metadata == metadata && lowered_from(f, *store, capture_root(*self)->0),
    {
        self.to_fragment(store, metadata)
    }

    /// Converts captured output to an IR `Fragment` using source spans recorded in the engine.
    pub fn to_fragment_with_recorded_source(&self, store: &NodeStore, metadata: FragmentMetadata) -> (r: Option<Fragment>)
        ensures
            r is Some <==> (capture_root(*self) matches Some(root) && root < store.nodes@.len()
                && lowers_to_node(store.nodes@[root as int].kind)),
            r matches Some(f) ==> f.metadata == metadata && lowered_from(f, *store, capture_root(*self)->0),
    {
        self.to_fragment(store, metadata)
    }
}


/// Each lowered item of a box's list is an item of that list, with the handle the list gives
/// and the place the box's cursor puts it.
proof fn lemma_lowered_item_is_list_item(store: NodeStore, first: Option<usize>, pbox: NodeSnapshot, m: nat, j: int)
    requires
        0 <= j < lowered_items(store, first, pbox, m).len(),
    ensures
        exists|k: nat|
            k < m && item_present(store, first, k) && lowered_items(store, first, pbox, m)[j] == (
            list_item(store, first, k)->0,
            #[trigger] item_origin(store, first, pbox, k),
        ),
    decreases m,
{
    let k = (m - 1) as nat;
    let prev = lowered_items(store, first, pbox, k);
    if j < prev.len() {
        lemma_lowered_item_is_list_item(store, first, pbox, k, j);
        let k2 = choose|k2: nat|
            k2 < k && item_present(store, first, k2) && prev[j] == (
            list_item(store, first, k2)->0,
            #[trigger] item_origin(store, first, pbox, k2),
        );
        assert(lowered_items(store, first, pbox, m)[j] == prev[j]);
        assert(item_origin(store, first, pbox, k2) == item_origin(store, first, pbox, k2));
    } else {
        assert(lowered_items(store, first, pbox, m)[j] == (
            list_item(store, first, k)->0,
            item_origin(store, first, pbox, k),
        ));
    }
}

/// In a fragment lowered from a box tree, a box placed in a horizontal or math list is
/// shifted down by its own shift, and a box placed in a vertical list is shifted right by it:
/// a child box's origin has `y` (in a vertical list, `x`) equal to the shift in its metrics.
pub proof fn lemma_child_box_is_placed_at_its_shift(f: Fragment, store: NodeStore, root: usize, i: int, j: int)
    requires
        lowered_from(f, store, root),
        0 <= i < f.nodes@.len(),
        f.nodes@[i].kind matches LayoutNodeKind::Box(b) && 0 <= j < b.children@.len()
            && f.nodes@[b.children@[j].0 as int].kind is Box,
    ensures
        ({
            let b = f.nodes@[i].kind->Box_0;
            let c = f.nodes@[b.children@[j].0 as int];
            let shift = c.kind->Box_0.metrics.shift;
            if b.kind == BoxKind::Vertical {
                c.origin.x == shift
            } else {
                c.origin.y == shift
            }
        }),
{
    let origins = choose|origins: Seq<NodeOrigin>|
        #[trigger] node_ok_all(store, f.nodes@, f.source_map.sources@, origins) && f.nodes@.len() > 0
            && origins.last() == (NodeOrigin { handle: root, origin: zero_point(), parent: None });
    let b = f.nodes@[i].kind->Box_0;
    assert(node_ok(store, f.nodes@, f.source_map.sources@, origins, i));
    let s = store.nodes@[origins[i].handle as int];
    let m = choose|m: nat| #[trigger] children_from(store, s.list, s, m, b.children@, origins);
    let c = b.children@[j].0 as int;
    assert(0 <= c < f.nodes@.len());
    assert(node_ok(store, f.nodes@, f.source_map.sources@, origins, c));
    lemma_lowered_item_is_list_item(store, s.list, s, m, j);
    let k = choose|k: nat|
        k < m && item_present(store, s.list, k) && lowered_items(store, s.list, s, m)[j] == (
            list_item(store, s.list, k)->0,
            #[trigger] item_origin(store, s.list, s, k),
        );
    let cs = store.nodes@[origins[c].handle as int];
    assert(origins[c].handle == list_item(store, s.list, k)->0);
    assert(is_box(cs.kind));
}

/// Along a horizontal list each item sits where the one before it ends: the first at the
/// box's left edge, and every next one to the right of the previous item's place by that
/// item's advance (its width, or for glue its set width).
pub proof fn lemma_horizontal_items_follow_each_other(store: NodeStore, first: Option<usize>, pbox: NodeSnapshot, k: nat)
    requires
        pbox.kind != NodeKind::VerticalBox,
        item_present(store, first, k),
    ensures
        k == 0 ==> item_origin(store, first, pbox, k).x == Length(0),
        item_present(store, first, k + 1) ==> item_origin(store, first, pbox, k + 1).x == Length(
            wrap_add(
                item_origin(store, first, pbox, k).x.0,
                advance_of(
                    store.nodes@[list_item(store, first, k)->0 as int],
                    pbox.glue_sign,
                    pbox.glue_order,
                ),
            ),
        ),
{
    assert(cursor_before(store, first, pbox, 0) == spec_start_cursor(pbox));
    assert(cursor_before(store, first, pbox, k + 1) == spec_place_child(
        false,
        cursor_before(store, first, pbox, k),
        store.nodes@[list_item(store, first, k)->0 as int],
        pbox.glue_sign,
        pbox.glue_order,
    ).1);
}

/// Down a vertical list, a box, rule or glyph item hangs from the position the list has
/// reached: the first from the top of the box, placed with its baseline its height below it,
/// and an item that follows another such item with its baseline its own height below the
/// previous item's depth.
pub proof fn lemma_vertical_items_stack(store: NodeStore, first: Option<usize>, pbox: NodeSnapshot, k: nat)
    requires
        pbox.kind == NodeKind::VerticalBox,
        item_present(store, first, k),
        has_extent(store.nodes@[list_item(store, first, k)->0 as int].kind),
    ensures
        ({
            let s = store.nodes@[list_item(store, first, k)->0 as int];
            &&& k == 0 ==> item_origin(store, first, pbox, k).y == Length(
                wrap_add(wrap_sub(0, pbox.height), s.height),
            )
            &&& (item_present(store, first, k + 1) && has_extent(
                store.nodes@[list_item(store, first, k + 1)->0 as int].kind,
            )) ==> item_origin(store, first, pbox, k + 1).y == Length(
                wrap_add(
                    wrap_add(item_origin(store, first, pbox, k).y.0, s.depth),
                    store.nodes@[list_item(store, first, k + 1)->0 as int].height,
                ),
            )
        }),
{
    let s = store.nodes@[list_item(store, first, k)->0 as int];
    assert(cursor_before(store, first, pbox, 0) == spec_start_cursor(pbox));
    assert(!is_spacing(s.kind));
    assert(cursor_before(store, first, pbox, k + 1) == spec_place_child(
        true,
        cursor_before(store, first, pbox, k),
        s,
        pbox.glue_sign,
        pbox.glue_order,
    ).1);
}

} // verus!
