//! The SVG rendering of a fragment apart from its numbers: which box is the root, the order
//! in which nodes and glyphs are drawn and where (in scaled points), glyph outline
//! definitions shared by repeated glyphs, escaped attribute values, colors, and source
//! attributes.
//!
//! Coordinates in SVG are user units of one point, so writing lengths scales them by
//! floating point and is left to the renderer around this library.
use vstd::prelude::*;

use crate::generated_fonts::{sat_add_i32, saturating_add_i32};
use crate::ir::{Color, Fragment, LayoutNode, LayoutNodeKind, Length, NodeId, Point, PositionedGlyph, SourceRange};
use crate::ir::node_has_id;
use crate::seqs::{find_first, first_index, lemma_first_index, lemma_first_index_is};
use crate::session::{nat_decimal, nat_text};
use crate::text::{chars_of, push_char, str_eq};

verus! {

/// SVG rendering failure.
#[derive(Clone, Copy, Debug, PartialEq, Eq, Structural)]
#[non_exhaustive]
pub enum SvgError {
    /// Failure to write formatted output to the SVG string buffer.
    Serialize,
}

/// The children a node lists: those of a box, a list or a group.
pub open spec fn children_of(kind: LayoutNodeKind) -> Seq<NodeId> {
    match kind {
        LayoutNodeKind::Box(b) => b.children@,
        LayoutNodeKind::List(l) => l.children@,
        LayoutNodeKind::Group { children } => children@,
        _ => Seq::empty(),
    }
}

/// Whether some node of `nodes` lists `id` as a child.
pub open spec fn is_listed_child(nodes: Seq<LayoutNode>, id: NodeId) -> bool {
    exists|i: int, j: int| 0 <= i < nodes.len() && 0 <= j < children_of(nodes[i].kind).len() && children_of(nodes[i].kind)[j] == id
}

/// A box that no node lists as a child.
pub open spec fn is_root_box(nodes: Seq<LayoutNode>) -> spec_fn(LayoutNode) -> bool {
    |n: LayoutNode| n.kind is Box && !is_listed_child(nodes, n.id)
}

/// The root of a fragment: the first box that no node lists as a child.
pub open spec fn root_of(nodes: Seq<LayoutNode>) -> Option<NodeId> {
    match find_first(nodes, is_root_box(nodes)) {
        Some(n) => Some(n.id),
        None => None,
    }
}

fn push_children(out: &mut Vec<NodeId>, children: &Vec<NodeId>)
    ensures
        final(out)@ == old(out)@ + children@,
{
    let ghost start = out@;
    let mut i: usize = 0;
    while i < children.len()
        invariant
            0 <= i <= children@.len(),
            out@ == start + children@.take(i as int),
        decreases children@.len() - i,
    {
        out.push(children[i]);
        i += 1;
        assert(out@ =~= start + children@.take(i as int));
    }
    assert(children@.take(children@.len() as int) =~= children@);
}

/// One step of drawing a fragment: the order in which nodes and glyphs are drawn, with the
/// point each is drawn at in fragment coordinates (y grows downward from the top edge).
#[derive(Clone, Copy, Debug, PartialEq, Eq, Structural)]
pub enum SvgVisit {
    /// Draw a node; one that holds children or glyphs opens a group, closed by `Leave`.
    Enter {
        /// The node drawn.
        node: NodeId,
        /// Its origin.
        at: Point,
    },
    /// Draw glyph `index` of a glyph run node.
    Glyph {
        /// The glyph run node.
        node: NodeId,
        /// The glyph's index in the run.
        index: usize,
        /// The glyph's origin.
        at: Point,
    },
    /// Close the group of a node that holds children or glyphs.
    Leave {
        /// The node closed.
        node: NodeId,
    },
}

/// A point moved by an offset, each coordinate saturating at the `i32` range.
pub open spec fn offset_point(p: Point, by: Point) -> Point {
    Point { x: Length(sat_add_i32(p.x.0, by.x.0)), y: Length(sat_add_i32(p.y.0, by.y.0)) }
}

fn move_point(p: Point, by: Point) -> (r: Point)
    ensures
        r == offset_point(p, by),
{
    Point { x: Length(saturating_add_i32(p.x.0, by.x.0)), y: Length(saturating_add_i32(p.y.0, by.y.0)) }
}

/// Whether a node holds children (a box, a list or a group).
pub open spec fn holds_children(kind: LayoutNodeKind) -> bool {
    kind is Box || kind is List || kind is Group
}

/// The glyphs of a glyph run at a run origin, in run order.
pub open spec fn walk_glyphs(id: NodeId, glyphs: Seq<PositionedGlyph>, at: Point) -> Seq<SvgVisit> {
    Seq::new(glyphs.len(), |i: int| SvgVisit::Glyph { node: id, index: i as usize, at: offset_point(at, glyphs[i].offset) })
}

/// Drawing the node with an identifier (the first with it) under a parent origin: nothing
/// when there is no such node or no fuel is left; a node holding children is entered, its
/// children drawn at its origin, and left; a glyph run likewise with its glyphs; any other
/// node is entered alone.
pub open spec fn walk_node(nodes: Seq<LayoutNode>, id: NodeId, parent: Point, fuel: nat) -> Seq<SvgVisit>
    decreases fuel, 0nat,
{
    if fuel == 0 {
        Seq::empty()
    } else {
        match find_first(nodes, node_has_id(id)) {
            None => Seq::empty(),
            Some(n) => {
                let at = offset_point(parent, n.origin);
                let enter = seq![SvgVisit::Enter { node: id, at }];
                let leave = seq![SvgVisit::Leave { node: id }];
                if holds_children(n.kind) {
                    enter + walk_children(nodes, children_of(n.kind), at, (fuel - 1) as nat) + leave
                } else if n.kind is GlyphRun {
                    enter + walk_glyphs(id, n.kind->GlyphRun_0.glyphs@, at) + leave
                } else {
                    enter
                }
            },
        }
    }
}

/// Drawing a list of nodes one after the other under the same origin.
pub open spec fn walk_children(nodes: Seq<LayoutNode>, children: Seq<NodeId>, at: Point, fuel: nat) -> Seq<SvgVisit>
    decreases fuel, children.len(),
{
    if children.len() == 0 {
        Seq::empty()
    } else {
        walk_children(nodes, children.drop_last(), at, fuel) + walk_node(nodes, children.last(), at, fuel)
    }
}

/// The drawing order of a fragment: from the root box when there is one, else every node in
/// turn, starting at the baseline on the left edge. The walk has as much fuel as the fragment
/// has nodes, which no chain of nested distinct nodes exhausts.
pub open spec fn fragment_walk(fragment: Fragment) -> Seq<SvgVisit> {
    let nodes = fragment.nodes@;
    let base = Point { x: Length(0), y: fragment.surface.baseline };
    match root_of(nodes) {
        Some(root) => walk_node(nodes, root, base, nodes.len()),
        None => walk_children(nodes, nodes.map_values(|n: LayoutNode| n.id), base, nodes.len()),
    }
}

fn node_children(kind: &LayoutNodeKind) -> (r: Option<&Vec<NodeId>>)
    ensures
        r is Some <==> holds_children(*kind),
        r matches Some(c) ==> c@ == children_of(*kind),
{
    match kind {
        LayoutNodeKind::Box(b) => Some(&b.children),
        LayoutNodeKind::List(l) => Some(&l.children),
        LayoutNodeKind::Group { children } => Some(children),
        _ => None,
    }
}

fn push_glyphs(out: &mut Vec<SvgVisit>, id: NodeId, glyphs: &Vec<PositionedGlyph>, at: Point)
    ensures
        final(out)@ == old(out)@ + walk_glyphs(id, glyphs@, at),
{
    let ghost start = out@;
    let mut i: usize = 0;
    while i < glyphs.len()
        invariant
            0 <= i <= glyphs@.len(),
            out@ == start + walk_glyphs(id, glyphs@.take(i as int), at),
        decreases glyphs@.len() - i,
    {
        let p = move_point(at, glyphs[i].offset);
        out.push(SvgVisit::Glyph { node: id, index: i, at: p });
        i += 1;
        assert(out@ =~= start + walk_glyphs(id, glyphs@.take(i as int), at));
    }
    assert(glyphs@.take(glyphs@.len() as int) =~= glyphs@);
}

fn walk_node_into(fragment: &Fragment, id: NodeId, parent: Point, fuel: usize, out: &mut Vec<SvgVisit>)
    ensures
        final(out)@ == old(out)@ + walk_node(fragment.nodes@, id, parent, fuel as nat),
    decreases fuel,
{
    if fuel == 0 {
        assert(out@ =~= old(out)@ + walk_node(fragment.nodes@, id, parent, fuel as nat));
        return;
    }
    let node = match fragment.node(id) {
        Some(node) => node,
        None => {
            assert(out@ =~= old(out)@ + walk_node(fragment.nodes@, id, parent, fuel as nat));
            return;
        },
    };
    let at = move_point(parent, node.origin);
    let ghost nodes = fragment.nodes@;
    let ghost start = out@;
    out.push(SvgVisit::Enter { node: id, at });
    match node_children(&node.kind) {
        Some(children) => {
            let mut i: usize = 0;
            while i < children.len()
                invariant
                    0 <= i <= children@.len(),
                    nodes == fragment.nodes@,
                    0 < fuel,
                    out@ == start + seq![SvgVisit::Enter { node: id, at }] + walk_children(
                        nodes,
                        children@.take(i as int),
                        at,
                        (fuel - 1) as nat,
                    ),
                decreases children@.len() - i,
            {
                let ghost before = out@;
                walk_node_into(fragment, children[i], at, fuel - 1, out);
                proof {
                    assert(children@.take(i + 1).drop_last() =~= children@.take(i as int));
                    assert(children@.take(i + 1).last() == children@[i as int]);
                }
                i += 1;
                assert(out@ =~= start + seq![SvgVisit::Enter { node: id, at }] + walk_children(
                    nodes,
                    children@.take(i as int),
                    at,
                    (fuel - 1) as nat,
                ));
            }
            assert(children@.take(children@.len() as int) =~= children@);
            out.push(SvgVisit::Leave { node: id });
        },
        None => {
            if let LayoutNodeKind::GlyphRun(run) = &node.kind {
                push_glyphs(out, id, &run.glyphs, at);
                out.push(SvgVisit::Leave { node: id });
            }
        },
    }
    assert(out@ =~= old(out)@ + walk_node(fragment.nodes@, id, parent, fuel as nat));
}

/// The order in which a fragment's nodes and glyphs are drawn, and where: from the root box
/// when there is one, else every node in turn.
pub fn svg_walk(fragment: &Fragment) -> (r: Vec<SvgVisit>)
    ensures
        r@ == fragment_walk(*fragment),
{
    let mut out: Vec<SvgVisit> = Vec::new();
    let base = Point { x: Length(0), y: fragment.surface.baseline };
    let fuel = fragment.nodes.len();
    match select_root(fragment) {
        Some(root) => {
            walk_node_into(fragment, root, base, fuel, &mut out);
        },
        None => {
            let ghost nodes = fragment.nodes@;
            let ghost ids = nodes.map_values(|n: LayoutNode| n.id);
            let mut i: usize = 0;
            while i < fragment.nodes.len()
                invariant
                    0 <= i <= nodes.len(),
                    nodes == fragment.nodes@,
                    fuel == nodes.len(),
                    ids == nodes.map_values(|n: LayoutNode| n.id),
                    out@ == walk_children(nodes, ids.take(i as int), base, fuel as nat),
                decreases nodes.len() - i,
            {
                walk_node_into(fragment, fragment.nodes[i].id, base, fuel, &mut out);
                proof {
                    assert(ids.take(i + 1).drop_last() =~= ids.take(i as int));
                    assert(ids.take(i + 1).last() == ids[i as int]);
                }
                i += 1;
            }
            assert(ids.take(nodes.len() as int) =~= ids);
        },
    }
    out
}

/// Whether a path equals the given path data.
pub open spec fn is_path(d: Seq<char>) -> spec_fn(Seq<char>) -> bool {
    |p: Seq<char>| p == d
}

/// Interning path data into a list of definitions: the list and the index of the first
/// equal path when there is one, else the list with the path appended and its index.
pub open spec fn interned(defs: Seq<Seq<char>>, d: Seq<char>) -> (Seq<Seq<char>>, int) {
    let k = first_index(defs, is_path(d));
    if k < defs.len() {
        (defs, k)
    } else {
        (defs.push(d), defs.len() as int)
    }
}

/// The `<path>` element of definition `id`.
pub open spec fn path_def(id: int, d: Seq<char>) -> Seq<char> {
    "<path id=\"g"@ + nat_decimal((id as u32) as nat) + "\" d=\""@ + d + "\"/>"@
}

/// The `<path>` elements of all definitions, in id order.
pub open spec fn defs_markup(defs: Seq<Seq<char>>) -> Seq<char>
    decreases defs.len(),
{
    if defs.len() == 0 {
        Seq::empty()
    } else {
        defs_markup(defs.drop_last()) + path_def(defs.len() - 1, defs.last())
    }
}

/// Glyph outline paths interned for `<defs>`, so repeated glyphs share one definition; a
/// path's id is its place in the list.
pub struct GlyphDefs {
    paths: Vec<String>,
}

impl View for GlyphDefs {
    type V = Seq<Seq<char>>;

    closed spec fn view(&self) -> Seq<Seq<char>> {
        self.paths@.map_values(|p: String| p@)
    }
}

impl GlyphDefs {
    /// No definitions yet.
    pub fn new() -> (r: Self)
        ensures
            r@ == Seq::<Seq<char>>::empty(),
    {
        let r = GlyphDefs { paths: Vec::new() };
        assert(r@ =~= Seq::<Seq<char>>::empty());
        r
    }

    /// Whether no path has been interned.
    pub fn is_empty(&self) -> (r: bool)
        ensures
            r == (self@.len() == 0),
    {
        self.paths.len() == 0
    }

    /// The id of path data: that of an equal path interned before, else a new one.
    pub fn intern(&mut self, d: &str) -> (id: u32)
        ensures
            final(self)@ == interned(old(self)@, d@).0,
            id == interned(old(self)@, d@).1 as u32,
    {
        let ghost p = is_path(d@);
        let ghost defs = self@;
        let mut i: usize = 0;
        while i < self.paths.len()
            invariant
                0 <= i <= self.paths@.len(),
                defs == self@,
                defs.len() == self.paths@.len(),
                p == is_path(d@),
                forall|j: int| 0 <= j < i ==> !p(#[trigger] defs[j]),
            decreases self.paths@.len() - i,
        {
            if str_eq(self.paths[i].as_str(), d) {
                proof {
                    assert(defs[i as int] == self.paths@[i as int]@);
                    lemma_first_index_is(defs, p, i as int);
                }
                return i as u32;
            }
            assert(defs[i as int] == self.paths@[i as int]@);
            i += 1;
        }
        proof {
            lemma_first_index_is(defs, p, i as int);
        }
        let id = self.paths.len() as u32;
        self.paths.push(String::from_str(d));
        assert(self@ =~= defs.push(d@));
        id
    }

    /// The `<path>` elements of all definitions, in id order.
    pub fn markup(&self) -> (r: String)
        ensures
            r@ == defs_markup(self@),
    {
        let ghost defs = self@;
        let mut out = String::new();
        let mut i: usize = 0;
        while i < self.paths.len()
            invariant
                0 <= i <= self.paths@.len(),
                defs == self@,
                defs.len() == self.paths@.len(),
                out@ == defs_markup(defs.take(i as int)),
            decreases self.paths@.len() - i,
        {
            out = out.concat("<path id=\"g").concat(nat_text(#[verifier::truncate] (i as u32)).as_str()).concat("\" d=\"").concat(
                self.paths[i].as_str(),
            ).concat("\"/>");
            proof {
                assert(defs.take(i + 1).drop_last() =~= defs.take(i as int));
                assert(defs.take(i + 1).last() == self.paths@[i as int]@);
            }
            i += 1;
            assert(out@ =~= defs_markup(defs.take(i as int)));
        }
        assert(defs.take(defs.len() as int) =~= defs);
        out
    }
}

/// Interning path data again gives the same id and leaves the definitions as they are: a
/// repeated glyph outline shares its definition.
pub proof fn lemma_intern_again_shares_the_definition(defs: Seq<Seq<char>>, d: Seq<char>)
    ensures
        interned(interned(defs, d).0, d) == interned(defs, d),
{
    lemma_first_index(defs, is_path(d));
    let (after, id) = interned(defs, d);
    if first_index(defs, is_path(d)) == defs.len() {
        assert(is_path(d)(after[id]));
        assert forall|j: int| 0 <= j < id implies !is_path(d)(#[trigger] after[j]) by {
            assert(after[j] == defs[j]);
        }
        lemma_first_index_is(after, is_path(d), id);
    }
}

/// Interned path data is the definition at its id, and interning more keeps earlier
/// definitions: different outlines get different ids.
pub proof fn lemma_different_paths_get_different_ids(defs: Seq<Seq<char>>, d: Seq<char>, e: Seq<char>)
    requires
        d != e,
    ensures
        interned(defs, d).1 != interned(interned(defs, d).0, e).1,
        0 <= interned(defs, d).1 < interned(defs, d).0.len(),
        interned(defs, d).0[interned(defs, d).1] == d,
{
    lemma_first_index(defs, is_path(d));
    let (a, i) = interned(defs, d);
    assert(a[i] == d);
    lemma_first_index(a, is_path(e));
    let (b, j) = interned(a, e);
    assert(b[j] == e);
    assert(b[i] == a[i]);
}

/// The box to draw a fragment from: the first box that no node lists as a child.
pub fn select_root(fragment: &Fragment) -> (r: Option<NodeId>)
    ensures
        r == root_of(fragment.nodes@),
{
    let ghost nodes = fragment.nodes@;
    let mut listed: Vec<NodeId> = Vec::new();
    let mut i: usize = 0;
    while i < fragment.nodes.len()
        invariant
            nodes == fragment.nodes@,
            0 <= i <= nodes.len(),
            forall|id: NodeId| #[trigger] listed@.contains(id) <==> exists|a: int, j: int|
                0 <= a < i && 0 <= j < children_of(nodes[a].kind).len() && children_of(nodes[a].kind)[j] == id,
        decreases nodes.len() - i,
    {
        let ghost before = listed@;
        match &fragment.nodes[i].kind {
            LayoutNodeKind::Box(b) => push_children(&mut listed, &b.children),
            LayoutNodeKind::List(l) => push_children(&mut listed, &l.children),
            LayoutNodeKind::Group { children } => push_children(&mut listed, children),
            _ => {},
        }
        let ghost added = children_of(nodes[i as int].kind);
        assert(listed@ == before + added);
        assert forall|id: NodeId| #[trigger] listed@.contains(id) <==> exists|a: int, j: int|
            0 <= a < i + 1 && 0 <= j < children_of(nodes[a].kind).len() && children_of(nodes[a].kind)[j] == id by {
            if listed@.contains(id) {
                let k = choose|k: int| 0 <= k < listed@.len() && listed@[k] == id;
                if k < before.len() {
                    assert(before[k] == id);
                    assert(before.contains(id));
                } else {
                    assert(added[k - before.len()] == id);
                }
            }
            if exists|a: int, j: int|
                0 <= a < i + 1 && 0 <= j < children_of(nodes[a].kind).len() && children_of(nodes[a].kind)[j] == id {
                let (a, j) = choose|a: int, j: int|
                    0 <= a < i + 1 && 0 <= j < children_of(nodes[a].kind).len() && children_of(nodes[a].kind)[j] == id;
                if a < i {
                    assert(before.contains(id));
                    let k = choose|k: int| 0 <= k < before.len() && before[k] == id;
                    assert(listed@[k] == id);
                } else {
                    assert(listed@[before.len() + j] == id);
                }
            }
        }
        i += 1;
    }
    let ghost p = is_root_box(nodes);
    let mut k: usize = 0;
    while k < fragment.nodes.len()
        invariant
            nodes == fragment.nodes@,
            p == is_root_box(nodes),
            0 <= k <= nodes.len(),
            forall|id: NodeId| #[trigger] listed@.contains(id) <==> is_listed_child(nodes, id),
            forall|j: int| 0 <= j < k ==> !p(#[trigger] nodes[j]),
        decreases nodes.len() - k,
    {
        let node = &fragment.nodes[k];
        let is_box = match &node.kind {
            LayoutNodeKind::Box(_) => true,
            _ => false,
        };
        if is_box && !contains_id(&listed, node.id) {
            proof {
                lemma_first_index_is(nodes, p, k as int);
            }
            return Some(node.id);
        }
        k += 1;
    }
    proof {
        lemma_first_index_is(nodes, p, k as int);
    }
    None
}

fn contains_id(v: &Vec<NodeId>, id: NodeId) -> (r: bool)
    ensures
        r == v@.contains(id),
{
    let mut i: usize = 0;
    while i < v.len()
        invariant
            0 <= i <= v@.len(),
            forall|j: int| 0 <= j < i ==> v@[j] != id,
        decreases v@.len() - i,
    {
        if v[i] == id {
            return true;
        }
        i += 1;
    }
    false
}

/// The escape of one character in an attribute value.
pub open spec fn escape_char(c: char) -> Seq<char> {
    if c == '&' {
        "&amp;"@
    } else if c == '"' {
        "&quot;"@
    } else if c == '<' {
        "&lt;"@
    } else if c == '>' {
        "&gt;"@
    } else {
        seq![c]
    }
}

/// A text with `&`, `"`, `<` and `>` replaced by their character references.
pub open spec fn escaped(s: Seq<char>) -> Seq<char>
    decreases s.len(),
{
    if s.len() == 0 {
        Seq::empty()
    } else {
        escaped(s.drop_last()) + escape_char(s.last())
    }
}

/// Escapes a text for a double quoted attribute value.
pub fn escape_attr(input: &str) -> (r: String)
    ensures
        r@ == escaped(input@),
{
    let t = chars_of(input);
    let mut out = String::new();
    let mut i: usize = 0;
    while i < t.len()
        invariant
            t@ == input@,
            0 <= i <= t@.len(),
            out@ == escaped(t@.take(i as int)),
        decreases t@.len() - i,
    {
        let c = t[i];
        if c == '&' {
            out.append("&amp;");
        } else if c == '"' {
            out.append("&quot;");
        } else if c == '<' {
            out.append("&lt;");
        } else if c == '>' {
            out.append("&gt;");
        } else {
            push_char(&mut out, c);
        }
        assert(t@.take(i + 1).drop_last() =~= t@.take(i as int));
        i += 1;
    }
    assert(t@.take(t@.len() as int) =~= t@);
    out
}

/// The lower case hexadecimal digits.
pub open spec fn hex_digits() -> Seq<char> {
    seq!['0', '1', '2', '3', '4', '5', '6', '7', '8', '9', 'a', 'b', 'c', 'd', 'e', 'f']
}

/// A byte as two lower case hexadecimal digits.
pub open spec fn hex_byte(b: u8) -> Seq<char> {
    seq![hex_digits()[b as int / 16], hex_digits()[b as int % 16]]
}

/// A color as `#rrggbbaa` in lower case hexadecimal.
pub open spec fn color_hex(c: Color) -> Seq<char> {
    seq!['#'] + hex_byte(c.r) + hex_byte(c.g) + hex_byte(c.b) + hex_byte(c.a)
}

fn hex_digit(n: u8) -> (r: char)
    requires
        n < 16,
    ensures
        r == hex_digits()[n as int],
{
    match n {
        0 => '0',
        1 => '1',
        2 => '2',
        3 => '3',
        4 => '4',
        5 => '5',
        6 => '6',
        7 => '7',
        8 => '8',
        9 => '9',
        10 => 'a',
        11 => 'b',
        12 => 'c',
        13 => 'd',
        14 => 'e',
        _ => 'f',
    }
}

fn push_hex(out: &mut String, b: u8)
    ensures
        final(out)@ == old(out)@ + hex_byte(b),
{
    push_char(out, hex_digit(b / 16));
    push_char(out, hex_digit(b % 16));
    assert(final(out)@ =~= old(out)@ + hex_byte(b));
}

/// Writes a color as `#rrggbbaa`.
pub fn color_to_hex(color: Color) -> (r: String)
    ensures
        r@ == color_hex(color),
{
    let mut out = String::new();
    push_char(&mut out, '#');
    push_hex(&mut out, color.r);
    push_hex(&mut out, color.g);
    push_hex(&mut out, color.b);
    push_hex(&mut out, color.a);
    assert(out@ =~= color_hex(color));
    out
}

/// The source attributes of a range: its source id, start and end.
pub open spec fn source_range_text(range: SourceRange) -> Seq<char> {
    " data-source-id=\""@ + nat_decimal(range.source.0 as nat) + "\" data-source-start=\""@
        + nat_decimal(range.span.start as nat) + "\" data-source-end=\""@ + nat_decimal(
        range.span.end as nat,
    ) + "\""@
}

/// Writes the source attributes of a range.
pub fn source_range_attrs(range: SourceRange) -> (r: String)
    ensures
        r@ == source_range_text(range),
{
    let out = String::from_str(" data-source-id=\"").concat(nat_text(range.source.0).as_str()).concat(
        "\" data-source-start=\"",
    ).concat(nat_text(range.span.start).as_str()).concat("\" data-source-end=\"").concat(
        nat_text(range.span.end).as_str(),
    ).concat("\"");
    out
}

/// The source attributes of a node: of its own primary source, else of the one the source
/// map records for it, else none.
pub fn source_attrs(node: &LayoutNode, fragment: &Fragment) -> (r: String)
    ensures
        r@ == match node.primary_source {
            Some(range) => source_range_text(range),
            None => match fragment.source_map.spec_primary_range(node.id) {
                Some(range) => source_range_text(range),
                None => Seq::empty(),
            },
        },
{
    let range = match node.primary_source {
        Some(range) => Some(range),
        None => fragment.primary_source_for_node(node.id),
    };
    match range {
        Some(range) => source_range_attrs(range),
        None => String::new(),
    }
}

/// The source attributes of glyph `glyph_index` of a glyph run node.
pub fn glyph_source_attrs(fragment: &Fragment, node: &LayoutNode, glyph_index: usize) -> (r: String)
    ensures
        r@ == match fragment.spec_glyph_source_range(node.id, glyph_index as int) {
            Some(range) => source_range_text(range),
            None => Seq::empty(),
        },
{
    match fragment.glyph_source_range(node.id, glyph_index) {
        Some(range) => source_range_attrs(range),
        None => String::new(),
    }
}

/// Escaped attribute values hold no `<`, `>` or `"`, so they cannot end the attribute or open
/// markup.
pub proof fn lemma_escaped_has_no_markup(s: Seq<char>)
    ensures
        forall|i: int| 0 <= i < escaped(s).len() ==> #[trigger] escaped(s)[i] != '<' && escaped(s)[i] != '>'
            && escaped(s)[i] != '"',
    decreases s.len(),
{
    reveal_strlit("&amp;");
    reveal_strlit("&quot;");
    reveal_strlit("&lt;");
    reveal_strlit("&gt;");
    if s.len() > 0 {
        lemma_escaped_has_no_markup(s.drop_last());
        let a = escaped(s.drop_last());
        let b = escape_char(s.last());
        assert forall|i: int| 0 <= i < escaped(s).len() implies #[trigger] escaped(s)[i] != '<' && escaped(s)[i] != '>'
            && escaped(s)[i] != '"' by {
            if i < a.len() {
                assert(escaped(s)[i] == a[i]);
            } else {
                assert(escaped(s)[i] == b[i - a.len()]);
            }
        }
    }
}

} // verus!
