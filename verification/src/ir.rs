//! Renderer neutral intermediate representation for a laid out TeX/LaTeX fragment.
use vstd::prelude::*;

use crate::seqs::{find_first, lemma_first_index_is};

verus! {

/// TeX style scaled point value.
#[derive(Clone, Copy, Debug, Default, PartialEq, Eq, PartialOrd, Ord, Hash, Structural)]
pub struct Length(pub i32);

impl Length {
    /// Zero length.
    pub fn zero() -> (r: Length)
        ensures
            r == Length(0),
    {
        Length(0)
    }

    /// Constructs a length from a raw scaled point value.
    pub fn from_scaled_points(value: i32) -> (r: Length)
        ensures
            r == Length(value),
    {
        Length(value)
    }
}

/// Stable node identifier.
#[derive(Clone, Copy, Debug, Default, PartialEq, Eq, Hash, Structural)]
pub struct NodeId(pub u32);

/// Stable source identifier.
#[derive(Clone, Copy, Debug, Default, PartialEq, Eq, Hash, Structural)]
pub struct SourceId(pub u32);

/// Stable font identifier.
#[derive(Clone, Copy, Debug, Default, PartialEq, Eq, Hash, Structural)]
pub struct FontId(pub u32);

/// Backend independent glyph identifier.
#[derive(Clone, Copy, Debug, Default, PartialEq, Eq, Hash, Structural)]
pub struct GlyphId(pub u32);

/// Four byte tag in OpenType format.
#[derive(Clone, Copy, Debug, Default, PartialEq, Eq, Hash)]
pub struct Tag(pub [u8; 4]);

/// A half open byte span.
#[derive(Clone, Copy, Debug, Default, PartialEq, Eq, Structural)]
pub struct ByteSpan {
    /// Inclusive start byte.
    pub start: u32,
    /// Exclusive end byte.
    pub end: u32,
}

/// A point in scaled layout units.
#[derive(Clone, Copy, Debug, Default, PartialEq, Eq, Structural)]
pub struct Point {
    /// Horizontal coordinate.
    pub x: Length,
    /// Vertical coordinate.
    pub y: Length,
}

/// A two dimensional size in layout units.
#[derive(Clone, Copy, Debug, Default, PartialEq, Eq, Structural)]
pub struct Size {
    /// Horizontal extent.
    pub width: Length,
    /// Vertical extent.
    pub height: Length,
}

/// A rectangle in layout coordinates.
#[derive(Clone, Copy, Debug, Default, PartialEq, Eq, Structural)]
pub struct Rect {
    /// Top left origin.
    pub origin: Point,
    /// Width and height of the rectangle.
    pub size: Size,
}

/// Color with red, green, blue, and alpha channels.
#[derive(Clone, Copy, Debug, PartialEq, Eq, Structural)]
pub struct Color {
    /// Red channel.
    pub r: u8,
    /// Green channel.
    pub g: u8,
    /// Blue channel.
    pub b: u8,
    /// Alpha channel.
    pub a: u8,
}

impl Default for Color {
    /// Opaque black.
    fn default() -> (r: Self)
        ensures
            r == (Color { r: 0, g: 0, b: 0, a: 255 }),
    {
        Color { r: 0, g: 0, b: 0, a: 255 }
    }
}

/// Alpha channel represented independently from color payloads.
#[derive(Clone, Copy, Debug, PartialEq, Eq, Structural)]
pub struct Alpha(pub u8);

impl Alpha {
    /// Fully transparent (alpha = 0).
    pub fn transparent() -> (r: Alpha)
        ensures
            r == Alpha(0),
    {
        Alpha(0)
    }

    /// Fully opaque (alpha = 255).
    pub fn opaque() -> (r: Alpha)
        ensures
            r == Alpha(255),
    {
        Alpha(255)
    }
}

impl Default for Alpha {
    /// Fully opaque.
    fn default() -> (r: Self)
        ensures
            r == Alpha(255),
    {
        Alpha(255)
    }
}

/// Renderer neutral style state attached to layout nodes.
#[derive(Clone, Copy, Debug, PartialEq, Eq, Structural)]
pub struct Style {
    /// Foreground color for text and rules.
    pub foreground: Color,
    /// Background color when one is explicitly active.
    pub background: Option<Color>,
    /// Overall opacity applied to this node.
    pub opacity: Alpha,
}

/// The style every node starts with: opaque black, no background, fully opaque.
pub open spec fn default_style() -> Style {
    Style { foreground: Color { r: 0, g: 0, b: 0, a: 255 }, background: None, opacity: Alpha(255) }
}

impl Default for Style {
    /// Opaque black foreground, no background, full opacity.
    fn default() -> (r: Self)
        ensures
            r == default_style(),
    {
        Style { foreground: Color { r: 0, g: 0, b: 0, a: 255 }, background: None, opacity: Alpha(255) }
    }
}

/// Classifies the mode in which a fragment was typeset.
#[derive(Clone, Copy, Debug, Default, PartialEq, Eq, Structural)]
#[non_exhaustive]
pub enum FragmentKind {
    /// Inline math, typeset in text style.
    #[default]
    MathInline,
    /// Display math, typeset centered on its own line.
    MathDisplay,
    /// Paragraph text mode.
    Text,
}

/// The top level coordinate surface for a rendered fragment.
#[derive(Clone, Copy, Debug, Default, PartialEq, Eq, Structural)]
pub struct Surface {
    /// Horizontal extent of the fragment bounding box.
    pub width: Length,
    /// Vertical extent of the fragment bounding box.
    pub height: Length,
    /// Baseline offset from the top edge.
    pub baseline: Length,
}

/// Metadata describing how a fragment was produced.
#[derive(Clone, Debug, Default, PartialEq, Eq)]
pub struct FragmentMetadata {
    /// Engine profile identifier, such as `tex`, `etex`, or `xetex`.
    pub engine_profile: String,
    /// Format image identifier, such as `plain`, `latex`, or a custom format.
    pub format_id: String,
    /// Whether this fragment is inline math, display math, or text.
    pub fragment_kind: FragmentKind,
}

/// Distinguishes the axis or mode of a TeX box.
#[derive(Clone, Copy, Debug, PartialEq, Eq, Structural)]
#[non_exhaustive]
pub enum BoxKind {
    /// Horizontal box (hbox), items laid out left to right.
    Horizontal,
    /// Vertical box (vbox), items stacked top to bottom.
    Vertical,
    /// Math mode box.
    Math,
    /// Box produced by text layout inside math or normal text.
    Text,
}

/// TeX box dimensions.
#[derive(Clone, Copy, Debug, Default, PartialEq, Eq, Structural)]
pub struct BoxMetrics {
    /// Horizontal extent.
    pub width: Length,
    /// Height above baseline.
    pub height: Length,
    /// Depth below baseline.
    pub depth: Length,
    /// Shift applied when this box is placed in a parent list.
    pub shift: Length,
}

impl BoxMetrics {
    /// Baseline offset from the top edge of the box.
    pub fn baseline_offset(&self) -> (r: Length)
        ensures
            r == self.height,
    {
        self.height
    }

    /// Height plus depth, giving the total vertical extent.
    pub fn total_height(&self) -> (r: Length)
        requires
            i32::MIN <= self.height.0 + self.depth.0 <= i32::MAX,
        ensures
            r.0 == self.height.0 + self.depth.0,
    {
        Length(self.height.0 + self.depth.0)
    }
}

/// TeX style box data retained in renderer neutral layout IR.
#[derive(Clone, Debug, PartialEq, Eq)]
pub struct LayoutBox {
    /// Whether this is a horizontal, vertical, math, or text box.
    pub kind: BoxKind,
    /// TeX box metrics.
    pub metrics: BoxMetrics,
    /// Child nodes positioned relative to this box.
    pub children: Vec<NodeId>,
}

/// Distinguishes the axis or mode of a TeX list.
#[derive(Clone, Copy, Debug, PartialEq, Eq, Structural)]
#[non_exhaustive]
pub enum ListKind {
    /// Horizontal list (hlist), items laid out left to right.
    Horizontal,
    /// Vertical list (vlist), items stacked top to bottom.
    Vertical,
    /// Math mode list.
    Math,
    /// Paragraph list before line breaking.
    Paragraph,
    /// Text list, including text inside math.
    Text,
}

/// TeX style list data retained before or after box packaging.
#[derive(Clone, Debug, PartialEq, Eq)]
pub struct LayoutList {
    /// Whether this is a horizontal, vertical, math, paragraph, or text list.
    pub kind: ListKind,
    /// Child node identifiers in list order.
    pub children: Vec<NodeId>,
}

/// Text direction for glyph runs.
#[derive(Clone, Copy, Debug, Default, PartialEq, Eq, Structural)]
#[non_exhaustive]
pub enum Direction {
    /// Left to right, the default for Latin scripts.
    #[default]
    LeftToRight,
    /// Right to left, used for Arabic and Hebrew.
    RightToLeft,
    /// Top to bottom, used for some vertical layouts.
    TopToBottom,
}

/// An OpenType feature tag and value pair.
#[derive(Clone, Copy, Debug, PartialEq, Eq)]
pub struct FontFeature {
    /// Four byte tag in OpenType format.
    pub tag: Tag,
    /// Feature activation value, 1 enables, 0 disables.
    pub value: u32,
}

/// Font identity and size for a glyph run.
#[derive(Clone, Debug, PartialEq, Eq)]
pub struct FontRef {
    /// Stable font identifier assigned by the engine or resource layer.
    pub id: FontId,
    /// Human readable family or resource name.
    pub name: String,
    /// Rendered size in scaled points.
    pub size: Length,
    /// OpenType feature requests that affected shaping.
    pub features: Vec<FontFeature>,
}

/// A glyph with its layout position and optional source cluster.
#[derive(Clone, Copy, Debug, Default, PartialEq, Eq, Structural)]
pub struct PositionedGlyph {
    /// Backend independent glyph identifier in the referenced font.
    pub glyph_id: GlyphId,
    /// Offset from the run origin.
    pub offset: Point,
    /// Advance to the next glyph.
    pub advance: Point,
    /// Source byte cluster for this glyph.
    pub cluster: Option<ByteSpan>,
}

/// A shaped sequence of glyphs from one font.
#[derive(Clone, Debug, PartialEq)]
pub struct GlyphRun {
    /// Font identity and size for all glyphs in this run.
    pub font: FontRef,
    /// Text direction for rendering.
    pub direction: Direction,
    /// Optional script tag, such as `Latn` or `Arab`.
    pub script: Option<Tag>,
    /// Optional language tag following language tag conventions.
    pub language: Option<String>,
    /// Positioned glyphs in visual order.
    pub glyphs: Vec<PositionedGlyph>,
}

/// A solid rectangle in layout coordinates.
#[derive(Clone, Copy, Debug, Default, PartialEq, Eq, Structural)]
pub struct Rule {
    /// Width and height of the rule.
    pub size: Size,
    /// Fill color of the rule.
    pub color: Color,
}

/// Flexible spacing after TeX layout has resolved it to a concrete width.
#[derive(Clone, Copy, Debug, Default, PartialEq, Eq, Structural)]
pub struct Glue {
    /// Resolved glue amount.
    pub amount: Length,
}

/// A fixed spacing adjustment between adjacent layout items.
#[derive(Clone, Copy, Debug, Default, PartialEq, Eq, Structural)]
pub struct Kern {
    /// The amount of space to insert.
    pub amount: Length,
}

/// A path drawing command in local layout coordinates.
#[derive(Clone, Copy, Debug, PartialEq, Eq, Structural)]
#[non_exhaustive]
pub enum DrawCommand {
    /// Move the current point without drawing.
    MoveTo(Point),
    /// Draw a straight line to the given point.
    LineTo(Point),
    /// Draw a cubic Bezier curve to the given point.
    CubicTo {
        /// First control point.
        ctrl1: Point,
        /// Second control point.
        ctrl2: Point,
        /// End point of the curve.
        to: Point,
    },
    /// Close the current subpath.
    Close,
}

/// Stroke style for a drawing path.
#[derive(Clone, Copy, Debug, PartialEq, Eq, Structural)]
pub struct Stroke {
    /// Stroke color.
    pub color: Color,
    /// Stroke width.
    pub width: Length,
}

/// Backend neutral drawing data using path commands.
#[derive(Clone, Debug, Default, PartialEq, Eq)]
pub struct Drawing {
    /// Ordered path commands composing the drawing.
    pub commands: Vec<DrawCommand>,
    /// Stroke style, or None if the path is not stroked.
    pub stroke: Option<Stroke>,
    /// Fill color, or None if the path is not filled.
    pub fill: Option<Color>,
}

/// Renderer neutral node payloads.
#[derive(Clone, Debug, PartialEq)]
#[non_exhaustive]
pub enum LayoutNodeKind {
    /// TeX style box with width, height, depth, and positioned children.
    Box(LayoutBox),
    /// TeX style list before or after packaging into a box.
    List(LayoutList),
    /// A grouping of child nodes with no layout box.
    Group {
        /// Child node identifiers in this group.
        children: Vec<NodeId>,
    },
    /// A sequence of shaped glyphs from one font.
    GlyphRun(GlyphRun),
    /// A solid rule, such as a fraction bar.
    Rule(Rule),
    /// Flexible spacing emitted after layout resolution.
    Glue(Glue),
    /// Fixed horizontal or vertical spacing between adjacent items.
    Kern(Kern),
    /// Drawing commands for extensible delimiters or geometry beyond glyphs and rules.
    Drawing(Drawing),
}

/// A positioned renderable or grouping node.
#[derive(Clone, Debug, PartialEq)]
pub struct LayoutNode {
    /// Stable node identifier within the fragment.
    pub id: NodeId,
    /// Position of the node origin in fragment coordinates.
    pub origin: Point,
    /// Bounding rectangle in fragment coordinates.
    pub bounds: Rect,
    /// Primary source range when the node has one direct origin.
    pub primary_source: Option<SourceRange>,
    /// Visual style applied to this node.
    pub style: Style,
    /// Content payload of this node.
    pub kind: LayoutNodeKind,
}

/// The baseline y coordinate of a node: boxes at origin plus height, glyph runs at origin.
pub open spec fn spec_baseline_y(node: LayoutNode) -> Option<int> {
    match node.kind {
        LayoutNodeKind::Box(b) => Some(node.origin.y.0 + b.metrics.height.0),
        LayoutNodeKind::GlyphRun(_) => Some(node.origin.y.0 as int),
        _ => None,
    }
}

impl LayoutNode {
    /// Returns the baseline y coordinate, boxes use origin.y + height, glyph runs use origin.y.
    pub fn baseline_y(&self) -> (r: Option<Length>)
        requires
            spec_baseline_y(*self) matches Some(y) ==> i32::MIN <= y <= i32::MAX,
        ensures
            r is Some <==> spec_baseline_y(*self) is Some,
            r matches Some(l) ==> spec_baseline_y(*self) == Some(l.0 as int),
    {
        match &self.kind {
            LayoutNodeKind::Box(layout_box) => Some(
                Length(self.origin.y.0 + layout_box.metrics.baseline_offset().0),
            ),
            LayoutNodeKind::GlyphRun(_) => Some(self.origin.y),
            _ => None,
        }
    }
}

/// A source resource, such as user input or a loaded package file.
#[derive(Clone, Debug, PartialEq, Eq)]
pub struct SourceFile {
    /// Stable identifier for this source file.
    pub id: SourceId,
    /// File name or description of this source.
    pub name: String,
}

/// A span within a registered source file.
#[derive(Clone, Copy, Debug, PartialEq, Eq, Structural)]
pub struct SourceRange {
    /// The registered source file containing this range.
    pub source: SourceId,
    /// Byte span in that resource.
    pub span: ByteSpan,
}

/// How a source range contributed to a node.
#[derive(Clone, Copy, Debug, PartialEq, Eq, Structural)]
#[non_exhaustive]
pub enum SourceRole {
    /// The primary user visible expression source.
    Primary,
    /// Enclosing construct or macro invocation range, entries are emitted innermost first.
    EnclosingConstruct,
    /// Macro expansion whose expansion produced this node.
    MacroExpansion,
    /// User source declaration that requested a resource, such as `\input` or `\usepackage`.
    ResourceRequest,
    /// Package file that defined a macro or environment used here.
    Package,
    /// TeX font definition source such as `.fd`.
    FontDefinition,
    /// Generic resource file referenced during typesetting.
    Resource,
}

/// A single mapping from a layout node to a source range.
#[derive(Clone, Copy, Debug, PartialEq, Eq, Structural)]
pub struct SourceMapEntry {
    /// The node this entry maps.
    pub node: NodeId,
    /// Source range within a registered source file.
    pub range: SourceRange,
    /// How this source range relates to the node.
    pub role: SourceRole,
}

/// Maps layout nodes to regions in source input files.
#[derive(Clone, Debug, Default, PartialEq, Eq)]
pub struct SourceMap {
    /// Registered source files.
    pub sources: Vec<SourceFile>,
    /// Node to source relationships. A node may have multiple entries.
    pub entries: Vec<SourceMapEntry>,
}

/// Matches source files with the given identifier.
pub open spec fn source_has_id(id: SourceId) -> spec_fn(SourceFile) -> bool {
    |f: SourceFile| f.id == id
}

/// Matches source files with the given name.
pub open spec fn source_has_name(name: Seq<char>) -> spec_fn(SourceFile) -> bool {
    |f: SourceFile| f.name@ == name
}

/// Matches source map entries of the given node.
pub open spec fn entry_of_node(node: NodeId) -> spec_fn(SourceMapEntry) -> bool {
    |e: SourceMapEntry| e.node == node
}

/// Matches primary source map entries of the given node.
pub open spec fn primary_entry_of_node(node: NodeId) -> spec_fn(SourceMapEntry) -> bool {
    |e: SourceMapEntry| e.node == node && e.role == SourceRole::Primary
}

/// Matches layout nodes with the given identifier.
pub open spec fn node_has_id(id: NodeId) -> spec_fn(LayoutNode) -> bool {
    |n: LayoutNode| n.id == id
}

impl SourceMap {
    /// The first registered source file with the given identifier.
    pub open spec fn spec_source(self, id: SourceId) -> Option<SourceFile> {
        find_first(self.sources@, source_has_id(id))
    }

    /// The primary range of the first primary entry for the node.
    pub open spec fn spec_primary_range(self, node: NodeId) -> Option<SourceRange> {
        match find_first(self.entries@, primary_entry_of_node(node)) {
            Some(e) => Some(e.range),
            None => None,
        }
    }

    /// Every source file carries its own position as identifier.
    pub open spec fn ids_are_positions(self) -> bool {
        forall|i: int| 0 <= i < self.sources@.len() ==> (#[trigger] self.sources@[i]).id == SourceId(
            i as u32,
        )
    }

    /// Registers a new source file by name and returns its identifier.
    pub fn add_source(&mut self, name: &str) -> (id: SourceId)
        ensures
            id == SourceId(old(self).sources@.len() as u32),
            final(self).sources@ == old(self).sources@.push(SourceFile { id, name: final(self).sources@.last().name }),
            final(self).sources@.last().name@ == name@,
            final(self).entries@ == old(self).entries@,
    {
        let id = SourceId(self.sources.len() as u32);
        self.sources.push(SourceFile { id, name: name.to_owned() });
        id
    }

    /// Returns the existing source identifier for a name, or registers a new one.
    pub fn intern_source(&mut self, name: &str) -> (id: SourceId)
        ensures
            find_first(old(self).sources@, source_has_name(name@)) matches Some(f) ==> id == f.id
                && final(self).sources@ == old(self).sources@,
            find_first(old(self).sources@, source_has_name(name@)) is None ==> id == SourceId(
                old(self).sources@.len() as u32,
            ) && final(self).sources@.len() == old(self).sources@.len() + 1
                && final(self).sources@.drop_last() == old(self).sources@
                && final(self).sources@.last().id == id
                && final(self).sources@.last().name@ == name@,
            final(self).entries@ == old(self).entries@,
    {
        let ghost p = source_has_name(name@);
        let mut i: usize = 0;
        while i < self.sources.len()
            invariant
                0 <= i <= self.sources@.len(),
                forall|j: int| 0 <= j < i ==> !p(#[trigger] self.sources@[j]),
                p == source_has_name(name@),
            decreases self.sources@.len() - i,
        {
            if crate::text::str_eq(self.sources[i].name.as_str(), name) {
                proof {
                    lemma_first_index_is(self.sources@, p, i as int);
                }
                return self.sources[i].id;
            }
            i += 1;
        }
        proof {
            lemma_first_index_is(self.sources@, p, i as int);
        }
        let ghost before = self.sources@;
        let id = self.add_source(name);
        assert(self.sources@.drop_last() =~= before);
        id
    }

    /// Appends a source map entry linking a node to a source range.
    pub fn add_entry(&mut self, node: NodeId, range: SourceRange, role: SourceRole)
        ensures
            final(self).entries@ == old(self).entries@.push(SourceMapEntry { node, range, role }),
            final(self).sources@ == old(self).sources@,
    {
        self.entries.push(SourceMapEntry { node, range, role });
    }

    /// Returns the source file for the given identifier.
    pub fn source(&self, id: SourceId) -> (r: Option<&SourceFile>)
        ensures
            r is Some <==> self.spec_source(id) is Some,
            r matches Some(f) ==> self.spec_source(id) == Some(*f),
    {
        let ghost p = source_has_id(id);
        let mut i: usize = 0;
        while i < self.sources.len()
            invariant
                0 <= i <= self.sources@.len(),
                forall|j: int| 0 <= j < i ==> !p(#[trigger] self.sources@[j]),
                p == source_has_id(id),
            decreases self.sources@.len() - i,
        {
            if self.sources[i].id == id {
                proof {
                    lemma_first_index_is(self.sources@, p, i as int);
                }
                return Some(&self.sources[i]);
            }
            i += 1;
        }
        proof {
            lemma_first_index_is(self.sources@, p, i as int);
        }
        None
    }

    /// Returns all entries for the given node, in insertion order.
    pub fn entries_for_node(&self, node: NodeId) -> (r: Vec<SourceMapEntry>)
        ensures
            r@ == self.entries@.filter(entry_of_node(node)),
    {
        let ghost p = entry_of_node(node);
        let mut out: Vec<SourceMapEntry> = Vec::new();
        let mut i: usize = 0;
        while i < self.entries.len()
            invariant
                0 <= i <= self.entries@.len(),
                out@ == self.entries@.take(i as int).filter(p),
                p == entry_of_node(node),
            decreases self.entries@.len() - i,
        {
            let entry = self.entries[i];
            proof {
                reveal_with_fuel(Seq::<_>::filter, 1);
                assert(self.entries@.take(i + 1).drop_last() =~= self.entries@.take(i as int));
            }
            if entry.node == node {
                out.push(entry);
            }
            i += 1;
        }
        assert(self.entries@.take(self.entries@.len() as int) =~= self.entries@);
        out
    }

    /// Returns the primary source range for the given node, if present.
    pub fn primary_range_for_node(&self, node: NodeId) -> (r: Option<SourceRange>)
        ensures
            r == self.spec_primary_range(node),
    {
        let ghost p = primary_entry_of_node(node);
        let mut i: usize = 0;
        while i < self.entries.len()
            invariant
                0 <= i <= self.entries@.len(),
                forall|j: int| 0 <= j < i ==> !p(#[trigger] self.entries@[j]),
                p == primary_entry_of_node(node),
            decreases self.entries@.len() - i,
        {
            let entry = self.entries[i];
            if entry.node == node && entry.role == SourceRole::Primary {
                proof {
                    lemma_first_index_is(self.entries@, p, i as int);
                }
                return Some(entry.range);
            }
            i += 1;
        }
        proof {
            lemma_first_index_is(self.entries@, p, i as int);
        }
        None
    }
}

/// A resolved source map relationship with source metadata.
#[derive(Clone, Copy, Debug, PartialEq, Eq)]
pub struct SourceOrigin<'a> {
    /// The layout node this origin relates to.
    pub node: NodeId,
    /// The source file containing the originating text.
    pub source: &'a SourceFile,
    /// Byte span within that source file.
    pub span: ByteSpan,
    /// How this source range contributed to the node.
    pub role: SourceRole,
}

/// The plain values a source origin carries.
pub open spec fn origin_values(o: SourceOrigin) -> (NodeId, SourceFile, ByteSpan, SourceRole) {
    (o.node, *o.source, o.span, o.role)
}

/// A complete renderer neutral layout result for one TeX/LaTeX fragment.
#[derive(Clone, Debug, Default, PartialEq)]
pub struct Fragment {
    /// Fragment coordinate surface dimensions.
    pub surface: Surface,
    /// All layout nodes in this fragment.
    pub nodes: Vec<LayoutNode>,
    /// Source map relating nodes back to input positions.
    pub source_map: SourceMap,
    /// Metadata about the engine and format that produced this fragment.
    pub metadata: FragmentMetadata,
}

impl Fragment {
    /// The first node with the given identifier.
    pub open spec fn spec_node(self, id: NodeId) -> Option<LayoutNode> {
        find_first(self.nodes@, node_has_id(id))
    }

    /// The origin a source map entry resolves to, when its source file is registered.
    pub open spec fn spec_origin(self, entry: SourceMapEntry) -> Option<
        (NodeId, SourceFile, ByteSpan, SourceRole),
    > {
        match self.source_map.spec_source(entry.range.source) {
            Some(f) => Some((entry.node, f, entry.range.span, entry.role)),
            None => None,
        }
    }

    /// The resolved origins of a sequence of entries, dropping unregistered sources.
    pub open spec fn spec_origins(self, entries: Seq<SourceMapEntry>) -> Seq<
        (NodeId, SourceFile, ByteSpan, SourceRole),
    >
        decreases entries.len(),
    {
        if entries.len() == 0 {
            Seq::empty()
        } else {
            let rest = self.spec_origins(entries.drop_last());
            match self.spec_origin(entries.last()) {
                Some(o) => rest.push(o),
                None => rest,
            }
        }
    }

    /// The source range of one glyph's cluster, in the source of the node's primary range.
    pub open spec fn spec_glyph_source_range(self, id: NodeId, glyph_index: int) -> Option<
        SourceRange,
    > {
        match self.spec_node(id) {
            Some(node) => match node.kind {
                LayoutNodeKind::GlyphRun(run) => if 0 <= glyph_index < run.glyphs@.len() {
                    match run.glyphs@[glyph_index].cluster {
                        Some(span) => {
                            let primary = match node.primary_source {
                                Some(r) => Some(r),
                                None => self.source_map.spec_primary_range(node.id),
                            };
                            match primary {
                                Some(r) => Some(SourceRange { source: r.source, span }),
                                None => None,
                            }
                        },
                        None => None,
                    }
                } else {
                    None
                },
                _ => None,
            },
            None => None,
        }
    }

    /// Returns the layout node with the given identifier, if present.
    pub fn node(&self, node: NodeId) -> (r: Option<&LayoutNode>)
        ensures
            r is Some <==> self.spec_node(node) is Some,
            r matches Some(n) ==> self.spec_node(node) == Some(*n),
    {
        let ghost p = node_has_id(node);
        let mut i: usize = 0;
        while i < self.nodes.len()
            invariant
                0 <= i <= self.nodes@.len(),
                forall|j: int| 0 <= j < i ==> !p(#[trigger] self.nodes@[j]),
                p == node_has_id(node),
            decreases self.nodes@.len() - i,
        {
            if self.nodes[i].id == node {
                proof {
                    lemma_first_index_is(self.nodes@, p, i as int);
                }
                return Some(&self.nodes[i]);
            }
            i += 1;
        }
        proof {
            lemma_first_index_is(self.nodes@, p, i as int);
        }
        None
    }

    /// Returns all source map entries for the given node, in insertion order.
    pub fn source_entries_for_node(&self, node: NodeId) -> (r: Vec<SourceMapEntry>)
        ensures
            r@ == self.source_map.entries@.filter(entry_of_node(node)),
    {
        self.source_map.entries_for_node(node)
    }

    /// Resolves a source map entry to its origin metadata.
    pub fn source_origin_for_entry(&self, entry: &SourceMapEntry) -> (r: Option<SourceOrigin<'_>>)
        ensures
            r is Some <==> self.spec_origin(*entry) is Some,
            r matches Some(o) ==> self.spec_origin(*entry) == Some(origin_values(o)),
    {
        let source = match self.source_map.source(entry.range.source) {
            Some(source) => source,
            None => return None,
        };
        Some(SourceOrigin { node: entry.node, source, span: entry.range.span, role: entry.role })
    }

    /// Returns the resolved source origins for the given node, in entry order.
    pub fn source_origins_for_node(&self, node: NodeId) -> (r: Vec<SourceOrigin<'_>>)
        ensures
            r@.map_values(|o: SourceOrigin| origin_values(o)) == self.spec_origins(
                self.source_map.entries@.filter(entry_of_node(node)),
            ),
    {
        let entries = self.source_entries_for_node(node);
        let mut out: Vec<SourceOrigin<'_>> = Vec::new();
        let mut i: usize = 0;
        while i < entries.len()
            invariant
                0 <= i <= entries@.len(),
                out@.map_values(|o: SourceOrigin| origin_values(o)) == self.spec_origins(
                    entries@.take(i as int),
                ),
            decreases entries@.len() - i,
        {
            let entry = entries[i];
            assert(entries@.take(i + 1).drop_last() =~= entries@.take(i as int));
            let ghost before = out@;
            match self.source_origin_for_entry(&entry) {
                Some(origin) => {
                    out.push(origin);
                    assert(out@.map_values(|o: SourceOrigin| origin_values(o)) =~= before.map_values(
                        |o: SourceOrigin| origin_values(o),
                    ).push(origin_values(origin)));
                },
                None => {},
            }
            i += 1;
        }
        assert(entries@.take(entries@.len() as int) =~= entries@);
        out
    }

    /// Returns the primary source range for the given node, if any.
    pub fn primary_source_for_node(&self, node: NodeId) -> (r: Option<SourceRange>)
        ensures
            r == self.source_map.spec_primary_range(node),
    {
        self.source_map.primary_range_for_node(node)
    }

    /// Resolves the glyph cluster byte span to a source range using the node's primary source.
    pub fn glyph_source_range(&self, node: NodeId, glyph_index: usize) -> (r: Option<SourceRange>)
        ensures
            r == self.spec_glyph_source_range(node, glyph_index as int),
    {
        let found = match self.node(node) {
            Some(found) => found,
            None => return None,
        };
        let run = match &found.kind {
            LayoutNodeKind::GlyphRun(run) => run,
            _ => return None,
        };
        if glyph_index >= run.glyphs.len() {
            return None;
        }
        let span = match run.glyphs[glyph_index].cluster {
            Some(span) => span,
            None => return None,
        };
        let primary = match found.primary_source {
            Some(range) => Some(range),
            None => self.primary_source_for_node(found.id),
        };
        match primary {
            Some(range) => Some(SourceRange { source: range.source, span }),
            None => None,
        }
    }

    /// Resolves a glyph's source cluster to a full source origin.
    pub fn glyph_source_origin(&self, node: NodeId, glyph_index: usize) -> (r: Option<
        SourceOrigin<'_>,
    >)
        ensures
            r is Some <==> (self.spec_glyph_source_range(node, glyph_index as int) matches Some(
                range,
            ) && self.source_map.spec_source(range.source) is Some),
            r matches Some(o) ==> self.spec_glyph_source_range(node, glyph_index as int) matches Some(
                range,
            ) && self.source_map.spec_source(range.source) == Some(*o.source) && o.node == node
                && o.span == range.span && o.role == SourceRole::Primary,
    {
        let range = match self.glyph_source_range(node, glyph_index) {
            Some(range) => range,
            None => return None,
        };
        let source = match self.source_map.source(range.source) {
            Some(source) => source,
            None => return None,
        };
        Some(SourceOrigin { node, source, span: range.span, role: SourceRole::Primary })
    }
}

} // verus!
