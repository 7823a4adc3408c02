//! Text handling shared by the command line and browser front ends: font file names from
//! XeTeX `\font` specs, TeX errors in a transcript, the native math document around an
//! expression, and source spans moved from the wrapped input back to the caller's text.
use vstd::prelude::*;
use vstd::std_specs::iter::IteratorSpec;

use crate::ir::{ByteSpan, Fragment, GlyphRun, LayoutNode, LayoutNodeKind, PositionedGlyph, SourceMapEntry, SourceRange};
use crate::seqs::{first_index, lemma_first_index_is};
use crate::texmf::{line_end_c, lemma_line_end_c, trim_end_chars, trim_start_chars};
use crate::text::{chars_of, string_of};

verus! {

/// The characters of `s` before the first one that `stop` holds of.
pub open spec fn before_first(s: Seq<char>, stop: spec_fn(char) -> bool) -> Seq<char> {
    s.take(first_index(s, stop))
}

/// The font file a XeTeX `\font` spec names: inside the brackets of `[file]`, otherwise up to
/// the first `:` or `/`; the spec is trimmed first.
pub open spec fn spec_font_file(spec: Seq<char>) -> Seq<char> {
    let t = trim_end_chars(trim_start_chars(spec));
    if t.len() > 0 && t[0] == '[' {
        before_first(t.drop_first(), |c: char| c == ']')
    } else {
        before_first(t, |c: char| c == ':' || c == '/')
    }
}

fn trimmed_bounds(t: &Vec<char>) -> (r: (usize, usize))
    ensures
        r.0 <= r.1 <= t@.len(),
        t@.subrange(r.0 as int, r.1 as int) == trim_end_chars(trim_start_chars(t@)),
{
    let mut a: usize = 0;
    assert(t@.subrange(0, t@.len() as int) =~= t@);
    while a < t.len() && is_space(t[a])
        invariant
            0 <= a <= t@.len(),
            trim_start_chars(t@) == trim_start_chars(t@.subrange(a as int, t@.len() as int)),
        decreases t@.len() - a,
    {
        assert(t@.subrange(a as int, t@.len() as int).drop_first() =~= t@.subrange(a + 1, t@.len() as int));
        a += 1;
    }
    let mut b: usize = t.len();
    assert(t@.subrange(0, t@.len() as int) =~= t@);
    while b > a && is_space(t[b - 1])
        invariant
            a <= b <= t@.len(),
            trim_end_chars(trim_start_chars(t@)) == trim_end_chars(t@.subrange(a as int, b as int)),
        decreases b,
    {
        assert(t@.subrange(a as int, b as int).drop_last() =~= t@.subrange(a as int, b - 1));
        b -= 1;
    }
    (a, b)
}

fn is_space(c: char) -> (r: bool)
    ensures
        r == crate::texmf::is_white(c),
{
    let u = c as u32;
    u == 0x20 || (0x09 <= u && u <= 0x0d) || u == 0x85 || u == 0xa0 || u == 0x1680 || (0x2000 <= u
        && u <= 0x200a) || u == 0x2028 || u == 0x2029 || u == 0x202f || u == 0x205f || u == 0x3000
}

fn is_stop(c: char, brackets: bool) -> (r: bool)
    ensures
        brackets ==> r == (c == ']'),
        !brackets ==> r == (c == ':' || c == '/'),
{
    if brackets {
        c == ']'
    } else {
        c == ':' || c == '/'
    }
}

/// Where the characters of `t[from..to]` stop before one that `stop` holds of.
fn stop_at(t: &Vec<char>, from: usize, to: usize, brackets: bool) -> (r: usize)
    requires
        from <= to <= t@.len(),
    ensures
        from <= r <= to,
        brackets ==> t@.subrange(from as int, r as int) == before_first(
            t@.subrange(from as int, to as int),
            |c: char| c == ']',
        ),
        !brackets ==> t@.subrange(from as int, r as int) == before_first(
            t@.subrange(from as int, to as int),
            |c: char| c == ':' || c == '/',
        ),
{
    let ghost s = t@.subrange(from as int, to as int);
    let ghost p = if brackets {
        |c: char| c == ']'
    } else {
        |c: char| c == ':' || c == '/'
    };
    let mut i = from;
    while i < to && !is_stop(t[i], brackets)
        invariant
            from <= i <= to <= t@.len(),
            s == t@.subrange(from as int, to as int),
            p == (if brackets {
                |c: char| c == ']'
            } else {
                |c: char| c == ':' || c == '/'
            }),
            forall|j: int| 0 <= j < i - from ==> !p(#[trigger] s[j]),
        decreases to - i,
    {
        assert(s[i - from] == t@[i as int]);
        i += 1;
    }
    if i < to {
        assert(s[i - from] == t@[i as int]);
    }
    proof {
        lemma_first_index_is(s, p, i - from);
    }
    assert(s.take(i - from) =~= t@.subrange(from as int, i as int));
    i
}

/// The font file a XeTeX `\font` spec names.
pub fn font_filename(spec: &str) -> (r: String)
    ensures
        r@ == spec_font_file(spec@),
{
    let t = chars_of(spec);
    let (a, b) = trimmed_bounds(&t);
    let ghost tt = t@.subrange(a as int, b as int);
    if b > a && t[a] == '[' {
        let e = stop_at(&t, a + 1, b, true);
        assert(tt.drop_first() =~= t@.subrange(a + 1, b as int));
        string_of(&t, a + 1, e)
    } else {
        let e = stop_at(&t, a, b, false);
        string_of(&t, a, e)
    }
}

/// The font file a XeTeX `\font` spec names, trimmed.
pub fn font_name(spec: &str) -> (r: String)
    ensures
        r@ == trim_end_chars(trim_start_chars(spec_font_file(spec@))),
{
    let file = font_filename(spec);
    let t = chars_of(file.as_str());
    let (a, b) = trimmed_bounds(&t);
    string_of(&t, a, b)
}

/// Line `from..` of a text, as `str::lines` yields it: up to the next line feed, without
/// the carriage return before it.
pub open spec fn line_at(t: Seq<char>, from: int) -> Seq<char> {
    let e = line_end_c(t, from);
    if e < t.len() && e > from && t[e - 1] == '\r' {
        t.subrange(from, e - 1)
    } else {
        t.subrange(from, e)
    }
}

/// A line that reports a TeX error: `! ` after its leading whitespace.
pub open spec fn is_error_line(line: Seq<char>) -> bool {
    let l = trim_start_chars(line);
    l.len() >= 2 && l[0] == '!' && l[1] == ' '
}

/// The first line from `from` on that reports a TeX error.
pub open spec fn first_error_line(t: Seq<char>, from: int) -> Option<Seq<char>>
    decreases t.len() + 1 - from,
{
    if from < 0 || from >= t.len() {
        None
    } else {
        let e = line_end_c(t, from);
        proof {
            lemma_line_end_c(t, from);
        }
        if is_error_line(line_at(t, from)) {
            Some(line_at(t, from))
        } else {
            first_error_line(t, e + 1)
        }
    }
}

fn line_end(t: &Vec<char>, from: usize) -> (r: usize)
    requires
        from <= t@.len(),
    ensures
        r == line_end_c(t@, from as int),
        from <= r <= t@.len(),
{
    let mut i = from;
    while i < t.len() && t[i] != '\n'
        invariant
            from <= i <= t@.len(),
            line_end_c(t@, i as int) == line_end_c(t@, from as int),
        decreases t@.len() - i,
    {
        i += 1;
    }
    i
}

/// The first transcript line that reports a TeX error (`! ...`), if any.
pub fn tex_error(transcript: &str) -> (r: Option<String>)
    ensures
        r matches Some(l) ==> first_error_line(transcript@, 0) == Some(l@),
        r is None ==> first_error_line(transcript@, 0) is None,
{
    let t = chars_of(transcript);
    let mut from: usize = 0;
    while from < t.len()
        invariant
            t@ == transcript@,
            from <= t@.len(),
            first_error_line(t@, 0) == first_error_line(t@, from as int),
        decreases t@.len() - from,
    {
        let e = line_end(&t, from);
        let stop = if e < t.len() && e > from && t[e - 1] == '\r' {
            e - 1
        } else {
            e
        };
        let ghost line = t@.subrange(from as int, stop as int);
        assert(line == line_at(t@, from as int));
        let mut a = from;
        while a < stop && is_space(t[a])
            invariant
                from <= a <= stop <= t@.len(),
                trim_start_chars(line) == trim_start_chars(t@.subrange(a as int, stop as int)),
                line == t@.subrange(from as int, stop as int),
            decreases stop - a,
        {
            assert(t@.subrange(a as int, stop as int).drop_first() =~= t@.subrange(a + 1, stop as int));
            a += 1;
        }
        if stop - a >= 2 && t[a] == '!' && t[a + 1] == ' ' {
            assert(trim_start_chars(t@.subrange(a as int, stop as int)) == t@.subrange(a as int, stop as int));
            return Some(string_of(&t, from, stop));
        }
        proof {
            let rest = t@.subrange(a as int, stop as int);
            if a < stop {
                assert(rest[0] == t@[a as int]);
            }
            assert(trim_start_chars(rest) == rest);
            assert(!is_error_line(line_at(t@, from as int)));
            assert(first_error_line(t@, from as int) == first_error_line(t@, e + 1));
        }
        if e >= t.len() {
            from = t.len();
        } else {
            from = e + 1;
        }
    }
    None
}

/// The plain TeX document that typesets an expression in the native math font.
pub open spec fn native_document(body: Seq<char>) -> Seq<char> {
    "\\catcode`\\{=1 \\catcode`\\}=2 \\catcode`\\$=3 \\catcode`\\^=7 \\catcode`\\_=8 \\catcode`\\#=6 \\font\\mf=\"[latinmodern-math.otf]:script=math\" at 10pt \\textfont0=\\mf \\scriptfont0=\\mf \\scriptscriptfont0=\\mf \\textfont1=\\mf \\scriptfont1=\\mf \\scriptscriptfont1=\\mf \\textfont2=\\mf \\scriptfont2=\\mf \\scriptscriptfont2=\\mf \\textfont3=\\mf \\scriptfont3=\\mf \\scriptscriptfont3=\\mf \\Udelcode`\\(=\"0 \"0028 \\Udelcode`\\)=\"0 \"0029 \\def\\frac#1#2{{#1\\over#2}} \\def\\sqrt{\\Uradical\"0 \"221A } \\hbox{$"@
        + body + "\\relax$}\\end"@
}

/// The plain TeX document that typesets an expression in the native math font.
pub fn native_math_document(body: &str) -> (r: String)
    ensures
        r@ == native_document(body@),
{
    String::from_str(
        "\\catcode`\\{=1 \\catcode`\\}=2 \\catcode`\\$=3 \\catcode`\\^=7 \\catcode`\\_=8 \\catcode`\\#=6 \\font\\mf=\"[latinmodern-math.otf]:script=math\" at 10pt \\textfont0=\\mf \\scriptfont0=\\mf \\scriptscriptfont0=\\mf \\textfont1=\\mf \\scriptfont1=\\mf \\scriptscriptfont1=\\mf \\textfont2=\\mf \\scriptfont2=\\mf \\scriptscriptfont2=\\mf \\textfont3=\\mf \\scriptfont3=\\mf \\scriptscriptfont3=\\mf \\Udelcode`\\(=\"0 \"0028 \\Udelcode`\\)=\"0 \"0029 \\def\\frac#1#2{{#1\\over#2}} \\def\\sqrt{\\Uradical\"0 \"221A } \\hbox{$",
    ).concat(body).concat("\\relax$}\\end")
}

/// A span of the wrapped input moved back into the caller's text, when it lies within the
/// caller's part `[prefix, hi]` of the wrapped input.
pub open spec fn rebased_span(span: ByteSpan, prefix: u32, hi: u32) -> Option<ByteSpan> {
    if span.start >= prefix && span.end <= hi && span.start <= span.end {
        Some(ByteSpan { start: (span.start - prefix) as u32, end: (span.end - prefix) as u32 })
    } else {
        None
    }
}

/// A node's primary source moved back, or dropped when it lies outside the caller's text.
pub open spec fn rebased_range(r: Option<SourceRange>, prefix: u32, hi: u32) -> Option<SourceRange> {
    match r {
        Some(range) => match rebased_span(range.span, prefix, hi) {
            Some(span) => Some(SourceRange { source: range.source, span }),
            None => None,
        },
        None => None,
    }
}

/// A glyph with its cluster moved back, or dropped when it lies outside the caller's text.
pub open spec fn rebased_glyph(g: PositionedGlyph, prefix: u32, hi: u32) -> PositionedGlyph {
    PositionedGlyph {
        cluster: match g.cluster {
            Some(span) => rebased_span(span, prefix, hi),
            None => None,
        },
        ..g
    }
}

/// A node with its source spans moved back into the caller's text.
pub open spec fn rebased_node(old: LayoutNode, new: LayoutNode, prefix: u32, hi: u32) -> bool {
    &&& new.id == old.id
    &&& new.origin == old.origin
    &&& new.bounds == old.bounds
    &&& new.style == old.style
    &&& new.primary_source == rebased_range(old.primary_source, prefix, hi)
    &&& match old.kind {
        LayoutNodeKind::GlyphRun(a) => new.kind matches LayoutNodeKind::GlyphRun(b) && b.font == a.font
            && b.direction == a.direction && b.script == a.script && b.language == a.language
            && b.glyphs@ == a.glyphs@.map_values(|g: PositionedGlyph| rebased_glyph(g, prefix, hi)),
        _ => new.kind == old.kind,
    }
}

/// The source map entries whose spans lie in the caller's text, moved back into it.
pub open spec fn rebased_entries(es: Seq<SourceMapEntry>, prefix: u32, hi: u32) -> Seq<SourceMapEntry>
    decreases es.len(),
{
    if es.len() == 0 {
        Seq::empty()
    } else {
        let rest = rebased_entries(es.drop_last(), prefix, hi);
        let e = es.last();
        match rebased_span(e.range.span, prefix, hi) {
            Some(span) => rest.push(SourceMapEntry { range: SourceRange { span, ..e.range }, ..e }),
            None => rest,
        }
    }
}

/// The end of the caller's text in the wrapped input.
pub open spec fn caller_end(prefix: u32, input_len: u32) -> u32 {
    if prefix + input_len > u32::MAX {
        u32::MAX
    } else {
        (prefix + input_len) as u32
    }
}

fn rebase_span(span: ByteSpan, prefix: u32, hi: u32) -> (r: Option<ByteSpan>)
    ensures
        r == rebased_span(span, prefix, hi),
{
    if span.start >= prefix && span.end <= hi && span.start <= span.end {
        Some(ByteSpan { start: span.start - prefix, end: span.end - prefix })
    } else {
        None
    }
}

fn rebase_glyphs(glyphs: &Vec<PositionedGlyph>, prefix: u32, hi: u32) -> (r: Vec<PositionedGlyph>)
    ensures
        r@ == glyphs@.map_values(|g: PositionedGlyph| rebased_glyph(g, prefix, hi)),
{
    let ghost want = glyphs@.map_values(|g: PositionedGlyph| rebased_glyph(g, prefix, hi));
    let mut out: Vec<PositionedGlyph> = Vec::new();
    let mut i: usize = 0;
    while i < glyphs.len()
        invariant
            want == glyphs@.map_values(|g: PositionedGlyph| rebased_glyph(g, prefix, hi)),
            0 <= i <= glyphs@.len(),
            out@ == want.take(i as int),
        decreases glyphs@.len() - i,
    {
        let g = glyphs[i];
        let cluster = match g.cluster {
            Some(span) => rebase_span(span, prefix, hi),
            None => None,
        };
        out.push(PositionedGlyph { cluster, ..g });
        assert(out@ =~= want.take(i + 1));
        i += 1;
    }
    assert(want.take(glyphs@.len() as int) =~= want);
    out
}

/// Moves the source spans of a fragment laid out from wrapped input back into the caller's
/// text, which starts `prefix` bytes into the wrapped input and is `input_len` bytes long:
/// node and glyph spans outside it are dropped, and so are source map entries.
pub fn rebase_source_spans_to_input(fragment: &mut Fragment, prefix: u32, input_len: u32)
    ensures
        final(fragment).surface == old(fragment).surface,
        final(fragment).metadata == old(fragment).metadata,
        final(fragment).source_map.sources == old(fragment).source_map.sources,
        final(fragment).nodes@.len() == old(fragment).nodes@.len(),
        forall|i: int|
            0 <= i < old(fragment).nodes@.len() ==> rebased_node(
                old(fragment).nodes@[i],
                #[trigger] final(fragment).nodes@[i],
                prefix,
                caller_end(prefix, input_len),
            ),
        final(fragment).source_map.entries@ == rebased_entries(
            old(fragment).source_map.entries@,
            prefix,
            caller_end(prefix, input_len),
        ),
{
    let hi = prefix.saturating_add(input_len);
    let mut old_nodes: Vec<LayoutNode> = Vec::new();
    std::mem::swap(&mut old_nodes, &mut fragment.nodes);
    let ghost before = old_nodes@;
    let mut nodes: Vec<LayoutNode> = Vec::new();
    for node in it: old_nodes.into_iter()
        invariant
            it.seq() == before,
            nodes@.len() == it.index(),
            forall|j: int| 0 <= j < it.index() ==> rebased_node(before[j], #[trigger] nodes@[j], prefix, hi),
    {
        let ghost old_node = node;
        let LayoutNode { id, origin, bounds, primary_source, style, kind } = node;
        let primary_source = match primary_source {
            Some(range) => match rebase_span(range.span, prefix, hi) {
                Some(span) => Some(SourceRange { source: range.source, span }),
                None => None,
            },
            None => None,
        };
        let kind = match kind {
            LayoutNodeKind::GlyphRun(run) => {
                let GlyphRun { font, direction, script, language, glyphs } = run;
                let glyphs = rebase_glyphs(&glyphs, prefix, hi);
                LayoutNodeKind::GlyphRun(GlyphRun { font, direction, script, language, glyphs })
            },
            other => other,
        };
        let new_node = LayoutNode { id, origin, bounds, primary_source, style, kind };
        assert(rebased_node(old_node, new_node, prefix, hi));
        nodes.push(new_node);
    }
    fragment.nodes = nodes;
    let mut old_entries: Vec<SourceMapEntry> = Vec::new();
    std::mem::swap(&mut old_entries, &mut fragment.source_map.entries);
    let ghost es = old_entries@;
    let mut entries: Vec<SourceMapEntry> = Vec::new();
    let mut i: usize = 0;
    assert(es.take(0) =~= Seq::<SourceMapEntry>::empty());
    while i < old_entries.len()
        invariant
            es == old_entries@,
            0 <= i <= es.len(),
            entries@ == rebased_entries(es.take(i as int), prefix, hi),
        decreases es.len() - i,
    {
        let e = old_entries[i];
        assert(es.take(i + 1).drop_last() =~= es.take(i as int));
        match rebase_span(e.range.span, prefix, hi) {
            Some(span) => entries.push(SourceMapEntry { range: SourceRange { span, ..e.range }, ..e }),
            None => {},
        }
        i += 1;
    }
    assert(es.take(es.len() as int) =~= es);
    fragment.source_map.entries = entries;
}

/// A span moved back into the caller's text lies within it: it is ordered and ends by the
/// text's length.
pub proof fn lemma_rebased_span_in_input(span: ByteSpan, prefix: u32, input_len: u32)
    ensures
        rebased_span(span, prefix, caller_end(prefix, input_len)) matches Some(s) ==> s.start <= s.end
            <= input_len,
{
}

} // verus!
