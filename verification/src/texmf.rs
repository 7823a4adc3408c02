//! Lookup in a TeX Live tree through its `ls-R` filename index and the `texmf.cnf` search
//! order.
//!
//! The index maps each file name listed in `ls-R` to the directories that hold it, in
//! listing order. A request is tried under its normalized base name and, when that name has
//! no extension, under the extensions its kind implies; each name is searched in the
//! directory subtrees of its search format, highest priority first. Reading the files found
//! is left to the caller, which tries the planned paths in order.
use vstd::prelude::*;
use vstd::hash_map::StringHashMap;
use vstd::utf8::*;

use crate::generated::is_separator;
use crate::resource::{canonical_name_of, ErrorModel, RequestModel, ResourceError, ResourceKind, ResourceRequest};
use crate::seqs::{find_first, lemma_first_index_is};
use crate::text::{chars_of, string_of};

verus! {

/// Whether `char::is_whitespace` holds of `c`: Unicode `White_Space`.
pub open spec fn is_white(c: char) -> bool {
    let u = c as u32;
    ||| u == 0x20
    ||| 0x09 <= u <= 0x0d
    ||| u == 0x85 || u == 0xa0 || u == 0x1680
    ||| 0x2000 <= u <= 0x200a
    ||| u == 0x2028 || u == 0x2029 || u == 0x202f || u == 0x205f || u == 0x3000
}

/// `s` without its leading whitespace.
pub open spec fn trim_start_chars(s: Seq<char>) -> Seq<char>
    decreases s.len(),
{
    if s.len() > 0 && is_white(s[0]) {
        trim_start_chars(s.drop_first())
    } else {
        s
    }
}

/// `s` without its trailing whitespace.
pub open spec fn trim_end_chars(s: Seq<char>) -> Seq<char>
    decreases s.len(),
{
    if s.len() > 0 && is_white(s.last()) {
        trim_end_chars(s.drop_last())
    } else {
        s
    }
}

/// Index of the first line feed at or after `from`, or the end of `t`.
pub open spec fn line_end_c(t: Seq<char>, from: int) -> int
    decreases t.len() - from,
{
    if from < 0 || from >= t.len() {
        t.len() as int
    } else if t[from] == '\n' {
        from
    } else {
        line_end_c(t, from + 1)
    }
}

/// A line ends at or after where it starts, within the text.
pub proof fn lemma_line_end_c(t: Seq<char>, from: int)
    requires
        0 <= from <= t.len(),
    ensures
        from <= line_end_c(t, from) <= t.len(),
    decreases t.len() - from,
{
    if from < t.len() && t[from] != '\n' {
        lemma_line_end_c(t, from + 1);
    }
}

/// A directory name without one leading `./`.
pub open spec fn strip_dot_slash(d: Seq<char>) -> Seq<char> {
    if d.len() >= 2 && d[0] == '.' && d[1] == '/' {
        d.subrange(2, d.len() as int)
    } else {
        d
    }
}

/// The index and current directory while `ls-R` is read.
pub type ListingState = (Map<Seq<char>, Seq<Seq<char>>>, Seq<char>);

/// One `ls-R` line: blank lines and `%` comments are skipped, a line ending in `:` names the
/// directory of the lines after it, and any other line is a file name found in that
/// directory.
pub open spec fn listing_line(st: ListingState, raw: Seq<char>) -> ListingState {
    let line = trim_end_chars(raw);
    if line.len() == 0 || line[0] == '%' {
        st
    } else if line.last() == ':' {
        (st.0, strip_dot_slash(line.drop_last()))
    } else {
        let dirs = if st.0.contains_key(line) {
            st.0[line].push(st.1)
        } else {
            seq![st.1]
        };
        (st.0.insert(line, dirs), st.1)
    }
}

/// The state after the lines of `t` from `from` on.
pub open spec fn listing_from(t: Seq<char>, from: int, st: ListingState) -> ListingState
    decreases t.len() + 1 - from,
{
    if from < 0 || from > t.len() {
        st
    } else {
        let e = line_end_c(t, from);
        proof {
            lemma_line_end_c(t, from);
        }
        let next = listing_line(st, t.subrange(from, e));
        if e >= t.len() {
            next
        } else {
            listing_from(t, e + 1, next)
        }
    }
}

/// The filename index of an `ls-R` listing: each file name with the directories that list
/// it, in order.
pub open spec fn listing_index(t: Seq<char>) -> Map<Seq<char>, Seq<Seq<char>>> {
    listing_from(t, 0, (Map::empty(), Seq::empty())).0
}

/// The text `String::from_utf8_lossy` makes of `bytes`.
pub uninterp spec fn utf8_lossy(bytes: Seq<u8>) -> Seq<char>;

/// Decodes bytes with `String::from_utf8_lossy`, which replaces each invalid sequence with
/// U+FFFD and leaves valid UTF-8 as it is.
#[verifier::external_body]
fn lossy_text(bytes: &[u8]) -> (r: String)
    ensures
        r@ == utf8_lossy(bytes@),
        valid_utf8(bytes@) ==> r@ == decode_utf8(bytes@),
{
    String::from_utf8_lossy(bytes).into_owned()
}

fn white(c: char) -> (r: bool)
    ensures
        r == is_white(c),
{
    let u = c as u32;
    u == 0x20 || (0x09 <= u && u <= 0x0d) || u == 0x85 || u == 0xa0 || u == 0x1680 || (0x2000 <= u
        && u <= 0x200a) || u == 0x2028 || u == 0x2029 || u == 0x202f || u == 0x205f || u == 0x3000
}

/// Where `t[from..to]` ends once its trailing whitespace is trimmed.
fn trimmed_end_at(t: &Vec<char>, from: usize, to: usize) -> (r: usize)
    requires
        from <= to <= t@.len(),
    ensures
        from <= r <= to,
        trim_end_chars(t@.subrange(from as int, to as int)) == t@.subrange(from as int, r as int),
{
    let mut n = to;
    while n > from && white(t[n - 1])
        invariant
            from <= n <= to <= t@.len(),
            trim_end_chars(t@.subrange(from as int, to as int)) == trim_end_chars(
                t@.subrange(from as int, n as int),
            ),
        decreases n,
    {
        assert(t@.subrange(from as int, n as int).drop_last() =~= t@.subrange(from as int, n - 1));
        n -= 1;
    }
    n
}

/// Where `t[from..to]` starts once its leading whitespace is trimmed.
fn trimmed_start_at(t: &Vec<char>, from: usize, to: usize) -> (r: usize)
    requires
        from <= to <= t@.len(),
    ensures
        from <= r <= to,
        trim_start_chars(t@.subrange(from as int, to as int)) == t@.subrange(r as int, to as int),
{
    let mut a = from;
    while a < to && white(t[a])
        invariant
            from <= a <= to <= t@.len(),
            trim_start_chars(t@.subrange(from as int, to as int)) == trim_start_chars(
                t@.subrange(a as int, to as int),
            ),
        decreases to - a,
    {
        assert(t@.subrange(a as int, to as int).drop_first() =~= t@.subrange(a + 1, to as int));
        a += 1;
    }
    a
}

fn line_end_at(t: &Vec<char>, from: usize) -> (r: usize)
    requires
        from <= t@.len(),
    ensures
        r == line_end_c(t@, from as int),
        from <= r <= t@.len(),
{
    let mut i = from;
    while i < t.len() && t[i] != '\n'
        invariant
            from <= i <= t@.len(),
            line_end_c(t@, i as int) == line_end_c(t@, from as int),
        decreases t@.len() - i,
    {
        i += 1;
    }
    i
}

/// A `texmf.cnf` search format: which subtrees of the tree are searched, and in which order.
#[derive(Clone, Copy, Debug, PartialEq, Eq, Structural)]
pub enum SearchFormat {
    /// TeX inputs: `.tex`, `.sty`, `.cls`, `.def`, `.cfg`, `.fd`, `.ltx`, `.clo`.
    Tex,
    /// TeX font metrics: `.tfm`.
    Tfm,
    /// OpenType and TrueType font programs.
    OpenType,
    /// Font encoding files: `.enc`.
    Encoding,
    /// Font map files: `.map`.
    FontMap,
}

/// The directory prefixes of a search format, highest priority first; each matches its
/// whole subtree.
pub open spec fn search_prefixes(f: SearchFormat) -> Seq<Seq<char>> {
    match f {
        SearchFormat::Tex => seq!["tex/xelatex"@, "tex/latex"@, "tex/xetex"@, "tex/generic"@, "tex"@],
        SearchFormat::Tfm => seq!["fonts/tfm"@],
        SearchFormat::OpenType => seq!["fonts/opentype"@, "fonts/truetype"@],
        SearchFormat::Encoding => seq!["fonts/enc"@],
        SearchFormat::FontMap => seq!["fonts/map"@],
    }
}

/// The code of `c` with ASCII capitals made small, as `to_ascii_lowercase` does.
pub open spec fn lower_code(c: char) -> u32 {
    let u = c as u32;
    if 0x41 <= u <= 0x5a {
        (u + 32) as u32
    } else {
        u
    }
}

/// Whether `name` ends with `ext`, ignoring ASCII case in `name`.
pub open spec fn ends_with_ci(name: Seq<char>, ext: Seq<char>) -> bool {
    &&& name.len() >= ext.len()
    &&& forall|i: int|
        0 <= i < ext.len() ==> lower_code(#[trigger] name[name.len() - ext.len() + i]) == ext[i] as u32
}

/// The search format for a file name of a request kind: fonts by their extension, other
/// kinds in the TeX tree unless the extension names a font asset.
pub open spec fn search_format(kind: ResourceKind, name: Seq<char>) -> SearchFormat {
    match kind {
        ResourceKind::Encoding => SearchFormat::Encoding,
        ResourceKind::FontMap => SearchFormat::FontMap,
        ResourceKind::Font => if ends_with_ci(name, ".otf"@) || ends_with_ci(name, ".ttf"@)
            || ends_with_ci(name, ".otc"@) {
            SearchFormat::OpenType
        } else {
            SearchFormat::Tfm
        },
        _ => if ends_with_ci(name, ".enc"@) {
            SearchFormat::Encoding
        } else if ends_with_ci(name, ".map"@) {
            SearchFormat::FontMap
        } else if ends_with_ci(name, ".tfm"@) {
            SearchFormat::Tfm
        } else if ends_with_ci(name, ".otf"@) || ends_with_ci(name, ".ttf"@) {
            SearchFormat::OpenType
        } else {
            SearchFormat::Tex
        },
    }
}

/// `s` without its leading `./`, `[]` and `:` markers, however often they repeat.
pub open spec fn strip_markers(s: Seq<char>) -> Seq<char>
    decreases s.len(),
{
    if s.len() >= 2 && s[0] == '.' && s[1] == '/' {
        strip_markers(s.subrange(2, s.len() as int))
    } else if s.len() >= 2 && s[0] == '[' && s[1] == ']' {
        strip_markers(s.subrange(2, s.len() as int))
    } else if s.len() >= 1 && s[0] == ':' {
        strip_markers(s.subrange(1, s.len() as int))
    } else {
        s
    }
}

/// A bracket or quote that may wrap a requested name.
pub open spec fn is_wrapper(c: char) -> bool {
    c == '[' || c == ']' || c == '"' || c == '\''
}

/// `s` without leading brackets and quotes.
pub open spec fn trim_wrappers_start(s: Seq<char>) -> Seq<char>
    decreases s.len(),
{
    if s.len() > 0 && is_wrapper(s[0]) {
        trim_wrappers_start(s.drop_first())
    } else {
        s
    }
}

/// `s` without trailing brackets and quotes.
pub open spec fn trim_wrappers_end(s: Seq<char>) -> Seq<char>
    decreases s.len(),
{
    if s.len() > 0 && is_wrapper(s.last()) {
        trim_wrappers_end(s.drop_last())
    } else {
        s
    }
}

/// The part of `s` after its last `/` or `\`.
pub open spec fn last_segment(s: Seq<char>) -> Seq<char>
    decreases s.len(),
{
    if s.len() == 0 {
        s
    } else if is_separator(s.last()) {
        Seq::empty()
    } else {
        last_segment(s.drop_last()).push(s.last())
    }
}

/// The base name an engine request name is looked up under: trimmed of whitespace, of
/// leading `./`, `[]` and `:` markers, of wrapping brackets and quotes, and of its
/// directories.
pub open spec fn normalized_name(s: Seq<char>) -> Seq<char> {
    last_segment(
        trim_wrappers_end(trim_wrappers_start(strip_markers(trim_end_chars(trim_start_chars(s))))),
    )
}

/// Whether `Path::extension` finds an extension in a name of one path segment: a `.` after
/// its first character, the name `..` aside.
pub open spec fn has_path_extension(base: Seq<char>) -> bool {
    &&& !(base.len() == 2 && base[0] == '.' && base[1] == '.')
    &&& exists|i: int| 0 < i < base.len() && base[i] == '.'
}

/// The extensions tried for a base name without one, by request kind.
pub open spec fn kind_extensions(kind: ResourceKind) -> Seq<Seq<char>> {
    match kind {
        ResourceKind::Package => seq![".sty"@, ".tex"@, ".def"@, ".ltx"@],
        ResourceKind::Class => seq![".cls"@],
        ResourceKind::FontDefinition => seq![".fd"@],
        ResourceKind::PackageSupport => seq![".def"@, ".cfg"@, ".ldf"@, ".clo"@, ".sty"@, ".tex"@],
        ResourceKind::Config => seq![".cfg"@, ".cnf"@, ".tex"@],
        ResourceKind::Encoding => seq![".enc"@],
        ResourceKind::FontMap => seq![".map"@],
        ResourceKind::Font => seq![".tfm"@, ".otf"@, ".ttf"@],
        ResourceKind::TexInput => seq![".tex"@, ".ltx"@, ".def"@, ".sty"@, ".cfg"@, ".fd"@],
        _ => seq![".tex"@, ".sty"@, ".def"@, ".cfg"@, ".ltx"@, ".fd"@, ".cls"@, ".enc"@],
    }
}

/// The file names tried for a request: its normalized base name, then, when that has no
/// extension, the base name with each extension of the request kind.
pub open spec fn lookup_names(request: RequestModel) -> Seq<Seq<char>> {
    let base = normalized_name(canonical_name_of(request));
    if has_path_extension(base) {
        seq![base]
    } else {
        seq![base] + kind_extensions(request.kind).map_values(|e: Seq<char>| base + e)
    }
}

/// Whether `dir` is the directory `prefix` or lies in its subtree.
pub open spec fn under_prefix(dir: Seq<char>, prefix: Seq<char>) -> bool {
    ||| dir == prefix
    ||| dir.len() > prefix.len() && dir.subrange(0, prefix.len() as int) == prefix
        && dir[prefix.len() as int] == '/'
}

/// The first directory, by prefix priority and then listing order, that lies under one of
/// the prefixes.
pub open spec fn resolve_in(dirs: Seq<Seq<char>>, prefixes: Seq<Seq<char>>) -> Option<Seq<char>>
    decreases prefixes.len(),
{
    if prefixes.len() == 0 {
        None
    } else {
        let p = prefixes[0];
        match find_first(dirs, |d: Seq<char>| under_prefix(d, p)) {
            Some(d) => Some(d),
            None => resolve_in(dirs, prefixes.drop_first()),
        }
    }
}

/// The directory a file name resolves to for a request kind, if the index lists it under
/// its search format.
pub open spec fn resolve_name(
    index: Map<Seq<char>, Seq<Seq<char>>>,
    kind: ResourceKind,
    name: Seq<char>,
) -> Option<Seq<char>> {
    if index.contains_key(name) {
        resolve_in(index[name], search_prefixes(search_format(kind, name)))
    } else {
        None
    }
}

/// The directory and file name of each tried name that resolves, in trying order.
pub open spec fn plan_for(
    index: Map<Seq<char>, Seq<Seq<char>>>,
    kind: ResourceKind,
    names: Seq<Seq<char>>,
) -> Seq<(Seq<char>, Seq<char>)>
    decreases names.len(),
{
    if names.len() == 0 {
        Seq::empty()
    } else {
        let rest = plan_for(index, kind, names.drop_last());
        match resolve_name(index, kind, names.last()) {
            Some(d) => rest.push((d, names.last())),
            None => rest,
        }
    }
}

/// Every tried name that the index resolves is in the plan, with its directory.
pub proof fn lemma_plan_holds_each_resolved_name(
    index: Map<Seq<char>, Seq<Seq<char>>>,
    kind: ResourceKind,
    names: Seq<Seq<char>>,
    k: int,
)
    requires
        0 <= k < names.len(),
        resolve_name(index, kind, names[k]) is Some,
    ensures
        plan_for(index, kind, names).contains((resolve_name(index, kind, names[k])->0, names[k])),
    decreases names.len(),
{
    let rest = plan_for(index, kind, names.drop_last());
    if k == names.len() - 1 {
        let p = (resolve_name(index, kind, names[k])->0, names[k]);
        assert(plan_for(index, kind, names) == rest.push(p));
        assert(rest.push(p)[rest.len() as int] == p);
    } else {
        lemma_plan_holds_each_resolved_name(index, kind, names.drop_last(), k);
        assert(names.drop_last()[k] == names[k]);
        let p = (resolve_name(index, kind, names[k])->0, names[k]);
        let i = choose|i: int| 0 <= i < rest.len() && rest[i] == p;
        match resolve_name(index, kind, names.last()) {
            Some(d) => {
                assert(rest.push((d, names.last()))[i] == p);
            },
            None => {},
        }
    }
}

/// A package request whose name carries no extension is looked for under the bare name,
/// then as the `.sty` file that `\usepackage` loads, then with `.tex`, `.def` and `.ltx`;
/// so wherever the index resolves `name.sty`, the lookup plan holds that directory with
/// `name.sty`, and is not empty.
pub proof fn lemma_package_is_looked_for_as_sty(index: Map<Seq<char>, Seq<Seq<char>>>, request: RequestModel)
    requires
        request.kind == ResourceKind::Package,
        !has_path_extension(normalized_name(canonical_name_of(request))),
    ensures
        ({
            let base = normalized_name(canonical_name_of(request));
            &&& lookup_names(request) == seq![base, base + ".sty"@, base + ".tex"@, base + ".def"@, base + ".ltx"@]
            &&& resolve_name(index, ResourceKind::Package, base + ".sty"@) matches Some(d) ==> {
                &&& plan_for(index, ResourceKind::Package, lookup_names(request)).contains((d, base + ".sty"@))
                &&& plan_for(index, ResourceKind::Package, lookup_names(request)).len() > 0
            }
        }),
{
    let base = normalized_name(canonical_name_of(request));
    let names = lookup_names(request);
    assert(names =~= seq![base, base + ".sty"@, base + ".tex"@, base + ".def"@, base + ".ltx"@]);
    if resolve_name(index, ResourceKind::Package, base + ".sty"@) is Some {
        assert(names[1] == base + ".sty"@);
        lemma_plan_holds_each_resolved_name(index, ResourceKind::Package, names, 1);
    }
}

/// The plain contents of a planned path.
pub open spec fn plan_view(v: Vec<(String, String)>) -> Seq<(Seq<char>, Seq<char>)> {
    plan_view_of(v@)
}

/// The plain contents of planned paths.
pub open spec fn plan_view_of(v: Seq<(String, String)>) -> Seq<(Seq<char>, Seq<char>)> {
    v.map_values(|p: (String, String)| (p.0@, p.1@))
}

/// The error for a request whose planned paths all fail: not found, under its canonical
/// name.
pub open spec fn texmf_not_found(request: RequestModel) -> ErrorModel {
    ErrorModel::NotFound { name: canonical_name_of(request), kind: request.kind }
}

/// The directories of an index entry, as plain strings.
pub open spec fn dirs_view(v: Vec<String>) -> Seq<Seq<char>> {
    v@.map_values(|s: String| s@)
}

fn clone_strings(v: &Vec<String>) -> (r: Vec<String>)
    ensures
        dirs_view(r) == dirs_view(*v),
{
    let mut out: Vec<String> = Vec::new();
    let mut i: usize = 0;
    while i < v.len()
        invariant
            0 <= i <= v@.len(),
            out@.len() == i,
            forall|j: int| 0 <= j < i ==> out@[j]@ == v@[j]@,
        decreases v@.len() - i,
    {
        out.push(v[i].clone());
        i += 1;
    }
    assert(dirs_view(out) =~= dirs_view(*v));
    out
}

fn prefixes(f: SearchFormat) -> (r: Vec<&'static str>)
    ensures
        r@.map_values(|s: &'static str| s@) == search_prefixes(f),
{
    let r: Vec<&'static str> = match f {
        SearchFormat::Tex => vec!["tex/xelatex", "tex/latex", "tex/xetex", "tex/generic", "tex"],
        SearchFormat::Tfm => vec!["fonts/tfm"],
        SearchFormat::OpenType => vec!["fonts/opentype", "fonts/truetype"],
        SearchFormat::Encoding => vec!["fonts/enc"],
        SearchFormat::FontMap => vec!["fonts/map"],
    };
    assert(r@.map_values(|s: &'static str| s@) =~= search_prefixes(f));
    r
}

fn extensions_for(kind: ResourceKind) -> (r: Vec<&'static str>)
    ensures
        r@.map_values(|s: &'static str| s@) == kind_extensions(kind),
{
    let r: Vec<&'static str> = match kind {
        ResourceKind::Package => vec![".sty", ".tex", ".def", ".ltx"],
        ResourceKind::Class => vec![".cls"],
        ResourceKind::FontDefinition => vec![".fd"],
        ResourceKind::PackageSupport => vec![".def", ".cfg", ".ldf", ".clo", ".sty", ".tex"],
        ResourceKind::Config => vec![".cfg", ".cnf", ".tex"],
        ResourceKind::Encoding => vec![".enc"],
        ResourceKind::FontMap => vec![".map"],
        ResourceKind::Font => vec![".tfm", ".otf", ".ttf"],
        ResourceKind::TexInput => vec![".tex", ".ltx", ".def", ".sty", ".cfg", ".fd"],
        _ => vec![".tex", ".sty", ".def", ".cfg", ".ltx", ".fd", ".cls", ".enc"],
    };
    assert(r@.map_values(|s: &'static str| s@) =~= kind_extensions(kind));
    r
}

fn lower(c: char) -> (r: u32)
    ensures
        r == lower_code(c),
{
    let u = c as u32;
    if 0x41 <= u && u <= 0x5a {
        u + 32
    } else {
        u
    }
}

fn ends_with_ext(name: &Vec<char>, ext: &str) -> (r: bool)
    ensures
        r == ends_with_ci(name@, ext@),
{
    let e = chars_of(ext);
    if name.len() < e.len() {
        return false;
    }
    let n = name.len();
    let off = n - e.len();
    let mut i: usize = 0;
    while i < e.len()
        invariant
            n == name@.len(),
            e@ == ext@,
            e@.len() <= name@.len(),
            off == name@.len() - e@.len(),
            0 <= i <= e@.len(),
            forall|j: int| 0 <= j < i ==> lower_code(#[trigger] name@[name@.len() - e@.len() + j]) == e@[j] as u32,
        decreases e@.len() - i,
    {
        let k = off + i;
        let got = lower(name[k]);
        let want = e[i] as u32;
        if got != want {
            assert(lower_code(name@[name@.len() - e@.len() + i]) != e@[i as int] as u32);
            return false;
        }
        i += 1;
    }
    true
}

fn has_extension_at(base: &Vec<char>) -> (r: bool)
    ensures
        r == has_path_extension(base@),
{
    if base.len() == 2 && base[0] == '.' && base[1] == '.' {
        return false;
    }
    let mut i: usize = 1;
    while i < base.len()
        invariant
            1 <= i,
            i <= base@.len() || base@.len() == 0,
            !(base@.len() == 2 && base@[0] == '.' && base@[1] == '.'),
            forall|j: int| 0 < j < i && j < base@.len() ==> base@[j] != '.',
        decreases base@.len() - i,
    {
        if base[i] == '.' {
            assert(0 < i < base@.len() && base@[i as int] == '.');
            return true;
        }
        i += 1;
    }
    false
}

fn is_under(dir: &Vec<char>, prefix: &Vec<char>) -> (r: bool)
    ensures
        r == under_prefix(dir@, prefix@),
{
    if dir.len() < prefix.len() {
        return false;
    }
    let mut i: usize = 0;
    while i < prefix.len()
        invariant
            prefix@.len() <= dir@.len(),
            0 <= i <= prefix@.len(),
            forall|j: int| 0 <= j < i ==> dir@[j] == prefix@[j],
        decreases prefix@.len() - i,
    {
        if dir[i] != prefix[i] {
            assert(dir@.subrange(0, prefix@.len() as int)[i as int] != prefix@[i as int]);
            return false;
        }
        i += 1;
    }
    assert(dir@.subrange(0, prefix@.len() as int) =~= prefix@);
    if dir.len() == prefix.len() {
        assert(dir@ =~= prefix@);
        true
    } else {
        dir[prefix.len()] == '/'
    }
}

/// The part after the last separator of `s` starts where no separator follows.
proof fn lemma_last_segment(s: Seq<char>, k: int)
    requires
        0 <= k <= s.len(),
        forall|j: int| k <= j < s.len() ==> !is_separator(#[trigger] s[j]),
        k == 0 || is_separator(s[k - 1]),
    ensures
        last_segment(s) == s.subrange(k, s.len() as int),
    decreases s.len(),
{
    if s.len() > 0 {
        if k == s.len() {
            assert(s.subrange(k, s.len() as int) =~= Seq::<char>::empty());
        } else {
            lemma_last_segment(s.drop_last(), k);
            assert(s.drop_last().subrange(k, s.len() - 1).push(s.last()) =~= s.subrange(
                k,
                s.len() as int,
            ));
        }
    }
}

/// Where `t[from..to]` starts once its leading markers are stripped.
fn markers_end(t: &Vec<char>, from: usize, to: usize) -> (r: usize)
    requires
        from <= to <= t@.len(),
    ensures
        from <= r <= to,
        strip_markers(t@.subrange(from as int, to as int)) == t@.subrange(r as int, to as int),
{
    let mut a = from;
    while (to - a >= 2 && t[a] == '.' && t[a + 1] == '/') || (to - a >= 2 && t[a] == '[' && t[a + 1]
        == ']') || (to - a >= 1 && t[a] == ':')
        invariant
            from <= a <= to <= t@.len(),
            strip_markers(t@.subrange(from as int, to as int)) == strip_markers(
                t@.subrange(a as int, to as int),
            ),
        decreases to - a,
    {
        let ghost cur = t@.subrange(a as int, to as int);
        if to - a >= 2 && ((t[a] == '.' && t[a + 1] == '/') || (t[a] == '[' && t[a + 1] == ']')) {
            assert(cur.subrange(2, cur.len() as int) =~= t@.subrange(a + 2, to as int));
            a += 2;
        } else {
            assert(cur.subrange(1, cur.len() as int) =~= t@.subrange(a + 1, to as int));
            a += 1;
        }
    }
    a
}

fn wrapper(c: char) -> (r: bool)
    ensures
        r == is_wrapper(c),
{
    c == '[' || c == ']' || c == '"' || c == '\''
}

/// Where `t[from..to]` starts once its leading brackets and quotes are trimmed.
fn wrappers_start(t: &Vec<char>, from: usize, to: usize) -> (r: usize)
    requires
        from <= to <= t@.len(),
    ensures
        from <= r <= to,
        trim_wrappers_start(t@.subrange(from as int, to as int)) == t@.subrange(r as int, to as int),
{
    let mut a = from;
    while a < to && wrapper(t[a])
        invariant
            from <= a <= to <= t@.len(),
            trim_wrappers_start(t@.subrange(from as int, to as int)) == trim_wrappers_start(
                t@.subrange(a as int, to as int),
            ),
        decreases to - a,
    {
        assert(t@.subrange(a as int, to as int).drop_first() =~= t@.subrange(a + 1, to as int));
        a += 1;
    }
    a
}

/// Where `t[from..to]` ends once its trailing brackets and quotes are trimmed.
fn wrappers_end(t: &Vec<char>, from: usize, to: usize) -> (r: usize)
    requires
        from <= to <= t@.len(),
    ensures
        from <= r <= to,
        trim_wrappers_end(t@.subrange(from as int, to as int)) == t@.subrange(from as int, r as int),
{
    let mut b = to;
    while b > from && wrapper(t[b - 1])
        invariant
            from <= b <= to <= t@.len(),
            trim_wrappers_end(t@.subrange(from as int, to as int)) == trim_wrappers_end(
                t@.subrange(from as int, b as int),
            ),
        decreases b,
    {
        assert(t@.subrange(from as int, b as int).drop_last() =~= t@.subrange(from as int, b - 1));
        b -= 1;
    }
    b
}

/// Where the last path segment of `t[from..to]` starts.
fn segment_start(t: &Vec<char>, from: usize, to: usize) -> (r: usize)
    requires
        from <= to <= t@.len(),
    ensures
        from <= r <= to,
        last_segment(t@.subrange(from as int, to as int)) == t@.subrange(r as int, to as int),
{
    let mut k = to;
    while k > from && t[k - 1] != '/' && t[k - 1] != '\\'
        invariant
            from <= k <= to <= t@.len(),
            forall|j: int| k <= j < to ==> !is_separator(#[trigger] t@[j]),
        decreases k,
    {
        k -= 1;
    }
    proof {
        let u = t@.subrange(from as int, to as int);
        assert forall|j: int| k - from <= j < u.len() implies !is_separator(#[trigger] u[j]) by {
            assert(u[j] == t@[from + j]);
        }
        if k > from {
            assert(u[k - from - 1] == t@[k - 1]);
        }
        lemma_last_segment(u, k - from);
        assert(u.subrange(k - from, u.len() as int) =~= t@.subrange(k as int, to as int));
    }
    k
}

/// A TeX Live tree: its root and the filename index of its `ls-R` listing.
pub struct TexmfResources {
    root: String,
    index: StringHashMap<Vec<String>>,
}

impl TexmfResources {
    /// The root of the tree.
    pub closed spec fn spec_root(&self) -> Seq<char> {
        self.root@
    }

    /// Each indexed file name with the directories that hold it, in listing order.
    pub closed spec fn index_view(&self) -> Map<Seq<char>, Seq<Seq<char>>> {
        self.index@.map_values(|v: Vec<String>| dirs_view(v))
    }

    /// Builds the tree from its root and the bytes of its `ls-R` file, read as UTF-8 with
    /// invalid sequences replaced; `None` when the listing names no file.
    pub fn from_ls_r(root: &str, ls_r: &[u8]) -> (r: Option<Self>)
        ensures
            r is Some <==> !listing_index(utf8_lossy(ls_r@)).is_empty(),
            r matches Some(t) ==> t.spec_root() == root@ && t.index_view() == listing_index(
                utf8_lossy(ls_r@),
            ),
    {
        let text = lossy_text(ls_r);
        let t = chars_of(text.as_str());
        let ghost tv = t@;
        let ghost start: ListingState = (Map::empty(), Seq::empty());
        let mut index: StringHashMap<Vec<String>> = StringHashMap::new();
        let mut cur_dir = String::new();
        let mut from: usize = 0;
        assert(index@.map_values(|v: Vec<String>| dirs_view(v)) =~= start.0);
        while from < t.len()
            invariant
                t@ == tv,
                tv == utf8_lossy(ls_r@),
                from <= tv.len(),
                listing_from(tv, 0, start) == listing_from(
                    tv,
                    from as int,
                    (index@.map_values(|v: Vec<String>| dirs_view(v)), cur_dir@),
                ),
            decreases tv.len() - from,
        {
            let ghost st: ListingState = (index@.map_values(|v: Vec<String>| dirs_view(v)), cur_dir@);
            let e = line_end_at(&t, from);
            let n = trimmed_end_at(&t, from, e);
            let ghost line = t@.subrange(from as int, n as int);
            if n > from && t[from] != '%' {
                if t[n - 1] == ':' {
                    let start_dir = if n - 1 - from >= 2 && t[from] == '.' && t[from + 1] == '/' {
                        from + 2
                    } else {
                        from
                    };
                    cur_dir = string_of(&t, start_dir, n - 1);
                    proof {
                        assert(line.drop_last() =~= t@.subrange(from as int, n - 1));
                        assert(strip_dot_slash(line.drop_last()) =~= t@.subrange(
                            start_dir as int,
                            n - 1,
                        ));
                    }
                } else {
                    let key = string_of(&t, from, n);
                    let mut dirs: Vec<String> = match index.get(key.as_str()) {
                        Some(v) => clone_strings(v),
                        None => Vec::new(),
                    };
                    let ghost old_dirs = dirs_view(dirs);
                    dirs.push(cur_dir.clone());
                    proof {
                        assert(dirs_view(dirs) =~= old_dirs.push(cur_dir@));
                        if !st.0.contains_key(line) {
                            assert(old_dirs =~= Seq::<Seq<char>>::empty());
                        }
                    }
                    let ghost before = index@;
                    index.insert(key, dirs);
                    proof {
                        let nv = listing_line(st, t@.subrange(from as int, e as int));
                        assert(index@.map_values(|v: Vec<String>| dirs_view(v)) =~= nv.0);
                    }
                }
            }
            if e >= t.len() {
                from = e;
            } else {
                from = e + 1;
            }
        }
        assert(tv.subrange(tv.len() as int, tv.len() as int) =~= Seq::<char>::empty());
        if index.is_empty() {
            proof {
                assert(index@.map_values(|v: Vec<String>| dirs_view(v)).dom() =~= index@.dom());
            }
            None
        } else {
            proof {
                assert(index@.map_values(|v: Vec<String>| dirs_view(v)).dom() =~= index@.dom());
            }
            Some(TexmfResources { root: root.to_owned(), index })
        }
    }

    /// The base name an engine request name is looked up under.
    pub fn normalize(name: &str) -> (r: String)
        ensures
            r@ == normalized_name(name@),
    {
        let t = chars_of(name);
        let len = t.len();
        let a0 = trimmed_start_at(&t, 0, len);
        let b0 = trimmed_end_at(&t, a0, len);
        assert(t@.subrange(0, len as int) =~= t@);
        let a1 = markers_end(&t, a0, b0);
        let a2 = wrappers_start(&t, a1, b0);
        let b2 = wrappers_end(&t, a2, b0);
        let k = segment_start(&t, a2, b2);
        string_of(&t, k, b2)
    }

    /// The search format for a file name looked up for a request kind.
    pub fn format_for(kind: ResourceKind, filename: &str) -> (r: SearchFormat)
        ensures
            r == search_format(kind, filename@),
    {
        let name = chars_of(filename);
        match kind {
            ResourceKind::Encoding => SearchFormat::Encoding,
            ResourceKind::FontMap => SearchFormat::FontMap,
            ResourceKind::Font => {
                if ends_with_ext(&name, ".otf") || ends_with_ext(&name, ".ttf") || ends_with_ext(
                    &name,
                    ".otc",
                ) {
                    SearchFormat::OpenType
                } else {
                    SearchFormat::Tfm
                }
            },
            _ => {
                if ends_with_ext(&name, ".enc") {
                    SearchFormat::Encoding
                } else if ends_with_ext(&name, ".map") {
                    SearchFormat::FontMap
                } else if ends_with_ext(&name, ".tfm") {
                    SearchFormat::Tfm
                } else if ends_with_ext(&name, ".otf") || ends_with_ext(&name, ".ttf") {
                    SearchFormat::OpenType
                } else {
                    SearchFormat::Tex
                }
            },
        }
    }

    /// The file names tried for a request, in order.
    pub fn candidates(request: &ResourceRequest) -> (r: Vec<String>)
        ensures
            r@.map_values(|s: String| s@) == lookup_names(request@),
    {
        let canonical = request.canonical_name();
        let base = Self::normalize(canonical.as_str());
        let base_chars = chars_of(base.as_str());
        let mut out: Vec<String> = Vec::new();
        out.push(base.clone());
        if has_extension_at(&base_chars) {
            assert(out@.map_values(|s: String| s@) =~= seq![base@]);
            return out;
        }
        let exts = extensions_for(request.kind);
        let ghost want = seq![base@] + kind_extensions(request.kind).map_values(|e: Seq<char>| base@ + e);
        let mut i: usize = 0;
        assert(out@.map_values(|s: String| s@) =~= want.take(1));
        while i < exts.len()
            invariant
                0 <= i <= exts@.len(),
                exts@.map_values(|s: &'static str| s@) == kind_extensions(request.kind),
                want == seq![base@] + kind_extensions(request.kind).map_values(|e: Seq<char>| base@ + e),
                out@.map_values(|s: String| s@) == want.take(i + 1),
            decreases exts@.len() - i,
        {
            let candidate = String::from_str(base.as_str()).concat(exts[i]);
            let ghost before = out@;
            out.push(candidate);
            proof {
                assert(exts@.map_values(|s: &'static str| s@)[i as int] == exts@[i as int]@);
                let m = out@.map_values(|s: String| s@);
                let w = want.take(i + 2);
                assert(before.map_values(|s: String| s@).len() == want.take(i + 1).len());
                assert forall|j: int| 0 <= j < i + 2 implies m[j] == w[j] by {
                    if j < i + 1 {
                        assert(out@[j] == before[j]);
                        assert(before.map_values(|s: String| s@)[j] == want.take(i + 1)[j]);
                    } else {
                        assert(out@[j] == candidate);
                        assert(want[j] == base@ + kind_extensions(request.kind)[j - 1]);
                    }
                }
                assert(m =~= w);
            }
            i += 1;
        }
        assert(want.take(exts@.len() + 1int) =~= want);
        out
    }

    /// The directory a file name resolves to under the prefixes of a search format.
    fn resolve(&self, filename: &str, fmt: SearchFormat) -> (r: Option<String>)
        ensures
            r matches Some(d) ==> self.index_view().contains_key(filename@) && Some(d@) == resolve_in(
                self.index_view()[filename@],
                search_prefixes(fmt),
            ),
            r is None ==> !self.index_view().contains_key(filename@) || resolve_in(
                self.index_view()[filename@],
                search_prefixes(fmt),
            ) is None,
    {
        let dirs = match self.index.get(filename) {
            Some(d) => d,
            None => {
                return None;
            },
        };
        let ghost dv = dirs_view(*dirs);
        assert(self.index_view()[filename@] == dv);
        let ps = prefixes(fmt);
        let ghost pv = search_prefixes(fmt);
        let mut i: usize = 0;
        assert(pv.subrange(0, pv.len() as int) =~= pv);
        while i < ps.len()
            invariant
                ps@.map_values(|s: &'static str| s@) == pv,
                pv == search_prefixes(fmt),
                0 <= i <= pv.len(),
                self.index_view().contains_key(filename@),
                self.index_view()[filename@] == dv,
                dv == dirs_view(*dirs),
                resolve_in(dv, pv) == resolve_in(dv, pv.subrange(i as int, pv.len() as int)),
            decreases pv.len() - i,
        {
            let p = chars_of(ps[i]);
            let ghost pi = pv[i as int];
            assert(ps@.map_values(|s: &'static str| s@)[i as int] == ps@[i as int]@);
            let ghost pred = |d: Seq<char>| under_prefix(d, pi);
            let ghost rest = pv.subrange(i as int, pv.len() as int);
            let mut j: usize = 0;
            while j < dirs.len()
                invariant
                    p@ == pi,
                    pv == search_prefixes(fmt),
                    i < pv.len(),
                    pi == pv[i as int],
                    rest == pv.subrange(i as int, pv.len() as int),
                    pred == (|d: Seq<char>| under_prefix(d, pi)),
                    dv == dirs_view(*dirs),
                    self.index_view().contains_key(filename@),
                    self.index_view()[filename@] == dv,
                    resolve_in(dv, pv) == resolve_in(dv, rest),
                    0 <= j <= dv.len(),
                    forall|k: int| 0 <= k < j ==> !pred(#[trigger] dv[k]),
                decreases dv.len() - j,
            {
                let d = chars_of(dirs[j].as_str());
                assert(dv[j as int] == dirs@[j as int]@);
                if is_under(&d, &p) {
                    proof {
                        assert(pred(dv[j as int]));
                        lemma_first_index_is(dv, pred, j as int);
                        assert(rest[0] == pi);
                        assert(find_first(dv, pred) == Some(dv[j as int]));
                    }
                    let found = dirs[j].clone();
                    assert(found@ == dv[j as int]);
                    return Some(found);
                }
                j += 1;
            }
            proof {
                lemma_first_index_is(dv, pred, dv.len() as int);
                assert(rest[0] == pi);
                assert(rest.drop_first() =~= pv.subrange(i + 1, pv.len() as int));
            }
            i += 1;
        }
        None
    }

    /// The directory and file name of each tried name that the index resolves, in trying
    /// order; the caller reads the first of them that it can.
    pub fn lookup_plan(&self, request: &ResourceRequest) -> (r: Vec<(String, String)>)
        ensures
            plan_view(r) == plan_for(self.index_view(), request.kind, lookup_names(request@)),
    {
        let names = Self::candidates(request);
        let ghost nv = names@.map_values(|s: String| s@);
        let ghost iv = self.index_view();
        let mut out: Vec<(String, String)> = Vec::new();
        let mut i: usize = 0;
        assert(plan_view(out) =~= plan_for(iv, request.kind, nv.take(0)));
        while i < names.len()
            invariant
                nv == names@.map_values(|s: String| s@),
                iv == self.index_view(),
                0 <= i <= names@.len(),
                plan_view(out) == plan_for(iv, request.kind, nv.take(i as int)),
            decreases names@.len() - i,
        {
            let fmt = Self::format_for(request.kind, names[i].as_str());
            let ghost before = out@;
            proof {
                assert(nv.take(i + 1).drop_last() =~= nv.take(i as int));
                assert(nv.take(i + 1).last() == names@[i as int]@);
            }
            match self.resolve(names[i].as_str(), fmt) {
                Some(dir) => {
                    out.push((dir, names[i].clone()));
                    assert(plan_view(out) =~= plan_view_of(before).push((out@.last().0@, names@[i as int]@)));
                },
                None => {},
            }
            i += 1;
        }
        assert(nv.take(names@.len() as int) =~= nv);
        out
    }

    /// The error for a request none of whose planned paths can be read.
    pub fn not_found(request: &ResourceRequest) -> (r: ResourceError)
        ensures
            r@ == texmf_not_found(request@),
    {
        ResourceError::NotFound { name: request.canonical_name(), kind: request.kind }
    }

    /// The root of the tree.
    pub fn root(&self) -> (r: &str)
        ensures
            r@ == self.spec_root(),
    {
        self.root.as_str()
    }

    /// The number of file names in the index.
    pub fn len(&self) -> (r: usize)
        ensures
            r == self.index_view().len(),
    {
        broadcast use vstd::hash_map::group_hash_map_axioms;

        assert(self.index_view().dom() =~= self.index@.dom());
        self.index.len()
    }

    /// Whether the index holds no file name.
    pub fn is_empty(&self) -> (r: bool)
        ensures
            r == self.index_view().is_empty(),
    {
        assert(self.index_view().dom() =~= self.index@.dom());
        self.index.is_empty()
    }
}

} // verus!
