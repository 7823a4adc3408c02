//! Adapters between the engine's own requests and this library's resource providers,
//! platforms and font specs.
use vstd::prelude::*;

use crate::ir::ByteSpan;
use crate::resource::{
    ErrorModel, RequestModel, Resource, ResourceKind, ResourceModel, ResourceProvider,
    ResourceRequest, ResourceRequestSource,
};

verus! {

/// Adapts a platform to the engine's platform interface.
#[derive(Clone, Copy, Debug)]
pub struct GeneratedPlatformAdapter<P> {
    platform: P,
}

impl<P> GeneratedPlatformAdapter<P> {
    /// The wrapped platform.
    pub closed spec fn spec_platform(&self) -> P {
        self.platform
    }

    /// Wraps `platform` in the adapter.
    pub fn new(platform: P) -> (r: Self)
        ensures
            r.spec_platform() == platform,
    {
        GeneratedPlatformAdapter { platform }
    }

    /// Returns a reference to the wrapped platform.
    pub fn platform(&self) -> (r: &P)
        ensures
            *r == self.spec_platform(),
    {
        &self.platform
    }

    /// Unwraps and returns the inner platform.
    pub fn into_platform(self) -> (r: P)
        ensures
            r == self.spec_platform(),
    {
        self.platform
    }
}

/// Kind of a resource the engine asks for.
#[derive(Clone, Copy, Debug, PartialEq, Eq, Structural)]
pub enum GeneratedResourceKind {
    /// TeX input file.
    TexInput,
    /// LaTeX package.
    Package,
    /// LaTeX class.
    Class,
    /// Font definition file.
    FontDefinition,
    /// Package support file.
    PackageSupport,
    /// Font program.
    Font,
    /// Encoding vector.
    Encoding,
    /// Font map.
    FontMap,
    /// Configuration file.
    Config,
    /// Format image.
    FormatImage,
    /// Package owned asset.
    Asset,
    /// Any other file the engine opens.
    Other,
}

/// Source location of an engine request.
#[derive(Clone, Debug, PartialEq, Eq)]
pub struct GeneratedSourceSpan {
    /// Name of the source.
    pub name: String,
    /// Inclusive start byte.
    pub start: u32,
    /// Exclusive end byte.
    pub end: u32,
}

/// A resource request as the engine makes it.
#[derive(Clone, Debug, PartialEq, Eq)]
pub struct GeneratedResourceRequest {
    /// Name the engine asked for, possibly with `./` prefixes.
    pub name: String,
    /// Kind of resource.
    pub kind: GeneratedResourceKind,
    /// Owner package of an asset.
    pub package: Option<String>,
    /// Source location that triggered the request.
    pub source: Option<GeneratedSourceSpan>,
}

/// The provider request kind for an engine request kind; other files are read as TeX input.
pub open spec fn engine_kind(kind: GeneratedResourceKind) -> ResourceKind {
    match kind {
        GeneratedResourceKind::TexInput => ResourceKind::TexInput,
        GeneratedResourceKind::Package => ResourceKind::Package,
        GeneratedResourceKind::Class => ResourceKind::Class,
        GeneratedResourceKind::FontDefinition => ResourceKind::FontDefinition,
        GeneratedResourceKind::PackageSupport => ResourceKind::PackageSupport,
        GeneratedResourceKind::Font => ResourceKind::Font,
        GeneratedResourceKind::Encoding => ResourceKind::Encoding,
        GeneratedResourceKind::FontMap => ResourceKind::FontMap,
        GeneratedResourceKind::Config => ResourceKind::Config,
        GeneratedResourceKind::FormatImage => ResourceKind::FormatImage,
        GeneratedResourceKind::Asset => ResourceKind::Asset,
        GeneratedResourceKind::Other => ResourceKind::TexInput,
    }
}

/// Maps an engine request kind to the provider request kind.
pub fn generated_kind_to_engine_kind(kind: GeneratedResourceKind) -> (r: Option<ResourceKind>)
    ensures
        r == Some(engine_kind(kind)),
{
    match kind {
        GeneratedResourceKind::TexInput => Some(ResourceKind::TexInput),
        GeneratedResourceKind::Package => Some(ResourceKind::Package),
        GeneratedResourceKind::Class => Some(ResourceKind::Class),
        GeneratedResourceKind::FontDefinition => Some(ResourceKind::FontDefinition),
        GeneratedResourceKind::PackageSupport => Some(ResourceKind::PackageSupport),
        GeneratedResourceKind::Font => Some(ResourceKind::Font),
        GeneratedResourceKind::Encoding => Some(ResourceKind::Encoding),
        GeneratedResourceKind::FontMap => Some(ResourceKind::FontMap),
        GeneratedResourceKind::Config => Some(ResourceKind::Config),
        GeneratedResourceKind::FormatImage => Some(ResourceKind::FormatImage),
        GeneratedResourceKind::Asset => Some(ResourceKind::Asset),
        GeneratedResourceKind::Other => Some(ResourceKind::TexInput),
    }
}

/// A name without its leading `./` segments.
pub open spec fn without_dot_slash(s: Seq<char>) -> Seq<char>
    decreases s.len(),
{
    if s.len() >= 2 && s[0] == '.' && s[1] == '/' {
        without_dot_slash(s.subrange(2, s.len() as int))
    } else {
        s
    }
}

/// Strips every leading `./` from an engine request name.
pub fn normalized_generated_resource_name(name: &str) -> (r: &str)
    ensures
        r@ == without_dot_slash(name@),
{
    let n = name.unicode_len();
    let mut i: usize = 0;
    assert(name@.subrange(0, n as int) =~= name@);
    while n - i >= 2 && name.get_char(i) == '.' && name.get_char(i + 1) == '/'
        invariant
            n == name@.len(),
            0 <= i <= n,
            without_dot_slash(name@.subrange(i as int, n as int)) == without_dot_slash(name@),
        decreases n - i,
    {
        let ghost rest = name@.subrange(i as int, n as int);
        assert(rest.subrange(2, rest.len() as int) =~= name@.subrange(i + 2, n as int));
        i += 2;
    }
    name.substring_char(i, n)
}

/// The character separates path segments.
pub open spec fn is_separator(c: char) -> bool {
    c == '/' || c == '\\'
}

/// The last path segment of the name holds a `.`.
pub open spec fn has_extension(name: Seq<char>) -> bool {
    exists|i: int|
        0 <= i < name.len() && name[i] == '.' && forall|j: int| i < j < name.len() ==> !is_separator(#[trigger] name[j])
}

/// Whether the last path segment of a name holds a `.`.
pub fn resource_name_has_extension(name: &str) -> (r: bool)
    ensures
        r == has_extension(name@),
{
    let n = name.unicode_len();
    let mut i: usize = n;
    while i > 0
        invariant
            n == name@.len(),
            i <= n,
            forall|j: int| i <= j < n ==> name@[j] != '.' && !is_separator(name@[j]),
        decreases i,
    {
        let c = name.get_char(i - 1);
        if c == '.' {
            return true;
        }
        if c == '/' || c == '\\' {
            proof {
                assert forall|k: int| 0 <= k < n && name@[k] == '.' implies exists|j: int| k < j < n && is_separator(#[trigger] name@[j]) by {
                    if k < i - 1 {
                        assert(is_separator(name@[i - 1]));
                    }
                }
            }
            return false;
        }
        i -= 1;
    }
    false
}

/// The suffixes tried for a request name without an extension, by request kind.
pub open spec fn candidate_suffixes(kind: ResourceKind) -> Seq<Seq<char>> {
    match kind {
        ResourceKind::TexInput => seq![".tex"@, ".ltx"@],
        ResourceKind::Package => seq![".sty"@],
        ResourceKind::Class => seq![".cls"@],
        ResourceKind::FontDefinition => seq![".fd"@],
        ResourceKind::Font => seq![".tfm"@, ".otf"@, ".ttf"@],
        ResourceKind::Encoding => seq![".enc"@],
        ResourceKind::FontMap => seq![".map"@],
        _ => Seq::empty(),
    }
}

/// The names tried after a request name itself: the name with each suffix of its kind, when
/// the name has no extension.
pub open spec fn candidate_names(name: Seq<char>, kind: ResourceKind) -> Seq<Seq<char>> {
    if has_extension(name) {
        Seq::empty()
    } else {
        candidate_suffixes(kind).map_values(|s: Seq<char>| name + s)
    }
}

fn suffixes_for(kind: ResourceKind) -> (r: Vec<&'static str>)
    ensures
        r@.map_values(|s: &'static str| s@) == candidate_suffixes(kind),
{
    let r: Vec<&'static str> = match kind {
        ResourceKind::TexInput => vec![".tex", ".ltx"],
        ResourceKind::Package => vec![".sty"],
        ResourceKind::Class => vec![".cls"],
        ResourceKind::FontDefinition => vec![".fd"],
        ResourceKind::Font => vec![".tfm", ".otf", ".ttf"],
        ResourceKind::Encoding => vec![".enc"],
        ResourceKind::FontMap => vec![".map"],
        _ => Vec::new(),
    };
    assert(r@.map_values(|s: &'static str| s@) =~= candidate_suffixes(kind));
    r
}

/// The names to try after a request name itself.
pub fn generated_resource_candidate_names(name: &str, kind: ResourceKind) -> (r: Vec<String>)
    ensures
        r@.map_values(|s: String| s@) == candidate_names(name@, kind),
{
    if resource_name_has_extension(name) {
        let r: Vec<String> = Vec::new();
        assert(r@.map_values(|s: String| s@) =~= Seq::<Seq<char>>::empty());
        return r;
    }
    let suffixes = suffixes_for(kind);
    let ghost want = candidate_suffixes(kind).map_values(|s: Seq<char>| name@ + s);
    let mut out: Vec<String> = Vec::new();
    let mut i: usize = 0;
    while i < suffixes.len()
        invariant
            0 <= i <= suffixes@.len(),
            suffixes@.map_values(|s: &'static str| s@) == candidate_suffixes(kind),
            want == candidate_suffixes(kind).map_values(|s: Seq<char>| name@ + s),
            out@.map_values(|s: String| s@) == want.take(i as int),
        decreases suffixes@.len() - i,
    {
        let candidate = String::from_str(name).concat(suffixes[i]);
        let ghost before = out@;
        out.push(candidate);
        proof {
            assert(suffixes@.map_values(|s: &'static str| s@)[i as int] == suffixes@[i as int]@);
            let m = out@.map_values(|s: String| s@);
            let w = want.take(i + 1);
            assert(before.map_values(|s: String| s@).len() == want.take(i as int).len());
            assert forall|j: int| 0 <= j < i + 1 implies m[j] == w[j] by {
                if j < i {
                    assert(out@[j] == before[j]);
                    assert(before.map_values(|s: String| s@)[j] == want.take(i as int)[j]);
                } else {
                    assert(out@[j] == candidate);
                    assert(want[j] == name@ + candidate_suffixes(kind)[j]);
                }
            }
            assert(m =~= w);
        }
        i += 1;
    }
    assert(want.take(suffixes@.len() as int) =~= want);
    out
}

/// The request with another name.
pub open spec fn renamed(r: RequestModel, name: Seq<char>) -> RequestModel {
    RequestModel { name, ..r }
}

/// The requests tried for a request, in order: the request, then each candidate name.
pub open spec fn attempts(r: RequestModel) -> Seq<RequestModel> {
    seq![r] + candidate_names(r.name, r.kind).map_values(|n: Seq<char>| renamed(r, n))
}

/// The provider answered the request with an error.
pub open spec fn answered_err<R: ResourceProvider>(provider: &R, request: RequestModel) -> bool {
    exists|e: ErrorModel| #[trigger] provider.answers(request, Err(e))
}

/// The first `k` attempts were answered with errors.
pub open spec fn attempts_failed<R: ResourceProvider>(provider: &R, tries: Seq<RequestModel>, k: int) -> bool {
    forall|i: int| 0 <= i < k ==> #[trigger] answered_err(provider, tries[i])
}

fn renamed_request(request: &ResourceRequest, name: String) -> (r: ResourceRequest)
    ensures
        r@ == renamed(request@, name@),
{
    let package = match &request.package {
        Some(p) => Some(p.clone()),
        None => None,
    };
    let source = match &request.source {
        Some(s) => Some(ResourceRequestSource { name: s.name.clone(), span: s.span }),
        None => None,
    };
    ResourceRequest { name, kind: request.kind, package, source }
}

/// Reads a request, then its candidate names in order, returning the first resource found.
pub fn read_generated_resource_request<R: ResourceProvider>(provider: &R, request: &ResourceRequest) -> (r: Option<Resource>)
    ensures
        match r {
            Some(res) => exists|k: int|
                0 <= k < attempts(request@).len() && attempts_failed(provider, attempts(request@), k)
                    && #[trigger] provider.answers(attempts(request@)[k], Ok(res@)),
            None => attempts_failed(provider, attempts(request@), attempts(request@).len() as int),
        },
{
    let ghost tries = attempts(request@);
    match provider.read_request(request) {
        Ok(resource) => {
            assert(tries[0] == request@);
            return Some(resource);
        },
        Err(e) => {
            assert(tries[0] == request@);
            assert(provider.answers(tries[0], Err(e@)));
            assert(answered_err(provider, tries[0]));
        },
    }
    let names = generated_resource_candidate_names(request.name.as_str(), request.kind);
    let mut i: usize = 0;
    while i < names.len()
        invariant
            0 <= i <= names@.len(),
            tries == attempts(request@),
            names@.map_values(|s: String| s@) == candidate_names(request@.name, request@.kind),
            attempts_failed(provider, tries, i + 1),
        decreases names@.len() - i,
    {
        let candidate = renamed_request(request, names[i].clone());
        proof {
            assert(names@.map_values(|s: String| s@)[i as int] == names@[i as int]@);
            assert(tries[i + 1] == candidate@);
        }
        match provider.read_request(&candidate) {
            Ok(resource) => {
                return Some(resource);
            },
            Err(e) => {
                assert(provider.answers(tries[i + 1], Err(e@)));
                assert(answered_err(provider, tries[i + 1]));
            },
        }
        i += 1;
    }
    None
}

/// Some attempt, after the ones before it failed, was answered with a resource holding
/// `bytes`.
pub open spec fn found_bytes<R: ResourceProvider>(provider: &R, tries: Seq<RequestModel>, bytes: Seq<u8>) -> bool {
    exists|k: int, res: ResourceModel|
        0 <= k < tries.len() && attempts_failed(provider, tries, k) && #[trigger] provider.answers(
            tries[k],
            Ok(res),
        ) && res.bytes == bytes
}

/// The source location of an engine request, as a provider request records it.
pub open spec fn request_source(s: Option<GeneratedSourceSpan>) -> Option<(Seq<char>, ByteSpan)> {
    match s {
        Some(span) => Some((span.name@, ByteSpan { start: span.start, end: span.end })),
        None => None,
    }
}

/// The provider request for an engine request: an asset of its package when it names one,
/// else a request of its kind, under its name without `./` prefixes.
pub open spec fn primary_request(r: GeneratedResourceRequest) -> RequestModel {
    let name = without_dot_slash(r.name@);
    let kind = engine_kind(r.kind);
    RequestModel {
        name,
        kind,
        package: if kind == ResourceKind::Asset {
            match r.package {
                Some(p) => Some(p@),
                None => None,
            }
        } else {
            None
        },
        source: request_source(r.source),
    }
}

/// The request an asset falls back to: a TeX input of the same name.
pub open spec fn fallback_request(r: GeneratedResourceRequest) -> RequestModel {
    RequestModel {
        name: without_dot_slash(r.name@),
        kind: ResourceKind::TexInput,
        package: None,
        source: request_source(r.source),
    }
}

/// Converts an engine source location to a provider request source.
pub fn request_source_from_generated(source: Option<&GeneratedSourceSpan>) -> (r: Option<ResourceRequestSource>)
    ensures
        match source {
            Some(s) => r matches Some(rs) && rs.name@ == s.name@ && rs.span == (ByteSpan { start: s.start, end: s.end }),
            None => r is None,
        },
{
    match source {
        Some(s) => Some(ResourceRequestSource { name: s.name.clone(), span: ByteSpan { start: s.start, end: s.end } }),
        None => None,
    }
}

/// Adapter that routes engine resource requests through a resource provider.
#[derive(Clone, Debug)]
pub struct GeneratedResourceProvider<R> {
    inner: R,
}

impl<R> GeneratedResourceProvider<R> {
    /// The wrapped provider.
    pub closed spec fn spec_inner(&self) -> R {
        self.inner
    }

    /// Wraps `inner` in the resource provider adapter.
    pub fn new(inner: R) -> (r: Self)
        ensures
            r.spec_inner() == inner,
    {
        GeneratedResourceProvider { inner }
    }

    /// Returns a reference to the inner resource provider.
    pub fn inner(&self) -> (r: &R)
        ensures
            *r == self.spec_inner(),
    {
        &self.inner
    }

    /// Unwraps and returns the inner resource provider.
    pub fn into_inner(self) -> (r: R)
        ensures
            r == self.spec_inner(),
    {
        self.inner
    }
}

impl<R: ResourceProvider> GeneratedResourceProvider<R> {
    /// Serves an engine request: the request and its candidate names, then, for an asset
    /// nobody had, the same name as a TeX input and its candidates.
    pub fn read(&self, request: &GeneratedResourceRequest) -> (r: Option<Vec<u8>>)
        ensures
            match r {
                Some(bytes) => found_bytes(&self.spec_inner(), attempts(primary_request(*request)), bytes@)
                    || (engine_kind(request.kind) == ResourceKind::Asset && attempts_failed(
                    &self.spec_inner(),
                    attempts(primary_request(*request)),
                    attempts(primary_request(*request)).len() as int,
                ) && found_bytes(&self.spec_inner(), attempts(fallback_request(*request)), bytes@)),
                None => attempts_failed(
                    &self.spec_inner(),
                    attempts(primary_request(*request)),
                    attempts(primary_request(*request)).len() as int,
                ) && (engine_kind(request.kind) == ResourceKind::Asset ==> attempts_failed(
                    &self.spec_inner(),
                    attempts(fallback_request(*request)),
                    attempts(fallback_request(*request)).len() as int,
                )),
            },
    {
        let name = normalized_generated_resource_name(request.name.as_str());
        let kind = match generated_kind_to_engine_kind(request.kind) {
            Some(k) => k,
            None => ResourceKind::TexInput,
        };
        let source = request_source_from_generated(request.source.as_ref());
        let package = if kind == ResourceKind::Asset {
            match &request.package {
                Some(p) => Some(p.clone()),
                None => None,
            }
        } else {
            None
        };
        let source_copy = match &source {
            Some(s) => Some(ResourceRequestSource { name: s.name.clone(), span: s.span }),
            None => None,
        };
        let primary = ResourceRequest { name: name.to_owned(), kind, package, source };
        assert(primary@ == primary_request(*request));
        match read_generated_resource_request(&self.inner, &primary) {
            Some(resource) => {
                return Some(resource.bytes);
            },
            None => {},
        }
        if kind != ResourceKind::Asset {
            return None;
        }
        let fallback = ResourceRequest { name: name.to_owned(), kind: ResourceKind::TexInput, package: None, source: source_copy };
        assert(fallback@ == fallback_request(*request));
        match read_generated_resource_request(&self.inner, &fallback) {
            Some(resource) => Some(resource.bytes),
            None => None,
        }
    }
}

} // verus!
