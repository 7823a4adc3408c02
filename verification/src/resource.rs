//! Resource providers for TeX inputs, packages, fonts, encodings, maps and config assets.
use vstd::prelude::*;

use crate::ir::ByteSpan;
use crate::seqs::{find_first, first_index, lemma_first_index, lemma_first_index_is};
use crate::text::{bytes_eq, bytes_to_vec, str_eq};

verus! {

/// Discriminant that classifies the kind of a resource request.
#[derive(Clone, Copy, Debug, PartialEq, Eq, PartialOrd, Ord, Hash, Structural)]
#[non_exhaustive]
pub enum ResourceKind {
    /// TeX input file requested by `\input`.
    TexInput,
    /// LaTeX package requested by `\usepackage`.
    Package,
    /// LaTeX class requested by `\documentclass`.
    Class,
    /// TeX font definition file such as `.fd`.
    FontDefinition,
    /// Package support input such as `.clo`, `.def`, `.ldf`, or `.cfg`.
    PackageSupport,
    /// Font program or collection.
    Font,
    /// Font encoding vector file.
    Encoding,
    /// Font map file.
    FontMap,
    /// Engine configuration file such as `texmf.cnf`.
    Config,
    /// Precompiled format image.
    FormatImage,
    /// Other package owned asset.
    Asset,
}

/// Source location that triggered a resource request.
#[derive(Clone, Debug, PartialEq, Eq)]
pub struct ResourceRequestSource {
    /// Name of the source file that issued the request.
    pub name: String,
    /// Byte span within the source file that triggered the request.
    pub span: ByteSpan,
}

/// A request to resolve a named resource of a given kind.
#[derive(Clone, Debug, PartialEq, Eq)]
pub struct ResourceRequest {
    /// Base name of the resource being requested.
    pub name: String,
    /// Kind of resource being requested.
    pub kind: ResourceKind,
    /// Owner package, set only for `ResourceKind::Asset` requests.
    pub package: Option<String>,
    /// Source location that triggered this request, if available.
    pub source: Option<ResourceRequestSource>,
}

/// The plain contents of a resource request.
pub struct RequestModel {
    pub name: Seq<char>,
    pub kind: ResourceKind,
    pub package: Option<Seq<char>>,
    pub source: Option<(Seq<char>, ByteSpan)>,
}

impl View for ResourceRequest {
    type V = RequestModel;

    open spec fn view(&self) -> RequestModel {
        RequestModel {
            name: self.name@,
            kind: self.kind,
            package: match self.package {
                Some(p) => Some(p@),
                None => None,
            },
            source: match self.source {
                Some(s) => Some((s.name@, s.span)),
                None => None,
            },
        }
    }
}

/// The request a plain lookup by name and kind makes.
pub open spec fn plain_request(name: Seq<char>, kind: ResourceKind) -> RequestModel {
    RequestModel { name, kind, package: None, source: None }
}

/// The request for an asset owned by a package.
pub open spec fn asset_request(package: Seq<char>, name: Seq<char>) -> RequestModel {
    RequestModel { name, kind: ResourceKind::Asset, package: Some(package), source: None }
}

/// Canonical name of a request: `package/name` for package owned assets, the name otherwise.
pub open spec fn canonical_name_of(r: RequestModel) -> Seq<char> {
    match r.package {
        Some(p) => if r.kind == ResourceKind::Asset {
            p + seq!['/'] + r.name
        } else {
            r.name
        },
        None => r.name,
    }
}

impl ResourceRequest {
    /// Create a basic request for a named resource of the given kind.
    pub fn new(name: &str, kind: ResourceKind) -> (r: Self)
        ensures
            r@ == plain_request(name@, kind),
    {
        ResourceRequest { name: name.to_owned(), kind, package: None, source: None }
    }

    /// Create a `ResourceKind::Asset` request owned by a package.
    pub fn asset(package: &str, name: &str) -> (r: Self)
        ensures
            r@ == asset_request(package@, name@),
    {
        ResourceRequest {
            name: name.to_owned(),
            kind: ResourceKind::Asset,
            package: Some(package.to_owned()),
            source: None,
        }
    }

    /// Attach a source location to this request.
    pub fn with_source(self, name: &str, span: ByteSpan) -> (r: Self)
        ensures
            r@ == (RequestModel { source: Some((name@, span)), ..self@ }),
    {
        let mut out = self;
        out.source = Some(ResourceRequestSource { name: name.to_owned(), span });
        out
    }

    /// Canonical request name used by simple providers.
    pub fn canonical_name(&self) -> (r: String)
        ensures
            r@ == canonical_name_of(self@),
    {
        match &self.package {
            Some(package) => {
                if self.kind == ResourceKind::Asset {
                    let mut name = package.clone();
                    name.append("/");
                    name.append(self.name.as_str());
                    proof {
                        reveal_strlit("/");
                    }
                    name
                } else {
                    self.name.clone()
                }
            },
            None => self.name.clone(),
        }
    }
}

/// A resolved resource consisting of its canonical name, kind, and raw bytes.
#[derive(Debug, PartialEq, Eq)]
pub struct Resource {
    /// Canonical path or name under which this resource was resolved.
    pub canonical_name: String,
    /// Kind of this resource.
    pub kind: ResourceKind,
    /// Raw bytes of the resource content.
    pub bytes: Vec<u8>,
}

/// The plain contents of a resource.
pub struct ResourceModel {
    pub canonical_name: Seq<char>,
    pub kind: ResourceKind,
    pub bytes: Seq<u8>,
}

impl View for Resource {
    type V = ResourceModel;

    open spec fn view(&self) -> ResourceModel {
        ResourceModel { canonical_name: self.canonical_name@, kind: self.kind, bytes: self.bytes@ }
    }
}

impl Clone for Resource {
    fn clone(&self) -> (r: Self)
        ensures
            r@ == self@,
    {
        Resource {
            canonical_name: self.canonical_name.clone(),
            kind: self.kind,
            bytes: bytes_to_vec(self.bytes.as_slice()),
        }
    }
}

impl Resource {
    /// Create a resource from its canonical name, kind, and bytes.
    pub fn new(canonical_name: &str, kind: ResourceKind, bytes: &[u8]) -> (r: Self)
        ensures
            r@ == (ResourceModel { canonical_name: canonical_name@, kind, bytes: bytes@ }),
    {
        Resource { canonical_name: canonical_name.to_owned(), kind, bytes: bytes_to_vec(bytes) }
    }

    /// Build a resource from an existing request and the resolved bytes.
    pub fn from_request(request: &ResourceRequest, bytes: &[u8]) -> (r: Self)
        ensures
            r@ == (ResourceModel {
                canonical_name: canonical_name_of(request@),
                kind: request.kind,
                bytes: bytes@,
            }),
    {
        Resource { canonical_name: request.canonical_name(), kind: request.kind, bytes: bytes_to_vec(bytes) }
    }
}

/// Error returned when a resource request cannot be fulfilled.
#[derive(Debug, PartialEq, Eq)]
#[non_exhaustive]
pub enum ResourceError {
    /// The requested resource does not exist in the configured universe.
    NotFound {
        /// Name of the resource that was not found.
        name: String,
        /// Kind of resource that was requested.
        kind: ResourceKind,
    },
    /// The resource exists but is not valid for the requested purpose.
    Invalid {
        /// Name of the invalid resource.
        name: String,
        /// Description of why the resource is invalid.
        message: String,
    },
    /// The resolver policy denied the request.
    Denied {
        /// Name of the denied resource.
        name: String,
        /// Reason the request was denied.
        message: String,
    },
}

/// The plain contents of a resource error.
pub enum ErrorModel {
    NotFound { name: Seq<char>, kind: ResourceKind },
    Invalid { name: Seq<char>, message: Seq<char> },
    Denied { name: Seq<char>, message: Seq<char> },
}

impl View for ResourceError {
    type V = ErrorModel;

    open spec fn view(&self) -> ErrorModel {
        match self {
            ResourceError::NotFound { name, kind } => ErrorModel::NotFound { name: name@, kind: *kind },
            ResourceError::Invalid { name, message } => ErrorModel::Invalid {
                name: name@,
                message: message@,
            },
            ResourceError::Denied { name, message } => ErrorModel::Denied {
                name: name@,
                message: message@,
            },
        }
    }
}

impl Clone for ResourceError {
    fn clone(&self) -> (r: Self)
        ensures
            r == *self,
    {
        match self {
            ResourceError::NotFound { name, kind } => ResourceError::NotFound {
                name: name.clone(),
                kind: *kind,
            },
            ResourceError::Invalid { name, message } => ResourceError::Invalid {
                name: name.clone(),
                message: message.clone(),
            },
            ResourceError::Denied { name, message } => ResourceError::Denied {
                name: name.clone(),
                message: message.clone(),
            },
        }
    }
}

/// The plain contents of a read result.
pub open spec fn read_model(r: Result<Resource, ResourceError>) -> Result<ResourceModel, ErrorModel> {
    match r {
        Ok(res) => Ok(res@),
        Err(e) => Err(e@),
    }
}

/// Resolves TeX inputs, packages, fonts, encodings, maps, and config assets.
pub trait ResourceProvider {
    /// Whether `result` is an answer this provider gives to `request`; a provider that does
    /// not describe its answers may give any.
    open spec fn answers(&self, request: RequestModel, result: Result<ResourceModel, ErrorModel>) -> bool {
        true
    }

    /// Resolve an arbitrary resource described by `request`.
    fn read_request(&self, request: &ResourceRequest) -> (r: Result<Resource, ResourceError>)
        ensures
            self.answers(request@, read_model(r)),
    ;

    /// Resolve `name` as a resource of the given `kind`.
    fn read(&self, name: &str, kind: ResourceKind) -> (r: Result<Resource, ResourceError>)
        ensures
            self.answers(plain_request(name@, kind), read_model(r)),
    {
        self.read_request(&ResourceRequest::new(name, kind))
    }

    /// Resolve a TeX input file by name.
    fn read_tex_input(&self, name: &str) -> (r: Result<Resource, ResourceError>)
        ensures
            self.answers(plain_request(name@, ResourceKind::TexInput), read_model(r)),
    {
        self.read(name, ResourceKind::TexInput)
    }

    /// Resolve a LaTeX package file by name.
    fn read_package(&self, name: &str) -> (r: Result<Resource, ResourceError>)
        ensures
            self.answers(plain_request(name@, ResourceKind::Package), read_model(r)),
    {
        self.read(name, ResourceKind::Package)
    }

    /// Resolve a LaTeX class file by name.
    fn read_class(&self, name: &str) -> (r: Result<Resource, ResourceError>)
        ensures
            self.answers(plain_request(name@, ResourceKind::Class), read_model(r)),
    {
        self.read(name, ResourceKind::Class)
    }

    /// Resolve a font definition file by name.
    fn read_font_definition(&self, name: &str) -> (r: Result<Resource, ResourceError>)
        ensures
            self.answers(plain_request(name@, ResourceKind::FontDefinition), read_model(r)),
    {
        self.read(name, ResourceKind::FontDefinition)
    }

    /// Resolve a package support file by name.
    fn read_package_support(&self, name: &str) -> (r: Result<Resource, ResourceError>)
        ensures
            self.answers(plain_request(name@, ResourceKind::PackageSupport), read_model(r)),
    {
        self.read(name, ResourceKind::PackageSupport)
    }

    /// Resolve a font program or collection by name.
    fn read_font(&self, name: &str) -> (r: Result<Resource, ResourceError>)
        ensures
            self.answers(plain_request(name@, ResourceKind::Font), read_model(r)),
    {
        self.read(name, ResourceKind::Font)
    }

    /// Resolve a font encoding file by name.
    fn read_encoding(&self, name: &str) -> (r: Result<Resource, ResourceError>)
        ensures
            self.answers(plain_request(name@, ResourceKind::Encoding), read_model(r)),
    {
        self.read(name, ResourceKind::Encoding)
    }

    /// Resolve a font map file by name.
    fn read_map(&self, name: &str) -> (r: Result<Resource, ResourceError>)
        ensures
            self.answers(plain_request(name@, ResourceKind::FontMap), read_model(r)),
    {
        self.read(name, ResourceKind::FontMap)
    }

    /// Resolve a configuration file by name.
    fn read_config(&self, name: &str) -> (r: Result<Resource, ResourceError>)
        ensures
            self.answers(plain_request(name@, ResourceKind::Config), read_model(r)),
    {
        self.read(name, ResourceKind::Config)
    }

    /// Resolve a precompiled format image by name.
    fn read_format_image(&self, name: &str) -> (r: Result<Resource, ResourceError>)
        ensures
            self.answers(plain_request(name@, ResourceKind::FormatImage), read_model(r)),
    {
        self.read(name, ResourceKind::FormatImage)
    }

    /// Resolve a package-owned asset by package and asset name.
    fn read_asset(&self, package: &str, name: &str) -> (r: Result<Resource, ResourceError>)
        ensures
            self.answers(asset_request(package@, name@), read_model(r)),
    {
        self.read_request(&ResourceRequest::asset(package, name))
    }
}

impl<'a, T: ResourceProvider> ResourceProvider for &'a T {
    open spec fn answers(&self, request: RequestModel, result: Result<ResourceModel, ErrorModel>) -> bool {
        (**self).answers(request, result)
    }

    fn read_request(&self, request: &ResourceRequest) -> (r: Result<Resource, ResourceError>) {
        (**self).read_request(request)
    }
}

/// Resource provider backed by a caller supplied resolver function.
#[derive(Debug)]
pub struct ResolverResourceProvider<F: Fn(&ResourceRequest) -> Result<Resource, ResourceError>> {
    resolver: F,
}

impl<F: Fn(&ResourceRequest) -> Result<Resource, ResourceError>> ResolverResourceProvider<F> {
    /// The resolver accepts every request.
    #[verifier::type_invariant]
    spec fn resolver_total(self) -> bool {
        forall|req: &ResourceRequest| call_requires(self.resolver, (req,))
    }

    /// The resolver function requests are handed to.
    pub closed spec fn spec_resolver(&self) -> F {
        self.resolver
    }

    /// Create a provider that delegates to the given resolver function.
    pub fn new(resolver: F) -> (r: Self)
        requires
            forall|req: &ResourceRequest| call_requires(resolver, (req,)),
        ensures
            r.spec_resolver() == resolver,
    {
        ResolverResourceProvider { resolver }
    }

    /// Return a reference to the underlying resolver function.
    pub fn resolver(&self) -> (r: &F)
        ensures
            *r == self.spec_resolver(),
    {
        &self.resolver
    }
}

impl<F: Fn(&ResourceRequest) -> Result<Resource, ResourceError>> ResourceProvider for ResolverResourceProvider<
    F,
> {
    /// An answer is whatever the resolver may return for a request with the same contents.
    open spec fn answers(&self, request: RequestModel, result: Result<ResourceModel, ErrorModel>) -> bool {
        exists|req: &ResourceRequest, out: Result<Resource, ResourceError>|
            #![trigger call_ensures(self.spec_resolver(), (req,), out)]
            req@ == request && call_ensures(self.spec_resolver(), (req,), out) && read_model(out)
                == result
    }

    fn read_request(&self, request: &ResourceRequest) -> (r: Result<Resource, ResourceError>) {
        proof {
            use_type_invariant(self);
        }
        let r = (self.resolver)(request);
        assert(call_ensures(self.spec_resolver(), (request,), r));
        r
    }
}

/// The path segment starting at `i` is `..`.
pub open spec fn parent_segment_at(name: Seq<char>, i: int) -> bool {
    &&& 0 <= i && i + 2 <= name.len()
    &&& name[i] == '.' && name[i + 1] == '.'
    &&& (i == 0 || name[i - 1] == '/')
    &&& (i + 2 == name.len() || name[i + 2] == '/')
}

/// Read as a Unix path, the name is absolute or climbs out through a `..` segment.
pub open spec fn escapes_root(name: Seq<char>) -> bool {
    (name.len() > 0 && name[0] == '/') || exists|i: int| parent_segment_at(name, i)
}

/// The verdict on a resource name a filesystem provider would resolve under its root.
pub open spec fn name_verdict(name: Seq<char>) -> Result<(), ErrorModel> {
    if escapes_root(name) {
        Err(ErrorModel::Denied { name, message: "resource path must be relative to the provider root"@ })
    } else if name.len() == 0 {
        Err(ErrorModel::Invalid { name, message: "resource name cannot be empty"@ })
    } else {
        Ok(())
    }
}

/// Checks that a resource name stays under a filesystem provider's root: it must not be
/// absolute nor hold a `..` segment, and it must not be empty.
///
/// Names are read as `/`-separated paths, as Unix-like hosts read them: a backslash is an
/// ordinary character and a drive prefix such as `C:` is not recognised, so on Windows this
/// check admits names (`..\x`, `C:x`) that a Windows path reading would deny.
pub fn validate_resource_name(name: &str) -> (r: Result<(), ResourceError>)
    ensures
        match r {
            Ok(()) => name_verdict(name@) == Ok::<(), ErrorModel>(()),
            Err(e) => name_verdict(name@) == Err::<(), ErrorModel>(e@),
        },
{
    let n = name.unicode_len();
    let mut escapes = n > 0 && name.get_char(0) == '/';
    let mut i: usize = 0;
    while i < n && !escapes
        invariant
            n == name@.len(),
            0 <= i <= n,
            escapes ==> escapes_root(name@),
            !escapes ==> !(name@.len() > 0 && name@[0] == '/'),
            !escapes ==> forall|j: int| 0 <= j < i ==> !parent_segment_at(name@, j),
        decreases n - i,
    {
        if n - i >= 2 && name.get_char(i) == '.' && name.get_char(i + 1) == '.' && (i == 0
            || name.get_char(i - 1) == '/') && (n - i == 2 || name.get_char(i + 2) == '/') {
            assert(parent_segment_at(name@, i as int));
            escapes = true;
        }
        i += 1;
    }
    if escapes {
        return Err(
            ResourceError::Denied {
                name: name.to_owned(),
                message: "resource path must be relative to the provider root".to_owned(),
            },
        );
    }
    proof {
        assert forall|j: int| !parent_segment_at(name@, j) by {
            if 0 <= j < n {
            }
        }
    }
    if n == 0 {
        return Err(
            ResourceError::Invalid { name: name.to_owned(), message: "resource name cannot be empty".to_owned() },
        );
    }
    Ok(())
}

/// Matches stored resources with the given canonical name and kind.
pub open spec fn resource_has_key(name: Seq<char>, kind: ResourceKind) -> spec_fn(Resource) -> bool {
    |r: Resource| r.canonical_name@ == name && r.kind == kind
}

/// The answer an in-memory store gives: the stored resource under the request's key, or not found.
pub open spec fn lookup_answer(store: Seq<Resource>, request: RequestModel) -> Result<
    ResourceModel,
    ErrorModel,
> {
    let name = canonical_name_of(request);
    match find_first(store, resource_has_key(name, request.kind)) {
        Some(res) => Ok(res@),
        None => Err(ErrorModel::NotFound { name, kind: request.kind }),
    }
}

/// Matches resource models with the given canonical name and kind.
pub open spec fn model_has_key(name: Seq<char>, kind: ResourceKind) -> spec_fn(ResourceModel) -> bool {
    |r: ResourceModel| r.canonical_name == name && r.kind == kind
}

/// Stored resources after storing one: it replaces the first stored under its canonical name
/// and kind, or is added last.
pub open spec fn stored_with(s: Seq<ResourceModel>, m: ResourceModel) -> Seq<ResourceModel> {
    let k = first_index(s, model_has_key(m.canonical_name, m.kind));
    if k < s.len() {
        s.update(k, m)
    } else {
        s.push(m)
    }
}

/// Storing a request's resource is storing it under the request's canonical name and kind,
/// whatever source the request carries: an asset request of a package stores what storing
/// under `package/name` stores.
pub proof fn lemma_request_stores_under_its_canonical_name(
    s: Seq<ResourceModel>,
    request: RequestModel,
    source: Option<(Seq<char>, ByteSpan)>,
    bytes: Seq<u8>,
)
    ensures
        stored_with(
            s,
            ResourceModel {
                canonical_name: canonical_name_of(RequestModel { source, ..request }),
                kind: request.kind,
                bytes,
            },
        ) == stored_with(s, ResourceModel { canonical_name: canonical_name_of(request), kind: request.kind, bytes }),
        request.kind == ResourceKind::Asset && request.package is Some ==> canonical_name_of(
            RequestModel { source, ..request },
        ) == request.package->0 + seq!['/'] + request.name,
{
}

/// The last write wins: storing twice under one name and kind leaves what storing the
/// second alone leaves; storing under a name and kind the store lacks adds one entry, even
/// when the name is stored under another kind.
pub proof fn lemma_last_write_wins(s: Seq<ResourceModel>, name: Seq<char>, kind: ResourceKind, first: Seq<u8>, second: Seq<u8>)
    ensures
        stored_with(
            stored_with(s, ResourceModel { canonical_name: name, kind, bytes: first }),
            ResourceModel { canonical_name: name, kind, bytes: second },
        ) == stored_with(s, ResourceModel { canonical_name: name, kind, bytes: second }),
        (forall|i: int| 0 <= i < s.len() ==> !(#[trigger] s[i].canonical_name == name && s[i].kind == kind))
            ==> stored_with(s, ResourceModel { canonical_name: name, kind, bytes: first }).len() == s.len() + 1,
{
    let p = model_has_key(name, kind);
    let m1 = ResourceModel { canonical_name: name, kind, bytes: first };
    let m2 = ResourceModel { canonical_name: name, kind, bytes: second };
    lemma_first_index(s, p);
    let k = first_index(s, p);
    let s1 = stored_with(s, m1);
    if k < s.len() {
        assert forall|j: int| 0 <= j < k implies !p(#[trigger] s1[j]) by {
            assert(s1[j] == s[j]);
        }
        lemma_first_index_is(s1, p, k);
        assert(s1.update(k, m2) =~= s.update(k, m2));
    } else {
        crate::seqs::lemma_first_index_push(s, p, m1);
        assert(s1.update(s.len() as int, m2) =~= s.push(m2));
    }
    if forall|i: int| 0 <= i < s.len() ==> !(#[trigger] s[i].canonical_name == name && s[i].kind == kind) {
        assert forall|j: int| 0 <= j < s.len() implies !p(#[trigger] s[j]) by {}
        lemma_first_index_is(s, p, s.len() as int);
    }
}

/// The first stored resource of a key is the first stored model of that key.
proof fn lemma_first_index_models(s: Seq<Resource>, name: Seq<char>, kind: ResourceKind)
    ensures
        first_index(s.map_values(|r: Resource| r@), model_has_key(name, kind)) == first_index(
            s,
            resource_has_key(name, kind),
        ),
{
    let ms = s.map_values(|r: Resource| r@);
    let p = resource_has_key(name, kind);
    let q = model_has_key(name, kind);
    lemma_first_index(s, p);
    let k = first_index(s, p);
    assert forall|j: int| 0 <= j < k implies !q(#[trigger] ms[j]) by {
        assert(!p(s[j]));
    }
    if k < s.len() {
        assert(p(s[k]));
        assert(q(ms[k]));
    }
    lemma_first_index_is(ms, q, k);
}

/// Resource provider that holds resources keyed by canonical name and kind.
#[derive(Clone, Debug, Eq)]
pub struct InMemoryResourceProvider {
    resources: Vec<Resource>,
}

impl InMemoryResourceProvider {
    /// No two stored resources share a canonical name and kind.
    pub closed spec fn well_formed(&self) -> bool {
        forall|i: int, j: int|
            0 <= i < j < self.resources@.len() ==> !(self.resources@[i].canonical_name@
                == self.resources@[j].canonical_name@ && self.resources@[i].kind
                == self.resources@[j].kind)
    }

    /// The stored resources.
    pub closed spec fn stored(&self) -> Seq<Resource> {
        self.resources@
    }

    /// The resource stored under a canonical name and kind, if any.
    pub open spec fn spec_get(&self, name: Seq<char>, kind: ResourceKind) -> Option<ResourceModel> {
        match find_first(self.stored(), resource_has_key(name, kind)) {
            Some(r) => Some(r@),
            None => None,
        }
    }

    /// The number of distinct keys stored.
    pub closed spec fn spec_len(&self) -> nat {
        self.resources@.len()
    }

    /// The stored resources, in the order their keys were first stored.
    pub closed spec fn stored_models(&self) -> Seq<ResourceModel> {
        self.resources@.map_values(|r: Resource| r@)
    }

    /// Create an empty in-memory provider.
    pub fn new() -> (r: Self)
        ensures
            r.well_formed(),
            r.spec_len() == 0,
            r.stored_models() == Seq::<ResourceModel>::empty(),
            forall|name: Seq<char>, kind: ResourceKind| r.spec_get(name, kind) is None,
    {
        let r = InMemoryResourceProvider { resources: Vec::new() };
        assert(r.stored_models() =~= Seq::<ResourceModel>::empty());
        r
    }

    /// Add a resource by name, kind, and bytes, returning the updated provider.
    pub fn with_resource(self, name: &str, kind: ResourceKind, bytes: &[u8]) -> (r: Self)
        requires
            self.well_formed(),
        ensures
            r.well_formed(),
            r.spec_get(name@, kind) == Some(ResourceModel { canonical_name: name@, kind, bytes: bytes@ }),
            forall|n: Seq<char>, k: ResourceKind|
                !(n == name@ && k == kind) ==> r.spec_get(n, k) == self.spec_get(n, k),
            r.spec_len() == self.spec_len() + if self.spec_get(name@, kind) is Some {
                0int
            } else {
                1int
            },
            r.stored_models() == stored_with(
                self.stored_models(),
                ResourceModel { canonical_name: name@, kind, bytes: bytes@ },
            ),
    {
        let mut out = self;
        out.insert(name, kind, bytes);
        out
    }

    /// Insert a resource by name, kind, and bytes.
    pub fn insert(&mut self, name: &str, kind: ResourceKind, bytes: &[u8])
        requires
            old(self).well_formed(),
        ensures
            final(self).well_formed(),
            final(self).spec_get(name@, kind) == Some(
                ResourceModel { canonical_name: name@, kind, bytes: bytes@ },
            ),
            forall|n: Seq<char>, k: ResourceKind|
                !(n == name@ && k == kind) ==> final(self).spec_get(n, k) == old(self).spec_get(n, k),
            final(self).spec_len() == old(self).spec_len() + if old(self).spec_get(name@, kind) is Some {
                0int
            } else {
                1int
            },
            final(self).stored_models() == stored_with(
                old(self).stored_models(),
                ResourceModel { canonical_name: name@, kind, bytes: bytes@ },
            ),
    {
        self.insert_request(ResourceRequest::new(name, kind), bytes);
    }

    /// Insert a resource from a prepared request and bytes.
    pub fn insert_request(&mut self, request: ResourceRequest, bytes: &[u8])
        requires
            old(self).well_formed(),
        ensures
            final(self).well_formed(),
            final(self).spec_get(canonical_name_of(request@), request.kind) == Some(
                ResourceModel { canonical_name: canonical_name_of(request@), kind: request.kind, bytes: bytes@ },
            ),
            forall|n: Seq<char>, k: ResourceKind|
                !(n == canonical_name_of(request@) && k == request.kind) ==> final(self).spec_get(n, k)
                    == old(self).spec_get(n, k),
            final(self).spec_len() == old(self).spec_len() + if old(self).spec_get(
                canonical_name_of(request@),
                request.kind,
            ) is Some {
                0int
            } else {
                1int
            },
            final(self).stored_models() == stored_with(
                old(self).stored_models(),
                ResourceModel { canonical_name: canonical_name_of(request@), kind: request.kind, bytes: bytes@ },
            ),
    {
        let resource = Resource {
            canonical_name: request.canonical_name(),
            kind: request.kind,
            bytes: bytes_to_vec(bytes),
        };
        let ghost name = resource.canonical_name@;
        let ghost kind = resource.kind;
        let ghost old_store = self.resources@;
        let ghost res_g = resource;
        let mut i: usize = 0;
        while i < self.resources.len()
            invariant
                0 <= i <= self.resources@.len(),
                self.resources@ == old_store,
                old(self).resources@ == old_store,
                old(self).well_formed(),
                res_g == resource,
                name == res_g.canonical_name@,
                kind == res_g.kind,
                name == canonical_name_of(request@),
                kind == request.kind,
                res_g@ == (ResourceModel { canonical_name: canonical_name_of(request@), kind: request.kind, bytes: bytes@ }),
                forall|j: int|
                    0 <= j < i ==> !(resource_has_key(name, kind))(#[trigger] self.resources@[j]),
            decreases self.resources@.len() - i,
        {
            if self.resources[i].kind == resource.kind && str_eq(
                self.resources[i].canonical_name.as_str(),
                resource.canonical_name.as_str(),
            ) {
                self.resources.set(i, resource);
                proof {
                    assert(self.resources@ == old_store.update(i as int, res_g));
                    assert forall|n: Seq<char>, k: ResourceKind|
                        !(n == name && k == kind) implies #[trigger] find_first(
                        self.resources@,
                        resource_has_key(n, k),
                    ) == find_first(old_store, resource_has_key(n, k)) by {
                        lemma_update_other_key(old_store, i as int, res_g, n, k);
                    }
                    assert((resource_has_key(name, kind))(self.resources@[i as int]));
                    lemma_first_index_is(self.resources@, resource_has_key(name, kind), i as int);
                    assert((resource_has_key(name, kind))(old_store[i as int]));
                    lemma_first_index_is(old_store, resource_has_key(name, kind), i as int);
                    lemma_first_index_models(old_store, name, kind);
                    assert(self.stored_models() =~= stored_with(
                        old_store.map_values(|r: Resource| r@),
                        res_g@,
                    ));
                    assert forall|a: int, b: int|
                        0 <= a < b < self.resources@.len() implies !(self.resources@[a].canonical_name@
                        == self.resources@[b].canonical_name@ && self.resources@[a].kind
                        == self.resources@[b].kind) by {
                        if a != i && b != i {
                            assert(self.resources@[a] == old_store[a]);
                            assert(self.resources@[b] == old_store[b]);
                        } else if a == i {
                            assert(self.resources@[b] == old_store[b]);
                        } else {
                            assert(self.resources@[a] == old_store[a]);
                        }
                    }
                }
                return;
            }
            assert(!(resource_has_key(name, kind))(self.resources@[i as int]));
            i += 1;
        }
        let ghost before = self.resources@;
        self.resources.push(resource);
        proof {
            assert(self.resources@ == before.push(res_g));
            assert forall|a: int, b: int|
                0 <= a < b < self.resources@.len() implies !(self.resources@[a].canonical_name@
                == self.resources@[b].canonical_name@ && self.resources@[a].kind
                == self.resources@[b].kind) by {
                assert(self.resources@[a] == before[a]);
                if b < before.len() {
                    assert(self.resources@[b] == before[b]);
                } else {
                    assert(!(resource_has_key(name, kind))(before[a]));
                }
            }
            lemma_first_index_is(self.resources@, resource_has_key(name, kind), i as int);
            lemma_first_index_is(before, resource_has_key(name, kind), i as int);
            lemma_first_index_models(before, name, kind);
            assert(self.stored_models() =~= stored_with(before.map_values(|r: Resource| r@), res_g@));
            assert forall|n: Seq<char>, k: ResourceKind|
                !(n == name && k == kind) implies #[trigger] find_first(
                self.resources@,
                resource_has_key(n, k),
            ) == find_first(before, resource_has_key(n, k)) by {
                lemma_push_other_key(before, res_g, n, k);
            }
        }
    }

    /// Return the number of resources stored in this provider.
    pub fn len(&self) -> (r: usize)
        ensures
            r == self.spec_len(),
    {
        self.resources.len()
    }

    /// Return true if this provider contains no resources.
    pub fn is_empty(&self) -> (r: bool)
        ensures
            r == (self.spec_len() == 0),
    {
        self.resources.len() == 0
    }
}

proof fn lemma_update_other_key(s: Seq<Resource>, i: int, x: Resource, n: Seq<char>, k: ResourceKind)
    requires
        0 <= i < s.len(),
        (resource_has_key(x.canonical_name@, x.kind))(s[i]),
        !(n == x.canonical_name@ && k == x.kind),
    ensures
        find_first(s.update(i, x), resource_has_key(n, k)) == find_first(s, resource_has_key(n, k)),
{
    let p = resource_has_key(n, k);
    let t = s.update(i, x);
    lemma_first_index(s, p);
    let f = crate::seqs::first_index(s, p);
    assert(!p(s[i]));
    assert(!p(t[i]));
    assert forall|j: int| 0 <= j < f implies !p(#[trigger] t[j]) by {
        if j != i {
            assert(t[j] == s[j]);
        }
    }
    if f < s.len() {
        assert(f != i);
        assert(t[f] == s[f]);
    }
    lemma_first_index_is(t, p, f);
}

proof fn lemma_push_other_key(s: Seq<Resource>, x: Resource, n: Seq<char>, k: ResourceKind)
    requires
        !(n == x.canonical_name@ && k == x.kind),
    ensures
        find_first(s.push(x), resource_has_key(n, k)) == find_first(s, resource_has_key(n, k)),
{
    let p = resource_has_key(n, k);
    crate::seqs::lemma_first_index_push(s, p, x);
    lemma_first_index(s, p);
    let f = crate::seqs::first_index(s, p);
    if f < s.len() {
        assert(s.push(x)[f] == s[f]);
    }
}

/// Two stores hold the same resources: as many keys, and every resource of the first is
/// stored alike under its key in the second.
pub open spec fn same_resources(a: InMemoryResourceProvider, b: InMemoryResourceProvider) -> bool {
    &&& a.spec_len() == b.spec_len()
    &&& forall|i: int|
        0 <= i < a.stored_models().len() ==> b.spec_get(
            (#[trigger] a.stored_models()[i]).canonical_name,
            a.stored_models()[i].kind,
        ) == Some(a.stored_models()[i])
}

impl InMemoryResourceProvider {
    fn find_key(&self, name: &str, kind: ResourceKind) -> (r: Option<usize>)
        ensures
            r is Some <==> self.spec_get(name@, kind) is Some,
            r matches Some(i) ==> i < self.stored().len() && self.stored()[i as int]@ == self.spec_get(
                name@,
                kind,
            )->0,
    {
        let ghost p = resource_has_key(name@, kind);
        let mut i: usize = 0;
        while i < self.resources.len()
            invariant
                0 <= i <= self.resources@.len(),
                forall|j: int| 0 <= j < i ==> !p(#[trigger] self.resources@[j]),
                p == resource_has_key(name@, kind),
            decreases self.resources@.len() - i,
        {
            if self.resources[i].kind == kind && str_eq(self.resources[i].canonical_name.as_str(), name) {
                proof {
                    lemma_first_index_is(self.resources@, p, i as int);
                }
                return Some(i);
            }
            i += 1;
        }
        proof {
            lemma_first_index_is(self.resources@, p, i as int);
        }
        None
    }
}

/// Two stores that hold the same resources in the same order are equal: so storing a
/// request's resource and storing under its canonical name and kind (which
/// `lemma_request_stores_under_its_canonical_name` shows store alike) leave equal stores.
pub proof fn lemma_same_stored_resources_are_equal(a: InMemoryResourceProvider, b: InMemoryResourceProvider)
    requires
        a.well_formed(),
        a.stored_models() == b.stored_models(),
    ensures
        same_resources(a, b),
{
    assert(a.stored_models().len() == a.stored().len());
    assert(b.stored_models().len() == b.stored().len());
    assert forall|i: int| 0 <= i < a.stored_models().len() implies b.spec_get(
        (#[trigger] a.stored_models()[i]).canonical_name,
        a.stored_models()[i].kind,
    ) == Some(a.stored_models()[i]) by {
        let m = a.stored_models()[i];
        let p = resource_has_key(m.canonical_name, m.kind);
        let q = model_has_key(m.canonical_name, m.kind);
        lemma_first_index_models(b.stored(), m.canonical_name, m.kind);
        assert forall|j: int| 0 <= j < i implies !q(#[trigger] b.stored_models()[j]) by {
            assert(a.stored_models()[j] == a.stored()[j]@);
            assert(a.stored_models()[i] == a.stored()[i]@);
        }
        crate::seqs::lemma_first_index_is(b.stored_models(), q, i);
        assert(b.stored_models()[i] == b.stored()[i]@);
    }
}

impl PartialEq for InMemoryResourceProvider {
    /// Stores are equal when they hold the same resources under the same keys, in any order.
    fn eq(&self, other: &Self) -> (r: bool) {
        if self.resources.len() != other.resources.len() {
            return false;
        }
        let mut i: usize = 0;
        while i < self.resources.len()
            invariant
                0 <= i <= self.resources@.len(),
                self.resources@.len() == other.resources@.len(),
                forall|j: int|
                    0 <= j < i ==> other.spec_get(
                        (#[trigger] self.stored_models()[j]).canonical_name,
                        self.stored_models()[j].kind,
                    ) == Some(self.stored_models()[j]),
            decreases self.resources@.len() - i,
        {
            let res = &self.resources[i];
            assert(self.stored_models()[i as int] == res@);
            match other.find_key(res.canonical_name.as_str(), res.kind) {
                Some(k) => {
                    if !bytes_eq(other.resources[k].bytes.as_slice(), res.bytes.as_slice()) {
                        return false;
                    }
                    proof {
                        lemma_first_index(other.stored(), resource_has_key(res.canonical_name@, res.kind));
                    }
                    assert(other.resources@[k as int]@ == res@);
                },
                None => {
                    return false;
                },
            }
            i += 1;
        }
        true
    }
}

impl vstd::std_specs::cmp::PartialEqSpecImpl for InMemoryResourceProvider {
    open spec fn obeys_eq_spec() -> bool {
        true
    }

    open spec fn eq_spec(&self, other: &Self) -> bool {
        same_resources(*self, *other)
    }
}

impl Default for InMemoryResourceProvider {
    fn default() -> (r: Self)
        ensures
            r.well_formed(),
            r.spec_len() == 0,
            r.stored_models() == Seq::<ResourceModel>::empty(),
            forall|name: Seq<char>, kind: ResourceKind| r.spec_get(name, kind) is None,
    {
        InMemoryResourceProvider::new()
    }
}

impl ResourceProvider for InMemoryResourceProvider {
    open spec fn answers(&self, request: RequestModel, result: Result<ResourceModel, ErrorModel>) -> bool {
        result == lookup_answer(self.stored(), request)
    }

    fn read_request(&self, request: &ResourceRequest) -> (r: Result<Resource, ResourceError>) {
        let name = request.canonical_name();
        let ghost p = resource_has_key(name@, request.kind);
        let mut i: usize = 0;
        while i < self.resources.len()
            invariant
                0 <= i <= self.resources@.len(),
                forall|j: int| 0 <= j < i ==> !p(#[trigger] self.resources@[j]),
                p == resource_has_key(name@, request.kind),
                name@ == canonical_name_of(request@),
            decreases self.resources@.len() - i,
        {
            if self.resources[i].kind == request.kind && str_eq(
                self.resources[i].canonical_name.as_str(),
                name.as_str(),
            ) {
                proof {
                    lemma_first_index_is(self.resources@, p, i as int);
                }
                let found = Resource::clone(&self.resources[i]);
                assert(found@ == self.resources@[i as int]@);
                return Ok(found);
            }
            i += 1;
        }
        proof {
            lemma_first_index_is(self.resources@, p, i as int);
        }
        Err(ResourceError::NotFound { name, kind: request.kind })
    }
}

/// Resource provider that checks an override provider before falling back to the base.
#[derive(Clone, Debug, PartialEq, Eq)]
pub struct OverlayResourceProvider<Overrides, Base> {
    overrides: Overrides,
    base: Base,
}

impl<Overrides, Base> OverlayResourceProvider<Overrides, Base> {
    /// The override provider.
    pub closed spec fn spec_overrides(&self) -> Overrides {
        self.overrides
    }

    /// The base provider.
    pub closed spec fn spec_base(&self) -> Base {
        self.base
    }

    /// Create a provider that checks `overrides` before `base`.
    pub fn new(overrides: Overrides, base: Base) -> (r: Self)
        ensures
            r.spec_overrides() == overrides,
            r.spec_base() == base,
    {
        OverlayResourceProvider { overrides, base }
    }

    /// Return a reference to the override provider.
    pub fn overrides(&self) -> (r: &Overrides)
        ensures
            *r == self.spec_overrides(),
    {
        &self.overrides
    }

    /// Return a reference to the base provider.
    pub fn base(&self) -> (r: &Base)
        ensures
            *r == self.spec_base(),
    {
        &self.base
    }
}

impl<Overrides: ResourceProvider, Base: ResourceProvider> ResourceProvider for OverlayResourceProvider<
    Overrides,
    Base,
> {
    open spec fn answers(&self, request: RequestModel, result: Result<ResourceModel, ErrorModel>) -> bool {
        exists|first: Result<ResourceModel, ErrorModel>|
            #![trigger self.spec_overrides().answers(request, first)]
            self.spec_overrides().answers(request, first) && match first {
                Err(ErrorModel::NotFound { .. }) => self.spec_base().answers(request, result),
                _ => result == first,
            }
    }

    fn read_request(&self, request: &ResourceRequest) -> (r: Result<Resource, ResourceError>) {
        let first = self.overrides.read_request(request);
        assert(self.spec_overrides().answers(request@, read_model(first)));
        match first {
            Ok(resource) => Ok(resource),
            Err(ResourceError::NotFound { name, kind }) => {
                let ghost f = ErrorModel::NotFound { name: name@, kind };
                let r = self.base.read_request(request);
                assert(self.spec_overrides().answers(request@, Err(f)));
                r
            },
            Err(error) => Err(error),
        }
    }
}

/// Named in memory resource universe suitable for embedded TeX/package bundles.
#[derive(Clone, Debug)]
pub struct ResourceBundle {
    id: String,
    resources: InMemoryResourceProvider,
}

impl ResourceBundle {
    /// The bundle's identifier.
    pub closed spec fn spec_id(&self) -> Seq<char> {
        self.id@
    }

    /// The bundle's resources.
    pub closed spec fn spec_resources(&self) -> InMemoryResourceProvider {
        self.resources
    }

    /// The bundle's store is well formed.
    pub open spec fn well_formed(&self) -> bool {
        self.spec_resources().well_formed()
    }

    /// Create an empty bundle with the given identifier.
    pub fn new(id: &str) -> (r: Self)
        ensures
            r.well_formed(),
            r.spec_id() == id@,
            forall|name: Seq<char>, kind: ResourceKind| r.spec_resources().spec_get(name, kind) is None,
    {
        ResourceBundle { id: id.to_owned(), resources: InMemoryResourceProvider::new() }
    }

    /// Return the identifier of this bundle.
    pub fn id(&self) -> (r: &str)
        ensures
            r@ == self.spec_id(),
    {
        self.id.as_str()
    }

    /// Add a resource by name, kind, and bytes, returning the updated bundle.
    pub fn with_resource(self, name: &str, kind: ResourceKind, bytes: &[u8]) -> (r: Self)
        requires
            self.well_formed(),
        ensures
            r.well_formed(),
            r.spec_id() == self.spec_id(),
            r.spec_resources().spec_get(name@, kind) == Some(
                ResourceModel { canonical_name: name@, kind, bytes: bytes@ },
            ),
            forall|n: Seq<char>, k: ResourceKind|
                !(n == name@ && k == kind) ==> r.spec_resources().spec_get(n, k)
                    == self.spec_resources().spec_get(n, k),
            r.spec_resources().stored_models() == stored_with(
                self.spec_resources().stored_models(),
                ResourceModel { canonical_name: name@, kind, bytes: bytes@ },
            ),
    {
        let mut out = self;
        out.resources.insert(name, kind, bytes);
        out
    }

    /// Add a resource from a prepared request and bytes, returning the updated bundle.
    pub fn with_request(self, request: ResourceRequest, bytes: &[u8]) -> (r: Self)
        requires
            self.well_formed(),
        ensures
            r.well_formed(),
            r.spec_id() == self.spec_id(),
            r.spec_resources().spec_get(canonical_name_of(request@), request.kind) == Some(
                ResourceModel { canonical_name: canonical_name_of(request@), kind: request.kind, bytes: bytes@ },
            ),
            forall|n: Seq<char>, k: ResourceKind|
                !(n == canonical_name_of(request@) && k == request.kind) ==> r.spec_resources().spec_get(
                    n,
                    k,
                ) == self.spec_resources().spec_get(n, k),
            r.spec_resources().stored_models() == stored_with(
                self.spec_resources().stored_models(),
                ResourceModel { canonical_name: canonical_name_of(request@), kind: request.kind, bytes: bytes@ },
            ),
    {
        let mut out = self;
        out.resources.insert_request(request, bytes);
        out
    }
}

impl ResourceProvider for ResourceBundle {
    open spec fn answers(&self, request: RequestModel, result: Result<ResourceModel, ErrorModel>) -> bool {
        self.spec_resources().answers(request, result)
    }

    fn read_request(&self, request: &ResourceRequest) -> (r: Result<Resource, ResourceError>) {
        self.resources.read_request(request)
    }
}

} // verus!
