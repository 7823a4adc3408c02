//! Cached format images and the mutable session state cloned from them.
use vstd::prelude::*;

use crate::profile::ProfileId;
use crate::resource::{ErrorModel, ResourceError, ResourceModel, ResourceProvider, plain_request};
use crate::resource::ResourceKind;
use crate::seqs::{find_first, first_index, lemma_first_index, lemma_first_index_is, lemma_first_index_push};
use crate::text::{bytes_to_vec, extend_bytes, str_eq};

verus! {

/// Plain contents of a macro definition: its name and replacement bytes.
pub type MacroModel = (Seq<char>, Seq<u8>);

/// Plain contents of a format package: its name and optional version.
pub type PackageModel = (Seq<char>, Option<Seq<char>>);

/// Plain contents of a captured resource: canonical name, role and bytes.
pub type CapturedModel = (Seq<char>, FormatResourceKind, Seq<u8>);

/// Package that contributed to a cached format.
#[derive(Debug, PartialEq, Eq)]
pub struct FormatPackage {
    /// Package name.
    pub name: String,
    /// Package version, if known.
    pub version: Option<String>,
}

impl View for FormatPackage {
    type V = PackageModel;

    open spec fn view(&self) -> PackageModel {
        (self.name@, match self.version {
            Some(v) => Some(v@),
            None => None,
        })
    }
}

impl Clone for FormatPackage {
    fn clone(&self) -> (r: Self)
        ensures
            r@ == self@,
    {
        let version = match &self.version {
            Some(v) => Some(v.clone()),
            None => None,
        };
        FormatPackage { name: self.name.clone(), version }
    }
}

/// Resource role captured in a cached format.
#[derive(Clone, Copy, Debug, PartialEq, Eq, Structural)]
#[non_exhaustive]
pub enum FormatResourceKind {
    /// A TeX input file loaded during format initialization.
    TexInput,
    /// A package style file loaded during format initialization.
    Package,
}

/// Resource captured while initializing a cached format.
#[derive(Debug, PartialEq, Eq)]
pub struct FormatResource {
    /// Canonical resource name.
    pub name: String,
    /// Role of this resource in the format.
    pub kind: FormatResourceKind,
    /// Resource bytes captured at format initialization time.
    pub bytes: Vec<u8>,
}

impl View for FormatResource {
    type V = CapturedModel;

    open spec fn view(&self) -> CapturedModel {
        (self.name@, self.kind, self.bytes@)
    }
}

impl Clone for FormatResource {
    fn clone(&self) -> (r: Self)
        ensures
            r@ == self@,
    {
        FormatResource { name: self.name.clone(), kind: self.kind, bytes: bytes_to_vec(self.bytes.as_slice()) }
    }
}

/// Macro definition captured in a cached format.
#[derive(Debug, PartialEq, Eq)]
pub struct MacroDefinition {
    /// Control sequence name without leading backslash.
    pub name: String,
    /// Replacement text or an opaque engine representation.
    pub replacement: Vec<u8>,
}

impl View for MacroDefinition {
    type V = MacroModel;

    open spec fn view(&self) -> MacroModel {
        (self.name@, self.replacement@)
    }
}

impl Clone for MacroDefinition {
    fn clone(&self) -> (r: Self)
        ensures
            r@ == self@,
    {
        MacroDefinition { name: self.name.clone(), replacement: bytes_to_vec(self.replacement.as_slice()) }
    }
}

/// Plain contents of a register snapshot.
pub struct RegisterModel {
    pub counts: Seq<i32>,
    pub dimensions: Seq<i32>,
    pub token_lists: Seq<Seq<u8>>,
}

/// Register values captured in a cached format.
#[derive(Debug, PartialEq, Eq)]
pub struct RegisterSnapshot {
    /// Snapshot of TeX count registers.
    pub counts: Vec<i32>,
    /// Snapshot of TeX dimension registers in scaled points.
    pub dimensions: Vec<i32>,
    /// Snapshot of TeX token list registers as opaque bytes.
    pub token_lists: Vec<Vec<u8>>,
}

impl View for RegisterSnapshot {
    type V = RegisterModel;

    open spec fn view(&self) -> RegisterModel {
        RegisterModel {
            counts: self.counts@,
            dimensions: self.dimensions@,
            token_lists: self.token_lists@.map_values(|t: Vec<u8>| t@),
        }
    }
}

/// The register model with no registers captured.
pub open spec fn empty_registers() -> RegisterModel {
    RegisterModel { counts: Seq::empty(), dimensions: Seq::empty(), token_lists: Seq::empty() }
}

fn clone_i32s(v: &Vec<i32>) -> (r: Vec<i32>)
    ensures
        r@ == v@,
{
    let mut out: Vec<i32> = Vec::with_capacity(v.len());
    let mut i: usize = 0;
    while i < v.len()
        invariant
            0 <= i <= v@.len(),
            out@ == v@.take(i as int),
        decreases v@.len() - i,
    {
        out.push(v[i]);
        i += 1;
        assert(out@ =~= v@.take(i as int));
    }
    assert(v@.take(v@.len() as int) =~= v@);
    out
}

impl Clone for RegisterSnapshot {
    fn clone(&self) -> (r: Self)
        ensures
            r@ == self@,
    {
        let mut token_lists: Vec<Vec<u8>> = Vec::with_capacity(self.token_lists.len());
        let mut i: usize = 0;
        while i < self.token_lists.len()
            invariant
                0 <= i <= self.token_lists@.len(),
                token_lists@.len() == i,
                forall|j: int| 0 <= j < i ==> (#[trigger] token_lists@[j])@ == self.token_lists@[j]@,
            decreases self.token_lists@.len() - i,
        {
            token_lists.push(bytes_to_vec(self.token_lists[i].as_slice()));
            i += 1;
        }
        let r = RegisterSnapshot {
            counts: clone_i32s(&self.counts),
            dimensions: clone_i32s(&self.dimensions),
            token_lists,
        };
        assert(r.token_lists@.map_values(|t: Vec<u8>| t@) =~= self.token_lists@.map_values(
            |t: Vec<u8>| t@,
        ));
        r
    }
}

impl Default for RegisterSnapshot {
    fn default() -> (r: Self)
        ensures
            r@ == empty_registers(),
    {
        let r = RegisterSnapshot { counts: Vec::new(), dimensions: Vec::new(), token_lists: Vec::new() };
        assert(r.token_lists@.map_values(|t: Vec<u8>| t@) =~= Seq::<Seq<u8>>::empty());
        r
    }
}

/// Plain contents of initialized state: the fields shared by format snapshots and sessions.
pub struct StateModel {
    pub macros: Seq<MacroModel>,
    pub packages: Seq<PackageModel>,
    pub resources: Seq<CapturedModel>,
    pub opaque_engine_state: Seq<u8>,
    pub registers: RegisterModel,
}

/// The state with nothing defined, loaded or captured.
pub open spec fn empty_state() -> StateModel {
    StateModel {
        macros: Seq::empty(),
        packages: Seq::empty(),
        resources: Seq::empty(),
        opaque_engine_state: Seq::empty(),
        registers: empty_registers(),
    }
}

/// Views of a sequence of macro definitions.
pub open spec fn macro_views(s: Seq<MacroDefinition>) -> Seq<MacroModel> {
    s.map_values(|m: MacroDefinition| m@)
}

/// Views of a sequence of packages.
pub open spec fn package_views(s: Seq<FormatPackage>) -> Seq<PackageModel> {
    s.map_values(|p: FormatPackage| p@)
}

/// Views of a sequence of captured resources.
pub open spec fn captured_views(s: Seq<FormatResource>) -> Seq<CapturedModel> {
    s.map_values(|r: FormatResource| r@)
}

fn clone_macros(v: &Vec<MacroDefinition>) -> (r: Vec<MacroDefinition>)
    ensures
        macro_views(r@) == macro_views(v@),
{
    let mut out: Vec<MacroDefinition> = Vec::with_capacity(v.len());
    let mut i: usize = 0;
    while i < v.len()
        invariant
            0 <= i <= v@.len(),
            out@.len() == i,
            forall|j: int| 0 <= j < i ==> (#[trigger] out@[j])@ == v@[j]@,
        decreases v@.len() - i,
    {
        out.push(v[i].clone());
        i += 1;
    }
    assert(macro_views(out@) =~= macro_views(v@));
    out
}

fn clone_packages(v: &Vec<FormatPackage>) -> (r: Vec<FormatPackage>)
    ensures
        package_views(r@) == package_views(v@),
{
    let mut out: Vec<FormatPackage> = Vec::with_capacity(v.len());
    let mut i: usize = 0;
    while i < v.len()
        invariant
            0 <= i <= v@.len(),
            out@.len() == i,
            forall|j: int| 0 <= j < i ==> (#[trigger] out@[j])@ == v@[j]@,
        decreases v@.len() - i,
    {
        out.push(v[i].clone());
        i += 1;
    }
    assert(package_views(out@) =~= package_views(v@));
    out
}

fn clone_resources(v: &Vec<FormatResource>) -> (r: Vec<FormatResource>)
    ensures
        captured_views(r@) == captured_views(v@),
{
    let mut out: Vec<FormatResource> = Vec::with_capacity(v.len());
    let mut i: usize = 0;
    while i < v.len()
        invariant
            0 <= i <= v@.len(),
            out@.len() == i,
            forall|j: int| 0 <= j < i ==> (#[trigger] out@[j])@ == v@[j]@,
        decreases v@.len() - i,
    {
        out.push(v[i].clone());
        i += 1;
    }
    assert(captured_views(out@) =~= captured_views(v@));
    out
}

/// Structured initialized format state that can be cloned into sessions.
#[derive(Debug, PartialEq, Eq)]
pub struct FormatSnapshot {
    /// Macro definitions or macro state records preloaded into the format.
    pub macros: Vec<MacroDefinition>,
    /// Packages incorporated during format initialization.
    pub packages: Vec<FormatPackage>,
    /// Resources captured during format initialization.
    pub resources: Vec<FormatResource>,
    /// Opaque bytes for generated engine state during bootstrap.
    pub opaque_engine_state: Vec<u8>,
    /// Register values captured at format initialization time.
    pub registers: RegisterSnapshot,
}

impl View for FormatSnapshot {
    type V = StateModel;

    open spec fn view(&self) -> StateModel {
        StateModel {
            macros: macro_views(self.macros@),
            packages: package_views(self.packages@),
            resources: captured_views(self.resources@),
            opaque_engine_state: self.opaque_engine_state@,
            registers: self.registers@,
        }
    }
}

impl Clone for FormatSnapshot {
    fn clone(&self) -> (r: Self)
        ensures
            r@ == self@,
    {
        FormatSnapshot {
            macros: clone_macros(&self.macros),
            packages: clone_packages(&self.packages),
            resources: clone_resources(&self.resources),
            opaque_engine_state: bytes_to_vec(self.opaque_engine_state.as_slice()),
            registers: self.registers.clone(),
        }
    }
}

impl Default for FormatSnapshot {
    fn default() -> (r: Self)
        ensures
            r@ == empty_state(),
    {
        let r = FormatSnapshot {
            macros: Vec::new(),
            packages: Vec::new(),
            resources: Vec::new(),
            opaque_engine_state: Vec::new(),
            registers: RegisterSnapshot::default(),
        };
        assert(r@.macros =~= Seq::<MacroModel>::empty());
        assert(r@.packages =~= Seq::<PackageModel>::empty());
        assert(r@.resources =~= Seq::<CapturedModel>::empty());
        r
    }
}

/// Plain contents of a format state.
pub enum FormatStateModel {
    Empty,
    Snapshot(Seq<u8>),
    Structured(StateModel),
}

/// Opaque initialized state snapshot.
#[derive(Debug, PartialEq, Eq)]
#[non_exhaustive]
pub enum FormatState {
    /// Empty state used for bootstrapping and tests.
    Empty,
    /// Opaque engine bytes, reserved for a future structured snapshot.
    Snapshot(Vec<u8>),
    /// Structured snapshot used to initialize each session state.
    Structured(FormatSnapshot),
}

impl View for FormatState {
    type V = FormatStateModel;

    open spec fn view(&self) -> FormatStateModel {
        match self {
            FormatState::Empty => FormatStateModel::Empty,
            FormatState::Snapshot(b) => FormatStateModel::Snapshot(b@),
            FormatState::Structured(s) => FormatStateModel::Structured(s@),
        }
    }
}

impl Clone for FormatState {
    fn clone(&self) -> (r: Self)
        ensures
            r@ == self@,
    {
        match self {
            FormatState::Empty => FormatState::Empty,
            FormatState::Snapshot(b) => FormatState::Snapshot(bytes_to_vec(b.as_slice())),
            FormatState::Structured(s) => FormatState::Structured(s.clone()),
        }
    }
}

impl Default for FormatState {
    fn default() -> (r: Self)
        ensures
            r@ == FormatStateModel::Empty,
    {
        FormatState::Empty
    }
}

/// The session state a format state starts every session with.
pub open spec fn session_start(state: FormatStateModel) -> StateModel {
    match state {
        FormatStateModel::Empty => empty_state(),
        FormatStateModel::Snapshot(b) => StateModel { opaque_engine_state: b, ..empty_state() },
        FormatStateModel::Structured(s) => s,
    }
}

/// Plain contents of a format image.
pub struct ImageModel {
    pub id: Seq<char>,
    pub profile: Seq<char>,
    pub packages: Seq<PackageModel>,
    pub state: FormatStateModel,
}

/// Cached initialized macro/package state for an engine profile.
#[derive(Debug, PartialEq, Eq)]
pub struct FormatImage {
    /// Format identifier string.
    pub id: String,
    /// Engine profile this format targets.
    pub profile: ProfileId,
    /// Packages incorporated during format initialization.
    pub packages: Vec<FormatPackage>,
    /// Opaque initialized state snapshot.
    pub state: FormatState,
}

impl View for FormatImage {
    type V = ImageModel;

    open spec fn view(&self) -> ImageModel {
        ImageModel {
            id: self.id@,
            profile: self.profile.0@,
            packages: package_views(self.packages@),
            state: self.state@,
        }
    }
}

impl Clone for FormatImage {
    fn clone(&self) -> (r: Self)
        ensures
            r@ == self@,
    {
        FormatImage {
            id: self.id.clone(),
            profile: self.profile,
            packages: clone_packages(&self.packages),
            state: self.state.clone(),
        }
    }
}

/// Mutable session state cloned from [`FormatImage`].
#[derive(Debug, PartialEq, Eq)]
pub struct SessionState {
    /// Macro definitions active in this session.
    pub macros: Vec<MacroDefinition>,
    /// Packages loaded into this session.
    pub packages: Vec<FormatPackage>,
    /// Resources captured for this session.
    pub resources: Vec<FormatResource>,
    /// Opaque engine state bytes for this session.
    pub opaque_engine_state: Vec<u8>,
    /// Register values active in this session.
    pub registers: RegisterSnapshot,
}

impl View for SessionState {
    type V = StateModel;

    open spec fn view(&self) -> StateModel {
        StateModel {
            macros: macro_views(self.macros@),
            packages: package_views(self.packages@),
            resources: captured_views(self.resources@),
            opaque_engine_state: self.opaque_engine_state@,
            registers: self.registers@,
        }
    }
}

impl Clone for SessionState {
    fn clone(&self) -> (r: Self)
        ensures
            r@ == self@,
    {
        SessionState {
            macros: clone_macros(&self.macros),
            packages: clone_packages(&self.packages),
            resources: clone_resources(&self.resources),
            opaque_engine_state: bytes_to_vec(self.opaque_engine_state.as_slice()),
            registers: self.registers.clone(),
        }
    }
}

impl Default for SessionState {
    fn default() -> (r: Self)
        ensures
            r@ == empty_state(),
    {
        let r = SessionState {
            macros: Vec::new(),
            packages: Vec::new(),
            resources: Vec::new(),
            opaque_engine_state: Vec::new(),
            registers: RegisterSnapshot::default(),
        };
        assert(r@.macros =~= Seq::<MacroModel>::empty());
        assert(r@.packages =~= Seq::<PackageModel>::empty());
        assert(r@.resources =~= Seq::<CapturedModel>::empty());
        r
    }
}

/// Matches macro models with the given name.
pub open spec fn macro_named(name: Seq<char>) -> spec_fn(MacroModel) -> bool {
    |m: MacroModel| m.0 == name
}

/// Matches package models with the given name.
pub open spec fn package_named(name: Seq<char>) -> spec_fn(PackageModel) -> bool {
    |p: PackageModel| p.0 == name
}

/// Matches captured resource models with the given name.
pub open spec fn captured_named(name: Seq<char>) -> spec_fn(CapturedModel) -> bool {
    |r: CapturedModel| r.0 == name
}

/// The macro table after defining `name`: its first entry under that name gets the new
/// replacement, or the definition is appended when the name is new.
pub open spec fn define_macro_in(macros: Seq<MacroModel>, name: Seq<char>, replacement: Seq<u8>) -> Seq<
    MacroModel,
> {
    let k = crate::seqs::first_index(macros, macro_named(name));
    if k < macros.len() {
        macros.update(k, (name, replacement))
    } else {
        macros.push((name, replacement))
    }
}

/// No two macros share a name.
pub open spec fn macro_names_distinct(macros: Seq<MacroModel>) -> bool {
    forall|i: int, j: int| 0 <= i < j < macros.len() ==> macros[i].0 != macros[j].0
}

/// Defining a macro among macros with distinct names keeps the names distinct: a macro of
/// that name is replaced where it stands (same place, same count), and a new name is added
/// last; the lookup of the name then gives the new replacement.
pub proof fn lemma_define_macro_in_place(macros: Seq<MacroModel>, name: Seq<char>, replacement: Seq<u8>)
    requires
        macro_names_distinct(macros),
    ensures
        macro_names_distinct(define_macro_in(macros, name, replacement)),
        forall|k: int|
            0 <= k < macros.len() && #[trigger] macros[k].0 == name ==> define_macro_in(macros, name, replacement)
                == macros.update(k, (name, replacement)),
        (forall|k: int| 0 <= k < macros.len() ==> #[trigger] macros[k].0 != name) ==> define_macro_in(
            macros,
            name,
            replacement,
        ) == macros.push((name, replacement)),
        find_first(define_macro_in(macros, name, replacement), macro_named(name)) == Some((name, replacement)),
{
    let p = macro_named(name);
    lemma_first_index(macros, p);
    let f = first_index(macros, p);
    let d = define_macro_in(macros, name, replacement);
    assert forall|k: int| 0 <= k < macros.len() && #[trigger] macros[k].0 == name implies d == macros.update(
        k,
        (name, replacement),
    ) by {
        assert(p(macros[k]));
        if f != k {
            assert(macros[f].0 == name);
        }
    }
    assert forall|i: int, j: int| 0 <= i < j < d.len() implies d[i].0 != d[j].0 by {
        if f < macros.len() {
            if i == f {
                assert(macros[j].0 != macros[f].0);
            } else if j == f {
                assert(macros[i].0 != macros[f].0);
            }
        } else if j == macros.len() {
            assert(!p(macros[i]));
        }
    }
    lemma_define_macro_then_lookup(macros, name, replacement, name);
}

/// Defining a macro in a session makes a later lookup of that name give the new replacement,
/// and leaves the lookup of every other name as it was.
pub proof fn lemma_define_macro_then_lookup(
    macros: Seq<MacroModel>,
    name: Seq<char>,
    replacement: Seq<u8>,
    other: Seq<char>,
)
    ensures
        find_first(define_macro_in(macros, name, replacement), macro_named(name)) == Some(
            (name, replacement),
        ),
        other != name ==> find_first(define_macro_in(macros, name, replacement), macro_named(other))
            == find_first(macros, macro_named(other)),
{
    let p = macro_named(name);
    let q = macro_named(other);
    let k = first_index(macros, p);
    let d = define_macro_in(macros, name, replacement);
    lemma_first_index(macros, p);
    lemma_first_index(macros, q);
    if k < macros.len() {
        assert forall|j: int| 0 <= j < k implies !p(#[trigger] d[j]) by {
            assert(d[j] == macros[j]);
        }
        lemma_first_index_is(d, p, k);
        if other != name {
            let ko = first_index(macros, q);
            assert forall|j: int| 0 <= j < ko implies !q(#[trigger] d[j]) by {
                if j != k {
                    assert(d[j] == macros[j]);
                }
            }
            if ko < macros.len() {
                assert(ko != k);
                assert(d[ko] == macros[ko]);
            }
            lemma_first_index_is(d, q, ko);
        }
    } else {
        lemma_first_index_push(macros, p, (name, replacement));
        lemma_first_index_push(macros, q, (name, replacement));
        if other != name {
            let ko = first_index(macros, q);
            if ko < macros.len() {
                assert(d[ko] == macros[ko]);
            }
        }
    }
}

impl SessionState {
    /// Add or replace a macro in the session state.
    pub fn define_macro(&mut self, name: &str, replacement: &[u8])
        ensures
            final(self)@ == (StateModel {
                macros: define_macro_in(old(self)@.macros, name@, replacement@),
                ..old(self)@
            }),
    {
        let ghost p = macro_named(name@);
        let ghost views = old(self)@.macros;
        let mut i: usize = 0;
        while i < self.macros.len()
            invariant
                0 <= i <= self.macros@.len(),
                *self == *old(self),
                views == macro_views(self.macros@),
                p == macro_named(name@),
                forall|j: int| 0 <= j < i ==> !p(#[trigger] views[j]),
            decreases self.macros@.len() - i,
        {
            if str_eq(self.macros[i].name.as_str(), name) {
                proof {
                    assert(p(views[i as int]));
                    lemma_first_index_is(views, p, i as int);
                }
                let bytes = bytes_to_vec(replacement);
                let ghost before = self.macros@;
                self.macros.set(i, MacroDefinition { name: name.to_owned(), replacement: bytes });
                proof {
                    assert(macro_views(self.macros@) =~= views.update(i as int, (name@, replacement@)));
                }
                return;
            }
            i += 1;
        }
        proof {
            lemma_first_index_is(views, p, i as int);
        }
        self.macros.push(MacroDefinition { name: name.to_owned(), replacement: bytes_to_vec(replacement) });
        proof {
            assert(macro_views(self.macros@) =~= views.push((name@, replacement@)));
        }
    }

    /// Look up a macro definition by control sequence name.
    pub fn macro_definition(&self, name: &str) -> (r: Option<&MacroDefinition>)
        ensures
            r is Some <==> find_first(self@.macros, macro_named(name@)) is Some,
            r matches Some(m) ==> find_first(self@.macros, macro_named(name@)) == Some(m@),
    {
        let ghost p = macro_named(name@);
        let ghost views = self@.macros;
        let mut i: usize = 0;
        while i < self.macros.len()
            invariant
                0 <= i <= self.macros@.len(),
                views == macro_views(self.macros@),
                p == macro_named(name@),
                forall|j: int| 0 <= j < i ==> !p(#[trigger] views[j]),
            decreases self.macros@.len() - i,
        {
            if str_eq(self.macros[i].name.as_str(), name) {
                proof {
                    assert(p(views[i as int]));
                    lemma_first_index_is(views, p, i as int);
                }
                return Some(&self.macros[i]);
            }
            i += 1;
        }
        proof {
            lemma_first_index_is(views, p, i as int);
        }
        None
    }

    /// Look up a loaded package by name.
    pub fn package(&self, name: &str) -> (r: Option<&FormatPackage>)
        ensures
            r is Some <==> find_first(self@.packages, package_named(name@)) is Some,
            r matches Some(m) ==> find_first(self@.packages, package_named(name@)) == Some(m@),
    {
        let ghost p = package_named(name@);
        let ghost views = self@.packages;
        let mut i: usize = 0;
        while i < self.packages.len()
            invariant
                0 <= i <= self.packages@.len(),
                views == package_views(self.packages@),
                p == package_named(name@),
                forall|j: int| 0 <= j < i ==> !p(#[trigger] views[j]),
            decreases self.packages@.len() - i,
        {
            if str_eq(self.packages[i].name.as_str(), name) {
                proof {
                    assert(p(views[i as int]));
                    lemma_first_index_is(views, p, i as int);
                }
                return Some(&self.packages[i]);
            }
            i += 1;
        }
        proof {
            lemma_first_index_is(views, p, i as int);
        }
        None
    }

    /// Look up a captured resource by canonical name.
    pub fn resource(&self, name: &str) -> (r: Option<&FormatResource>)
        ensures
            r is Some <==> find_first(self@.resources, captured_named(name@)) is Some,
            r matches Some(m) ==> find_first(self@.resources, captured_named(name@)) == Some(m@),
    {
        let ghost p = captured_named(name@);
        let ghost views = self@.resources;
        let mut i: usize = 0;
        while i < self.resources.len()
            invariant
                0 <= i <= self.resources@.len(),
                views == captured_views(self.resources@),
                p == captured_named(name@),
                forall|j: int| 0 <= j < i ==> !p(#[trigger] views[j]),
            decreases self.resources@.len() - i,
        {
            if str_eq(self.resources[i].name.as_str(), name) {
                proof {
                    assert(p(views[i as int]));
                    lemma_first_index_is(views, p, i as int);
                }
                return Some(&self.resources[i]);
            }
            i += 1;
        }
        proof {
            lemma_first_index_is(views, p, i as int);
        }
        None
    }
}


impl FormatImage {
    /// Create an empty format image for early bootstrapping and tests.
    pub fn empty(id: &str, profile: ProfileId) -> (r: Self)
        ensures
            r@ == (ImageModel {
                id: id@,
                profile: profile.0@,
                packages: Seq::empty(),
                state: FormatStateModel::Empty,
            }),
            r.profile == profile,
    {
        let r = FormatImage { id: id.to_owned(), profile, packages: Vec::new(), state: FormatState::Empty };
        assert(r@.packages =~= Seq::<PackageModel>::empty());
        r
    }

    /// Create a format image wrapping an already-built structured snapshot.
    pub fn with_snapshot(id: &str, profile: ProfileId, snapshot: FormatSnapshot) -> (r: Self)
        ensures
            r@ == (ImageModel {
                id: id@,
                profile: profile.0@,
                packages: snapshot@.packages,
                state: FormatStateModel::Structured(snapshot@),
            }),
            r.profile == profile,
    {
        let packages = clone_packages(&snapshot.packages);
        FormatImage { id: id.to_owned(), profile, packages, state: FormatState::Structured(snapshot) }
    }

    /// Create a [`FormatInitializer`] builder for this format id and profile.
    pub fn initializer(id: &str, profile: ProfileId) -> (r: FormatInitializer)
        ensures
            r@ == fresh_initializer(id@, profile.0@),
            r.spec_profile() == profile,
    {
        FormatInitializer::new(id, profile)
    }

    /// Start building the plain TeX format, the provider must supply `plain.tex`.
    pub fn plain(profile: ProfileId) -> (r: FormatInitializer)
        ensures
            r@ == (InitModel {
                tex_inputs: seq!["plain.tex"@],
                ..fresh_initializer("plain"@, profile.0@)
            }),
            r.spec_profile() == profile,
    {
        Self::initializer("plain", profile).preload_tex_input("plain.tex")
    }

    /// Start building the LaTeX format, the provider must supply `latex.ltx`.
    pub fn latex(profile: ProfileId) -> (r: FormatInitializer)
        ensures
            r@ == (InitModel {
                tex_inputs: seq!["latex.ltx"@],
                ..fresh_initializer("latex"@, profile.0@)
            }),
            r.spec_profile() == profile,
    {
        Self::initializer("latex", profile).preload_tex_input("latex.ltx")
    }

    /// Clone the format's initialized state into a fresh mutable `SessionState`.
    pub fn instantiate_session_state(&self) -> (r: SessionState)
        ensures
            r@ == session_start(self@.state),
    {
        match &self.state {
            FormatState::Empty => SessionState::default(),
            FormatState::Snapshot(bytes) => {
                let mut r = SessionState::default();
                r.opaque_engine_state = bytes_to_vec(bytes.as_slice());
                r
            },
            FormatState::Structured(snapshot) => SessionState {
                macros: clone_macros(&snapshot.macros),
                packages: clone_packages(&snapshot.packages),
                resources: clone_resources(&snapshot.resources),
                opaque_engine_state: bytes_to_vec(snapshot.opaque_engine_state.as_slice()),
                registers: snapshot.registers.clone(),
            },
        }
    }
}

/// Plain contents of a format initializer.
pub struct InitModel {
    pub id: Seq<char>,
    pub profile: Seq<char>,
    pub tex_inputs: Seq<Seq<char>>,
    pub packages: Seq<Seq<char>>,
    pub macros: Seq<MacroModel>,
    pub registers: RegisterModel,
    pub opaque_engine_state: Seq<u8>,
}

/// An initializer with nothing queued.
pub open spec fn fresh_initializer(id: Seq<char>, profile: Seq<char>) -> InitModel {
    InitModel {
        id,
        profile,
        tex_inputs: Seq::empty(),
        packages: Seq::empty(),
        macros: Seq::empty(),
        registers: empty_registers(),
        opaque_engine_state: Seq::empty(),
    }
}

/// Builder for a cached [`FormatImage`] initialized from package resources.
#[derive(Clone, Debug, PartialEq, Eq)]
pub struct FormatInitializer {
    id: String,
    profile: ProfileId,
    tex_inputs: Vec<String>,
    packages: Vec<String>,
    macros: Vec<MacroDefinition>,
    registers: RegisterSnapshot,
    opaque_engine_state: Vec<u8>,
}

impl View for FormatInitializer {
    type V = InitModel;

    closed spec fn view(&self) -> InitModel {
        InitModel {
            id: self.id@,
            profile: self.profile.0@,
            tex_inputs: self.tex_inputs@.map_values(|s: String| s@),
            packages: self.packages@.map_values(|s: String| s@),
            macros: macro_views(self.macros@),
            registers: self.registers@,
            opaque_engine_state: self.opaque_engine_state@,
        }
    }
}

/// The file name under which a package's style file is requested: `name` itself when it
/// already ends in `.sty`, else `name.sty`.
pub open spec fn package_file_name(name: Seq<char>) -> Seq<char> {
    let sty = seq!['.', 's', 't', 'y'];
    if name.len() >= 4 && name.subrange(name.len() - 4, name.len() as int) == sty {
        name
    } else {
        name + sty
    }
}

/// The requests a build makes, in order: every TeX input, then every package style file.
pub open spec fn preload_requests(init: InitModel) -> Seq<crate::resource::RequestModel> {
    init.tex_inputs.map_values(|n: Seq<char>| plain_request(n, ResourceKind::TexInput))
        + init.packages.map_values(
        |p: Seq<char>| plain_request(package_file_name(p), ResourceKind::Package),
    )
}

/// The bytes of the given resources, concatenated in order.
pub open spec fn concat_bytes(rs: Seq<ResourceModel>) -> Seq<u8>
    decreases rs.len(),
{
    if rs.len() == 0 {
        Seq::empty()
    } else {
        concat_bytes(rs.drop_last()) + rs.last().bytes
    }
}

/// The captured resources of a build that read `rs`, the first `n_tex` of them TeX inputs.
pub open spec fn captured_of(rs: Seq<ResourceModel>, n_tex: int) -> Seq<CapturedModel> {
    Seq::new(
        rs.len(),
        |i: int|
            (rs[i].canonical_name, if i < n_tex {
                FormatResourceKind::TexInput
            } else {
                FormatResourceKind::Package
            }, rs[i].bytes),
    )
}

/// The packages a build records: every queued package name, with no version.
pub open spec fn built_packages(init: InitModel) -> Seq<PackageModel> {
    init.packages.map_values(|p: Seq<char>| (p, None::<Seq<char>>))
}

/// The format image a build produces when its reads answered `rs`.
pub open spec fn built_image(init: InitModel, rs: Seq<ResourceModel>) -> ImageModel {
    ImageModel {
        id: init.id,
        profile: init.profile,
        packages: built_packages(init),
        state: FormatStateModel::Structured(
            StateModel {
                macros: init.macros,
                packages: built_packages(init),
                resources: captured_of(rs, init.tex_inputs.len() as int),
                opaque_engine_state: init.opaque_engine_state + concat_bytes(rs),
                registers: init.registers,
            },
        ),
    }
}

/// Text of a resource error as its `Debug` formatting writes it.
pub uninterp spec fn resource_error_text(e: ErrorModel) -> Seq<char>;

/// Formats a resource error with its derived `Debug` implementation (std's `format!`).
/// The contract claims only that the text is a function of the error's contents.
#[verifier::external_body]
fn error_debug_text(error: &ResourceError) -> (r: String)
    ensures
        r@ == resource_error_text(error@),
{
    format!("{error:?}")
}

/// Plain contents of a format initialization error.
pub enum InitErrorModel {
    TexInput { name: Seq<char>, message: Seq<char> },
    Package { name: Seq<char>, message: Seq<char> },
}

/// Format initialization failure.
#[derive(Clone, Debug, PartialEq, Eq)]
#[non_exhaustive]
pub enum FormatInitError {
    /// A requested TeX input could not be loaded.
    TexInput {
        /// Name of the TeX input file.
        name: String,
        /// Description of the load failure.
        message: String,
    },
    /// A requested package could not be loaded.
    Package {
        /// Name of the package resource file.
        name: String,
        /// Description of the load failure.
        message: String,
    },
}

impl View for FormatInitError {
    type V = InitErrorModel;

    open spec fn view(&self) -> InitErrorModel {
        match self {
            FormatInitError::TexInput { name, message } => InitErrorModel::TexInput {
                name: name@,
                message: message@,
            },
            FormatInitError::Package { name, message } => InitErrorModel::Package {
                name: name@,
                message: message@,
            },
        }
    }
}

/// The error a build reports when its `k`-th read answered `err`.
pub open spec fn load_error(init: InitModel, k: int, err: ErrorModel) -> InitErrorModel {
    if k < init.tex_inputs.len() {
        InitErrorModel::TexInput { name: init.tex_inputs[k], message: resource_error_text(err) }
    } else {
        InitErrorModel::Package {
            name: package_file_name(init.packages[k - init.tex_inputs.len()]),
            message: resource_error_text(err),
        }
    }
}

fn package_resource_name(name: &str) -> (r: String)
    ensures
        r@ == package_file_name(name@),
{
    let n = name.unicode_len();
    proof {
        reveal_strlit(".sty");
    }
    if n >= 4 && name.get_char(n - 4) == '.' && name.get_char(n - 3) == 's' && name.get_char(n - 2)
        == 't' && name.get_char(n - 1) == 'y' {
        assert(name@.subrange(n - 4, n as int) =~= seq!['.', 's', 't', 'y']);
        name.to_owned()
    } else {
        let r = String::from_str(name).concat(".sty");
        assert(".sty"@ =~= seq!['.', 's', 't', 'y']);
        proof {
            if n >= 4 {
                let sub = name@.subrange(n - 4, n as int);
                if sub == seq!['.', 's', 't', 'y'] {
                    assert(sub[0] == name@[n - 4]);
                    assert(sub[1] == name@[n - 3]);
                    assert(sub[2] == name@[n - 2]);
                    assert(sub[3] == name@[n - 1]);
                }
            }
        }
        r
    }
}

impl FormatInitializer {
    /// The profile this initializer builds for.
    pub closed spec fn spec_profile(&self) -> ProfileId {
        self.profile
    }

    /// Create a new empty format initializer for the given id and profile.
    pub fn new(id: &str, profile: ProfileId) -> (r: Self)
        ensures
            r@ == fresh_initializer(id@, profile.0@),
            r.spec_profile() == profile,
    {
        let r = FormatInitializer {
            id: id.to_owned(),
            profile,
            tex_inputs: Vec::new(),
            packages: Vec::new(),
            macros: Vec::new(),
            registers: RegisterSnapshot::default(),
            opaque_engine_state: Vec::new(),
        };
        assert(r@.tex_inputs =~= Seq::<Seq<char>>::empty());
        assert(r@.packages =~= Seq::<Seq<char>>::empty());
        assert(r@.macros =~= Seq::<MacroModel>::empty());
        r
    }

    /// Queue a TeX input file to load during format initialization.
    pub fn preload_tex_input(self, input: &str) -> (r: Self)
        ensures
            r@ == (InitModel { tex_inputs: self@.tex_inputs.push(input@), ..self@ }),
            r.spec_profile() == self.spec_profile(),
    {
        let mut s = self;
        s.tex_inputs.push(input.to_owned());
        assert(s@.tex_inputs =~= self@.tex_inputs.push(input@));
        s
    }

    /// Queue a package style file to load during format initialization.
    pub fn preload_package(self, package: &str) -> (r: Self)
        ensures
            r@ == (InitModel { packages: self@.packages.push(package@), ..self@ }),
            r.spec_profile() == self.spec_profile(),
    {
        let mut s = self;
        s.packages.push(package.to_owned());
        assert(s@.packages =~= self@.packages.push(package@));
        s
    }

    /// Add a macro definition to embed in the format.
    pub fn macro_definition(self, name: &str, replacement: &[u8]) -> (r: Self)
        ensures
            r@ == (InitModel { macros: self@.macros.push((name@, replacement@)), ..self@ }),
            r.spec_profile() == self.spec_profile(),
    {
        let mut s = self;
        s.macros.push(MacroDefinition { name: name.to_owned(), replacement: bytes_to_vec(replacement) });
        assert(s@.macros =~= self@.macros.push((name@, replacement@)));
        s
    }

    /// Set the initial register snapshot to embed in the format.
    pub fn registers(self, registers: RegisterSnapshot) -> (r: Self)
        ensures
            r@ == (InitModel { registers: registers@, ..self@ }),
            r.spec_profile() == self.spec_profile(),
    {
        let mut s = self;
        s.registers = registers;
        s
    }

    /// Append opaque engine seed bytes to embed in the format.
    pub fn opaque_engine_state(self, bytes: &[u8]) -> (r: Self)
        ensures
            r@ == (InitModel { opaque_engine_state: self@.opaque_engine_state + bytes@, ..self@ }),
            r.spec_profile() == self.spec_profile(),
    {
        let mut s = self;
        extend_bytes(&mut s.opaque_engine_state, bytes);
        s
    }

    /// Build the cached format by resolving preloaded resources once.
    ///
    /// Every queued TeX input is read, then every queued package's style file, in order; the
    /// first read that fails ends the build with an error naming that file.
    pub fn build<R: ResourceProvider>(self, resources: &R) -> (r: Result<FormatImage, FormatInitError>)
        ensures
            match r {
                Ok(img) => exists|rs: Seq<ResourceModel>|
                    #[trigger] reads_succeeded(resources, preload_requests(self@), rs) && rs.len()
                        == preload_requests(self@).len() && img@ == built_image(self@, rs)
                        && img.profile == self.spec_profile(),
                Err(e) => exists|rs: Seq<ResourceModel>, err: ErrorModel|
                    #[trigger] read_failed_after(resources, preload_requests(self@), rs, err) && e@
                        == load_error(self@, rs.len() as int, err),
            },
    {
        let ghost init = self@;
        let ghost reqs = preload_requests(init);
        let ghost n_tex = init.tex_inputs.len() as int;
        let tex_inputs = &self.tex_inputs;
        let package_names = &self.packages;
        let mut opaque = bytes_to_vec(self.opaque_engine_state.as_slice());
        let mut format_resources: Vec<FormatResource> = Vec::new();
        let ghost mut rs: Seq<ResourceModel> = Seq::empty();
        assert(captured_views(format_resources@) =~= captured_of(rs, n_tex));
        let mut i: usize = 0;
        while i < tex_inputs.len()
            invariant
                0 <= i <= tex_inputs@.len(),
                init == self@,
                tex_inputs == &self.tex_inputs,
                package_names == &self.packages,
                tex_inputs@.map_values(|s: String| s@) == init.tex_inputs,
                package_names@.map_values(|s: String| s@) == init.packages,
                n_tex == tex_inputs@.len(),
                reqs == preload_requests(init),
                rs.len() == i,
                reads_succeeded(resources, reqs, rs),
                opaque@ == init.opaque_engine_state + concat_bytes(rs),
                captured_views(format_resources@) == captured_of(rs, n_tex),
            decreases tex_inputs@.len() - i,
        {
            proof {
                assert(reqs[i as int] == plain_request(tex_inputs@[i as int]@, ResourceKind::TexInput));
            }
            let resource = match resources.read_tex_input(tex_inputs[i].as_str()) {
                Ok(res) => res,
                Err(error) => {
                    let message = error_debug_text(&error);
                    let name = tex_inputs[i].clone();
                    proof {
                        assert(init.tex_inputs[i as int] == tex_inputs@[i as int]@);
                        assert(name@ == init.tex_inputs[i as int]);
                        assert(message@ == resource_error_text(error@));
                        assert(i < init.tex_inputs.len());
                        assert(read_failed_after(resources, preload_requests(init), rs, error@));
                    }
                    let e = FormatInitError::TexInput { name, message };
                    assert(e@ == load_error(init, rs.len() as int, error@));
                    return Err(e);
                },
            };
            let ghost before = rs;
            extend_bytes(&mut opaque, resource.bytes.as_slice());
            proof {
                rs = rs.push(resource@);
                assert(rs.drop_last() =~= before);
                assert forall|j: int| 0 <= j < rs.len() implies resources.answers(
                    reqs[j],
                    Ok(#[trigger] rs[j]),
                ) by {
                    if j < before.len() {
                        assert(rs[j] == before[j]);
                    }
                }
            }
            let ghost fr_before = format_resources@;
            format_resources.push(
                FormatResource {
                    name: resource.canonical_name,
                    kind: FormatResourceKind::TexInput,
                    bytes: resource.bytes,
                },
            );
            proof {
                let cv = captured_views(format_resources@);
                let co = captured_of(rs, n_tex);
                assert(captured_views(fr_before).len() == captured_of(before, n_tex).len());
                assert forall|k: int| 0 <= k < rs.len() implies #[trigger] cv[k] == co[k] by {
                    assert(captured_views(fr_before).len() == captured_of(before, n_tex).len());
                    if k < before.len() {
                        assert(format_resources@[k] == fr_before[k]);
                        assert(captured_views(fr_before)[k] == captured_of(before, n_tex)[k]);
                    }
                }
            }
            proof {
                assert(captured_views(format_resources@) =~= captured_of(rs, n_tex));
            }
            i += 1;
        }
        let mut packages: Vec<FormatPackage> = Vec::new();
        let mut j: usize = 0;
        while j < package_names.len()
            invariant
                0 <= j <= package_names@.len(),
                init == self@,
                tex_inputs == &self.tex_inputs,
                package_names == &self.packages,
                tex_inputs@.map_values(|s: String| s@) == init.tex_inputs,
                package_names@.map_values(|s: String| s@) == init.packages,
                n_tex == tex_inputs@.len(),
                reqs == preload_requests(init),
                rs.len() == n_tex + j,
                reads_succeeded(resources, reqs, rs),
                opaque@ == init.opaque_engine_state + concat_bytes(rs),
                captured_views(format_resources@) == captured_of(rs, n_tex),
                package_views(packages@) == built_packages(init).take(j as int),
            decreases package_names@.len() - j,
        {
            let resource_name = package_resource_name(package_names[j].as_str());
            proof {
                assert(reqs[n_tex + j] == plain_request(
                    package_file_name(package_names@[j as int]@),
                    ResourceKind::Package,
                ));
            }
            let resource = match resources.read_package(resource_name.as_str()) {
                Ok(res) => res,
                Err(error) => {
                    let message = error_debug_text(&error);
                    proof {
                        assert(init.packages[j as int] == package_names@[j as int]@);
                        assert(read_failed_after(resources, preload_requests(init), rs, error@));
                    }
                    let e = FormatInitError::Package { name: resource_name, message };
                    assert(e@ == load_error(init, rs.len() as int, error@));
                    return Err(e);
                },
            };
            let ghost before = rs;
            extend_bytes(&mut opaque, resource.bytes.as_slice());
            proof {
                rs = rs.push(resource@);
                assert(rs.drop_last() =~= before);
                assert forall|k: int| 0 <= k < rs.len() implies resources.answers(
                    reqs[k],
                    Ok(#[trigger] rs[k]),
                ) by {
                    if k < before.len() {
                        assert(rs[k] == before[k]);
                    }
                }
            }
            let ghost fr_before = format_resources@;
            format_resources.push(
                FormatResource {
                    name: resource.canonical_name,
                    kind: FormatResourceKind::Package,
                    bytes: resource.bytes,
                },
            );
            proof {
                let cv = captured_views(format_resources@);
                let co = captured_of(rs, n_tex);
                assert(captured_views(fr_before).len() == captured_of(before, n_tex).len());
                assert forall|k: int| 0 <= k < rs.len() implies #[trigger] cv[k] == co[k] by {
                    assert(captured_views(fr_before).len() == captured_of(before, n_tex).len());
                    if k < before.len() {
                        assert(format_resources@[k] == fr_before[k]);
                        assert(captured_views(fr_before)[k] == captured_of(before, n_tex)[k]);
                    }
                }
            }
            let ghost pk_before = packages@;
            packages.push(FormatPackage { name: package_names[j].clone(), version: None });
            proof {
                assert(init.packages[j as int] == package_names@[j as int]@);
                assert(package_views(packages@) =~= package_views(pk_before).push((init.packages[j as int], None::<Seq<char>>)));
                assert(captured_views(format_resources@) =~= captured_of(rs, n_tex));
                assert(package_views(packages@) =~= built_packages(init).take(j + 1));
            }
            j += 1;
        }
        proof {
            assert(built_packages(init).take(package_names@.len() as int) =~= built_packages(init));
        }
        let snapshot = FormatSnapshot {
            macros: self.macros,
            packages,
            resources: format_resources,
            opaque_engine_state: opaque,
            registers: self.registers,
        };
        let img = FormatImage::with_snapshot(self.id.as_str(), self.profile, snapshot);
        proof {
            assert(img@ == built_image(init, rs));
        }
        Ok(img)
    }
}

/// Every one of the first `rs.len()` requests was answered with the matching resource of `rs`.
pub open spec fn reads_succeeded<R: ResourceProvider>(
    resources: &R,
    reqs: Seq<crate::resource::RequestModel>,
    rs: Seq<ResourceModel>,
) -> bool {
    &&& rs.len() <= reqs.len()
    &&& forall|i: int| 0 <= i < rs.len() ==> resources.answers(reqs[i], Ok(#[trigger] rs[i]))
}

/// The first `rs.len()` requests were answered with `rs`, and the next one with `err`.
pub open spec fn read_failed_after<R: ResourceProvider>(
    resources: &R,
    reqs: Seq<crate::resource::RequestModel>,
    rs: Seq<ResourceModel>,
    err: ErrorModel,
) -> bool {
    &&& reads_succeeded(resources, reqs, rs)
    &&& rs.len() < reqs.len()
    &&& resources.answers(reqs[rs.len() as int], Err(err))
}

} // verus!
