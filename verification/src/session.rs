//! Engine construction, per-fragment sessions and the decisions around running the engine.
use vstd::prelude::*;

use crate::emit::IrEmitter;
use crate::font::NoFontSystem;
use crate::format::{
    CapturedModel, FormatImage, FormatResource, FormatResourceKind, FormatState, FormatStateModel,
    SessionState, captured_views, session_start,
};
use crate::ir::{FragmentKind, FragmentMetadata};
use crate::platform::{HostLimits, LimitError, Platform};
use crate::primitive::{PrimitiveEntry, PrimitiveRegistry, PrimitiveRegistryError, names_distinct};
use crate::profile::{EngineProfile, EngineSemantics};
use crate::resource::{
    ErrorModel, RequestModel, Resource, ResourceError, ResourceKind, ResourceModel, ResourceProvider,
    ResourceRequest, asset_request, canonical_name_of, plain_request, read_model,
};
use crate::seqs::{find_first, lemma_first_index_is};
use crate::text::{bytes_to_vec, extend_bytes, str_eq};
use crate::transcript::{
    generated_transcript_abort_error, generated_transcript_error, last_error_line, last_error_report,
};
use crate::lowering::{NodeStore, generated_node_to_fragment, lowered_from, lowers_to_node};
use crate::ir::Fragment;
use vstd::utf8::decode_utf8;

verus! {

/// Typed fragment input for layout.
#[derive(Clone, Debug, PartialEq, Eq)]
pub struct FragmentInput {
    /// Source name used in source map entries.
    pub source_name: String,
    /// TeX source body to be typeset.
    pub body: String,
    /// Fragment kind controlling how the body is wrapped and parsed.
    pub kind: FragmentKind,
}

impl View for FragmentInput {
    type V = (Seq<char>, Seq<char>, FragmentKind);

    open spec fn view(&self) -> (Seq<char>, Seq<char>, FragmentKind) {
        (self.source_name@, self.body@, self.kind)
    }
}

impl FragmentInput {
    /// Inline math input with source name "input".
    pub fn math_inline(body: &str) -> (r: Self)
        ensures
            r@ == ("input"@, body@, FragmentKind::MathInline),
    {
        Self::new("input", body, FragmentKind::MathInline)
    }

    /// Display math input with source name "input".
    pub fn math_display(body: &str) -> (r: Self)
        ensures
            r@ == ("input"@, body@, FragmentKind::MathDisplay),
    {
        Self::new("input", body, FragmentKind::MathDisplay)
    }

    /// Text input with source name "input".
    pub fn text(body: &str) -> (r: Self)
        ensures
            r@ == ("input"@, body@, FragmentKind::Text),
    {
        Self::new("input", body, FragmentKind::Text)
    }

    /// Constructs a fragment input with the given source name, body, and fragment kind.
    pub fn new(source_name: &str, body: &str, kind: FragmentKind) -> (r: Self)
        ensures
            r@ == (source_name@, body@, kind),
    {
        FragmentInput { source_name: source_name.to_owned(), body: body.to_owned(), kind }
    }
}

/// Error encountered while preloading format resources into the generated engine.
#[derive(Clone, Debug, PartialEq, Eq)]
#[non_exhaustive]
pub enum FormatPreloadError {
    /// The generated engine rejected the given input file.
    InputRejected {
        /// Name of the resource that was rejected.
        name: String,
    },
    /// The generated engine aborted before completing initialization.
    Aborted {
        /// Name of the resource being processed when the abort occurred.
        name: String,
        /// Exit status from the aborted engine, if available.
        status: Option<i32>,
    },
    /// A required resource could not be loaded during preload.
    Resource {
        /// Name of the format resource being processed.
        name: String,
        /// Name of the missing resource that was requested.
        resource: String,
    },
    /// The engine transcript contained a TeX error during preload.
    Transcript {
        /// Name of the format resource being processed when the error occurred.
        name: String,
        /// Error message extracted from the engine transcript.
        message: String,
    },
}

/// Error returned when constructing an engine.
#[derive(Clone, Debug, PartialEq, Eq)]
#[non_exhaustive]
pub enum BuildError {
    /// No format image was supplied to the builder.
    MissingFormat,
    /// The primitive registry rejected the profile's primitive specifications.
    InvalidPrimitives(PrimitiveRegistryError),
    /// Format resource preloading failed during engine build.
    FormatPreloadFailed(FormatPreloadError),
    /// The format image's profile does not match the requested engine profile.
    ProfileFormatMismatch {
        /// Requested profile.
        profile: &'static str,
        /// Profile recorded in the format image.
        format_profile: &'static str,
    },
}

/// Error returned by layout operations.
#[derive(Clone, Debug, PartialEq, Eq)]
#[non_exhaustive]
pub enum EngineError {
    /// Platform limit exceeded during layout.
    Limit(LimitError),
    /// Input could not be parsed.
    Parse {
        /// Description of the parse error.
        message: String,
    },
    /// TeX engine reported a layout error.
    Layout {
        /// Description of the layout error.
        message: String,
    },
    /// A required resource could not be satisfied.
    Resource {
        /// Description of the resource error.
        message: String,
    },
}

/// The names of a sequence of primitive views are pairwise distinct.
pub open spec fn view_names_distinct(s: Seq<(Seq<char>, crate::profile::PrimitiveOpcode, crate::profile::PrimitiveKind)>) -> bool {
    forall|i: int, j: int| 0 <= i < j < s.len() ==> s[i].0 != s[j].0
}

/// Engine initialized from a format image with associated resource, platform, and font boundaries.
#[derive(Clone, Debug)]
pub struct Engine<P, R, H, F = NoFontSystem> {
    profile: P,
    semantics: EngineSemantics,
    format: FormatImage,
    resources: R,
    platform: H,
    fonts: F,
    primitives: PrimitiveRegistry,
}

impl<P, R, H, F> Engine<P, R, H, F> {
    /// The profile the engine was built for.
    pub closed spec fn spec_profile(&self) -> P {
        self.profile
    }

    /// The semantics computed from the profile.
    pub closed spec fn spec_semantics(&self) -> EngineSemantics {
        self.semantics
    }

    /// The format image the engine was built from.
    pub closed spec fn spec_format(&self) -> FormatImage {
        self.format
    }

    /// The resource provider.
    pub closed spec fn spec_resources(&self) -> R {
        self.resources
    }

    /// The platform adapter.
    pub closed spec fn spec_platform(&self) -> H {
        self.platform
    }

    /// The font system.
    pub closed spec fn spec_fonts(&self) -> F {
        self.fonts
    }

    /// The primitive registry built from the profile's primitives.
    pub closed spec fn spec_primitives(&self) -> PrimitiveRegistry {
        self.primitives
    }

    /// The registry holds the profile's primitives, in order, under distinct names.
    pub open spec fn well_formed(&self) -> bool {
        &&& self.spec_primitives().well_formed()
        &&& self.spec_primitives().spec_entries().map_values(|e: PrimitiveEntry| e@)
            == crate::profile::spec_views(self.spec_semantics().primitives@)
    }

    /// Returns the engine profile.
    pub fn profile(&self) -> (r: &P)
        ensures
            *r == self.spec_profile(),
    {
        &self.profile
    }

    /// Computed semantics derived from the engine profile.
    pub fn semantics(&self) -> (r: &EngineSemantics)
        ensures
            *r == self.spec_semantics(),
    {
        &self.semantics
    }

    /// Returns the loaded format image.
    pub fn format(&self) -> (r: &FormatImage)
        ensures
            *r == self.spec_format(),
    {
        &self.format
    }

    /// Returns the resource provider.
    pub fn resources(&self) -> (r: &R)
        ensures
            *r == self.spec_resources(),
    {
        &self.resources
    }

    /// Returns the platform adapter.
    pub fn platform(&self) -> (r: &H)
        ensures
            *r == self.spec_platform(),
    {
        &self.platform
    }

    /// Returns the font system.
    pub fn fonts(&self) -> (r: &F)
        ensures
            *r == self.spec_fonts(),
    {
        &self.fonts
    }

    /// Primitive dispatch table for this engine profile.
    pub fn primitives(&self) -> (r: &PrimitiveRegistry)
        ensures
            *r == self.spec_primitives(),
    {
        &self.primitives
    }

    /// Create a session, the session holds a clone of the mutable format state.
    pub fn new_session(&self) -> (r: EngineSession<'_, P, R, H, F>)
        ensures
            r.spec_engine() == *self,
            r.spec_state()@ == session_start(self.spec_format()@.state),
    {
        EngineSession { engine: self, state: self.format.instantiate_session_state() }
    }
}

impl<P: EngineProfile, R: ResourceProvider, H: Platform> Engine<P, R, H, NoFontSystem> {
    /// Constructs an engine without a font system.
    pub fn new(profile: P, format: FormatImage, resources: R, platform: H) -> (r: Result<Self, BuildError>)
        ensures
            r is Ok <==> view_names_distinct(profile.settings().primitives),
            r matches Err(e) ==> e is InvalidPrimitives,
            r matches Ok(engine) ==> engine.well_formed() && engine.spec_profile() == profile
                && engine.spec_format() == format && engine.spec_resources() == resources
                && engine.spec_platform() == platform && engine.spec_semantics().primitives@.map_values(
                |p: crate::profile::PrimitiveSpec| p@,
            ) == profile.settings().primitives,
    {
        Self::new_with_fonts(profile, format, resources, platform, NoFontSystem)
    }
}

impl<P: EngineProfile, R: ResourceProvider, H: Platform, F> Engine<P, R, H, F> {
    /// Constructs an engine with an explicit font system.
    ///
    /// The profile's primitives must have distinct names; otherwise the first repeated name
    /// is reported.
    pub fn new_with_fonts(profile: P, format: FormatImage, resources: R, platform: H, fonts: F) -> (r:
        Result<Self, BuildError>)
        ensures
            r is Ok <==> view_names_distinct(profile.settings().primitives),
            r matches Err(e) ==> e is InvalidPrimitives,
            r matches Ok(engine) ==> engine.well_formed() && engine.spec_profile() == profile
                && engine.spec_format() == format && engine.spec_resources() == resources
                && engine.spec_platform() == platform && engine.spec_fonts() == fonts
                && engine.spec_semantics().primitives@.map_values(
                |p: crate::profile::PrimitiveSpec| p@,
            ) == profile.settings().primitives,
    {
        let semantics = EngineSemantics::from_profile(&profile);
        let primitives = match PrimitiveRegistry::from_specs(semantics.primitives()) {
            Ok(registry) => registry,
            Err(e) => {
                proof {
                    lemma_names_distinct_views(semantics.primitives@);
                }
                return Err(BuildError::InvalidPrimitives(e));
            },
        };
        proof {
            lemma_names_distinct_views(semantics.primitives@);
        }
        Ok(Engine { profile, semantics, format, resources, platform, fonts, primitives })
    }

    /// Returns a staged builder for this engine profile.
    pub fn builder(profile: P) -> (r: EngineBuilder<P, (), (), NoFontSystem>)
        ensures
            r.spec_profile() == profile,
            r.spec_format() is None,
            r.spec_resources() is None,
            r.spec_platform() is None,
    {
        EngineBuilder::new(profile)
    }
}

/// Distinct names of specs are distinct names of their views.
pub proof fn lemma_names_distinct_views(s: Seq<crate::profile::PrimitiveSpec>)
    ensures
        names_distinct(s) <==> view_names_distinct(crate::profile::spec_views(s)),
{
    let v = crate::profile::spec_views(s);
    if names_distinct(s) {
        assert forall|i: int, j: int| 0 <= i < j < v.len() implies v[i].0 != v[j].0 by {
            assert(v[i] == s[i]@);
            assert(v[j] == s[j]@);
        }
    }
    if view_names_distinct(v) {
        assert forall|i: int, j: int| 0 <= i < j < s.len() implies s[i].name@ != s[j].name@ by {
            assert(v[i] == s[i]@);
            assert(v[j] == s[j]@);
        }
    }
}

/// Staged builder for constructing an engine with typed resource, platform, and font parameters.
#[derive(Clone, Debug)]
pub struct EngineBuilder<P, R, H, F = NoFontSystem> {
    profile: P,
    format: Option<FormatImage>,
    resources: Option<R>,
    platform: Option<H>,
    fonts: F,
}

impl<P> EngineBuilder<P, (), (), NoFontSystem> {
    /// Creates a new builder for an engine with the given profile.
    pub fn new(profile: P) -> (r: Self)
        ensures
            r.spec_profile() == profile,
            r.spec_format() is None,
            r.spec_resources() is None,
            r.spec_platform() is None,
    {
        EngineBuilder { profile, format: None, resources: None, platform: None, fonts: NoFontSystem }
    }
}

impl<P, R, H, F> EngineBuilder<P, R, H, F> {
    /// The profile being built for.
    pub closed spec fn spec_profile(&self) -> P {
        self.profile
    }

    /// The format image, once set.
    pub closed spec fn spec_format(&self) -> Option<FormatImage> {
        self.format
    }

    /// The resource provider, once set.
    pub closed spec fn spec_resources(&self) -> Option<R> {
        self.resources
    }

    /// The platform adapter, once set.
    pub closed spec fn spec_platform(&self) -> Option<H> {
        self.platform
    }

    /// The font system.
    pub closed spec fn spec_fonts(&self) -> F {
        self.fonts
    }

    /// Sets the format image for the engine being built.
    pub fn format(self, format: FormatImage) -> (r: Self)
        ensures
            r.spec_profile() == self.spec_profile(),
            r.spec_format() == Some(format),
            r.spec_resources() == self.spec_resources(),
            r.spec_platform() == self.spec_platform(),
            r.spec_fonts() == self.spec_fonts(),
    {
        let mut s = self;
        s.format = Some(format);
        s
    }

    /// Sets the resource provider for the engine being built.
    pub fn resources<NextR>(self, resources: NextR) -> (r: EngineBuilder<P, NextR, H, F>)
        ensures
            r.spec_profile() == self.spec_profile(),
            r.spec_format() == self.spec_format(),
            r.spec_resources() == Some(resources),
            r.spec_platform() == self.spec_platform(),
            r.spec_fonts() == self.spec_fonts(),
    {
        EngineBuilder {
            profile: self.profile,
            format: self.format,
            resources: Some(resources),
            platform: self.platform,
            fonts: self.fonts,
        }
    }

    /// Sets the platform adapter for the engine being built.
    pub fn platform<NextH>(self, platform: NextH) -> (r: EngineBuilder<P, R, NextH, F>)
        ensures
            r.spec_profile() == self.spec_profile(),
            r.spec_format() == self.spec_format(),
            r.spec_resources() == self.spec_resources(),
            r.spec_platform() == Some(platform),
            r.spec_fonts() == self.spec_fonts(),
    {
        EngineBuilder {
            profile: self.profile,
            format: self.format,
            resources: self.resources,
            platform: Some(platform),
            fonts: self.fonts,
        }
    }

    /// Sets the font system for the engine being built.
    pub fn fonts<NextF>(self, fonts: NextF) -> (r: EngineBuilder<P, R, H, NextF>)
        ensures
            r.spec_profile() == self.spec_profile(),
            r.spec_format() == self.spec_format(),
            r.spec_resources() == self.spec_resources(),
            r.spec_platform() == self.spec_platform(),
            r.spec_fonts() == fonts,
    {
        EngineBuilder {
            profile: self.profile,
            format: self.format,
            resources: self.resources,
            platform: self.platform,
            fonts,
        }
    }
}

impl<P: EngineProfile, R: ResourceProvider, H: Platform, F> EngineBuilder<P, R, H, F> {
    /// Validates the builder state and constructs an engine.
    ///
    /// A missing format is reported first, then a format built for another profile, then a
    /// primitive table with a repeated name.
    pub fn build(self) -> (r: Result<Engine<P, R, H, F>, BuildError>)
        requires
            self.spec_resources() is Some,
            self.spec_platform() is Some,
        ensures
            self.spec_format() is None ==> r matches Err(BuildError::MissingFormat),
            self.spec_format() matches Some(f) ==> {
                let id = self.spec_profile().settings().id;
                if f.profile.0@ != id.0@ {
                    r matches Err(BuildError::ProfileFormatMismatch { profile, format_profile })
                        && profile == id.0 && format_profile == f.profile.0
                } else {
                    &&& (r is Ok <==> view_names_distinct(self.spec_profile().settings().primitives))
                    &&& (r matches Err(e) ==> e is InvalidPrimitives)
                    &&& (r matches Ok(engine) ==> engine.well_formed() && engine.spec_profile()
                        == self.spec_profile() && engine.spec_format() == f
                        && Some(engine.spec_resources()) == self.spec_resources() && Some(
                        engine.spec_platform(),
                    ) == self.spec_platform() && engine.spec_fonts() == self.spec_fonts())
                }
            },
    {
        let format = match self.format {
            Some(f) => f,
            None => return Err(BuildError::MissingFormat),
        };
        let id = self.profile.id();
        if !str_eq(format.profile.0, id.0) {
            return Err(BuildError::ProfileFormatMismatch { profile: id.0, format_profile: format.profile.0 });
        }
        let resources = match self.resources {
            Some(r) => r,
            None => return Err(BuildError::MissingFormat),
        };
        let platform = match self.platform {
            Some(p) => p,
            None => return Err(BuildError::MissingFormat),
        };
        Engine::new_with_fonts(self.profile, format, resources, platform, self.fonts)
    }
}

/// Per fragment execution state cloned from the cached format at session creation.
#[derive(Clone, Debug)]
pub struct EngineSession<'a, P, R, H, F = NoFontSystem> {
    engine: &'a Engine<P, R, H, F>,
    state: SessionState,
}

/// The metadata a session seeds its fragments with.
pub open spec fn session_metadata(semantics: EngineSemantics, format: FormatImage, kind: FragmentKind) -> (
    Seq<char>,
    Seq<char>,
    FragmentKind,
) {
    (semantics.profile.0@, format.id@, kind)
}

impl<'a, P, R, H, F> EngineSession<'a, P, R, H, F> {
    /// The engine this session runs on.
    pub closed spec fn spec_engine(&self) -> Engine<P, R, H, F> {
        *self.engine
    }

    /// The session's own mutable state.
    pub closed spec fn spec_state(&self) -> SessionState {
        self.state
    }

    /// Returns the primitive dispatch entry for a control sequence name.
    pub fn primitive(&self, name: &str) -> (r: Option<&PrimitiveEntry>)
        ensures
            r is Some <==> self.spec_engine().spec_primitives().spec_get(name@) is Some,
            r matches Some(e) ==> self.spec_engine().spec_primitives().spec_get(name@) == Some(*e),
    {
        self.engine.primitives.get(name)
    }

    /// Computed semantics for this session.
    pub fn semantics(&self) -> (r: &EngineSemantics)
        ensures
            *r == self.spec_engine().spec_semantics(),
    {
        &self.engine.semantics
    }

    /// IR emitter seeded with session metadata, defaults to inline math fragment kind.
    pub fn ir_emitter(&self) -> (r: IrEmitter)
        ensures
            r.well_formed(),
            r.spec_nodes().len() == 0,
            (r.spec_fragment().metadata.engine_profile@, r.spec_fragment().metadata.format_id@,
            r.spec_fragment().metadata.fragment_kind) == session_metadata(
                self.spec_engine().spec_semantics(),
                self.spec_engine().spec_format(),
                FragmentKind::MathInline,
            ),
    {
        self.ir_emitter_for(FragmentKind::MathInline)
    }

    /// IR emitter seeded with session metadata and the given fragment kind.
    pub fn ir_emitter_for(&self, kind: FragmentKind) -> (r: IrEmitter)
        ensures
            r.well_formed(),
            r.spec_nodes().len() == 0,
            (r.spec_fragment().metadata.engine_profile@, r.spec_fragment().metadata.format_id@,
            r.spec_fragment().metadata.fragment_kind) == session_metadata(
                self.spec_engine().spec_semantics(),
                self.spec_engine().spec_format(),
                kind,
            ),
    {
        IrEmitter::new(
            FragmentMetadata {
                engine_profile: self.engine.semantics.profile.0.to_owned(),
                format_id: self.engine.format.id.clone(),
                fragment_kind: kind,
            },
        )
    }

    /// Session local state cloned from the cached format at session creation.
    pub fn state(&self) -> (r: &SessionState)
        ensures
            *r == self.spec_state(),
    {
        &self.state
    }

    /// Mutable access to the session's local state.
    pub fn state_mut(&mut self) -> (r: &mut SessionState)
        ensures
            *r == old(self).spec_state(),
            final(self).spec_state() == *final(r),
            final(self).spec_engine() == old(self).spec_engine(),
    {
        &mut self.state
    }
}

impl<'a, P, R: ResourceProvider, H, F> EngineSession<'a, P, R, H, F> {
    /// Reads a TeX input file by name from the resource provider.
    pub fn load_input(&self, name: &str) -> (r: Result<Resource, ResourceError>)
        ensures
            self.spec_engine().spec_resources().answers(plain_request(name@, ResourceKind::TexInput), read_model(r)),
    {
        self.engine.resources.read(name, ResourceKind::TexInput)
    }

    /// Reads a TeX package by name from the resource provider.
    pub fn load_package(&self, name: &str) -> (r: Result<Resource, ResourceError>)
        ensures
            self.spec_engine().spec_resources().answers(plain_request(name@, ResourceKind::Package), read_model(r)),
    {
        self.engine.resources.read(name, ResourceKind::Package)
    }

    /// Reads a LaTeX document class by name from the resource provider.
    pub fn load_class(&self, name: &str) -> (r: Result<Resource, ResourceError>)
        ensures
            self.spec_engine().spec_resources().answers(plain_request(name@, ResourceKind::Class), read_model(r)),
    {
        self.engine.resources.read_class(name)
    }

    /// Reads a font definition file by name from the resource provider.
    pub fn load_font_definition(&self, name: &str) -> (r: Result<Resource, ResourceError>)
        ensures
            self.spec_engine().spec_resources().answers(
                plain_request(name@, ResourceKind::FontDefinition),
                read_model(r),
            ),
    {
        self.engine.resources.read_font_definition(name)
    }

    /// Reads a package support file by name from the resource provider.
    pub fn load_package_support(&self, name: &str) -> (r: Result<Resource, ResourceError>)
        ensures
            self.spec_engine().spec_resources().answers(
                plain_request(name@, ResourceKind::PackageSupport),
                read_model(r),
            ),
    {
        self.engine.resources.read_package_support(name)
    }

    /// Reads a font file by name from the resource provider.
    pub fn load_font_resource(&self, name: &str) -> (r: Result<Resource, ResourceError>)
        ensures
            self.spec_engine().spec_resources().answers(plain_request(name@, ResourceKind::Font), read_model(r)),
    {
        self.engine.resources.read_font(name)
    }

    /// Reads a font encoding file by name from the resource provider.
    pub fn load_encoding(&self, name: &str) -> (r: Result<Resource, ResourceError>)
        ensures
            self.spec_engine().spec_resources().answers(plain_request(name@, ResourceKind::Encoding), read_model(r)),
    {
        self.engine.resources.read_encoding(name)
    }

    /// Reads a font map file by name from the resource provider.
    pub fn load_map(&self, name: &str) -> (r: Result<Resource, ResourceError>)
        ensures
            self.spec_engine().spec_resources().answers(plain_request(name@, ResourceKind::FontMap), read_model(r)),
    {
        self.engine.resources.read_map(name)
    }

    /// Reads a TeX configuration resource by name from the resource provider.
    pub fn load_config(&self, name: &str) -> (r: Result<Resource, ResourceError>)
        ensures
            self.spec_engine().spec_resources().answers(plain_request(name@, ResourceKind::Config), read_model(r)),
    {
        self.engine.resources.read_config(name)
    }

    /// Reads a package asset from the resource provider.
    pub fn load_asset(&self, package: &str, name: &str) -> (r: Result<Resource, ResourceError>)
        ensures
            self.spec_engine().spec_resources().answers(asset_request(package@, name@), read_model(r)),
    {
        self.engine.resources.read_asset(package, name)
    }

    /// Reads a format image resource by name from the resource provider.
    pub fn load_format_image(&self, name: &str) -> (r: Result<Resource, ResourceError>)
        ensures
            self.spec_engine().spec_resources().answers(
                plain_request(name@, ResourceKind::FormatImage),
                read_model(r),
            ),
    {
        self.engine.resources.read_format_image(name)
    }
}

/// Checks a fragment's input byte count against the host's input limit.
pub fn check_input_limit(actual: usize, limits: HostLimits) -> (r: Result<(), EngineError>)
    ensures
        actual <= limits.max_input_bytes ==> r is Ok,
        actual > limits.max_input_bytes ==> r == Err::<(), EngineError>(
            EngineError::Limit(LimitError::InputTooLarge { actual, limit: limits.max_input_bytes }),
        ),
{
    if actual > limits.max_input_bytes {
        return Err(EngineError::Limit(LimitError::InputTooLarge { actual, limit: limits.max_input_bytes }));
    }
    Ok(())
}

/// Checks the number of resource requests a run made against the host's limit.
pub fn check_resource_request_limit(actual: usize, limits: HostLimits) -> (r: Result<(), EngineError>)
    ensures
        actual <= limits.max_resource_requests ==> r is Ok,
        actual > limits.max_resource_requests ==> r == Err::<(), EngineError>(
            EngineError::Limit(
                LimitError::TooManyResourceRequests { actual, limit: limits.max_resource_requests },
            ),
        ),
{
    if actual > limits.max_resource_requests {
        return Err(
            EngineError::Limit(
                LimitError::TooManyResourceRequests { actual, limit: limits.max_resource_requests },
            ),
        );
    }
    Ok(())
}

/// Checks the number of layout nodes a fragment holds against the host's limit.
pub fn check_layout_node_limit(actual: usize, limits: HostLimits) -> (r: Result<(), EngineError>)
    ensures
        actual <= limits.max_layout_nodes ==> r is Ok,
        actual > limits.max_layout_nodes ==> r == Err::<(), EngineError>(
            EngineError::Limit(LimitError::TooManyLayoutNodes { actual, limit: limits.max_layout_nodes }),
        ),
{
    if actual > limits.max_layout_nodes {
        return Err(
            EngineError::Limit(LimitError::TooManyLayoutNodes { actual, limit: limits.max_layout_nodes }),
        );
    }
    Ok(())
}

impl<'a, P, R, H: Platform, F> EngineSession<'a, P, R, H, F> {
    /// Checks an input's byte length against the limit the engine's platform reports.
    pub fn check_input_limits(&self, input: &str) -> (r: Result<(), EngineError>)
        ensures
            r is Err ==> (r matches Err(EngineError::Limit(LimitError::InputTooLarge { actual, limit }))
                && actual == input.len() && actual > limit),
    {
        check_input_limit(input.len(), self.engine.platform.limits())
    }

    /// Checks a run's resource request count against the platform's limit.
    pub fn check_resource_request_limits(&self, actual: usize) -> (r: Result<(), EngineError>)
        ensures
            r is Err ==> (r matches Err(
                EngineError::Limit(LimitError::TooManyResourceRequests { actual: a, limit }),
            ) && a == actual && actual > limit),
    {
        check_resource_request_limit(actual, self.engine.platform.limits())
    }

    /// Checks a fragment's layout node count against the platform's limit.
    pub fn check_layout_node_limits(&self, actual: usize) -> (r: Result<(), EngineError>)
        ensures
            r is Err ==> (r matches Err(EngineError::Limit(LimitError::TooManyLayoutNodes { actual: a, limit }))
                && a == actual && actual > limit),
    {
        check_layout_node_limit(actual, self.engine.platform.limits())
    }
}


/// Text that opens the TeX source wrapped around a fragment body.
pub open spec fn fragment_prefix(kind: FragmentKind) -> Seq<char> {
    match kind {
        FragmentKind::Text => "\\hbox{"@,
        FragmentKind::MathInline => "\\hbox{$"@,
        FragmentKind::MathDisplay => "\\hbox{$\\displaystyle "@,
    }
}

/// Text that closes the TeX source wrapped around a fragment body and ends the run.
pub open spec fn fragment_suffix(kind: FragmentKind) -> Seq<char> {
    match kind {
        FragmentKind::Text => "\\relax}\\csname @@end\\endcsname\\end"@,
        FragmentKind::MathInline => "\\relax$}\\csname @@end\\endcsname\\end"@,
        FragmentKind::MathDisplay => "\\relax$}\\csname @@end\\endcsname\\end"@,
    }
}

/// The TeX source the engine runs for a fragment: the body wrapped in a box in the mode its
/// kind names, followed by the commands that end the run under plain TeX and LaTeX alike.
pub fn fragment_source_text(input: &FragmentInput) -> (r: String)
    ensures
        r@ == fragment_prefix(input.kind) + input.body@ + fragment_suffix(input.kind),
{
    let prefix = match input.kind {
        FragmentKind::Text => "\\hbox{",
        FragmentKind::MathInline => "\\hbox{$",
        FragmentKind::MathDisplay => "\\hbox{$\\displaystyle ",
    };
    let suffix = match input.kind {
        FragmentKind::Text => "\\relax}\\csname @@end\\endcsname\\end",
        FragmentKind::MathInline => "\\relax$}\\csname @@end\\endcsname\\end",
        FragmentKind::MathDisplay => "\\relax$}\\csname @@end\\endcsname\\end",
    };
    String::from_str(prefix).concat(input.body.as_str()).concat(suffix)
}

/// The character of a decimal digit.
pub open spec fn digit_char(d: nat) -> char {
    if d == 0 {
        '0'
    } else if d == 1 {
        '1'
    } else if d == 2 {
        '2'
    } else if d == 3 {
        '3'
    } else if d == 4 {
        '4'
    } else if d == 5 {
        '5'
    } else if d == 6 {
        '6'
    } else if d == 7 {
        '7'
    } else if d == 8 {
        '8'
    } else {
        '9'
    }
}

/// Decimal digits of a natural number, most significant first, without leading zeros.
pub open spec fn nat_decimal(n: nat) -> Seq<char>
    decreases n,
{
    if n < 10 {
        seq![digit_char(n)]
    } else {
        nat_decimal(n / 10).push(digit_char(n % 10))
    }
}

/// Decimal text of an integer, with a leading `-` when it is negative.
pub open spec fn int_decimal(v: int) -> Seq<char> {
    if v < 0 {
        seq!['-'] + nat_decimal((-v) as nat)
    } else {
        nat_decimal(v as nat)
    }
}

fn digit_text(d: u32) -> (r: &'static str)
    requires
        d < 10,
    ensures
        r@ == seq![digit_char(d as nat)],
{
    proof {
        reveal_strlit("0");
        reveal_strlit("1");
        reveal_strlit("2");
        reveal_strlit("3");
        reveal_strlit("4");
        reveal_strlit("5");
        reveal_strlit("6");
        reveal_strlit("7");
        reveal_strlit("8");
        reveal_strlit("9");
    }
    if d == 0 {
        "0"
    } else if d == 1 {
        "1"
    } else if d == 2 {
        "2"
    } else if d == 3 {
        "3"
    } else if d == 4 {
        "4"
    } else if d == 5 {
        "5"
    } else if d == 6 {
        "6"
    } else if d == 7 {
        "7"
    } else if d == 8 {
        "8"
    } else {
        "9"
    }
}

pub(crate) fn nat_text(n: u32) -> (r: String)
    ensures
        r@ == nat_decimal(n as nat),
    decreases n,
{
    if n < 10 {
        digit_text(n).to_owned()
    } else {
        nat_text(n / 10).concat(digit_text(n % 10))
    }
}

/// Decimal text of a 32-bit integer.
pub fn int_text(v: i32) -> (r: String)
    ensures
        r@ == int_decimal(v as int),
{
    if v < 0 {
        let magnitude: i64 = -(v as i64);
        let digits = nat_text(magnitude as u32);
        proof {
            reveal_strlit("-");
        }
        String::from_str("-").concat(digits.as_str())
    } else {
        nat_text(v as u32)
    }
}

/// The message for an engine run that stopped without reporting a TeX error.
pub open spec fn abort_message(status: Option<i32>) -> Seq<char> {
    match status {
        Some(s) => "generated TeX engine aborted with status "@ + int_decimal(s as int),
        None => "generated TeX engine aborted"@,
    }
}

/// Describes an engine run that stopped without reporting a TeX error.
pub fn generated_abort_error(status: Option<i32>) -> (r: String)
    ensures
        r@ == abort_message(status),
{
    match status {
        Some(code) => String::from_str("generated TeX engine aborted with status ").concat(
            int_text(code).as_str(),
        ),
        None => "generated TeX engine aborted".to_owned(),
    }
}

/// A resource name with every leading `./`, `[]` and `:` removed, as the engine's file
/// probes decorate names.
pub open spec fn probe_basename(s: Seq<char>) -> Seq<char>
    decreases s.len(),
{
    if s.len() >= 2 && s[0] == '.' && s[1] == '/' {
        probe_basename(s.subrange(2, s.len() as int))
    } else if s.len() >= 2 && s[0] == '[' && s[1] == ']' {
        probe_basename(s.subrange(2, s.len() as int))
    } else if s.len() >= 1 && s[0] == ':' {
        probe_basename(s.subrange(1, s.len() as int))
    } else {
        s
    }
}

/// Strips the decorations the engine puts before probed file names.
pub fn generated_resource_probe_basename(name: &str) -> (r: &str)
    ensures
        r@ == probe_basename(name@),
{
    let n = name.unicode_len();
    let mut i: usize = 0;
    assert(name@.subrange(0, n as int) =~= name@);
    while i < n
        invariant
            n == name@.len(),
            0 <= i <= n,
            probe_basename(name@.subrange(i as int, n as int)) == probe_basename(name@),
        decreases n - i,
    {
        let ghost rest = name@.subrange(i as int, n as int);
        if n - i >= 2 && name.get_char(i) == '.' && name.get_char(i + 1) == '/' {
            assert(rest.subrange(2, rest.len() as int) =~= name@.subrange(i + 2, n as int));
            i += 2;
        } else if n - i >= 2 && name.get_char(i) == '[' && name.get_char(i + 1) == ']' {
            assert(rest.subrange(2, rest.len() as int) =~= name@.subrange(i + 2, n as int));
            i += 2;
        } else if name.get_char(i) == ':' {
            assert(rest.subrange(1, rest.len() as int) =~= name@.subrange(i + 1, n as int));
            i += 1;
        } else {
            return name.substring_char(i, n);
        }
    }
    name.substring_char(i, n)
}

/// Whether a failed probe is for a file that the formats look for but never need.
pub open spec fn is_optional_probe(name: Seq<char>) -> bool {
    probe_basename(name) == "texsys.aux"@ || probe_basename(name) == "babel-texput.cfg"@
}

/// Whether a failed request for `name` is one of the optional probes formats make.
pub fn is_optional_generated_resource_probe(name: &str) -> (r: bool)
    ensures
        r == is_optional_probe(name@),
{
    let base = generated_resource_probe_basename(name);
    str_eq(base, "texsys.aux") || str_eq(base, "babel-texput.cfg")
}

/// A resource request the engine recorded while running: the name it asked for and, when
/// the request was served, the number of bytes it got.
#[derive(Clone, Debug, PartialEq, Eq)]
pub struct ResourceRequestRecord {
    /// Name the engine asked for.
    pub name: String,
    /// Length of the bytes served, or `None` when the request failed.
    pub byte_len: Option<usize>,
}

/// The record failed and was not an optional probe.
pub open spec fn is_required_failure(r: ResourceRequestRecord) -> bool {
    r.byte_len is None && !is_optional_probe(r.name@)
}

/// Index of the first recorded request that failed and was not an optional probe.
pub fn first_failed_resource_request(records: &[ResourceRequestRecord]) -> (r: Option<usize>)
    ensures
        match r {
            Some(i) => i < records@.len() && is_required_failure(records@[i as int]) && forall|j: int|
                0 <= j < i ==> !is_required_failure(#[trigger] records@[j]),
            None => forall|j: int| 0 <= j < records@.len() ==> !is_required_failure(#[trigger] records@[j]),
        },
{
    let mut i: usize = 0;
    while i < records.len()
        invariant
            0 <= i <= records@.len(),
            forall|j: int| 0 <= j < i ==> !is_required_failure(#[trigger] records@[j]),
        decreases records@.len() - i,
    {
        if records[i].byte_len.is_none() && !is_optional_generated_resource_probe(records[i].name.as_str()) {
            return Some(i);
        }
        i += 1;
    }
    None
}

/// The resources a format preloads into the engine: every TeX input and package it captured.
pub open spec fn preload_resources(state: FormatStateModel) -> Seq<CapturedModel> {
    match state {
        FormatStateModel::Structured(s) => s.resources,
        _ => Seq::empty(),
    }
}

/// The resources a format preloads into the engine, in capture order.
pub fn generated_format_preload_resources(format: &FormatImage) -> (r: &[FormatResource])
    ensures
        captured_views(r@) == preload_resources(format@.state),
{
    match &format.state {
        FormatState::Structured(snapshot) => snapshot.resources.as_slice(),
        _ => {
            let empty: &[FormatResource] = &[];
            assert(captured_views(empty@) =~= Seq::<CapturedModel>::empty());
            empty
        },
    }
}

/// Whether a format has anything to preload into the engine.
pub fn format_has_generated_preload_resources(format: &FormatImage) -> (r: bool)
    ensures
        r == (preload_resources(format@.state).len() > 0),
{
    generated_format_preload_resources(format).len() > 0
}

/// The request kind a captured format resource answers.
pub open spec fn captured_request_kind(kind: FormatResourceKind) -> ResourceKind {
    match kind {
        FormatResourceKind::TexInput => ResourceKind::TexInput,
        FormatResourceKind::Package => ResourceKind::Package,
    }
}

/// Maps a captured format resource's role to the request kind it answers.
pub fn format_resource_kind_to_resource_kind(kind: FormatResourceKind) -> (r: Option<ResourceKind>)
    ensures
        r == Some(captured_request_kind(kind)),
{
    match kind {
        FormatResourceKind::TexInput => Some(ResourceKind::TexInput),
        FormatResourceKind::Package => Some(ResourceKind::Package),
    }
}

/// Matches captured resources that answer a request of `kind` under `name`.
pub open spec fn captured_answers(kind: ResourceKind, name: Seq<char>) -> spec_fn(CapturedModel) -> bool {
    |c: CapturedModel| captured_request_kind(c.1) == kind && c.0 == name
}

/// The resource a format captured for a request, if any.
pub open spec fn cached_answer(state: FormatStateModel, request: RequestModel) -> Option<ResourceModel> {
    match find_first(
        preload_resources(state),
        captured_answers(request.kind, canonical_name_of(request)),
    ) {
        Some(c) => Some(ResourceModel { canonical_name: c.0, kind: request.kind, bytes: c.2 }),
        None => None,
    }
}

/// Looks up the bytes a format captured for a request.
pub fn cached_format_resource(format: &FormatImage, request: &ResourceRequest) -> (r: Option<Resource>)
    ensures
        match r {
            Some(res) => cached_answer(format@.state, request@) == Some(res@),
            None => cached_answer(format@.state, request@) is None,
        },
{
    let resources = generated_format_preload_resources(format);
    let name = request.canonical_name();
    let ghost views = captured_views(resources@);
    let ghost p = captured_answers(request.kind, name@);
    let mut i: usize = 0;
    while i < resources.len()
        invariant
            0 <= i <= resources@.len(),
            views == captured_views(resources@),
            views == preload_resources(format@.state),
            p == captured_answers(request.kind, name@),
            name@ == canonical_name_of(request@),
            forall|j: int| 0 <= j < i ==> !p(#[trigger] views[j]),
        decreases resources@.len() - i,
    {
        let resource = &resources[i];
        let kind = format_resource_kind_to_resource_kind(resource.kind);
        if kind == Some(request.kind) && str_eq(resource.name.as_str(), name.as_str()) {
            proof {
                assert(p(views[i as int]));
                lemma_first_index_is(views, p, i as int);
            }
            return Some(
                Resource {
                    canonical_name: resource.name.clone(),
                    kind: request.kind,
                    bytes: bytes_to_vec(resource.bytes.as_slice()),
                },
            );
        }
        i += 1;
    }
    proof {
        lemma_first_index_is(views, p, i as int);
    }
    None
}

/// A cached answer is a resource the format captured: the first captured entry of the
/// request's kind under the request's canonical name, served with exactly the bytes captured
/// for it; with no such entry there is no cached answer.
pub proof fn lemma_cached_answer_is_captured(state: FormatStateModel, request: RequestModel)
    ensures
        ({
            let captured = preload_resources(state);
            let name = canonical_name_of(request);
            match cached_answer(state, request) {
                Some(res) => exists|j: int|
                    0 <= j < captured.len() && captured_request_kind((#[trigger] captured[j]).1) == request.kind
                        && captured[j].0 == name && res == (ResourceModel {
                        canonical_name: name,
                        kind: request.kind,
                        bytes: captured[j].2,
                    }) && forall|i: int|
                        0 <= i < j ==> !(captured_request_kind(captured[i].1) == request.kind
                            && captured[i].0 == name),
                None => forall|j: int|
                    0 <= j < captured.len() ==> !(captured_request_kind((#[trigger] captured[j]).1)
                        == request.kind && captured[j].0 == name),
            }
        }),
{
    let captured = preload_resources(state);
    let p = captured_answers(request.kind, canonical_name_of(request));
    crate::seqs::lemma_first_index(captured, p);
    let k = crate::seqs::first_index(captured, p);
    if k < captured.len() {
        assert(p(captured[k]));
        assert forall|i: int| 0 <= i < k implies !(captured_request_kind(captured[i].1) == request.kind
            && captured[i].0 == canonical_name_of(request)) by {
            assert(!p(captured[i]));
        }
    } else {
        assert forall|j: int| 0 <= j < captured.len() implies !(captured_request_kind(
            (#[trigger] captured[j]).1,
        ) == request.kind && captured[j].0 == canonical_name_of(request)) by {
            assert(!p(captured[j]));
        }
    }
}

/// A format built over a provider serves each file it preloaded with the bytes the provider
/// gave for it: when read `i` of the build answered under a name that no earlier read of the
/// same kind carried, a request of that kind under that name is answered from the format
/// with exactly those bytes.
pub proof fn lemma_built_format_serves_read_bytes<R: ResourceProvider>(
    resources: &R,
    init: crate::format::InitModel,
    rs: Seq<ResourceModel>,
    request: RequestModel,
    i: int,
)
    requires
        crate::format::reads_succeeded(resources, crate::format::preload_requests(init), rs),
        0 <= i < rs.len(),
        request.kind == (if i < init.tex_inputs.len() {
            ResourceKind::TexInput
        } else {
            ResourceKind::Package
        }),
        canonical_name_of(request) == rs[i].canonical_name,
        forall|j: int|
            0 <= j < i && (j < init.tex_inputs.len() <==> i < init.tex_inputs.len()) ==> (#[trigger] rs[j]).canonical_name
                != rs[i].canonical_name,
    ensures
        resources.answers(crate::format::preload_requests(init)[i], Ok(rs[i])),
        cached_answer(crate::format::built_image(init, rs).state, request) == Some(
            ResourceModel { canonical_name: rs[i].canonical_name, kind: request.kind, bytes: rs[i].bytes },
        ),
{
    let n = init.tex_inputs.len() as int;
    let captured = preload_resources(crate::format::built_image(init, rs).state);
    assert(captured == crate::format::captured_of(rs, n));
    let p = captured_answers(request.kind, canonical_name_of(request));
    assert(p(captured[i]));
    assert forall|j: int| 0 <= j < i implies !p(#[trigger] captured[j]) by {
        assert(captured[j] == crate::format::captured_of(rs, n)[j]);
        if j < n <==> i < n {
            assert(rs[j].canonical_name != rs[i].canonical_name);
        }
    }
    lemma_first_index_is(captured, p, i);
}

/// Serves TeX inputs and packages from a format's captured bytes, other requests from a
/// resource provider.
pub struct CachedGeneratedFormatResources<'a, R> {
    /// The format whose captured resources are served first.
    pub format: &'a FormatImage,
    /// The provider for everything the format did not capture.
    pub resources: &'a R,
}

impl<'a, R: ResourceProvider> ResourceProvider for CachedGeneratedFormatResources<'a, R> {
    open spec fn answers(&self, request: RequestModel, result: Result<ResourceModel, ErrorModel>) -> bool {
        if (request.kind == ResourceKind::TexInput || request.kind == ResourceKind::Package)
            && cached_answer(self.format@.state, request) is Some {
            result == Ok::<ResourceModel, ErrorModel>(cached_answer(self.format@.state, request)->0)
        } else {
            self.resources.answers(request, result)
        }
    }

    fn read_request(&self, request: &ResourceRequest) -> (r: Result<Resource, ResourceError>) {
        if request.kind == ResourceKind::TexInput || request.kind == ResourceKind::Package {
            if let Some(resource) = cached_format_resource(self.format, request) {
                return Ok(resource);
            }
        }
        self.resources.read_request(request)
    }
}

/// What the engine reported after running one preloaded format resource.
#[derive(Clone, Debug, PartialEq, Eq)]
pub struct PreloadRun {
    /// The engine accepted the resource as its primary input.
    pub accepted: bool,
    /// Format initialization ran to completion.
    pub completed: bool,
    /// The first recorded request that failed and was not an optional probe.
    pub failed_request: Option<String>,
    /// The engine transcript.
    pub transcript: Vec<u8>,
    /// Abort status, when the engine aborted.
    pub abort_status: Option<i32>,
}

/// The verdict on one preload run, in the order the checks are made: a rejected input, a
/// failed resource request, a TeX error in the transcript, and an incomplete run (reported
/// through the transcript's last error line when there is one).
pub open spec fn preload_verdict(name: Seq<char>, run: PreloadRun) -> Option<(u8, Seq<char>)> {
    if !run.accepted {
        Some((0, Seq::empty()))
    } else if run.failed_request is Some {
        Some((1, run.failed_request->0@))
    } else if last_error_report(run.transcript@) is Some {
        Some((2, "generated TeX engine reported an error: "@ + decode_utf8(last_error_report(run.transcript@)->0)))
    } else if !run.completed {
        if last_error_line(run.transcript@) is Some {
            Some((2, "generated TeX engine aborted after error: "@ + decode_utf8(last_error_line(run.transcript@)->0)))
        } else {
            Some((3, Seq::empty()))
        }
    } else {
        None
    }
}

/// Decides what one preload run means for the engine build.
pub fn preload_outcome(name: &str, run: &PreloadRun) -> (r: Result<(), FormatPreloadError>)
    ensures
        match preload_verdict(name@, *run) {
            None => r is Ok,
            Some((code, text)) => match r {
                Ok(()) => false,
                Err(FormatPreloadError::InputRejected { name: n }) => code == 0 && n@ == name@,
                Err(FormatPreloadError::Resource { name: n, resource }) => code == 1 && n@ == name@
                    && resource@ == text,
                Err(FormatPreloadError::Transcript { name: n, message }) => code == 2 && n@ == name@
                    && message@ == text,
                Err(FormatPreloadError::Aborted { name: n, status }) => code == 3 && n@ == name@
                    && status == run.abort_status,
            },
        },
{
    if !run.accepted {
        return Err(FormatPreloadError::InputRejected { name: name.to_owned() });
    }
    if let Some(request) = &run.failed_request {
        return Err(FormatPreloadError::Resource { name: name.to_owned(), resource: request.clone() });
    }
    if let Some(message) = generated_transcript_error(run.transcript.as_slice()) {
        return Err(FormatPreloadError::Transcript { name: name.to_owned(), message });
    }
    if !run.completed {
        if let Some(message) = generated_transcript_abort_error(run.transcript.as_slice()) {
            return Err(FormatPreloadError::Transcript { name: name.to_owned(), message });
        }
        return Err(FormatPreloadError::Aborted { name: name.to_owned(), status: run.abort_status });
    }
    Ok(())
}

/// The input the engine runs to preload a captured resource: its bytes followed by `\dump`.
pub fn generated_preload_input(resource: &FormatResource) -> (r: Vec<u8>)
    ensures
        r@ == resource.bytes@ + seq![0x5cu8, 0x64u8, 0x75u8, 0x6du8, 0x70u8],
{
    let mut bytes = bytes_to_vec(resource.bytes.as_slice());
    let finalizer: Vec<u8> = vec![0x5cu8, 0x64u8, 0x75u8, 0x6du8, 0x70u8];
    extend_bytes(&mut bytes, finalizer.as_slice());
    bytes
}

/// What the engine reported after typesetting one fragment.
#[derive(Clone, Debug)]
pub struct LayoutRun {
    /// The engine accepted the fragment source as its primary input.
    pub accepted: bool,
    /// The main control loop ran to the end.
    pub ran_main_control: bool,
    /// The TeX error message the engine captured, when it stopped on one.
    pub last_error_message: Option<String>,
    /// Abort status, when the engine aborted.
    pub abort_status: Option<i32>,
    /// Number of resource requests the run made.
    pub resource_requests: usize,
    /// The engine transcript.
    pub transcript: Vec<u8>,
    /// Handle of the captured fragment root, when one was captured.
    pub captured_root: Option<usize>,
}

/// Decides the result of typesetting one fragment from what the engine reported: rejected
/// input, a stopped run (with its TeX error or abort status), too many resource requests, a
/// TeX error in the transcript, no captured root, a root that lowers to nothing, and too
/// many layout nodes are errors, in that order; otherwise the lowered fragment.
pub fn layout_outcome(run: &LayoutRun, store: &NodeStore, metadata: FragmentMetadata, limits: HostLimits) -> (r: Result<Fragment, EngineError>)
    ensures
        !run.accepted ==> (r matches Err(EngineError::Layout { message }) && message@
            == "generated TeX engine rejected primary input"@),
        run.accepted && !run.ran_main_control ==> (r matches Err(EngineError::Layout { message })
            && message@ == match run.last_error_message {
            Some(e) => "generated TeX engine reported an error: "@ + e@,
            None => crate::session::abort_message(run.abort_status),
        }),
        run.accepted && run.ran_main_control && run.resource_requests > limits.max_resource_requests ==> r == Err::<Fragment, EngineError>(
            EngineError::Limit(LimitError::TooManyResourceRequests { actual: run.resource_requests, limit: limits.max_resource_requests }),
        ),
        run.accepted && run.ran_main_control && run.resource_requests <= limits.max_resource_requests
            && last_error_report(run.transcript@) is Some ==> (r matches Err(EngineError::Layout { message })
            && message@ == "generated TeX engine reported an error: "@ + decode_utf8(last_error_report(run.transcript@)->0)),
        run.accepted && run.ran_main_control && run.resource_requests <= limits.max_resource_requests
            && last_error_report(run.transcript@) is None ==> match run.captured_root {
                None => r matches Err(EngineError::Layout { message }) && message@ == "generated TeX engine did not capture a fragment root"@,
                Some(root) => if !(root < store.nodes@.len() && lowers_to_node(store.nodes@[root as int].kind)) {
                    r matches Err(EngineError::Layout { message }) && message@ == "generated TeX engine could not convert captured fragment root"@
                } else {
                    match r {
                        Ok(f) => f.metadata == metadata && lowered_from(f, *store, root) && f.nodes@.len() <= limits.max_layout_nodes,
                        Err(e) => e matches EngineError::Limit(LimitError::TooManyLayoutNodes { actual, limit }) && limit == limits.max_layout_nodes && actual > limit,
                    }
                },
            },
{
    if !run.accepted {
        return Err(EngineError::Layout { message: "generated TeX engine rejected primary input".to_owned() });
    }
    if !run.ran_main_control {
        let message = match &run.last_error_message {
            Some(error) => String::from_str("generated TeX engine reported an error: ").concat(error.as_str()),
            None => generated_abort_error(run.abort_status),
        };
        return Err(EngineError::Layout { message });
    }
    match check_resource_request_limit(run.resource_requests, limits) {
        Ok(()) => {},
        Err(e) => return Err(e),
    }
    if let Some(message) = generated_transcript_error(run.transcript.as_slice()) {
        return Err(EngineError::Layout { message });
    }
    let root = match run.captured_root {
        Some(r) => r,
        None => return Err(EngineError::Layout { message: "generated TeX engine did not capture a fragment root".to_owned() }),
    };
    let fragment = match generated_node_to_fragment(store, root, metadata) {
        Some(f) => f,
        None => return Err(
            EngineError::Layout { message: "generated TeX engine could not convert captured fragment root".to_owned() },
        ),
    };
    match check_layout_node_limit(fragment.nodes.len(), limits) {
        Ok(()) => {},
        Err(e) => return Err(e),
    }
    Ok(fragment)
}

} // verus!
