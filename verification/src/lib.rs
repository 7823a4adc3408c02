//! Renderer neutral TeX layout library: layout IR, formats, engine profiles and resources.
use vstd::prelude::*;

pub mod emit;
pub mod font;
pub mod format;
pub mod frontends;
pub mod generated;
pub mod generated_fonts;
pub mod ir;
pub mod lowering;
pub mod package;
pub mod platform;
pub mod primitive;
pub mod profile;
pub mod render;
pub mod resource;
pub mod resource_font;
pub mod seqs;
pub mod session;
pub mod shaping;
pub mod svg;
pub mod text;
pub mod texmf;
pub mod transcript;

pub use emit::{EmitNode, IrEmitter};
pub use format::{
    FormatImage, FormatInitError, FormatInitializer, FormatPackage, FormatResource,
    FormatResourceKind, FormatSnapshot, FormatState, MacroDefinition, RegisterSnapshot,
    SessionState,
};
pub use generated::{GeneratedPlatformAdapter, GeneratedResourceProvider, GeneratedSourceSpan};
pub use generated_fonts::GeneratedFontSystemAdapter;
pub use lowering::{generated_node_to_fragment, GeneratedLayoutCapture};
pub use platform::{
    CollectingDiagnosticSink, ConfigurablePlatform, Diagnostic, DiagnosticSeverity, DiagnosticSink,
    HostClock, HostLimits, LimitError, LinebreakRequest, NoopDiagnosticSink, NoopPlatform,
    Platform,
};
pub use primitive::{PrimitiveEntry, PrimitiveRegistry, PrimitiveRegistryError};
pub use profile::{
    CatcodeDefaults, EngineKind, EnginePatch, EnginePatches, EngineProfile, EngineSemantics,
    EtexProfile, ExtensionPolicy, FontSemantics, MathcodeDefaults, PrimitiveKind, PrimitiveOpcode,
    PrimitiveSpec, ProfileId, RegisterDefaults, TexCore, TexProfile, XetexProfile,
};
pub use resource::{
    InMemoryResourceProvider, OverlayResourceProvider, ResolverResourceProvider, Resource,
    ResourceBundle, ResourceError, ResourceKind, ResourceProvider,
    ResourceRequest as ProviderResourceRequest, ResourceRequestSource,
};
pub use resource_font::ResourceFontSystem;
pub use session::{
    BuildError, Engine, EngineBuilder, EngineError, EngineSession, FormatPreloadError,
    FragmentInput,
};
pub use texmf::TexmfResources;

verus! {

} // verus!
