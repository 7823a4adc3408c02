//! Engine profile definitions: catcodes, primitives, semantics, and patches.
use vstd::prelude::*;

use crate::seqs::{find_first, lemma_first_index_is};
use crate::text::str_eq;

verus! {

/// Opaque identifier string for an engine profile.
#[derive(Clone, Copy, Debug, PartialEq, Eq, Hash)]
pub struct ProfileId(pub &'static str);

/// Identifies which TeX engine variant is active.
#[derive(Clone, Copy, Debug, PartialEq, Eq, Structural)]
#[non_exhaustive]
pub enum EngineKind {
    /// Plain TeX baseline engine.
    Tex,
    /// eTeX extended engine.
    Etex,
    /// XeTeX Unicode and font extensions.
    Xetex,
}

/// Integer opcode used to dispatch a primitive in the generated engine.
#[derive(Clone, Copy, Debug, Default, PartialEq, Eq, PartialOrd, Ord, Hash, Structural)]
pub struct PrimitiveOpcode(pub u32);

/// Coarse category of a primitive's runtime behavior.
#[derive(Clone, Copy, Debug, Default, PartialEq, Eq, Structural)]
#[non_exhaustive]
pub enum PrimitiveKind {
    /// Primitive that expands during tokenization.
    Expandable,
    /// Primitive that performs a variable or register assignment.
    Assignment,
    /// Math mode primitive.
    Math,
    /// Box and list construction.
    Layout,
    /// Resource loading such as \\input.
    Resource,
    /// XeTeX extension primitive.
    Extension,
    /// Catch-all for primitives that do not fit any other category.
    #[default]
    Other,
}

/// Primitive descriptor, behavior is in the engine core.
#[derive(Clone, Copy, Debug, PartialEq, Eq)]
pub struct PrimitiveSpec {
    /// Control sequence name without the leading backslash.
    pub name: &'static str,
    /// Opcode used for dispatch in the generated engine.
    pub opcode: PrimitiveOpcode,
    /// Coarse category of this primitive's runtime behavior.
    pub kind: PrimitiveKind,
}

impl View for PrimitiveSpec {
    type V = (Seq<char>, PrimitiveOpcode, PrimitiveKind);

    open spec fn view(&self) -> (Seq<char>, PrimitiveOpcode, PrimitiveKind) {
        (self.name@, self.opcode, self.kind)
    }
}

/// The plain contents of a sequence of primitive specs.
pub open spec fn spec_views(s: Seq<PrimitiveSpec>) -> Seq<(Seq<char>, PrimitiveOpcode, PrimitiveKind)> {
    s.map_values(|p: PrimitiveSpec| p@)
}

/// Default category code configuration for a profile.
#[derive(Clone, Copy, Debug, Default, PartialEq, Eq, Structural)]
pub struct CatcodeDefaults {
    /// Whether scalar Unicode code points above U+00FF are valid character tokens.
    pub unicode_scalars: bool,
}

/// Default math code configuration for a profile.
#[derive(Clone, Copy, Debug, Default, PartialEq, Eq, Structural)]
pub struct MathcodeDefaults {
    /// Whether Unicode math code points are used instead of classic 15-bit codes.
    pub unicode_math: bool,
}

/// Default register counts for count, dimension, skip, and token registers.
#[derive(Clone, Copy, Debug, PartialEq, Eq, Structural)]
pub struct RegisterDefaults {
    /// Number of count registers available.
    pub count_registers: u16,
    /// Number of dimension registers available.
    pub dimension_registers: u16,
    /// Number of skip registers available.
    pub skip_registers: u16,
    /// Number of token list registers available.
    pub token_registers: u16,
}

/// 256 registers of each kind.
pub open spec fn classic_registers() -> RegisterDefaults {
    RegisterDefaults {
        count_registers: 256,
        dimension_registers: 256,
        skip_registers: 256,
        token_registers: 256,
    }
}

/// 32768 registers of each kind.
pub open spec fn extended_registers() -> RegisterDefaults {
    RegisterDefaults {
        count_registers: 32768,
        dimension_registers: 32768,
        skip_registers: 32768,
        token_registers: 32768,
    }
}

impl Default for RegisterDefaults {
    /// Classic TeX register counts.
    fn default() -> (r: Self)
        ensures
            r == classic_registers(),
    {
        Self::tex()
    }
}

impl RegisterDefaults {
    /// 256 registers each, matching classic TeX limits.
    pub fn tex() -> (r: Self)
        ensures
            r == classic_registers(),
    {
        RegisterDefaults {
            count_registers: 256,
            dimension_registers: 256,
            skip_registers: 256,
            token_registers: 256,
        }
    }

    /// 32768 registers each, matching eTeX and XeTeX limits.
    pub fn extended() -> (r: Self)
        ensures
            r == extended_registers(),
    {
        RegisterDefaults {
            count_registers: 32_768,
            dimension_registers: 32_768,
            skip_registers: 32_768,
            token_registers: 32_768,
        }
    }
}

/// Font loading and shaping capabilities for a profile.
#[derive(Clone, Copy, Debug, Default, PartialEq, Eq, Structural)]
pub struct FontSemantics {
    /// Whether Unicode-indexed fonts are supported.
    pub unicode_fonts: bool,
    /// Whether shaped text output via a text shaper is enabled.
    pub shaped_text: bool,
    /// Whether Unicode math fonts are supported.
    pub unicode_math_fonts: bool,
    /// Engine may call host platform font assembly hooks.
    pub host_native_fonts: bool,
}

impl FontSemantics {
    /// Returns plain TeX font semantics with all capabilities disabled.
    pub fn tex() -> (r: Self)
        ensures
            r == (FontSemantics {
                unicode_fonts: false,
                shaped_text: false,
                unicode_math_fonts: false,
                host_native_fonts: false,
            }),
    {
        FontSemantics {
            unicode_fonts: false,
            shaped_text: false,
            unicode_math_fonts: false,
            host_native_fonts: false,
        }
    }
}

/// Which TeX extension families the engine activates.
#[derive(Clone, Copy, Debug, Default, PartialEq, Eq, Structural)]
pub struct ExtensionPolicy {
    /// Whether eTeX extensions are active.
    pub etex: bool,
    /// Whether XeTeX extensions are active.
    pub xetex: bool,
}

impl ExtensionPolicy {
    /// Plain TeX: no extension families.
    pub fn tex() -> (r: Self)
        ensures
            r == (ExtensionPolicy { etex: false, xetex: false }),
    {
        ExtensionPolicy { etex: false, xetex: false }
    }
}

/// An individual capability patch that can be layered onto a `TexCore`.
#[derive(Clone, Copy, Debug, PartialEq, Eq, Structural)]
#[non_exhaustive]
pub enum EnginePatch {
    /// eTeX register and primitive extensions.
    Etex,
    /// XeTeX Unicode and font extensions, which also imply eTeX behavior.
    Xetex,
}

/// Bit-set recording which engine patches are active on a core.
#[derive(Clone, Copy, Debug, Default, PartialEq, Eq, Structural)]
pub struct EnginePatches {
    etex: bool,
    xetex: bool,
}

impl View for EnginePatches {
    /// Whether the eTeX and the XeTeX patch are present.
    type V = (bool, bool);

    closed spec fn view(&self) -> (bool, bool) {
        (self.etex, self.xetex)
    }
}

/// The patch set after adding a patch: XeTeX implies eTeX.
pub open spec fn patches_with(p: (bool, bool), patch: EnginePatch) -> (bool, bool) {
    match patch {
        EnginePatch::Etex => (true, p.1),
        EnginePatch::Xetex => (true, true),
    }
}

/// Whether a patch set contains a patch.
pub open spec fn patches_contain(p: (bool, bool), patch: EnginePatch) -> bool {
    match patch {
        EnginePatch::Etex => p.0,
        EnginePatch::Xetex => p.1,
    }
}

impl EnginePatches {
    /// Returns an empty patch set with no patches active.
    pub fn empty() -> (r: Self)
        ensures
            r@ == (false, false),
    {
        EnginePatches { etex: false, xetex: false }
    }

    /// Returns a new `EnginePatches` with the given patch added.
    pub fn with(self, patch: EnginePatch) -> (r: Self)
        ensures
            r@ == patches_with(self@, patch),
    {
        let mut out = self;
        match patch {
            EnginePatch::Etex => {
                out.etex = true;
            },
            EnginePatch::Xetex => {
                out.etex = true;
                out.xetex = true;
            },
        }
        out
    }

    /// Derives an `EnginePatches` value from an `ExtensionPolicy`.
    pub fn from_extension_policy(policy: ExtensionPolicy) -> (r: Self)
        ensures
            r@ == (policy.etex || policy.xetex, policy.xetex),
    {
        EnginePatches { etex: policy.etex || policy.xetex, xetex: policy.xetex }
    }

    /// Returns `true` if the given patch is present in this set.
    pub fn contains(&self, patch: EnginePatch) -> (r: bool)
        ensures
            r == patches_contain(self@, patch),
    {
        match patch {
            EnginePatch::Etex => self.etex,
            EnginePatch::Xetex => self.xetex,
        }
    }
}

/// Which built-in primitive table a core exposes.
#[derive(Clone, Copy, Debug, PartialEq, Eq, Structural)]
pub enum PrimitiveTable {
    /// The shared TeX core primitives.
    Tex,
    /// TeX core plus eTeX primitives.
    Etex,
    /// eTeX plus XeTeX primitives.
    Xetex,
}

/// The primitives of the shared TeX core.
pub open spec fn tex_core_primitive_views() -> Seq<(Seq<char>, PrimitiveOpcode, PrimitiveKind)> {
    seq![
        ("relax"@, PrimitiveOpcode(0), PrimitiveKind::Expandable),
        ("input"@, PrimitiveOpcode(1), PrimitiveKind::Resource),
        ("hbox"@, PrimitiveOpcode(2), PrimitiveKind::Layout),
        ("vbox"@, PrimitiveOpcode(3), PrimitiveKind::Layout),
    ]
}

/// The primitives of a table.
pub open spec fn table_primitive_views(table: PrimitiveTable) -> Seq<
    (Seq<char>, PrimitiveOpcode, PrimitiveKind),
> {
    match table {
        PrimitiveTable::Tex => tex_core_primitive_views(),
        PrimitiveTable::Etex => tex_core_primitive_views().push(
            ("expanded"@, PrimitiveOpcode(100), PrimitiveKind::Expandable),
        ),
        PrimitiveTable::Xetex => tex_core_primitive_views().push(
            ("expanded"@, PrimitiveOpcode(100), PrimitiveKind::Expandable),
        ).push(("XeTeXrevision"@, PrimitiveOpcode(200), PrimitiveKind::Extension)).push(
            ("font"@, PrimitiveOpcode(201), PrimitiveKind::Assignment),
        ),
    }
}

/// Builds the primitive list of a table.
pub fn table_primitives(table: PrimitiveTable) -> (r: Vec<PrimitiveSpec>)
    ensures
        spec_views(r@) == table_primitive_views(table),
{
    let mut out: Vec<PrimitiveSpec> = Vec::new();
    out.push(PrimitiveSpec { name: "relax", opcode: PrimitiveOpcode(0), kind: PrimitiveKind::Expandable });
    out.push(PrimitiveSpec { name: "input", opcode: PrimitiveOpcode(1), kind: PrimitiveKind::Resource });
    out.push(PrimitiveSpec { name: "hbox", opcode: PrimitiveOpcode(2), kind: PrimitiveKind::Layout });
    out.push(PrimitiveSpec { name: "vbox", opcode: PrimitiveOpcode(3), kind: PrimitiveKind::Layout });
    match table {
        PrimitiveTable::Tex => {},
        PrimitiveTable::Etex => {
            out.push(
                PrimitiveSpec {
                    name: "expanded",
                    opcode: PrimitiveOpcode(100),
                    kind: PrimitiveKind::Expandable,
                },
            );
        },
        PrimitiveTable::Xetex => {
            out.push(
                PrimitiveSpec {
                    name: "expanded",
                    opcode: PrimitiveOpcode(100),
                    kind: PrimitiveKind::Expandable,
                },
            );
            out.push(
                PrimitiveSpec {
                    name: "XeTeXrevision",
                    opcode: PrimitiveOpcode(200),
                    kind: PrimitiveKind::Extension,
                },
            );
            out.push(
                PrimitiveSpec { name: "font", opcode: PrimitiveOpcode(201), kind: PrimitiveKind::Assignment },
            );
        },
    }
    assert(spec_views(out@) =~= table_primitive_views(table));
    out
}

/// The plain settings of a core.
pub struct CoreModel {
    pub profile: ProfileId,
    pub kind: EngineKind,
    pub table: PrimitiveTable,
    pub catcodes: CatcodeDefaults,
    pub mathcodes: MathcodeDefaults,
    pub registers: RegisterDefaults,
    pub fonts: FontSemantics,
    pub extensions: ExtensionPolicy,
    pub patches: (bool, bool),
}

/// The plain TeX core for a profile, with no patches applied.
pub open spec fn base_core(profile: ProfileId) -> CoreModel {
    CoreModel {
        profile,
        kind: EngineKind::Tex,
        table: PrimitiveTable::Tex,
        catcodes: CatcodeDefaults { unicode_scalars: false },
        mathcodes: MathcodeDefaults { unicode_math: false },
        registers: classic_registers(),
        fonts: FontSemantics {
            unicode_fonts: false,
            shaped_text: false,
            unicode_math_fonts: false,
            host_native_fonts: false,
        },
        extensions: ExtensionPolicy { etex: false, xetex: false },
        patches: (false, false),
    }
}

/// A core after a patch: eTeX widens registers and primitives, XeTeX adds Unicode and fonts.
/// A patch never takes back what a recorded patch gave: eTeX on a XeTeX core leaves it a
/// XeTeX core, whose settings already include eTeX's.
pub open spec fn core_with_patch(c: CoreModel, patch: EnginePatch) -> CoreModel {
    let patches = patches_with(c.patches, patch);
    match patch {
        EnginePatch::Etex => if c.patches.1 {
            CoreModel { patches, ..c }
        } else {
            CoreModel {
            kind: EngineKind::Etex,
            table: PrimitiveTable::Etex,
            registers: extended_registers(),
            extensions: ExtensionPolicy { etex: true, ..c.extensions },
            patches,
            ..c
            }
        },
        EnginePatch::Xetex => CoreModel {
            kind: EngineKind::Xetex,
            table: PrimitiveTable::Xetex,
            catcodes: CatcodeDefaults { unicode_scalars: true },
            mathcodes: MathcodeDefaults { unicode_math: true },
            registers: extended_registers(),
            fonts: FontSemantics {
                unicode_fonts: true,
                shaped_text: true,
                unicode_math_fonts: true,
                host_native_fonts: false,
            },
            extensions: ExtensionPolicy { etex: true, xetex: true },
            patches,
            ..c
        },
    }
}

/// A core carrying the XeTeX patch is a XeTeX core with the XeTeX primitives, and applying
/// any further patch keeps it so: a patch never drops what a recorded patch gave.
pub proof fn lemma_xetex_patch_is_kept(c: CoreModel, patch: EnginePatch)
    requires
        c.patches.1 ==> c.kind == EngineKind::Xetex && c.table == PrimitiveTable::Xetex,
    ensures
        c.patches.1 ==> core_with_patch(c, patch).patches.1,
        core_with_patch(c, patch).patches.1 ==> core_with_patch(c, patch).kind == EngineKind::Xetex
            && core_with_patch(c, patch).table == PrimitiveTable::Xetex,
{
}

/// The eTeX patch on a core that does not carry XeTeX gives it the TeX core primitives and
/// one more, `\expanded` (opcode 100, expandable), which plain TeX lacks; the eTeX and XeTeX
/// profiles both expose it, and a semantics snapshot holding the eTeX profile's primitives
/// finds it by name.
pub proof fn lemma_etex_adds_expanded(c: CoreModel, s: EngineSemantics)
    requires
        !c.patches.1,
        spec_views(s.primitives@) == core_profile(etex_profile_core()).primitives,
    ensures
        ({
            let expanded = ("expanded"@, PrimitiveOpcode(100), PrimitiveKind::Expandable);
            let p = core_profile(core_with_patch(c, EnginePatch::Etex)).primitives;
            &&& p.len() == tex_core_primitive_views().len() + 1
            &&& p.subrange(0, tex_core_primitive_views().len() as int) == tex_core_primitive_views()
            &&& p.last() == expanded
            &&& core_profile(etex_profile_core()).primitives.contains(expanded)
            &&& core_profile(xetex_profile_core()).primitives.contains(expanded)
            &&& !core_profile(tex_profile_core()).primitives.contains(expanded)
            &&& exists|i: int| 0 <= i < s.primitives@.len() && (#[trigger] s.primitives@[i]).name@ == "expanded"@
        }),
{
    let expanded = ("expanded"@, PrimitiveOpcode(100), PrimitiveKind::Expandable);
    let core = tex_core_primitive_views();
    let p = core_profile(core_with_patch(c, EnginePatch::Etex)).primitives;
    assert(p.subrange(0, core.len() as int) =~= core);
    let e = core_profile(etex_profile_core()).primitives;
    assert(e[4] == expanded);
    let x = core_profile(xetex_profile_core()).primitives;
    assert(x[4] == expanded);
    assert(!core.contains(expanded)) by {
        if core.contains(expanded) {
            let i = choose|i: int| 0 <= i < core.len() && core[i] == expanded;
            assert(core[i].1 != PrimitiveOpcode(100));
        }
    }
    assert(s.primitives@.map_values(|q: PrimitiveSpec| q@)[4] == s.primitives@[4]@);
    assert(s.primitives@[4].name@ == "expanded"@);
}

/// The XeTeX patch gives a core the eTeX primitives and two more, `\XeTeXrevision`
/// (opcode 200, an extension) and `\font` (opcode 201, an assignment); patches only ever add
/// primitives, so each table starts with the one below it.
pub proof fn lemma_xetex_adds_its_primitives(c: CoreModel)
    ensures
        ({
            let etex = table_primitive_views(PrimitiveTable::Etex);
            let p = core_profile(core_with_patch(c, EnginePatch::Xetex)).primitives;
            &&& p == etex.push(("XeTeXrevision"@, PrimitiveOpcode(200), PrimitiveKind::Extension)).push(
                ("font"@, PrimitiveOpcode(201), PrimitiveKind::Assignment),
            )
            &&& core_profile(xetex_profile_core()).primitives == p
            &&& etex.subrange(0, tex_core_primitive_views().len() as int) == tex_core_primitive_views()
            &&& p.subrange(0, etex.len() as int) == etex
        }),
{
    let etex = table_primitive_views(PrimitiveTable::Etex);
    let p = core_profile(core_with_patch(c, EnginePatch::Xetex)).primitives;
    assert(etex.subrange(0, tex_core_primitive_views().len() as int) =~= tex_core_primitive_views());
    assert(p.subrange(0, etex.len() as int) =~= etex);
}

/// Engine core generated from the Web2C sources, with profile differences applied as patches.
#[derive(Clone, Copy, Debug, PartialEq, Eq)]
pub struct TexCore {
    profile: ProfileId,
    kind: EngineKind,
    table: PrimitiveTable,
    catcodes: CatcodeDefaults,
    mathcodes: MathcodeDefaults,
    registers: RegisterDefaults,
    fonts: FontSemantics,
    extensions: ExtensionPolicy,
    patches: EnginePatches,
}

impl View for TexCore {
    type V = CoreModel;

    closed spec fn view(&self) -> CoreModel {
        CoreModel {
            profile: self.profile,
            kind: self.kind,
            table: self.table,
            catcodes: self.catcodes,
            mathcodes: self.mathcodes,
            registers: self.registers,
            fonts: self.fonts,
            extensions: self.extensions,
            patches: self.patches@,
        }
    }
}

impl TexCore {
    /// Constructs a plain TeX `TexCore` with no patches applied.
    pub fn tex(profile: ProfileId) -> (r: Self)
        ensures
            r@ == base_core(profile),
    {
        TexCore {
            profile,
            kind: EngineKind::Tex,
            table: PrimitiveTable::Tex,
            catcodes: CatcodeDefaults { unicode_scalars: false },
            mathcodes: MathcodeDefaults { unicode_math: false },
            registers: RegisterDefaults::tex(),
            fonts: FontSemantics::tex(),
            extensions: ExtensionPolicy::tex(),
            patches: EnginePatches::empty(),
        }
    }

    /// Returns a new `TexCore` with the given patch applied, updating all dependent fields.
    pub fn with_patch(self, patch: EnginePatch) -> (r: Self)
        ensures
            r@ == core_with_patch(self@, patch),
    {
        let mut out = self;
        let had_xetex = self.patches.contains(EnginePatch::Xetex);
        out.patches = out.patches.with(patch);
        match patch {
            EnginePatch::Etex => {
                if !had_xetex {
                    out.kind = EngineKind::Etex;
                    out.table = PrimitiveTable::Etex;
                    out.registers = RegisterDefaults::extended();
                    out.extensions = ExtensionPolicy { etex: true, xetex: out.extensions.xetex };
                }
            },
            EnginePatch::Xetex => {
                out.kind = EngineKind::Xetex;
                out.table = PrimitiveTable::Xetex;
                out.catcodes = CatcodeDefaults { unicode_scalars: true };
                out.mathcodes = MathcodeDefaults { unicode_math: true };
                out.registers = RegisterDefaults::extended();
                out.fonts =
                FontSemantics {
                    unicode_fonts: true,
                    shaped_text: true,
                    unicode_math_fonts: true,
                    host_native_fonts: false,
                };
                out.extensions = ExtensionPolicy { etex: true, xetex: true };
            },
        }
        out
    }

    /// Returns the profile identifier.
    pub fn profile(&self) -> (r: ProfileId)
        ensures
            r == self@.profile,
    {
        self.profile
    }

    /// Returns the engine kind.
    pub fn kind(&self) -> (r: EngineKind)
        ensures
            r == self@.kind,
    {
        self.kind
    }

    /// Returns the primitive list for this core.
    pub fn primitives(&self) -> (r: Vec<PrimitiveSpec>)
        ensures
            spec_views(r@) == table_primitive_views(self@.table),
    {
        table_primitives(self.table)
    }

    /// Returns the category code defaults.
    pub fn catcode_defaults(&self) -> (r: CatcodeDefaults)
        ensures
            r == self@.catcodes,
    {
        self.catcodes
    }

    /// Returns the math code defaults.
    pub fn mathcode_defaults(&self) -> (r: MathcodeDefaults)
        ensures
            r == self@.mathcodes,
    {
        self.mathcodes
    }

    /// Returns the register count defaults.
    pub fn register_defaults(&self) -> (r: RegisterDefaults)
        ensures
            r == self@.registers,
    {
        self.registers
    }

    /// Returns the font semantics.
    pub fn font_semantics(&self) -> (r: FontSemantics)
        ensures
            r == self@.fonts,
    {
        self.fonts
    }

    /// Returns the extension policy.
    pub fn extension_policy(&self) -> (r: ExtensionPolicy)
        ensures
            r == self@.extensions,
    {
        self.extensions
    }

    /// Returns the active patch flags.
    pub fn patches(&self) -> (r: EnginePatches)
        ensures
            r@ == self@.patches,
    {
        self.patches
    }

    /// Returns `true` if the given patch is active on this core.
    pub fn has_patch(&self, patch: EnginePatch) -> (r: bool)
        ensures
            r == patches_contain(self@.patches, patch),
    {
        self.patches.contains(patch)
    }
}

/// The settings an engine profile declares.
pub struct ProfileModel {
    pub id: ProfileId,
    pub kind: EngineKind,
    pub primitives: Seq<(Seq<char>, PrimitiveOpcode, PrimitiveKind)>,
    pub catcodes: CatcodeDefaults,
    pub mathcodes: MathcodeDefaults,
    pub registers: RegisterDefaults,
    pub fonts: FontSemantics,
    pub extensions: ExtensionPolicy,
}

/// The settings of a profile backed by a core.
pub open spec fn core_profile(c: CoreModel) -> ProfileModel {
    ProfileModel {
        id: c.profile,
        kind: c.kind,
        primitives: table_primitive_views(c.table),
        catcodes: c.catcodes,
        mathcodes: c.mathcodes,
        registers: c.registers,
        fonts: c.fonts,
        extensions: c.extensions,
    }
}

/// Trait implemented by each engine variant to declare its capabilities and defaults.
pub trait EngineProfile {
    /// The settings this profile declares; a profile that does not describe them leaves them
    /// unknown.
    open spec fn settings(&self) -> ProfileModel {
        vstd::pervasive::arbitrary()
    }

    /// Returns the unique identifier for this profile.
    fn id(&self) -> (r: ProfileId)
        ensures
            r == self.settings().id,
    ;

    /// Returns which TeX engine variant this profile represents.
    fn kind(&self) -> (r: EngineKind)
        ensures
            r == self.settings().kind,
    ;

    /// Returns the list of primitives available for this profile.
    fn primitives(&self) -> (r: Vec<PrimitiveSpec>)
        ensures
            spec_views(r@) == self.settings().primitives,
    ;

    /// Returns default category code settings for this profile.
    fn catcode_defaults(&self) -> (r: CatcodeDefaults)
        ensures
            r == self.settings().catcodes,
    ;

    /// Returns default math code settings for this profile.
    fn mathcode_defaults(&self) -> (r: MathcodeDefaults)
        ensures
            r == self.settings().mathcodes,
    ;

    /// Returns default register counts for this profile.
    fn register_defaults(&self) -> (r: RegisterDefaults)
        ensures
            r == self.settings().registers,
    ;

    /// Returns font capability settings for this profile.
    fn font_semantics(&self) -> (r: FontSemantics)
        ensures
            r == self.settings().fonts,
    ;

    /// Returns which extension families are active for this profile.
    fn extension_policy(&self) -> (r: ExtensionPolicy)
        ensures
            r == self.settings().extensions,
    ;
}

/// The core of the plain TeX profile.
pub open spec fn tex_profile_core() -> CoreModel {
    base_core(ProfileId("tex"))
}

/// The core of the eTeX profile.
pub open spec fn etex_profile_core() -> CoreModel {
    core_with_patch(base_core(ProfileId("etex")), EnginePatch::Etex)
}

/// The core of the XeTeX profile.
pub open spec fn xetex_profile_core() -> CoreModel {
    core_with_patch(
        core_with_patch(base_core(ProfileId("xetex")), EnginePatch::Etex),
        EnginePatch::Xetex,
    )
}

/// Plain TeX compatible baseline profile.
#[derive(Clone, Copy, Debug, Default)]
pub struct TexProfile;

impl TexProfile {
    /// Returns the `TexCore` for this profile.
    pub fn engine_core(&self) -> (r: TexCore)
        ensures
            r@ == tex_profile_core(),
    {
        TexCore::tex(ProfileId("tex"))
    }
}

impl EngineProfile for TexProfile {
    open spec fn settings(&self) -> ProfileModel {
        core_profile(tex_profile_core())
    }

    fn id(&self) -> (r: ProfileId) {
        self.engine_core().profile()
    }

    fn kind(&self) -> (r: EngineKind) {
        self.engine_core().kind()
    }

    fn primitives(&self) -> (r: Vec<PrimitiveSpec>) {
        self.engine_core().primitives()
    }

    fn catcode_defaults(&self) -> (r: CatcodeDefaults) {
        self.engine_core().catcode_defaults()
    }

    fn mathcode_defaults(&self) -> (r: MathcodeDefaults) {
        self.engine_core().mathcode_defaults()
    }

    fn register_defaults(&self) -> (r: RegisterDefaults) {
        self.engine_core().register_defaults()
    }

    fn font_semantics(&self) -> (r: FontSemantics) {
        self.engine_core().font_semantics()
    }

    fn extension_policy(&self) -> (r: ExtensionPolicy) {
        self.engine_core().extension_policy()
    }
}

/// eTeX profile used by modern LaTeX formats.
#[derive(Clone, Copy, Debug, Default)]
pub struct EtexProfile;

impl EtexProfile {
    /// Returns the `TexCore` for this profile with the eTeX patch applied.
    pub fn engine_core(&self) -> (r: TexCore)
        ensures
            r@ == etex_profile_core(),
    {
        TexCore::tex(ProfileId("etex")).with_patch(EnginePatch::Etex)
    }
}

impl EngineProfile for EtexProfile {
    open spec fn settings(&self) -> ProfileModel {
        core_profile(etex_profile_core())
    }

    fn id(&self) -> (r: ProfileId) {
        self.engine_core().profile()
    }

    fn kind(&self) -> (r: EngineKind) {
        self.engine_core().kind()
    }

    fn primitives(&self) -> (r: Vec<PrimitiveSpec>) {
        self.engine_core().primitives()
    }

    fn catcode_defaults(&self) -> (r: CatcodeDefaults) {
        self.engine_core().catcode_defaults()
    }

    fn mathcode_defaults(&self) -> (r: MathcodeDefaults) {
        self.engine_core().mathcode_defaults()
    }

    fn register_defaults(&self) -> (r: RegisterDefaults) {
        self.engine_core().register_defaults()
    }

    fn font_semantics(&self) -> (r: FontSemantics) {
        self.engine_core().font_semantics()
    }

    fn extension_policy(&self) -> (r: ExtensionPolicy) {
        self.engine_core().extension_policy()
    }
}

/// XeTeX profile.
#[derive(Clone, Copy, Debug, Default)]
pub struct XetexProfile;

impl XetexProfile {
    /// Returns the `TexCore` for this profile with eTeX and XeTeX patches applied.
    pub fn engine_core(&self) -> (r: TexCore)
        ensures
            r@ == xetex_profile_core(),
    {
        TexCore::tex(ProfileId("xetex")).with_patch(EnginePatch::Etex).with_patch(EnginePatch::Xetex)
    }
}

impl EngineProfile for XetexProfile {
    open spec fn settings(&self) -> ProfileModel {
        core_profile(xetex_profile_core())
    }

    fn id(&self) -> (r: ProfileId) {
        self.engine_core().profile()
    }

    fn kind(&self) -> (r: EngineKind) {
        self.engine_core().kind()
    }

    fn primitives(&self) -> (r: Vec<PrimitiveSpec>) {
        self.engine_core().primitives()
    }

    fn catcode_defaults(&self) -> (r: CatcodeDefaults) {
        self.engine_core().catcode_defaults()
    }

    fn mathcode_defaults(&self) -> (r: MathcodeDefaults) {
        self.engine_core().mathcode_defaults()
    }

    fn register_defaults(&self) -> (r: RegisterDefaults) {
        self.engine_core().register_defaults()
    }

    fn font_semantics(&self) -> (r: FontSemantics) {
        self.engine_core().font_semantics()
    }

    fn extension_policy(&self) -> (r: ExtensionPolicy) {
        self.engine_core().extension_policy()
    }
}

/// Owned copy of profile settings so shared TeX code can check the active profile at runtime.
#[derive(Clone, Debug, PartialEq, Eq)]
pub struct EngineSemantics {
    /// Profile identifier for this semantics snapshot.
    pub profile: ProfileId,
    /// Engine variant reported by the profile.
    pub kind: EngineKind,
    /// Primitives declared by the profile.
    pub primitives: Vec<PrimitiveSpec>,
    /// Category code defaults for this profile.
    pub catcodes: CatcodeDefaults,
    /// Math code defaults for this profile.
    pub mathcodes: MathcodeDefaults,
    /// Register count defaults for this profile.
    pub registers: RegisterDefaults,
    /// Font capability settings for this profile.
    pub fonts: FontSemantics,
    /// Extension families active for this profile.
    pub extensions: ExtensionPolicy,
    /// Computed patch flags derived from the extension policy.
    pub patches: EnginePatches,
}

/// Matches primitives with the given name.
pub open spec fn primitive_named(name: Seq<char>) -> spec_fn(PrimitiveSpec) -> bool {
    |p: PrimitiveSpec| p.name@ == name
}

impl EngineSemantics {
    /// Constructs an `EngineSemantics` snapshot from any `EngineProfile` implementor.
    pub fn from_profile<P: EngineProfile>(profile: &P) -> (r: Self)
        ensures
            r.profile == profile.settings().id,
            r.kind == profile.settings().kind,
            spec_views(r.primitives@) == profile.settings().primitives,
            r.catcodes == profile.settings().catcodes,
            r.mathcodes == profile.settings().mathcodes,
            r.registers == profile.settings().registers,
            r.fonts == profile.settings().fonts,
            r.extensions == profile.settings().extensions,
            r.patches@ == (profile.settings().extensions.etex || profile.settings().extensions.xetex,
            profile.settings().extensions.xetex),
    {
        let extensions = profile.extension_policy();
        EngineSemantics {
            profile: profile.id(),
            kind: profile.kind(),
            primitives: profile.primitives(),
            catcodes: profile.catcode_defaults(),
            mathcodes: profile.mathcode_defaults(),
            registers: profile.register_defaults(),
            fonts: profile.font_semantics(),
            extensions,
            patches: EnginePatches::from_extension_policy(extensions),
        }
    }

    /// Returns the slice of primitives registered for this profile.
    pub fn primitives(&self) -> (r: &[PrimitiveSpec])
        ensures
            r@ == self.primitives@,
    {
        self.primitives.as_slice()
    }

    /// Finds a `PrimitiveSpec` by control sequence name, or `None` if not registered.
    pub fn primitive(&self, name: &str) -> (r: Option<&PrimitiveSpec>)
        ensures
            r is Some <==> find_first(self.primitives@, primitive_named(name@)) is Some,
            r matches Some(p) ==> find_first(self.primitives@, primitive_named(name@)) == Some(*p),
    {
        let ghost p = primitive_named(name@);
        let mut i: usize = 0;
        while i < self.primitives.len()
            invariant
                0 <= i <= self.primitives@.len(),
                forall|j: int| 0 <= j < i ==> !p(#[trigger] self.primitives@[j]),
                p == primitive_named(name@),
            decreases self.primitives@.len() - i,
        {
            if str_eq(self.primitives[i].name, name) {
                proof {
                    lemma_first_index_is(self.primitives@, p, i as int);
                }
                return Some(&self.primitives[i]);
            }
            i += 1;
        }
        proof {
            lemma_first_index_is(self.primitives@, p, i as int);
        }
        None
    }

    /// Returns `true` if a primitive with the given name is registered for this profile.
    pub fn has_primitive(&self, name: &str) -> (r: bool)
        ensures
            r == (exists|i: int|
                0 <= i < self.primitives@.len() && (#[trigger] self.primitives@[i]).name@ == name@),
    {
        let found = self.primitive(name);
        proof {
            crate::seqs::lemma_first_index(self.primitives@, primitive_named(name@));
            if exists|i: int|
                0 <= i < self.primitives@.len() && (#[trigger] self.primitives@[i]).name@ == name@ {
                let i = choose|i: int|
                    0 <= i < self.primitives@.len() && (#[trigger] self.primitives@[i]).name@ == name@;
                assert((primitive_named(name@))(self.primitives@[i]));
            }
        }
        found.is_some()
    }

    /// Returns `true` if the given engine patch is active.
    pub fn has_patch(&self, patch: EnginePatch) -> (r: bool)
        ensures
            r == patches_contain(self.patches@, patch),
    {
        self.patches.contains(patch)
    }

    /// Returns `true` if the XeTeX patch is active.
    pub fn is_xetex(&self) -> (r: bool)
        ensures
            r == self.patches@.1,
    {
        self.has_patch(EnginePatch::Xetex)
    }
}

} // verus!
