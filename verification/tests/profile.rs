use mathtex::profile::{
    EngineKind, EnginePatch, EngineProfile, EngineSemantics, PrimitiveKind, ProfileId, TexCore,
    TexProfile, XetexProfile,
};

#[test]
fn xetex_profile_declares_unicode_font_and_extension_semantics() {
    let profile = XetexProfile;

    assert_eq!(profile.kind(), EngineKind::Xetex);
    assert!(profile.font_semantics().unicode_fonts);
    assert!(profile.font_semantics().shaped_text);
    assert!(profile.font_semantics().unicode_math_fonts);
    assert!(!profile.font_semantics().host_native_fonts);
    assert!(profile.extension_policy().etex);
    assert!(profile.extension_policy().xetex);
    assert!(profile.register_defaults().count_registers > 256);
}

#[test]
fn runtime_semantics_resolve_profile_gated_primitives() {
    let tex = EngineSemantics::from_profile(&TexProfile);
    let xetex = EngineSemantics::from_profile(&XetexProfile);

    assert!(tex.has_primitive("input"));
    assert!(xetex.has_primitive("input"));
    assert!(!tex.has_primitive("XeTeXrevision"));
    assert!(xetex.has_primitive("XeTeXrevision"));
    assert_eq!(
        xetex.primitive("XeTeXrevision").expect("xetex primitive").kind,
        PrimitiveKind::Extension
    );
}

#[test]
fn tex_and_xetex_profiles_share_the_same_core_before_patches() {
    let tex = TexProfile.engine_core();
    let xetex = XetexProfile.engine_core();

    assert_eq!(tex.profile(), ProfileId("tex"));
    assert_eq!(xetex.profile(), ProfileId("xetex"));
    assert!(!tex.has_patch(EnginePatch::Etex));
    assert!(!tex.has_patch(EnginePatch::Xetex));
    assert!(xetex.has_patch(EnginePatch::Etex));
    assert!(xetex.has_patch(EnginePatch::Xetex));
    assert!(xetex.primitives().len() > tex.primitives().len());
    for primitive in tex.primitives() {
        assert!(
            xetex.primitives().iter().any(|candidate| candidate.name == primitive.name
                && candidate.opcode == primitive.opcode
                && candidate.kind == primitive.kind),
            "xetex should retain TeX core primitive {primitive:?}"
        );
    }
}

#[test]
fn xetex_patch_adds_unicode_and_font_semantics_conditionally() {
    let core = TexCore::tex(ProfileId("custom-xetex")).with_patch(EnginePatch::Xetex);

    assert_eq!(core.kind(), EngineKind::Xetex);
    assert!(core.catcode_defaults().unicode_scalars);
    assert!(core.mathcode_defaults().unicode_math);
    assert!(core.font_semantics().unicode_fonts);
    assert!(core.font_semantics().shaped_text);
    assert!(!core.font_semantics().host_native_fonts);
    assert!(core.extension_policy().etex);
    assert!(core.extension_policy().xetex);
    assert!(core.primitives().iter().any(|primitive| primitive.name == "XeTeXrevision"));
}

#[test]
fn applying_a_patch_twice_changes_nothing_more() {
    let once = TexCore::tex(ProfileId("p")).with_patch(EnginePatch::Etex);
    let twice = TexCore::tex(ProfileId("p")).with_patch(EnginePatch::Etex).with_patch(EnginePatch::Etex);
    assert_eq!(once.primitives().len(), twice.primitives().len());
    assert_eq!(once.kind(), EngineKind::Etex);
    assert_eq!(twice.kind(), EngineKind::Etex);
}

#[test]
fn an_etex_patch_keeps_a_xetex_core_xetex() {
    let c = TexCore::tex(ProfileId("custom")).with_patch(EnginePatch::Xetex);
    let d = c.with_patch(EnginePatch::Etex);
    assert!(d.has_patch(EnginePatch::Xetex) && d.has_patch(EnginePatch::Etex));
    assert_eq!(d.kind(), EngineKind::Xetex);
    assert!(d.primitives().iter().any(|p| p.name == "XeTeXrevision"));
    assert_eq!(d, c);
}
