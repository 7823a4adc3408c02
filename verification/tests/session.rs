use mathtex::format::FormatImage;
use mathtex::ir::FragmentKind;
use mathtex::platform::{HostLimits, LimitError, NoopPlatform};
use mathtex::primitive::PrimitiveRegistryError;
use mathtex::profile::{
    CatcodeDefaults, EngineKind, EngineProfile, ExtensionPolicy, FontSemantics, MathcodeDefaults,
    PrimitiveKind, PrimitiveOpcode, PrimitiveSpec, ProfileId, RegisterDefaults, TexProfile,
    XetexProfile,
};
use mathtex::resource::{InMemoryResourceProvider, ResourceKind};
use mathtex::session::{
    BuildError, Engine, EngineBuilder, EngineError, FragmentInput, ResourceRequestRecord,
    check_input_limit, check_layout_node_limit, check_resource_request_limit,
    first_failed_resource_request, fragment_source_text, generated_abort_error,
    generated_resource_probe_basename, int_text, is_optional_generated_resource_probe,
};

#[test]
fn builder_rejects_format_for_different_profile() {
    let format = FormatImage::empty("latex", XetexProfile.id());

    let error = EngineBuilder::new(TexProfile)
        .format(format)
        .resources(InMemoryResourceProvider::new())
        .platform(NoopPlatform::default())
        .build()
        .expect_err("profile mismatch must be rejected");

    assert_eq!(
        error,
        BuildError::ProfileFormatMismatch { profile: "tex", format_profile: "xetex" }
    );
}

#[derive(Clone, Debug)]
struct PrimitiveProfile {
    primitives: Vec<PrimitiveSpec>,
}

impl EngineProfile for PrimitiveProfile {
    fn id(&self) -> ProfileId {
        ProfileId("primitive-profile")
    }

    fn kind(&self) -> EngineKind {
        EngineKind::Tex
    }

    fn primitives(&self) -> Vec<PrimitiveSpec> {
        self.primitives.clone()
    }

    fn catcode_defaults(&self) -> CatcodeDefaults {
        CatcodeDefaults { unicode_scalars: false }
    }

    fn mathcode_defaults(&self) -> MathcodeDefaults {
        MathcodeDefaults { unicode_math: false }
    }

    fn register_defaults(&self) -> RegisterDefaults {
        RegisterDefaults::tex()
    }

    fn font_semantics(&self) -> FontSemantics {
        FontSemantics::tex()
    }

    fn extension_policy(&self) -> ExtensionPolicy {
        ExtensionPolicy::tex()
    }
}

#[test]
fn engine_rejects_duplicate_primitive_names() {
    let profile = PrimitiveProfile {
        primitives: vec![
            PrimitiveSpec { name: "input", opcode: PrimitiveOpcode(1), kind: PrimitiveKind::Resource },
            PrimitiveSpec { name: "input", opcode: PrimitiveOpcode(2), kind: PrimitiveKind::Resource },
        ],
    };
    let format = FormatImage::empty("plain", profile.id());

    let error = EngineBuilder::new(profile)
        .format(format)
        .resources(InMemoryResourceProvider::new())
        .platform(NoopPlatform::default())
        .build()
        .expect_err("duplicate primitive names should fail");

    assert_eq!(
        error,
        BuildError::InvalidPrimitives(PrimitiveRegistryError::DuplicateName { name: "input".to_string() })
    );
}

#[test]
fn builder_without_format_is_rejected() {
    let error = EngineBuilder::new(TexProfile)
        .resources(InMemoryResourceProvider::new())
        .platform(NoopPlatform::default())
        .build()
        .expect_err("format is required");
    assert_eq!(error, BuildError::MissingFormat);
}

#[test]
fn sessions_load_resources_and_primitives_through_the_engine() {
    let resources = InMemoryResourceProvider::new()
        .with_resource("amsmath.sty", ResourceKind::Package, b"ams")
        .with_resource("plain.tex", ResourceKind::TexInput, b"plain");
    let engine = Engine::new(TexProfile, FormatImage::empty("latex", TexProfile.id()), resources, NoopPlatform::default())
        .expect("tex profile builds");
    let mut session = engine.new_session();
    assert_eq!(session.load_package("amsmath.sty").expect("package").bytes, b"ams");
    assert_eq!(session.load_input("plain.tex").expect("input").bytes, b"plain");
    assert!(session.load_class("article.cls").is_err());
    assert!(session.primitive("input").is_some());
    assert!(session.primitive("XeTeXrevision").is_none());
    session.state_mut().define_macro("x", b"y");
    assert_eq!(session.state().macro_definition("x").expect("x").replacement, b"y".to_vec());
    assert!(engine.new_session().state().macro_definition("x").is_none());
    let emitter = session.ir_emitter_for(FragmentKind::Text);
    let fragment = emitter.finish();
    assert_eq!(fragment.metadata.engine_profile, "tex");
    assert_eq!(fragment.metadata.format_id, "latex");
    assert_eq!(fragment.metadata.fragment_kind, FragmentKind::Text);
    assert!(session.check_input_limits("short").is_ok());
}

#[test]
fn limits_reject_only_counts_above_the_configured_maximum() {
    let limits = HostLimits { max_input_bytes: 4, max_resource_requests: 2, max_layout_nodes: 1 };
    assert!(check_input_limit(4, limits).is_ok());
    assert_eq!(
        check_input_limit(5, limits),
        Err(EngineError::Limit(LimitError::InputTooLarge { actual: 5, limit: 4 }))
    );
    assert_eq!(
        check_resource_request_limit(3, limits),
        Err(EngineError::Limit(LimitError::TooManyResourceRequests { actual: 3, limit: 2 }))
    );
    assert_eq!(
        check_layout_node_limit(2, limits),
        Err(EngineError::Limit(LimitError::TooManyLayoutNodes { actual: 2, limit: 1 }))
    );
    assert!(check_layout_node_limit(1, limits).is_ok());
}

#[test]
fn fragment_sources_wrap_the_body_for_its_mode() {
    assert_eq!(
        fragment_source_text(&FragmentInput::math_inline("x^2")),
        r"\hbox{$x^2\relax$}\csname @@end\endcsname\end"
    );
    assert_eq!(
        fragment_source_text(&FragmentInput::math_display("x")),
        r"\hbox{$\displaystyle x\relax$}\csname @@end\endcsname\end"
    );
    assert_eq!(
        fragment_source_text(&FragmentInput::text("hi")),
        r"\hbox{hi\relax}\csname @@end\endcsname\end"
    );
    let input = FragmentInput::new("doc.tex", "a", FragmentKind::Text);
    assert_eq!(input.source_name, "doc.tex");
    assert_eq!(FragmentInput::math_inline("b").source_name, "input");
}

#[test]
fn abort_messages_name_the_status() {
    assert_eq!(generated_abort_error(Some(3)), "generated TeX engine aborted with status 3");
    assert_eq!(generated_abort_error(Some(-12)), "generated TeX engine aborted with status -12");
    assert_eq!(generated_abort_error(None), "generated TeX engine aborted");
    assert_eq!(int_text(i32::MIN), "-2147483648");
    assert_eq!(int_text(0), "0");
    assert_eq!(int_text(1050), "1050");
}

#[test]
fn probe_names_lose_their_decorations() {
    assert_eq!(generated_resource_probe_basename("./[]:texsys.aux"), "texsys.aux");
    assert_eq!(generated_resource_probe_basename("././a.tex"), "a.tex");
    assert_eq!(generated_resource_probe_basename("a/./b"), "a/./b");
    assert!(is_optional_generated_resource_probe(":./texsys.aux"));
    assert!(is_optional_generated_resource_probe("babel-texput.cfg"));
    assert!(!is_optional_generated_resource_probe("article.cls"));
}

#[test]
fn the_first_required_failed_request_is_reported() {
    let records = vec![
        ResourceRequestRecord { name: "ok.tex".into(), byte_len: Some(3) },
        ResourceRequestRecord { name: "./texsys.aux".into(), byte_len: None },
        ResourceRequestRecord { name: "missing.tex".into(), byte_len: None },
        ResourceRequestRecord { name: "later.tex".into(), byte_len: None },
    ];
    assert_eq!(first_failed_resource_request(&records), Some(2));
    assert_eq!(first_failed_resource_request(&records[..2]), None);
}

use mathtex::session::{layout_outcome, preload_outcome, LayoutRun, PreloadRun, FormatPreloadError};
use mathtex::transcript::{generated_transcript_abort_error, generated_transcript_error};
use mathtex::lowering::{NodeKind, NodeSnapshot, NodeStore};

#[test]
fn transcript_error_detection_requires_tex_error_shape() {
    assert_eq!(generated_transcript_error(b"LaTeX says hello! This is only a message."), None);
    assert_eq!(
        generated_transcript_error(b"before,! Emergency stop.\nl.12 \\bad\n"),
        Some("generated TeX engine reported an error: ! Emergency stop.".to_string())
    );
}

#[test]
fn transcript_reports_need_line_context_or_an_emergency_stop() {
    assert_eq!(
        generated_transcript_error(b"! Undefined control sequence.\n<recently read> \\foo \n   \nl.3 $\\foo\n"),
        Some("generated TeX engine reported an error: ! Undefined control sequence.".to_string())
    );
    assert_eq!(generated_transcript_error(b"! Missing $ inserted.\n"), None);
    assert_eq!(
        generated_transcript_error(b"! Emergency stop.\n"),
        Some("generated TeX engine reported an error: ! Emergency stop.".to_string())
    );
    assert_eq!(
        generated_transcript_error("! First.\nl.1 x\n! Second \u{a0}\r\n  l.2 y".as_bytes()),
        Some("generated TeX engine reported an error: ! Second".to_string())
    );
    assert_eq!(generated_transcript_error(&[0x21, 0x20, 0xff, 0x0a, 0x6c, 0x2e]), None);
    assert_eq!(
        generated_transcript_abort_error(b"x\n! Missing $ inserted.\n"),
        Some("generated TeX engine aborted after error: ! Missing $ inserted.".to_string())
    );
    assert_eq!(generated_transcript_abort_error(b"!nothing"), None);
}

fn run() -> PreloadRun {
    PreloadRun { accepted: true, completed: true, failed_request: None, transcript: Vec::new(), abort_status: None }
}

#[test]
fn preload_runs_are_judged_in_order() {
    assert_eq!(preload_outcome("plain.tex", &run()), Ok(()));
    assert_eq!(
        preload_outcome("plain.tex", &PreloadRun { accepted: false, ..run() }),
        Err(FormatPreloadError::InputRejected { name: "plain.tex".to_string() })
    );
    assert_eq!(
        preload_outcome(
            "mathtex-test-format.tex",
            &PreloadRun { failed_request: Some("missing-format-dependency.tex".into()), completed: false, ..run() }
        ),
        Err(FormatPreloadError::Resource {
            name: "mathtex-test-format.tex".to_string(),
            resource: "missing-format-dependency.tex".to_string(),
        })
    );
    assert_eq!(
        preload_outcome("a.tex", &PreloadRun { completed: false, abort_status: Some(3), ..run() }),
        Err(FormatPreloadError::Aborted { name: "a.tex".to_string(), status: Some(3) })
    );
    assert_eq!(
        preload_outcome("a.tex", &PreloadRun { completed: false, transcript: b"! Bad.\n".to_vec(), ..run() }),
        Err(FormatPreloadError::Transcript {
            name: "a.tex".to_string(),
            message: "generated TeX engine aborted after error: ! Bad.".to_string(),
        })
    );
}

#[test]
fn layout_outcomes_follow_the_engine_report() {
    let limits = HostLimits { max_input_bytes: 100, max_resource_requests: 1, max_layout_nodes: 1 };
    let meta = mathtex::ir::FragmentMetadata::default();
    let rule = NodeSnapshot {
        kind: NodeKind::Rule,
        width: 1,
        height: 2,
        depth: 3,
        shift: 0,
        list: None,
        link: None,
        glue_sign: 0,
        glue_order: 0,
        glue_stretch_order: 0,
        glue_shrink_order: 0,
        stretch_amount: 0,
        shrink_amount: 0,
        font: 0,
        character: 0,
        native_glyphs: Vec::new(),
        source: None,
        enclosing_sources: Vec::new(),
    };
    let store = NodeStore { nodes: vec![rule], fonts: Vec::new() };
    let ok = LayoutRun {
        accepted: true,
        ran_main_control: true,
        last_error_message: None,
        abort_status: None,
        resource_requests: 0,
        transcript: Vec::new(),
        captured_root: Some(0),
    };
    assert_eq!(layout_outcome(&ok, &store, meta.clone(), limits).expect("fragment").nodes.len(), 1);
    assert_eq!(
        layout_outcome(&LayoutRun { accepted: false, ..ok.clone() }, &store, meta.clone(), limits),
        Err(EngineError::Layout { message: "generated TeX engine rejected primary input".to_string() })
    );
    assert_eq!(
        layout_outcome(&LayoutRun { ran_main_control: false, abort_status: Some(1), ..ok.clone() }, &store, meta.clone(), limits),
        Err(EngineError::Layout { message: "generated TeX engine aborted with status 1".to_string() })
    );
    assert_eq!(
        layout_outcome(&LayoutRun { resource_requests: 2, ..ok.clone() }, &store, meta.clone(), limits),
        Err(EngineError::Limit(LimitError::TooManyResourceRequests { actual: 2, limit: 1 }))
    );
    assert_eq!(
        layout_outcome(&LayoutRun { captured_root: None, ..ok.clone() }, &store, meta.clone(), limits),
        Err(EngineError::Layout { message: "generated TeX engine did not capture a fragment root".to_string() })
    );
    assert_eq!(
        layout_outcome(&LayoutRun { captured_root: Some(5), ..ok.clone() }, &store, meta, limits),
        Err(EngineError::Layout { message: "generated TeX engine could not convert captured fragment root".to_string() })
    );
}
