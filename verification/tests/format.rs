use mathtex::format::{
    FormatImage, FormatInitError, FormatPackage, FormatResource, FormatResourceKind, FormatSnapshot,
    FormatState, MacroDefinition, RegisterSnapshot,
};
use mathtex::profile::ProfileId;
use mathtex::resource::{InMemoryResourceProvider, ResourceKind};

#[test]
fn format_image_instantiates_mutable_session_state() {
    let snapshot = FormatSnapshot {
        macros: vec![MacroDefinition {
            name: "text".into(),
            replacement: b"text macro".to_vec(),
        }],
        packages: vec![FormatPackage {
            name: "latex".into(),
            version: Some("2026".into()),
        }],
        resources: vec![FormatResource {
            name: "plain.tex".into(),
            kind: FormatResourceKind::TexInput,
            bytes: b"plain".to_vec(),
        }],
        opaque_engine_state: b"engine".to_vec(),
        registers: RegisterSnapshot {
            counts: vec![1, 2],
            dimensions: vec![3],
            token_lists: vec![b"tokens".to_vec()],
        },
    };
    let format = FormatImage::with_snapshot("latex", ProfileId("tex"), snapshot);

    let mut session = format.instantiate_session_state();
    session.define_macro("text", b"changed");
    session.define_macro("frac", b"fraction");

    assert_eq!(
        session.macro_definition("text").expect("text macro").replacement,
        b"changed".to_vec()
    );
    assert_eq!(
        session.macro_definition("frac").expect("frac macro").replacement,
        b"fraction".to_vec()
    );
    assert_eq!(
        session.resource("plain.tex").expect("plain resource").bytes,
        b"plain".to_vec()
    );
    assert_eq!(session.registers.counts, vec![1, 2]);

    match &format.state {
        FormatState::Structured(snapshot) => {
            assert_eq!(snapshot.macros[0].replacement, b"text macro".to_vec());
            assert_eq!(snapshot.resources[0].bytes, b"plain".to_vec());
            assert_eq!(snapshot.registers.counts, vec![1, 2]);
        }
        other => panic!("unexpected format state: {other:?}"),
    }
}

#[test]
fn initializer_preloads_packages_through_resource_provider() {
    let resources = InMemoryResourceProvider::new()
        .with_resource("latex.ltx.sty", ResourceKind::Package, b"latex")
        .with_resource("amsmath.sty", ResourceKind::Package, b"ams");

    let format = FormatImage::initializer("latex+amsmath", ProfileId("tex"))
        .preload_package("latex.ltx.sty")
        .preload_package("amsmath")
        .macro_definition("text", b"text macro")
        .opaque_engine_state(b"seed")
        .build(&resources)
        .expect("format should initialize");

    assert_eq!(format.packages.len(), 2);
    assert_eq!(format.packages[1].name, "amsmath");
    let session = format.instantiate_session_state();
    assert!(session.package("amsmath").is_some());
    assert!(session.resource("amsmath.sty").is_some());
    assert_eq!(
        session.macro_definition("text").expect("text macro").replacement,
        b"text macro".to_vec()
    );
    assert_eq!(session.opaque_engine_state, b"seedlatexams".to_vec());
}

#[test]
fn initializer_reports_missing_preloaded_package() {
    let resources = InMemoryResourceProvider::new();

    let error = FormatImage::initializer("latex+missing", ProfileId("tex"))
        .preload_package("missing")
        .build(&resources)
        .expect_err("missing package should fail initialization");

    match error {
        FormatInitError::TexInput { .. } => panic!("unexpected TeX input error"),
        FormatInitError::Package { name, message } => {
            assert_eq!(name, "missing.sty");
            assert!(message.contains("NotFound"));
        }
        other => panic!("unexpected error: {other:?}"),
    }
}

#[test]
fn initializer_preloads_tex_input_resources() {
    let resources = InMemoryResourceProvider::new().with_resource(
        "plain.tex",
        ResourceKind::TexInput,
        br"\def\plainchar{A}",
    );

    let format = FormatImage::initializer("plain", ProfileId("tex"))
        .preload_tex_input("plain.tex")
        .build(&resources)
        .expect("format should preload TeX input bytes");

    let snapshot = match format.state {
        FormatState::Structured(snapshot) => snapshot,
        other => panic!("unexpected format state: {other:?}"),
    };
    assert_eq!(snapshot.resources.len(), 1);
    assert_eq!(snapshot.resources[0].name, "plain.tex");
    assert_eq!(snapshot.resources[0].kind, FormatResourceKind::TexInput);
    assert_eq!(snapshot.resources[0].bytes, br"\def\plainchar{A}".to_vec());
}

#[test]
fn real_format_constructors_preload_engine_entrypoints() {
    let resources = InMemoryResourceProvider::new()
        .with_resource("plain.tex", ResourceKind::TexInput, br"\dump")
        .with_resource("latex.ltx", ResourceKind::TexInput, br"\dump");

    let plain = FormatImage::plain(ProfileId("tex"))
        .build(&resources)
        .expect("plain format entrypoint should resolve");
    let latex = FormatImage::latex(ProfileId("tex"))
        .build(&resources)
        .expect("latex format entrypoint should resolve");

    assert_eq!(plain.id, "plain");
    assert_eq!(latex.id, "latex");

    let plain_snapshot = match plain.state {
        FormatState::Structured(snapshot) => snapshot,
        other => panic!("unexpected plain format state: {other:?}"),
    };
    let latex_snapshot = match latex.state {
        FormatState::Structured(snapshot) => snapshot,
        other => panic!("unexpected latex format state: {other:?}"),
    };

    assert_eq!(plain_snapshot.resources[0].name, "plain.tex");
    assert_eq!(latex_snapshot.resources[0].name, "latex.ltx");
}

#[test]
fn build_reads_tex_inputs_before_packages_and_stops_at_first_failure() {
    let resources = InMemoryResourceProvider::new()
        .with_resource("a.tex", ResourceKind::TexInput, b"A")
        .with_resource("p.sty", ResourceKind::Package, b"P");
    let format = FormatImage::initializer("f", ProfileId("tex"))
        .preload_package("p")
        .preload_tex_input("a.tex")
        .build(&resources)
        .expect("both resources exist");
    match &format.state {
        FormatState::Structured(snapshot) => {
            assert_eq!(snapshot.opaque_engine_state, b"AP".to_vec());
            assert_eq!(snapshot.resources[0].kind, FormatResourceKind::TexInput);
            assert_eq!(snapshot.resources[1].kind, FormatResourceKind::Package);
            assert_eq!(snapshot.resources[1].name, "p.sty");
        }
        other => panic!("unexpected format state: {other:?}"),
    }

    let error = FormatImage::initializer("f", ProfileId("tex"))
        .preload_tex_input("missing.tex")
        .preload_package("also-missing")
        .build(&resources)
        .expect_err("the first missing input fails the build");
    match error {
        FormatInitError::TexInput { name, message } => {
            assert_eq!(name, "missing.tex");
            assert_eq!(message, "NotFound { name: \"missing.tex\", kind: TexInput }");
        }
        other => panic!("unexpected error: {other:?}"),
    }
}

#[test]
fn package_names_ending_in_sty_are_requested_as_given() {
    let resources = InMemoryResourceProvider::new().with_resource("x.sty", ResourceKind::Package, b"x");
    let format = FormatImage::initializer("f", ProfileId("tex"))
        .preload_package("x.sty")
        .build(&resources)
        .expect("x.sty exists");
    assert_eq!(format.packages[0].name, "x.sty");
    assert_eq!(format.packages[0].version, None);
}

#[test]
fn define_macro_replaces_only_the_named_macro() {
    let mut session = FormatImage::empty("plain", ProfileId("tex")).instantiate_session_state();
    session.define_macro("a", b"1");
    session.define_macro("b", b"2");
    session.define_macro("a", b"3");
    assert_eq!(session.macros.len(), 2);
    assert_eq!(session.macro_definition("a").expect("a").replacement, b"3".to_vec());
    assert_eq!(session.macro_definition("b").expect("b").replacement, b"2".to_vec());
    assert!(session.macro_definition("c").is_none());
}

#[test]
fn snapshot_state_seeds_only_opaque_bytes() {
    let format = FormatImage {
        id: "raw".to_string(),
        profile: ProfileId("tex"),
        packages: Vec::new(),
        state: FormatState::Snapshot(b"bytes".to_vec()),
    };
    let session = format.instantiate_session_state();
    assert_eq!(session.opaque_engine_state, b"bytes".to_vec());
    assert!(session.macros.is_empty());
    assert!(session.resources.is_empty());
}
