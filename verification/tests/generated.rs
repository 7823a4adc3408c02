use mathtex::generated::{
    generated_resource_candidate_names, normalized_generated_resource_name, resource_name_has_extension,
    GeneratedPlatformAdapter, GeneratedResourceKind, GeneratedResourceProvider, GeneratedResourceRequest,
};
use mathtex::platform::NoopPlatform;
use mathtex::resource::{InMemoryResourceProvider, ResourceKind, ResourceRequest};
use mathtex::shaping::{ot_tag_bytes, parse_spec_shaping};
use mathtex::font::ShapeFeature;

#[test]
fn generated_provider_adapter_reads_package_bytes() {
    let mut resources = InMemoryResourceProvider::new().with_resource(
        "amsmath.sty",
        ResourceKind::Package,
        br"\ProvidesPackage{amsmath}",
    );
    resources.insert_request(ResourceRequest::asset("mhchem", "arrows.dat"), b"asset");
    let generated = GeneratedResourceProvider::new(resources);

    let bytes = generated
        .read(&GeneratedResourceRequest {
            name: "amsmath.sty".into(),
            kind: GeneratedResourceKind::Package,
            package: None,
            source: None,
        })
        .expect("generated provider should read package");
    assert_eq!(bytes, br"\ProvidesPackage{amsmath}");

    let bytes = generated
        .read(&GeneratedResourceRequest {
            name: "arrows.dat".into(),
            kind: GeneratedResourceKind::Asset,
            package: Some("mhchem".into()),
            source: None,
        })
        .expect("generated provider should read package asset");
    assert_eq!(bytes, b"asset");
}

#[test]
fn generated_requests_try_extensions_and_fall_back_to_tex_inputs() {
    let resources = InMemoryResourceProvider::new()
        .with_resource("article.cls", ResourceKind::Class, b"class")
        .with_resource("table.dat", ResourceKind::TexInput, b"table")
        .with_resource("plain.ltx", ResourceKind::TexInput, b"ltx");
    let generated = GeneratedResourceProvider::new(resources);
    let read = |name: &str, kind| {
        generated.read(&GeneratedResourceRequest { name: name.into(), kind, package: None, source: None })
    };
    assert_eq!(read("./article", GeneratedResourceKind::Class), Some(b"class".to_vec()));
    assert_eq!(read("plain", GeneratedResourceKind::TexInput), Some(b"ltx".to_vec()));
    assert_eq!(read("table.dat", GeneratedResourceKind::Asset), Some(b"table".to_vec()));
    assert_eq!(read("article.sty", GeneratedResourceKind::Package), None);
    assert_eq!(read("table", GeneratedResourceKind::Other), None);
    assert_eq!(generated.inner().len(), 3);
}

#[test]
fn candidate_names_follow_the_request_kind() {
    assert_eq!(generated_resource_candidate_names("plain", ResourceKind::TexInput), vec!["plain.tex", "plain.ltx"]);
    assert_eq!(
        generated_resource_candidate_names("lmroman", ResourceKind::Font),
        vec!["lmroman.tfm", "lmroman.otf", "lmroman.ttf"]
    );
    assert!(generated_resource_candidate_names("a.sty", ResourceKind::Package).is_empty());
    assert_eq!(generated_resource_candidate_names("dir.d/pkg", ResourceKind::Package), vec!["dir.d/pkg.sty"]);
    assert!(generated_resource_candidate_names("x", ResourceKind::Config).is_empty());
    assert!(resource_name_has_extension("a/b.c"));
    assert!(!resource_name_has_extension("a.b\\c"));
    assert_eq!(normalized_generated_resource_name("././x.tex"), "x.tex");
    assert_eq!(normalized_generated_resource_name("../x.tex"), "../x.tex");
}

#[test]
fn platform_adapter_hands_back_its_platform() {
    let adapter = GeneratedPlatformAdapter::new(NoopPlatform::default());
    let _ = adapter.platform();
    let _platform: NoopPlatform = adapter.into_platform();
}

#[test]
fn font_specs_give_script_and_features() {
    let (script, features) = parse_spec_shaping("[latinmodern-math.otf]:script=math;+ssty=0;-liga; kern = 2 ;language=DEU;+onum;+salt=-3;smcp");
    assert_eq!(script, Some(*b"math"));
    assert_eq!(
        features,
        vec![
            ShapeFeature { tag: *b"ssty", value: 1 },
            ShapeFeature { tag: *b"liga", value: 0 },
            ShapeFeature { tag: *b"kern", value: 2 },
            ShapeFeature { tag: *b"onum", value: 1 },
            ShapeFeature { tag: *b"salt", value: (-3i64) as u32 },
        ]
    );
    assert_eq!(parse_spec_shaping("cmr10"), (None, Vec::new()));
    assert_eq!(
        parse_spec_shaping("x:calt=oops;+ss01=99999999999999999999"),
        (None, vec![ShapeFeature { tag: *b"calt", value: 1 }, ShapeFeature { tag: *b"ss01", value: 1 }])
    );
    assert_eq!(ot_tag_bytes(" dv "), *b"dv  ");
    assert_eq!(ot_tag_bytes("abcdef"), *b"abcd");
}
