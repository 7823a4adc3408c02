use mathtex::resource::{
    InMemoryResourceProvider, OverlayResourceProvider, ResolverResourceProvider, Resource,
    ResourceBundle, ResourceError, ResourceKind, ResourceProvider, ResourceRequest,
    validate_resource_name,
};

#[test]
fn in_memory_provider_loads_package_without_filesystem() {
    let provider = InMemoryResourceProvider::new().with_resource(
        "amsmath.sty",
        ResourceKind::Package,
        br"\ProvidesPackage{amsmath}",
    );

    let resource = provider
        .read("amsmath.sty", ResourceKind::Package)
        .expect("package should resolve");

    assert_eq!(resource.canonical_name, "amsmath.sty");
    assert_eq!(resource.kind, ResourceKind::Package);
    assert_eq!(resource.bytes, br"\ProvidesPackage{amsmath}".to_vec());
}

#[test]
fn in_memory_provider_keeps_resource_kinds_separate() {
    let provider = InMemoryResourceProvider::new().with_resource("cmr10", ResourceKind::Font, b"font");

    let error = provider
        .read("cmr10", ResourceKind::Package)
        .expect_err("font must not satisfy package lookup");

    assert_eq!(
        error,
        ResourceError::NotFound {
            name: "cmr10".to_string(),
            kind: ResourceKind::Package,
        }
    );
}

#[test]
fn provider_convenience_methods_cover_tex_resource_kinds() {
    let provider = InMemoryResourceProvider::new()
        .with_resource("plain.tex", ResourceKind::TexInput, b"tex")
        .with_resource("amsmath.sty", ResourceKind::Package, b"package")
        .with_resource("article.cls", ResourceKind::Class, b"class")
        .with_resource("ot1cmr.fd", ResourceKind::FontDefinition, b"fd")
        .with_resource("size10.clo", ResourceKind::PackageSupport, b"support")
        .with_resource("latinmodern-math.otf", ResourceKind::Font, b"font")
        .with_resource("t1.enc", ResourceKind::Encoding, b"encoding")
        .with_resource("pdftex.map", ResourceKind::FontMap, b"map")
        .with_resource("texmf.cnf", ResourceKind::Config, b"config")
        .with_resource("latex.fmt", ResourceKind::FormatImage, b"format");

    assert_eq!(provider.read_tex_input("plain.tex").expect("tex").bytes, b"tex");
    assert_eq!(provider.read_package("amsmath.sty").expect("package").bytes, b"package");
    assert_eq!(provider.read_class("article.cls").expect("class").bytes, b"class");
    assert_eq!(
        provider.read_font_definition("ot1cmr.fd").expect("font definition").bytes,
        b"fd"
    );
    assert_eq!(
        provider.read_package_support("size10.clo").expect("package support").bytes,
        b"support"
    );
    assert_eq!(provider.read_font("latinmodern-math.otf").expect("font").bytes, b"font");
    assert_eq!(provider.read_encoding("t1.enc").expect("encoding").bytes, b"encoding");
    assert_eq!(provider.read_map("pdftex.map").expect("map").bytes, b"map");
    assert_eq!(provider.read_config("texmf.cnf").expect("config").bytes, b"config");
    assert_eq!(provider.read_format_image("latex.fmt").expect("format").bytes, b"format");
}

#[test]
fn typed_asset_requests_include_package_owner() {
    let mut provider = InMemoryResourceProvider::new();
    provider.insert_request(ResourceRequest::asset("mhchem", "arrows.dat"), b"asset");

    let resource = provider
        .read_asset("mhchem", "arrows.dat")
        .expect("asset should resolve");

    assert_eq!(resource.kind, ResourceKind::Asset);
    assert_eq!(resource.canonical_name, "mhchem/arrows.dat");
    assert_eq!(resource.bytes, b"asset");
}

#[test]
fn overlay_provider_prefers_overrides_before_base_bundle() {
    let base = ResourceBundle::new("latex-base")
        .with_resource("article.cls", ResourceKind::TexInput, b"base")
        .with_resource("amsmath.sty", ResourceKind::Package, b"base-ams");
    let overrides =
        InMemoryResourceProvider::new().with_resource("amsmath.sty", ResourceKind::Package, b"override-ams");
    let provider = OverlayResourceProvider::new(overrides, base);

    let package = provider
        .read_package("amsmath.sty")
        .expect("override package should resolve");
    let class = provider
        .read_tex_input("article.cls")
        .expect("base input should resolve");

    assert_eq!(package.bytes, b"override-ams");
    assert_eq!(class.bytes, b"base");
}

#[derive(Clone, Debug, PartialEq, Eq)]
struct DenyProvider;

impl ResourceProvider for DenyProvider {
    fn read_request(&self, request: &ResourceRequest) -> Result<Resource, ResourceError> {
        Err(ResourceError::Denied {
            name: request.canonical_name(),
            message: "denied by policy".to_string(),
        })
    }
}

#[test]
fn overlay_provider_preserves_denied_errors_from_overrides() {
    let base = InMemoryResourceProvider::new().with_resource("plain.tex", ResourceKind::TexInput, b"base");
    let provider = OverlayResourceProvider::new(DenyProvider, base);

    let error = provider
        .read_tex_input("plain.tex")
        .expect_err("override denial must not fall through");

    assert_eq!(
        error,
        ResourceError::Denied {
            name: "plain.tex".to_string(),
            message: "denied by policy".to_string(),
        }
    );
}

#[test]
fn resource_bundle_resolves_package_owned_assets() {
    let bundle =
        ResourceBundle::new("chemistry").with_request(ResourceRequest::asset("mhchem", "arrows.dat"), b"asset");

    let asset = bundle
        .read_asset("mhchem", "arrows.dat")
        .expect("bundle asset should resolve");

    assert_eq!(bundle.id(), "chemistry");
    assert_eq!(asset.canonical_name, "mhchem/arrows.dat");
    assert_eq!(asset.bytes, b"asset");
}

#[test]
fn resolver_provider_delegates_typed_requests_to_host_resolver() {
    let provider = ResolverResourceProvider::new(|request: &ResourceRequest| {
        if request.kind == ResourceKind::Package && request.name == "amsmath.sty" {
            Ok(Resource::from_request(request, b"package"))
        } else if request.kind == ResourceKind::Asset
            && request.package.as_deref() == Some("mhchem")
            && request.name == "arrows.dat"
        {
            Ok(Resource::from_request(request, b"asset"))
        } else {
            Err(ResourceError::NotFound {
                name: request.canonical_name(),
                kind: request.kind,
            })
        }
    });

    let package = provider
        .read_package("amsmath.sty")
        .expect("package should resolve through resolver");
    let asset = provider
        .read_asset("mhchem", "arrows.dat")
        .expect("asset should resolve through resolver");
    let error = provider
        .read_tex_input("missing.tex")
        .expect_err("missing input should propagate resolver error");

    assert_eq!(package.canonical_name, "amsmath.sty");
    assert_eq!(package.bytes, b"package");
    assert_eq!(asset.canonical_name, "mhchem/arrows.dat");
    assert_eq!(asset.bytes, b"asset");
    assert_eq!(
        error,
        ResourceError::NotFound {
            name: "missing.tex".to_string(),
            kind: ResourceKind::TexInput,
        }
    );
}

#[test]
fn in_memory_insert_replaces_an_existing_resource() {
    let mut provider = InMemoryResourceProvider::new();
    provider.insert("plain.tex", ResourceKind::TexInput, b"first");
    provider.insert("plain.tex", ResourceKind::TexInput, b"second");
    provider.insert("plain.tex", ResourceKind::Package, b"package");

    assert_eq!(provider.len(), 2);
    assert!(!provider.is_empty());
    assert_eq!(provider.read_tex_input("plain.tex").expect("input").bytes, b"second");
    assert_eq!(provider.read_package("plain.tex").expect("package").bytes, b"package");
}

#[test]
fn overlay_falls_back_only_on_not_found() {
    let base = InMemoryResourceProvider::new().with_resource("b.tex", ResourceKind::TexInput, b"base");
    let provider = OverlayResourceProvider::new(InMemoryResourceProvider::new(), base);
    assert_eq!(provider.read_tex_input("b.tex").expect("base").bytes, b"base");
    assert_eq!(
        provider.read_tex_input("c.tex").expect_err("missing everywhere"),
        ResourceError::NotFound {
            name: "c.tex".to_string(),
            kind: ResourceKind::TexInput,
        }
    );
}

#[test]
fn canonical_names_prefix_assets_with_their_package() {
    assert_eq!(ResourceRequest::asset("pkg", "a.dat").canonical_name(), "pkg/a.dat");
    assert_eq!(ResourceRequest::new("a.dat", ResourceKind::TexInput).canonical_name(), "a.dat");
}

#[test]
fn resource_names_must_stay_under_the_root() {
    assert_eq!(validate_resource_name("plain.tex"), Ok(()));
    assert_eq!(validate_resource_name("tex/latex/base/article.cls"), Ok(()));
    assert_eq!(validate_resource_name("a/..b/c"), Ok(()));
    assert_eq!(
        validate_resource_name("../plain.tex"),
        Err(ResourceError::Denied {
            name: "../plain.tex".to_string(),
            message: "resource path must be relative to the provider root".to_string(),
        })
    );
    assert_eq!(
        validate_resource_name("/etc/passwd"),
        Err(ResourceError::Denied {
            name: "/etc/passwd".to_string(),
            message: "resource path must be relative to the provider root".to_string(),
        })
    );
    assert_eq!(
        validate_resource_name("a/b/.."),
        Err(ResourceError::Denied {
            name: "a/b/..".to_string(),
            message: "resource path must be relative to the provider root".to_string(),
        })
    );
    assert_eq!(
        validate_resource_name(""),
        Err(ResourceError::Invalid {
            name: String::new(),
            message: "resource name cannot be empty".to_string(),
        })
    );
}

#[test]
fn storing_a_new_key_grows_the_store_and_the_last_write_wins() {
    let p = InMemoryResourceProvider::default();
    assert!(p.is_empty());
    let p = p.with_resource("a.tex", ResourceKind::TexInput, b"one");
    let p = p.with_resource("a.tex", ResourceKind::Package, b"two");
    assert_eq!(p.len(), 2);
    let p = p.with_resource("a.tex", ResourceKind::TexInput, b"three");
    assert_eq!(p.len(), 2);
    assert_eq!(p.read("a.tex", ResourceKind::TexInput).expect("stored").bytes, b"three".to_vec());
    let mut q = InMemoryResourceProvider::new();
    q.insert_request(ResourceRequest::asset("mhchem", "arrows.dat"), b"asset");
    assert_eq!(q.len(), 1);
    assert_eq!(q.read("mhchem/arrows.dat", ResourceKind::Asset).expect("stored").bytes, b"asset".to_vec());
}

#[test]
fn stores_with_the_same_resources_are_equal_whatever_the_order() {
    let a = InMemoryResourceProvider::new()
        .with_resource("a.tex", ResourceKind::TexInput, b"a")
        .with_resource("b.sty", ResourceKind::Package, b"b");
    let b = InMemoryResourceProvider::new()
        .with_resource("b.sty", ResourceKind::Package, b"b")
        .with_resource("a.tex", ResourceKind::TexInput, b"a");
    assert_eq!(a, b);
    assert_ne!(a, b.clone().with_resource("a.tex", ResourceKind::TexInput, b"changed"));
    assert_ne!(a, InMemoryResourceProvider::new().with_resource("a.tex", ResourceKind::TexInput, b"a"));
    let mut p = InMemoryResourceProvider::new();
    let mut q = InMemoryResourceProvider::new();
    p.insert_request(
        ResourceRequest::asset("mhchem", "arrows.dat").with_source("input", mathtex::ir::ByteSpan { start: 1, end: 4 }),
        b"asset",
    );
    q.insert("mhchem/arrows.dat", ResourceKind::Asset, b"asset");
    assert_eq!(p, q);
}
