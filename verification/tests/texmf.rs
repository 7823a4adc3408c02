use mathtex::resource::{ResourceError, ResourceKind, ResourceRequest};
use mathtex::texmf::{SearchFormat, TexmfResources};

const LISTING: &str = "% ls-R -- filename database for kpathsea; do not change this line.\n\
./tex/latex/base:\n\
article.cls\n\
size10.clo\n\
\n\
./tex/generic/hyphen:\n\
hyphen.tex\n\
\n\
./fonts/tfm/public/cm:\n\
cmr10.tfm\n\
\n\
tex/plain/base:\n\
plain.tex\n\
hyphen.tex\n";

fn tree() -> TexmfResources {
    TexmfResources::from_ls_r("/usr/share/texmf", LISTING.as_bytes()).expect("listing names files")
}

#[test]
fn ls_r_listing_indexes_each_file_name_once() {
    let tree = tree();
    assert_eq!(tree.root(), "/usr/share/texmf");
    assert_eq!(tree.len(), 5);
    assert!(!tree.is_empty());
}

#[test]
fn ls_r_listing_without_files_is_refused() {
    assert!(TexmfResources::from_ls_r("/t", b"% only a comment\n\n./tex/latex:\n").is_none());
    assert!(TexmfResources::from_ls_r("/t", b"").is_none());
}

#[test]
fn ls_r_listing_accepts_crlf_lines() {
    let tree = TexmfResources::from_ls_r("/t", b"./fonts/map/dvips:\r\npdftex.map  \r\n").expect("one file");
    assert_eq!(tree.len(), 1);
    let plan = tree.lookup_plan(&ResourceRequest::new("pdftex", ResourceKind::FontMap));
    assert_eq!(plan, vec![("fonts/map/dvips".to_string(), "pdftex.map".to_string())]);
}

#[test]
fn normalize_strips_markers_wrappers_and_directories() {
    assert_eq!(TexmfResources::normalize("  ./[]:\"foo/bar.sty\"  "), "bar.sty");
    assert_eq!(TexmfResources::normalize("dir\\sub\\x.tex"), "x.tex");
    assert_eq!(TexmfResources::normalize("./././plain"), "plain");
    assert_eq!(TexmfResources::normalize("[lmroman10-regular.otf]"), "lmroman10-regular.otf");
    assert_eq!(TexmfResources::normalize("trailing/"), "");
}

#[test]
fn format_for_picks_font_trees_by_extension() {
    assert_eq!(TexmfResources::format_for(ResourceKind::Font, "LMRoman.OTF"), SearchFormat::OpenType);
    assert_eq!(TexmfResources::format_for(ResourceKind::Font, "x.otc"), SearchFormat::OpenType);
    assert_eq!(TexmfResources::format_for(ResourceKind::Font, "cmr10"), SearchFormat::Tfm);
    assert_eq!(TexmfResources::format_for(ResourceKind::Package, "psfonts.map"), SearchFormat::FontMap);
    assert_eq!(TexmfResources::format_for(ResourceKind::TexInput, "cm.enc"), SearchFormat::Encoding);
    assert_eq!(TexmfResources::format_for(ResourceKind::TexInput, "cmr10.tfm"), SearchFormat::Tfm);
    assert_eq!(TexmfResources::format_for(ResourceKind::Config, "a.ttf"), SearchFormat::OpenType);
    assert_eq!(TexmfResources::format_for(ResourceKind::TexInput, "plain.tex"), SearchFormat::Tex);
    assert_eq!(TexmfResources::format_for(ResourceKind::Encoding, "x.tex"), SearchFormat::Encoding);
    assert_eq!(TexmfResources::format_for(ResourceKind::FontMap, "x.tex"), SearchFormat::FontMap);
}

#[test]
fn candidates_add_kind_extensions_only_without_extension() {
    assert_eq!(
        TexmfResources::candidates(&ResourceRequest::new("cmr10", ResourceKind::Font)),
        vec!["cmr10", "cmr10.tfm", "cmr10.otf", "cmr10.ttf"]
    );
    assert_eq!(
        TexmfResources::candidates(&ResourceRequest::new("article.cls", ResourceKind::Class)),
        vec!["article.cls"]
    );
    assert_eq!(
        TexmfResources::candidates(&ResourceRequest::new(".hidden", ResourceKind::Class)),
        vec![".hidden", ".hidden.cls"]
    );
    assert_eq!(
        TexmfResources::candidates(&ResourceRequest::asset("pkg", "logo")),
        vec![
            "logo", "logo.tex", "logo.sty", "logo.def", "logo.cfg", "logo.ltx", "logo.fd",
            "logo.cls", "logo.enc"
        ]
    );
}

#[test]
fn lookup_plan_follows_search_priority_then_listing_order() {
    let tree = tree();
    assert_eq!(
        tree.lookup_plan(&ResourceRequest::new("hyphen", ResourceKind::TexInput)),
        vec![("tex/generic/hyphen".to_string(), "hyphen.tex".to_string())]
    );
    assert_eq!(
        tree.lookup_plan(&ResourceRequest::new("plain", ResourceKind::TexInput)),
        vec![("tex/plain/base".to_string(), "plain.tex".to_string())]
    );
    assert_eq!(
        tree.lookup_plan(&ResourceRequest::new("cmr10", ResourceKind::Font)),
        vec![("fonts/tfm/public/cm".to_string(), "cmr10.tfm".to_string())]
    );
    // A class file is not searched for in the font metric tree.
    assert!(tree.lookup_plan(&ResourceRequest::new("article.cls", ResourceKind::Font)).is_empty());
    assert!(tree.lookup_plan(&ResourceRequest::new("missing", ResourceKind::Package)).is_empty());
}

#[test]
fn not_found_names_the_canonical_request() {
    assert_eq!(
        TexmfResources::not_found(&ResourceRequest::asset("pkg", "logo")),
        ResourceError::NotFound { name: "pkg/logo".to_string(), kind: ResourceKind::Asset }
    );
}

#[test]
fn ls_r_listing_replaces_invalid_utf8() {
    let tree = TexmfResources::from_ls_r("/t", b"./tex/generic/x:\n\xffname\n").expect("one file");
    assert_eq!(tree.len(), 1);
    assert_eq!(
        tree.lookup_plan(&ResourceRequest::new("\u{fffd}name", ResourceKind::TexInput)),
        vec![("tex/generic/x".to_string(), "\u{fffd}name".to_string())]
    );
}
