//! Font loading through a resource provider.
//!
//! Fonts are read as `Font` resources under the requested family name, identified by the
//! 32-bit FNV-1a hash of the resolved name, and kept by family so that a family is read once.
//! Loading caches, so it takes the system mutably. Shaping is not offered.
use vstd::prelude::*;
use vstd::utf8::*;

use crate::font::{FontData, FontDataModel, FontError, FontQuery, ShapeRequest, ShapedText, TextShaper};
use crate::ir::FontId;
use crate::resource::{plain_request, read_model, ErrorModel, ResourceError, ResourceKind, ResourceModel, ResourceProvider};
use crate::seqs::{find_first, lemma_first_index_is, lemma_first_index_push, lemma_first_index};
use crate::text::str_eq;

verus! {

/// The 32-bit FNV-1a hash of `bytes`.
pub open spec fn fnv1a(bytes: Seq<u8>) -> u32
    decreases bytes.len(),
{
    if bytes.len() == 0 {
        2166136261u32
    } else {
        vstd::wrapping::u32_specs::wrapping_mul(
            fnv1a(bytes.drop_last()) ^ (bytes.last() as u32),
            16777619u32,
        )
    }
}

/// The font id of a resolved font name: the FNV-1a hash of its UTF-8 bytes.
pub open spec fn font_id_for(name: Seq<char>) -> FontId {
    FontId(fnv1a(encode_utf8(name)))
}

/// The font id of a resolved font name: the FNV-1a hash of its UTF-8 bytes.
pub fn font_id_for_name(name: &str) -> (r: FontId)
    ensures
        r == font_id_for(name@),
{
    let b = name.as_bytes();
    assert(b@ == encode_utf8(name@));
    let mut hash: u32 = 2166136261;
    let mut i: usize = 0;
    assert(b@.take(0) =~= Seq::<u8>::empty());
    while i < b.len()
        invariant
            0 <= i <= b@.len(),
            hash == fnv1a(b@.take(i as int)),
        decreases b@.len() - i,
    {
        hash = (hash ^ (b[i] as u32)).wrapping_mul(16777619);
        assert(b@.take(i + 1).drop_last() =~= b@.take(i as int));
        i += 1;
    }
    assert(b@.take(b@.len() as int) =~= b@);
    FontId(hash)
}

/// Whether `font_error` is the font error for a failed read of `family`: a missing resource
/// is a missing font, an invalid or denied one an invalid font with the same message.
pub open spec fn font_error_for(family: Seq<char>, error: ErrorModel, font_error: FontError) -> bool {
    match error {
        ErrorModel::NotFound { .. } => font_error matches FontError::NotFound { family: f } && f@
            == family,
        ErrorModel::Invalid { message, .. } => font_error matches FontError::Invalid {
            family: f,
            message: m,
        } && f@ == family && m@ == message,
        ErrorModel::Denied { message, .. } => font_error matches FontError::Invalid {
            family: f,
            message: m,
        } && f@ == family && m@ == message,
    }
}

/// Maps a failed font resource read to a font error.
pub fn resource_error_to_font_error(query: &FontQuery, error: ResourceError) -> (r: FontError)
    ensures
        font_error_for(query.family@, error@, r),
{
    match error {
        ResourceError::NotFound { .. } => FontError::NotFound { family: query.family.clone() },
        ResourceError::Invalid { message, .. } => FontError::Invalid {
            family: query.family.clone(),
            message,
        },
        ResourceError::Denied { message, .. } => FontError::Invalid {
            family: query.family.clone(),
            message,
        },
    }
}

/// The font data made of a resolved font resource.
pub open spec fn font_of(resource: ResourceModel) -> FontDataModel {
    FontDataModel {
        id: font_id_for(resource.canonical_name),
        canonical_name: resource.canonical_name,
        bytes: resource.bytes,
    }
}

/// Matches cache entries by family.
pub open spec fn entry_for(family: Seq<char>) -> spec_fn((Seq<char>, FontDataModel)) -> bool {
    |e: (Seq<char>, FontDataModel)| e.0 == family
}

/// Loads font bytes through a [`ResourceProvider`]; shaping is unsupported.
#[derive(Debug)]
pub struct ResourceFontSystem<R> {
    resources: R,
    loaded_fonts: Vec<(String, FontData)>,
}

impl<R> ResourceFontSystem<R> {
    /// The resource provider.
    pub closed spec fn spec_resources(&self) -> R {
        self.resources
    }

    /// The cached fonts with the families they were loaded for, in loading order.
    pub closed spec fn spec_cache(&self) -> Seq<(Seq<char>, FontDataModel)> {
        self.loaded_fonts@.map_values(|e: (String, FontData)| (e.0@, e.1@))
    }

    /// The font cached for a family, if any.
    pub open spec fn cached(&self, family: Seq<char>) -> Option<FontDataModel> {
        match find_first(self.spec_cache(), entry_for(family)) {
            Some(e) => Some(e.1),
            None => None,
        }
    }

    /// Creates a font system backed by the given resource provider.
    pub fn new(resources: R) -> (r: Self)
        ensures
            r.spec_resources() == resources,
            r.spec_cache() == Seq::<(Seq<char>, FontDataModel)>::empty(),
    {
        let r = ResourceFontSystem { resources, loaded_fonts: Vec::new() };
        assert(r.spec_cache() =~= Seq::<(Seq<char>, FontDataModel)>::empty());
        r
    }

    /// Returns a reference to the underlying resource provider.
    pub fn resources(&self) -> (r: &R)
        ensures
            *r == self.spec_resources(),
    {
        &self.resources
    }

    /// Unwraps and returns the underlying resource provider.
    pub fn into_resources(self) -> (r: R)
        ensures
            r == self.spec_resources(),
    {
        self.resources
    }

    /// Number of fonts cached by requested family.
    pub fn cached_font_count(&self) -> (r: usize)
        ensures
            r == self.spec_cache().len(),
    {
        self.loaded_fonts.len()
    }
}

impl<R: ResourceProvider> ResourceFontSystem<R> {
    /// Loads the font for a query: the one cached for its family, else the `Font` resource
    /// of that name, which is then cached.
    pub fn load_font(&mut self, query: &FontQuery) -> (r: Result<FontData, FontError>)
        ensures
            final(self).spec_resources() == old(self).spec_resources(),
            old(self).cached(query.family@) matches Some(m) ==> (r matches Ok(f) && f@ == m
                && final(self).spec_cache() == old(self).spec_cache()),
            old(self).cached(query.family@) is None ==> exists|res: Result<ResourceModel, ErrorModel>|
                {
                    &&& old(self).spec_resources().answers(
                        plain_request(query.family@, ResourceKind::Font),
                        res,
                    )
                    &&& match res {
                        Ok(m) => r matches Ok(f) && f@ == font_of(m) && final(self).spec_cache()
                            == old(self).spec_cache().push((query.family@, font_of(m))),
                        Err(e) => r matches Err(fe) && font_error_for(query.family@, e, fe)
                            && final(self).spec_cache() == old(self).spec_cache(),
                    }
                },
    {
        let ghost cache = self.spec_cache();
        let ghost p = entry_for(query.family@);
        let mut i: usize = 0;
        while i < self.loaded_fonts.len()
            invariant
                0 <= i <= self.loaded_fonts@.len(),
                *self == *old(self),
                cache == self.spec_cache(),
                p == entry_for(query.family@),
                forall|j: int| 0 <= j < i ==> !p(#[trigger] cache[j]),
            decreases self.loaded_fonts@.len() - i,
        {
            assert(cache[i as int] == (self.loaded_fonts@[i as int].0@, self.loaded_fonts@[i as int].1@));
            if str_eq(self.loaded_fonts[i].0.as_str(), query.family.as_str()) {
                proof {
                    lemma_first_index_is(cache, p, i as int);
                }
                return Ok(self.loaded_fonts[i].1.clone());
            }
            i += 1;
        }
        proof {
            lemma_first_index_is(cache, p, i as int);
        }
        let read = self.resources.read_font(query.family.as_str());
        let ghost res = read_model(read);
        assert(old(self).spec_resources().answers(plain_request(query.family@, ResourceKind::Font), res));
        match read {
            Err(error) => {
                let r = resource_error_to_font_error(query, error);
                assert(res == Err::<ResourceModel, ErrorModel>(error@));
                assert(font_error_for(query.family@, error@, r));
                assert(self.spec_cache() == old(self).spec_cache());
                Err(r)
            },
            Ok(resource) => {
                let font = FontData::new(
                    font_id_for_name(resource.canonical_name.as_str()),
                    resource.canonical_name.as_str(),
                    resource.bytes.as_slice(),
                );
                let entry = (query.family.clone(), font.clone());
                self.loaded_fonts.push(entry);
                assert(self.spec_cache() =~= cache.push((query.family@, font@)));
                assert(font@ == font_of(read_model(read)->Ok_0));
                Ok(font)
            },
        }
    }
}

impl<R> TextShaper for ResourceFontSystem<R> {
    open spec fn shaper_answer(&self, request: ShapeRequest<'_>, result: Result<ShapedText, FontError>) -> bool {
        result matches Err(FontError::ShapingUnsupported { message }) && message@
            == "resource font system loads bytes but does not shape text"@
    }

    fn shape_text(&self, request: &ShapeRequest<'_>) -> (r: Result<ShapedText, FontError>) {
        Err(
            FontError::ShapingUnsupported {
                message: "resource font system loads bytes but does not shape text".to_owned(),
            },
        )
    }
}

/// A family loaded once is answered from the cache afterwards: once a font is cached for a
/// family that had none, the cache gives that font for it.
pub proof fn lemma_loaded_family_is_cached(
    cache: Seq<(Seq<char>, FontDataModel)>,
    family: Seq<char>,
    font: FontDataModel,
)
    requires
        find_first(cache, entry_for(family)) is None,
    ensures
        find_first(cache.push((family, font)), entry_for(family)) == Some((family, font)),
{
    let p = entry_for(family);
    lemma_first_index(cache, p);
    lemma_first_index_push(cache, p, (family, font));
    assert(cache.push((family, font))[cache.len() as int] == (family, font));
}

} // verus!
