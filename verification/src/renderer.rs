//! Text-related state of the software renderer: the active font family and
//! the cache of shaped text, which a family change invalidates.
use vstd::prelude::*;

use crate::fonts::{family_support, FontChoice, FontFace, DEFAULT_FONT_FAMILY};
use crate::text_cache::{has_key, stored, CachedText, TextCache, TextCacheKey};
use crate::ui_rules::trimmed;

verus! {

/// The renderer's font choice and shaped-text cache; `V` is what shaping a
/// text produces.
pub struct TextRendererState<V> {
    font: FontChoice,
    cache: TextCache<V>,
}

impl<V> TextRendererState<V> {
    pub closed spec fn font_spec(&self) -> FontChoice {
        self.font
    }

    pub closed spec fn cache_spec(&self) -> TextCache<V> {
        self.cache
    }

    /// Well-formed when the cache is.
    pub open spec fn wf(&self) -> bool {
        self.cache_spec().wf()
    }

    /// The bundled default family and an empty cache.
    pub fn new() -> (r: Self)
        ensures
            r.wf(),
            r.font_spec().family_view() == DEFAULT_FONT_FAMILY@,
            r.font_spec().bold_available(),
            r.font_spec().italic_available(),
            r.cache_spec().entries().len() == 0,
    {
        TextRendererState { font: FontChoice::new(), cache: TextCache::new() }
    }

    /// The font choice.
    pub fn font(&self) -> (r: &FontChoice)
        ensures
            *r == self.font_spec(),
    {
        &self.font
    }

    /// The shaped-text cache.
    pub fn cache(&self) -> (r: &TextCache<V>)
        ensures
            *r == self.cache_spec(),
    {
        &self.cache
    }

    /// Set the font family used for all text (a blank name, empty or all
    /// white space, selects the default).
    /// A change of family drops all shaped text.
    pub fn set_font_family(&mut self, family: &str, faces: &Vec<FontFace>)
        requires
            old(self).wf(),
        ensures
            final(self).wf(),
            final(self).font_spec().family_view() == if trimmed(family@).len() == 0 {
                DEFAULT_FONT_FAMILY@
            } else {
                family@
            },
            final(self).font_spec().family_view() != old(self).font_spec().family_view() ==> {
                &&& final(self).cache_spec().entries().len() == 0
                &&& (final(self).font_spec().bold_available(), final(self).font_spec().italic_available())
                    == family_support(faces@, final(self).font_spec().family_view())
            },
            final(self).font_spec().family_view() == old(self).font_spec().family_view() ==> {
                &&& final(self).cache_spec() == old(self).cache_spec()
                &&& final(self).font_spec().bold_available() == old(self).font_spec().bold_available()
                &&& final(self).font_spec().italic_available() == old(self).font_spec().italic_available()
            },
            final(self).cache_spec().counter() == old(self).cache_spec().counter(),
    {
        if self.font.set_family(family, faces) {
            self.cache.clear();
        }
    }

    /// Look up shaped text: advance the access stamp and, on a hit, restamp
    /// the found entry and leave every other entry as it was; see
    /// [`TextCache::access`].
    pub fn lookup(&mut self, text: &str, size_key: u32, bold: bool, italic: bool) -> (r: Option<usize>)
        requires
            old(self).wf(),
            old(self).cache_spec().counter() < u64::MAX,
        ensures
            final(self).wf(),
            final(self).font_spec() == old(self).font_spec(),
            final(self).cache_spec().counter() == old(self).cache_spec().counter() + 1,
            final(self).cache_spec().entries().len() == old(self).cache_spec().entries().len(),
            match r {
                Some(i) => {
                    &&& i < old(self).cache_spec().entries().len()
                    &&& old(self).cache_spec().entries()[i as int].key.view_key() == (text@, size_key, bold, italic)
                    &&& final(self).cache_spec().entries() == old(self).cache_spec().entries().update(
                        i as int,
                        CachedText {
                            key: old(self).cache_spec().entries()[i as int].key,
                            value: old(self).cache_spec().entries()[i as int].value,
                            last_used: final(self).cache_spec().counter(),
                        },
                    )
                },
                None => {
                    &&& !has_key(old(self).cache_spec().entries(), (text@, size_key, bold, italic))
                    &&& final(self).cache_spec().entries() == old(self).cache_spec().entries()
                },
            },
    {
        self.cache.access(text, size_key, bold, italic)
    }

    /// Store freshly shaped text under the current access stamp, keeping the
    /// other entries unless the cache overflows; see [`TextCache::insert`].
    pub fn store(&mut self, key: TextCacheKey, value: V)
        requires
            old(self).wf(),
            forall|i: int|
                0 <= i < old(self).cache_spec().entries().len() ==> old(self).cache_spec().entries()[i].last_used
                    < old(self).cache_spec().counter(),
        ensures
            final(self).wf(),
            final(self).font_spec() == old(self).font_spec(),
            final(self).cache_spec().counter() == old(self).cache_spec().counter(),
            stored(
                old(self).cache_spec().entries(),
                final(self).cache_spec().entries(),
                key.view_key(),
                value,
                old(self).cache_spec().counter(),
            ),
    {
        self.cache.insert(key, value);
    }

    /// The cached value at index `i`.
    pub fn cached(&self, i: usize) -> (r: &V)
        requires
            i < self.cache_spec().entries().len(),
        ensures
            *r == self.cache_spec().entries()[i as int].value,
    {
        self.cache.value_at(i)
    }
}

} // verus!
