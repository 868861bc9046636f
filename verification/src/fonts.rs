//! Font selection: which installed faces can render Latin text, the sorted
//! list of usable family names offered by the font picker, whether a family
//! has bold and italic faces, and the renderer's active family.
use vstd::prelude::*;
use vstd::utf8::encode_utf8;

use crate::ui_rules::{trim, trimmed};
use crate::text::{
    bytes_lt, compare_bytes, lemma_bytes_lt_irreflexive, lemma_bytes_lt_transitive, lemma_utf8_injective,
    str_eq, Comparison,
};

verus! {

// ─────────────────────────────────────────────────────────────────────────────
// Font face parsing (ttf-parser)
// ─────────────────────────────────────────────────────────────────────────────

#[verifier::external_type_specification]
#[verifier::external_body]
pub struct ExTtfFace<'a>(ttf_parser::Face<'a>);

#[verifier::external_type_specification]
#[verifier::external_body]
pub struct ExTtfFaceParsingError(ttf_parser::FaceParsingError);

/// Whether `ttf_parser::Face::parse` accepts face `index` of the font data.
pub uninterp spec fn ttf_face_parses(data: Seq<u8>, index: u32) -> bool;

/// The glyph id that `ttf_parser::Face::glyph_index` maps character `c` to in
/// face `index` of the font data (none when the cmap has no glyph for it).
pub uninterp spec fn ttf_glyph_index(data: Seq<u8>, index: u32, c: char) -> Option<u16>;

/// A face parsed from font data, together with the data and face index it
/// was parsed from.
pub struct ParsedFace<'a> {
    data: &'a [u8],
    index: u32,
    face: ttf_parser::Face<'a>,
}

impl<'a> ParsedFace<'a> {
    /// The font data the face was parsed from.
    pub closed spec fn data_view(&self) -> Seq<u8> {
        self.data@
    }

    /// The index of the face within the font data.
    pub closed spec fn index_view(&self) -> u32 {
        self.index
    }
}

/// Calls `ttf_parser::Face::parse(data, index)`. Trusted to succeed exactly
/// when `ttf_face_parses(data, index)`; the parsed face keeps the data and
/// index it came from. Which error a failure carries is not stated.
#[verifier::external_body]
fn parse_face<'a>(data: &'a [u8], index: u32) -> (r: Result<ParsedFace<'a>, ttf_parser::FaceParsingError>)
    ensures
        r.is_ok() == ttf_face_parses(data@, index),
        r matches Ok(p) ==> p.data_view() == data@ && p.index_view() == index,
{
    match ttf_parser::Face::parse(data, index) {
        Ok(face) => Ok(ParsedFace { data, index, face }),
        Err(e) => Err(e),
    }
}

/// Calls `ttf_parser::Face::glyph_index(c)` on a parsed face and returns the
/// glyph id's number. Trusted to equal `ttf_glyph_index` of the face's data,
/// index and `c`.
#[verifier::external_body]
fn glyph_index(face: &ParsedFace, c: char) -> (r: Option<u16>)
    ensures
        r == ttf_glyph_index(face.data_view(), face.index_view(), c),
{
    face.face.glyph_index(c).map(|g| g.0)
}

/// Representative Latin letters a usable Roman-text font must map.
pub const LATIN_PROBE: [char; 6] = ['A', 'a', 'g', 'R', 'z', 'e'];

/// The Latin probe letters.
pub open spec fn latin_probe() -> Seq<char> {
    seq!['A', 'a', 'g', 'R', 'z', 'e']
}

/// A face supports Latin text when it parses and maps every probe letter.
pub open spec fn supports_latin(data: Seq<u8>, index: u32) -> bool {
    ttf_face_parses(data, index) && forall|i: int|
        0 <= i < latin_probe().len() ==> (#[trigger] ttf_glyph_index(data, index, latin_probe()[i])).is_some()
}

/// A face supports Latin text exactly when it parses and maps each of the
/// letters A, a, g, R, z and e to a glyph.
pub proof fn lemma_supports_latin_letters(data: Seq<u8>, index: u32)
    ensures
        supports_latin(data, index) <==> (ttf_face_parses(data, index) && ttf_glyph_index(data, index, 'A').is_some()
            && ttf_glyph_index(data, index, 'a').is_some() && ttf_glyph_index(data, index, 'g').is_some()
            && ttf_glyph_index(data, index, 'R').is_some() && ttf_glyph_index(data, index, 'z').is_some()
            && ttf_glyph_index(data, index, 'e').is_some()),
{
    let p = latin_probe();
    assert(p[0] == 'A' && p[1] == 'a' && p[2] == 'g' && p[3] == 'R' && p[4] == 'z' && p[5] == 'e');
    if ttf_face_parses(data, index) && ttf_glyph_index(data, index, 'A').is_some()
        && ttf_glyph_index(data, index, 'a').is_some() && ttf_glyph_index(data, index, 'g').is_some()
        && ttf_glyph_index(data, index, 'R').is_some() && ttf_glyph_index(data, index, 'z').is_some()
        && ttf_glyph_index(data, index, 'e').is_some() {
        assert forall|i: int| 0 <= i < p.len() implies (#[trigger] ttf_glyph_index(data, index, p[i])).is_some() by {
            assert(i == 0 || i == 1 || i == 2 || i == 3 || i == 4 || i == 5);
        }
    }
    if supports_latin(data, index) {
        assert(ttf_glyph_index(data, index, p[0]).is_some());
        assert(ttf_glyph_index(data, index, p[1]).is_some());
        assert(ttf_glyph_index(data, index, p[2]).is_some());
        assert(ttf_glyph_index(data, index, p[3]).is_some());
        assert(ttf_glyph_index(data, index, p[4]).is_some());
        assert(ttf_glyph_index(data, index, p[5]).is_some());
    }
}

/// Whether face `index` of the font data has glyphs for the Latin probe
/// letters; data that does not parse does not.
pub fn face_supports_latin(data: &[u8], index: u32) -> (r: bool)
    ensures
        r == supports_latin(data@, index),
{
    match parse_face(data, index) {
        Ok(face) => {
            let probe = LATIN_PROBE;
            assert(probe@ == latin_probe());
            let mut i: usize = 0;
            while i < 6
                invariant
                    i <= 6,
                    probe@ == latin_probe(),
                    face.data_view() == data@,
                    face.index_view() == index,
                    forall|j: int| 0 <= j < i ==> (#[trigger] ttf_glyph_index(data@, index, latin_probe()[j])).is_some(),
                decreases 6 - i,
            {
                if glyph_index(&face, probe[i]).is_none() {
                    return false;
                }
                i = i + 1;
            }
            true
        },
        Err(_) => false,
    }
}

// ─────────────────────────────────────────────────────────────────────────────
// Installed faces
// ─────────────────────────────────────────────────────────────────────────────

/// What the font picker needs to know of an installed face: its family
/// names (first is the primary one), its weight, whether its style is other
/// than normal (italic or oblique), and whether it supports Latin text.
#[derive(Debug, Clone)]
pub struct FontFace {
    pub families: Vec<String>,
    pub weight: u16,
    pub slanted: bool,
    pub latin: bool,
}

/// The primary family name of a face that supports Latin text and has one.
pub open spec fn offered_name(f: FontFace) -> Option<Seq<char>> {
    if f.latin && f.families@.len() > 0 {
        Some(f.families@[0]@)
    } else {
        None
    }
}

/// A family name is offered by the picker for these faces.
pub open spec fn is_offered(faces: Seq<FontFace>, name: Seq<char>) -> bool {
    exists|i: int| 0 <= i < faces.len() && offered_name(faces[i]) == Some(name)
}

/// Names strictly increase in byte order (so no name occurs twice).
pub open spec fn strictly_sorted(names: Seq<String>) -> bool {
    forall|i: int, j: int|
        0 <= i < j < names.len() ==> bytes_lt(encode_utf8(names[i]@), encode_utf8(names[j]@))
}

/// A family name is listed by the picker: a face offers it, or it is the
/// bundled default family, which is always available.
pub open spec fn is_listed(faces: Seq<FontFace>, name: Seq<char>) -> bool {
    is_offered(faces, name) || name == DEFAULT_FONT_FAMILY@
}

/// `names` is strictly sorted and holds exactly the names listed for `faces`.
pub open spec fn offers_exactly(faces: Seq<FontFace>, names: Seq<String>) -> bool {
    &&& strictly_sorted(names)
    &&& forall|i: int| 0 <= i < names.len() ==> is_listed(faces, #[trigger] names[i]@)
    &&& forall|name: Seq<char>| is_listed(faces, name) ==> exists|i: int| 0 <= i < names.len() && #[trigger] names[i]@ == name
}

/// Some name of `names` has the content `name`.
pub open spec fn lists_name(names: Seq<String>, name: Seq<char>) -> bool {
    exists|j: int| 0 <= j < names.len() && names[j]@ == name
}

/// Two strictly sorted lists naming the same contents hold them in the same
/// order.
proof fn lemma_sorted_same_names_equal(a: Seq<String>, b: Seq<String>)
    requires
        strictly_sorted(a),
        strictly_sorted(b),
        forall|i: int| 0 <= i < a.len() ==> lists_name(b, #[trigger] a[i]@),
        forall|j: int| 0 <= j < b.len() ==> lists_name(a, #[trigger] b[j]@),
    ensures
        a.len() == b.len(),
        forall|i: int| 0 <= i < a.len() ==> a[i]@ == b[i]@,
    decreases a.len(),
{
    if a.len() == 0 {
        if b.len() > 0 {
            assert(lists_name(a, b[0]@));
        }
        return;
    }
    if b.len() == 0 {
        assert(lists_name(b, a[0]@));
        return;
    }
    assert(lists_name(b, a[0]@));
    assert(lists_name(a, b[0]@));
    let p = choose|j: int| 0 <= j < b.len() && b[j]@ == a[0]@;
    let q = choose|i: int| 0 <= i < a.len() && a[i]@ == b[0]@;
    if p > 0 {
        assert(bytes_lt(encode_utf8(b[0]@), encode_utf8(b[p]@)));
        if q > 0 {
            assert(bytes_lt(encode_utf8(a[0]@), encode_utf8(a[q]@)));
            lemma_bytes_lt_transitive(encode_utf8(b[0]@), encode_utf8(a[0]@), encode_utf8(b[0]@));
        }
        lemma_bytes_lt_irreflexive(encode_utf8(b[0]@));
    }
    assert(a[0]@ == b[0]@);
    let a1 = a.drop_first();
    let b1 = b.drop_first();
    assert forall|i: int| 0 <= i < a1.len() implies lists_name(b1, #[trigger] a1[i]@) by {
        assert(a1[i] == a[i + 1]);
        assert(lists_name(b, a[i + 1]@));
        let j = choose|j: int| 0 <= j < b.len() && b[j]@ == a[i + 1]@;
        if j == 0 {
            assert(bytes_lt(encode_utf8(a[0]@), encode_utf8(a[i + 1]@)));
            lemma_bytes_lt_irreflexive(encode_utf8(a[0]@));
        }
        assert(b1[j - 1] == b[j]);
    }
    assert forall|j: int| 0 <= j < b1.len() implies lists_name(a1, #[trigger] b1[j]@) by {
        assert(b1[j] == b[j + 1]);
        assert(lists_name(a, b[j + 1]@));
        let i = choose|i: int| 0 <= i < a.len() && a[i]@ == b[j + 1]@;
        if i == 0 {
            assert(bytes_lt(encode_utf8(b[0]@), encode_utf8(b[j + 1]@)));
            lemma_bytes_lt_irreflexive(encode_utf8(b[0]@));
        }
        assert(a1[i - 1] == a[i]);
    }
    lemma_sorted_same_names_equal(a1, b1);
    assert forall|i: int| 0 <= i < a.len() implies a[i]@ == b[i]@ by {
        if i > 0 {
            assert(a1[i - 1] == a[i]);
            assert(b1[i - 1] == b[i]);
        }
    }
}

/// The family list is determined by the faces: any two lists that hold
/// exactly the names listed for the same faces, sorted, hold the same names
/// in the same order. So equal faces always give equal lists.
pub proof fn lemma_family_list_determined(faces: Seq<FontFace>, a: Seq<String>, b: Seq<String>)
    requires
        offers_exactly(faces, a),
        offers_exactly(faces, b),
    ensures
        a.len() == b.len(),
        forall|i: int| 0 <= i < a.len() ==> a[i]@ == b[i]@,
{
    assert forall|i: int| 0 <= i < a.len() implies lists_name(b, #[trigger] a[i]@) by {
        assert(is_listed(faces, a[i]@));
    }
    assert forall|j: int| 0 <= j < b.len() implies lists_name(a, #[trigger] b[j]@) by {
        assert(is_listed(faces, b[j]@));
    }
    lemma_sorted_same_names_equal(a, b);
}

/// The family names the font picker offers for the given faces: the primary
/// family name of every face that supports Latin text, plus the bundled
/// default family, each once, sorted by bytes (the order of `str`
/// comparison).
pub fn available_font_families(faces: &Vec<FontFace>) -> (r: Vec<String>)
    ensures
        offers_exactly(faces@, r@),
{
    let mut out: Vec<String> = Vec::new();
    let n = faces.len();
    let mut k: usize = 0;
    while k < n
        invariant
            n == faces@.len(),
            k <= n,
            strictly_sorted(out@),
            forall|i: int| 0 <= i < out@.len() ==> is_offered(faces@, #[trigger] out@[i]@),
            forall|j: int| 0 <= j < k ==> (#[trigger] offered_name(faces@[j])) is Some ==> exists|i: int|
                0 <= i < out@.len() && out@[i]@ == offered_name(faces@[j])->0,
        decreases n - k,
    {
        let face = &faces[k];
        if face.latin && face.families.len() > 0 {
            let name = &face.families[0];
            assert(offered_name(faces@[k as int]) == Some(name@));
            let ghost before = out@;
            insert_sorted_unique(&mut out, name);
            proof {
                assert forall|i: int| 0 <= i < out@.len() implies is_offered(faces@, #[trigger] out@[i]@) by {
                    if out@[i]@ != name@ {
                        let p = choose|p: int| 0 <= p < before.len() && before[p]@ == out@[i]@;
                        assert(is_offered(faces@, before[p]@));
                    } else {
                        assert(offered_name(faces@[k as int]) == Some(out@[i]@));
                    }
                }
                assert forall|j: int| 0 <= j < k + 1 && (#[trigger] offered_name(faces@[j])) is Some implies exists|i: int|
                    0 <= i < out@.len() && out@[i]@ == offered_name(faces@[j])->0 by {
                    if j < k {
                        let p = choose|p: int| 0 <= p < before.len() && before[p]@ == offered_name(faces@[j])->0;
                        assert(before.contains(before[p]));
                        let q = choose|q: int| 0 <= q < out@.len() && out@[q]@ == before[p]@;
                    }
                }
            }
        } else {
            proof {
                assert(offered_name(faces@[k as int]) is None);
            }
        }
        k = k + 1;
    }
    proof {
        assert forall|name: Seq<char>| is_offered(faces@, name) implies exists|i: int|
            0 <= i < out@.len() && #[trigger] out@[i]@ == name by {
            let j = choose|j: int| 0 <= j < faces@.len() && offered_name(faces@[j]) == Some(name);
            assert(offered_name(faces@[j]) is Some);
        }
    }
    let default_family = String::from_str(DEFAULT_FONT_FAMILY);
    let ghost before = out@;
    insert_sorted_unique(&mut out, &default_family);
    proof {
        assert forall|i: int| 0 <= i < out@.len() implies is_listed(faces@, #[trigger] out@[i]@) by {
            if out@[i]@ != default_family@ {
                let p = choose|p: int| 0 <= p < before.len() && before[p]@ == out@[i]@;
                assert(is_offered(faces@, before[p]@));
            }
        }
        assert forall|name: Seq<char>| is_listed(faces@, name) implies exists|i: int|
            0 <= i < out@.len() && #[trigger] out@[i]@ == name by {
            if name != DEFAULT_FONT_FAMILY@ {
                let p = choose|p: int| 0 <= p < before.len() && #[trigger] before[p]@ == name;
                let q = choose|q: int| 0 <= q < out@.len() && out@[q]@ == before[p]@;
            }
        }
    }
    out
}

/// Insert a copy of `name` into a strictly sorted list unless a name with
/// the same content is already there.
fn insert_sorted_unique(names: &mut Vec<String>, name: &String)
    requires
        strictly_sorted(old(names)@),
    ensures
        strictly_sorted(final(names)@),
        exists|i: int| 0 <= i < final(names)@.len() && final(names)@[i]@ == name@,
        forall|i: int| 0 <= i < final(names)@.len() && final(names)@[i]@ != name@ ==> exists|p: int|
            0 <= p < old(names)@.len() && old(names)@[p]@ == #[trigger] final(names)@[i]@,
        forall|p: int| 0 <= p < old(names)@.len() ==> exists|i: int|
            0 <= i < final(names)@.len() && final(names)@[i]@ == #[trigger] old(names)@[p]@,
{
    let ghost orig = names@;
    let n = names.len();
    let mut i: usize = 0;
    let mut stop = false;
    while i < n && !stop
        invariant
            n == names@.len(),
            names@ == orig,
            i <= n,
            strictly_sorted(orig),
            forall|j: int| 0 <= j < i ==> bytes_lt(encode_utf8(#[trigger] orig[j]@), encode_utf8(name@)),
            stop ==> i < n && bytes_lt(encode_utf8(name@), encode_utf8(orig[i as int]@)),
        decreases n - i, if stop { 0int } else { 1int },
    {
        match compare_bytes(names[i].as_str(), name.as_str()) {
            Comparison::Less => {
                i = i + 1;
            },
            Comparison::Equal => {
                proof {
                    assert forall|p: int| 0 <= p < orig.len() implies exists|q: int|
                        0 <= q < names@.len() && names@[q]@ == #[trigger] orig[p]@ by {
                        assert(names@[p]@ == orig[p]@);
                    }
                    assert forall|q: int| 0 <= q < names@.len() && names@[q]@ != name@ implies exists|p: int|
                        0 <= p < orig.len() && orig[p]@ == #[trigger] names@[q]@ by {
                        assert(orig[q]@ == names@[q]@);
                    }
                }
                return;
            },
            Comparison::Greater => {
                stop = true;
            },
        }
    }
    // Every name before position `i` sorts before `name`; the name at `i`,
    // if any, sorts after it.
    let copy = name.clone();
    names.insert(i, copy);
    proof {
        let s = names@;
        assert(s =~= orig.insert(i as int, copy));
        assert(s[i as int]@ == name@);
        if i < n {
            assert(bytes_lt(encode_utf8(name@), encode_utf8(orig[i as int]@)));
        }
        assert forall|a: int, b: int| 0 <= a < b < s.len() implies bytes_lt(encode_utf8(s[a]@), encode_utf8(s[b]@)) by {
            if b == i {
                assert(s[a] == orig[a]);
            } else if a == i {
                assert(s[b] == orig[b - 1]);
                if b - 1 > i {
                    lemma_bytes_lt_transitive(encode_utf8(name@), encode_utf8(orig[i as int]@), encode_utf8(orig[b - 1]@));
                }
            } else {
                let oa = if a < i { a } else { a - 1 };
                let ob = if b < i { b } else { b - 1 };
                assert(s[a] == orig[oa]);
                assert(s[b] == orig[ob]);
            }
        }
        assert forall|q: int| 0 <= q < s.len() && s[q]@ != name@ implies exists|p: int|
            0 <= p < orig.len() && orig[p]@ == #[trigger] s[q]@ by {
            let p = if q < i { q } else { q - 1 };
            assert(q != i);
            assert(orig[p] == s[q]);
        }
        assert forall|p: int| 0 <= p < orig.len() implies exists|q: int|
            0 <= q < s.len() && s[q]@ == #[trigger] orig[p]@ by {
            let q = if p < i { p } else { p + 1 };
            assert(s[q] == orig[p]);
        }
    }
}

/// Whether some face of `family` has the given property.
pub open spec fn has_family(f: FontFace, family: Seq<char>) -> bool {
    exists|i: int| 0 <= i < f.families@.len() && #[trigger] f.families@[i]@ == family
}

/// Whether `family` provides a bold face (weight 600 or more) and a
/// slanted (italic or oblique) face among the given faces.
pub open spec fn family_support(faces: Seq<FontFace>, family: Seq<char>) -> (bool, bool) {
    (
        exists|i: int| 0 <= i < faces.len() && has_family(faces[i], family) && faces[i].weight >= 600,
        exists|i: int| 0 <= i < faces.len() && has_family(faces[i], family) && faces[i].slanted,
    )
}

/// Bold and italic support grow face by face: one more face adds bold
/// support exactly when it belongs to the family and weighs 600 or more,
/// and italic support exactly when it belongs to the family and is slanted;
/// with no faces the family has neither.
pub proof fn lemma_family_support_per_face(faces: Seq<FontFace>, f: FontFace, family: Seq<char>)
    ensures
        family_support(faces.push(f), family).0 == (family_support(faces, family).0 || (has_family(f, family)
            && f.weight >= 600)),
        family_support(faces.push(f), family).1 == (family_support(faces, family).1 || (has_family(f, family)
            && f.slanted)),
        family_support(Seq::<FontFace>::empty(), family) == (false, false),
{
    let g = faces.push(f);
    assert(g[faces.len() as int] == f);
    assert forall|i: int| 0 <= i < faces.len() implies g[i] == faces[i] by {}
    if family_support(g, family).0 {
        let i = choose|i: int| 0 <= i < g.len() && has_family(g[i], family) && g[i].weight >= 600;
        if i < faces.len() {
            assert(has_family(faces[i], family) && faces[i].weight >= 600);
        }
    }
    if family_support(faces, family).0 {
        let i = choose|i: int| 0 <= i < faces.len() && has_family(faces[i], family) && faces[i].weight >= 600;
        assert(has_family(g[i], family) && g[i].weight >= 600);
    }
    if family_support(g, family).1 {
        let i = choose|i: int| 0 <= i < g.len() && has_family(g[i], family) && g[i].slanted;
        if i < faces.len() {
            assert(has_family(faces[i], family) && faces[i].slanted);
        }
    }
    if family_support(faces, family).1 {
        let i = choose|i: int| 0 <= i < faces.len() && has_family(faces[i], family) && faces[i].slanted;
        assert(has_family(g[i], family) && g[i].slanted);
    }
}

/// Whether face `f` lists `family` among its family names.
fn lists_family(f: &FontFace, family: &str) -> (r: bool)
    ensures
        r == has_family(*f, family@),
{
    let n = f.families.len();
    let mut i: usize = 0;
    while i < n
        invariant
            n == f.families@.len(),
            i <= n,
            forall|j: int| 0 <= j < i ==> (#[trigger] f.families@[j])@ != family@,
        decreases n - i,
    {
        if str_eq(f.families[i].as_str(), family) {
            return true;
        }
        i = i + 1;
    }
    false
}

/// Whether `family` has a bold face and an italic face: `(has_bold, has_italic)`.
pub fn family_face_support(faces: &Vec<FontFace>, family: &str) -> (r: (bool, bool))
    ensures
        r == family_support(faces@, family@),
{
    let mut has_bold = false;
    let mut has_italic = false;
    let n = faces.len();
    let mut k: usize = 0;
    while k < n
        invariant
            n == faces@.len(),
            k <= n,
            has_bold == exists|i: int| 0 <= i < k && has_family(faces@[i], family@) && faces@[i].weight >= 600,
            has_italic == exists|i: int| 0 <= i < k && has_family(faces@[i], family@) && faces@[i].slanted,
        decreases n - k,
    {
        let f = &faces[k];
        if lists_family(f, family) {
            if f.weight >= 600 {
                has_bold = true;
            }
            if f.slanted {
                has_italic = true;
            }
        }
        k = k + 1;
    }
    (has_bold, has_italic)
}

// ─────────────────────────────────────────────────────────────────────────────
// Active family
// ─────────────────────────────────────────────────────────────────────────────

/// Default overlay font family; bundled, so always present.
pub const DEFAULT_FONT_FAMILY: &'static str = "Inter";

/// The renderer's active font family and whether it has bold and italic
/// faces. Bold or italic text is only requested from the shaper when the
/// family has such a face, so text stays in the chosen family.
pub struct FontChoice {
    family: String,
    has_bold: bool,
    has_italic: bool,
}

impl FontChoice {
    pub closed spec fn family_view(&self) -> Seq<char> {
        self.family@
    }

    pub closed spec fn bold_available(&self) -> bool {
        self.has_bold
    }

    pub closed spec fn italic_available(&self) -> bool {
        self.has_italic
    }

    /// The bundled default family, which has bold and italic faces.
    pub fn new() -> (r: Self)
        ensures
            r.family_view() == DEFAULT_FONT_FAMILY@,
            r.bold_available(),
            r.italic_available(),
    {
        FontChoice { family: String::from_str(DEFAULT_FONT_FAMILY), has_bold: true, has_italic: true }
    }

    /// The active family name.
    pub fn family(&self) -> (r: &str)
        ensures
            r@ == self.family_view(),
    {
        self.family.as_str()
    }

    /// Select `family` (a blank name, empty or all white space, selects the
    /// default). When that is a
    /// different family, its bold and italic support is looked up among the
    /// installed faces and `true` is returned: shaped text must be dropped.
    pub fn set_family(&mut self, family: &str, faces: &Vec<FontFace>) -> (changed: bool)
        ensures
            final(self).family_view() == if trimmed(family@).len() == 0 {
                DEFAULT_FONT_FAMILY@
            } else {
                family@
            },
            changed == (final(self).family_view() != old(self).family_view()),
            changed ==> (final(self).bold_available(), final(self).italic_available())
                == family_support(faces@, final(self).family_view()),
            !changed ==> final(self).bold_available() == old(self).bold_available()
                && final(self).italic_available() == old(self).italic_available(),
    {
        let wanted: &str = if trim(family).unicode_len() == 0 {
            DEFAULT_FONT_FAMILY
        } else {
            family
        };
        if str_eq(self.family.as_str(), wanted) {
            return false;
        }
        self.family = String::from_str(wanted);
        let (b, i) = family_face_support(faces, wanted);
        self.has_bold = b;
        self.has_italic = i;
        true
    }

    /// Whether to ask the shaper for a bold face.
    pub fn request_bold(&self, bold: bool) -> (r: bool)
        ensures
            r == (bold && self.bold_available()),
    {
        bold && self.has_bold
    }

    /// Whether to ask the shaper for an italic face.
    pub fn request_italic(&self, italic: bool) -> (r: bool)
        ensures
            r == (italic && self.italic_available()),
    {
        italic && self.has_italic
    }
}

/// The family list offered by the picker has no name twice.
pub proof fn lemma_strictly_sorted_names_distinct(names: Seq<String>, i: int, j: int)
    requires
        strictly_sorted(names),
        0 <= i < names.len(),
        0 <= j < names.len(),
        i != j,
    ensures
        names[i]@ != names[j]@,
{
    let (a, b) = if i < j { (i, j) } else { (j, i) };
    lemma_bytes_lt_irreflexive(encode_utf8(names[a]@));
    lemma_utf8_injective(names[a]@, names[b]@);
}

} // verus!
