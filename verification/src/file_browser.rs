//! The log-file browser's search: a size filter and comma-separated search
//! terms that must all match, case-insensitively, the character name, the
//! date, the day of the week or a visited area.
use vstd::prelude::*;

use crate::records::{AreaVisitInfo, LogFileInfo};
use crate::session_view::{append_decimal, decimal};
use crate::ui_rules::{contains_seq, contains_str, lowercase, to_lowercase, trim, trimmed};

verus! {

/// Files below this size (1 MiB) are hidden when small files are hidden.
pub const SMALL_LOG_FILE_BYTES: u64 = 1048576;

/// The pieces of `s` between commas, as `str::split(',')` gives them (an
/// empty string gives one empty piece).
pub open spec fn split_commas(s: Seq<char>) -> Seq<Seq<char>>
    decreases s.len(),
{
    if s.len() == 0 {
        seq![Seq::empty()]
    } else {
        let r = split_commas(s.drop_last());
        if s.last() == ',' {
            r.push(Seq::empty())
        } else {
            r.update(r.len() - 1, r.last().push(s.last()))
        }
    }
}

proof fn lemma_split_commas_nonempty(s: Seq<char>)
    ensures
        split_commas(s).len() >= 1,
    decreases s.len(),
{
    if s.len() > 0 {
        lemma_split_commas_nonempty(s.drop_last());
    }
}

/// The pieces joined back together with a ',' between each two.
pub open spec fn join_commas(pieces: Seq<Seq<char>>) -> Seq<char>
    decreases pieces.len(),
{
    if pieces.len() == 0 {
        Seq::empty()
    } else if pieces.len() == 1 {
        pieces[0]
    } else {
        join_commas(pieces.drop_last()) + seq![','] + pieces.last()
    }
}

/// Splitting at commas loses nothing and cuts at every comma: the pieces
/// hold no comma, and joined with commas they give back the text.
pub proof fn lemma_split_commas_rejoins(s: Seq<char>)
    ensures
        join_commas(split_commas(s)) == s,
        forall|k: int, i: int|
            0 <= k < split_commas(s).len() && 0 <= i < split_commas(s)[k].len() ==> #[trigger] split_commas(s)[k][i]
                != ',',
    decreases s.len(),
{
    if s.len() == 0 {
        assert(split_commas(s) =~= seq![Seq::<char>::empty()]);
        assert(join_commas(split_commas(s)) =~= s);
    } else {
        let t = s.drop_last();
        let c = s.last();
        lemma_split_commas_rejoins(t);
        lemma_split_commas_nonempty(t);
        let r = split_commas(t);
        let n = r.len();
        if c == ',' {
            let q = r.push(Seq::<char>::empty());
            assert(split_commas(s) == q);
            assert(q.drop_last() =~= r);
            assert(join_commas(q) == join_commas(r) + seq![','] + Seq::<char>::empty());
            assert(join_commas(q) =~= s);
            assert forall|k: int, i: int| 0 <= k < q.len() && 0 <= i < q[k].len() implies #[trigger] q[k][i] != ',' by {
                if k < n {
                    assert(q[k] == r[k]);
                }
            }
        } else {
            let q = r.update(n - 1, r.last().push(c));
            assert(split_commas(s) == q);
            if n == 1 {
                assert(join_commas(r) == r[0]);
                assert(join_commas(q) == q[0]);
                assert(q[0] =~= t.push(c));
                assert(s =~= t.push(c));
            } else {
                assert(q.drop_last() =~= r.drop_last());
                assert(join_commas(q) == join_commas(r.drop_last()) + seq![','] + r.last().push(c));
                assert(join_commas(r) == join_commas(r.drop_last()) + seq![','] + r.last());
                assert(join_commas(q) =~= join_commas(r).push(c));
                assert(s =~= t.push(c));
            }
            assert forall|k: int, i: int| 0 <= k < q.len() && 0 <= i < q[k].len() implies #[trigger] q[k][i] != ',' by {
                if k < n - 1 {
                    assert(q[k] == r[k]);
                } else if i < r.last().len() {
                    assert(q[k][i] == r[n - 1][i]);
                } else {
                    assert(q[k][i] == c);
                }
            }
        }
    }
}

/// Whether an area's display string or name contains the (lower-case) term.
pub open spec fn area_matches(a: AreaVisitInfo, term: Seq<char>) -> bool {
    contains_seq(lowercase(a.display@), term) || contains_seq(lowercase(a.area_name@), term)
}

/// The character name of a file, or the empty string.
pub open spec fn name_of(f: LogFileInfo) -> Seq<char> {
    match f.character_name {
        Some(n) => n@,
        None => Seq::empty(),
    }
}

/// Whether a file matches one (lower-case) search term: its character name,
/// date or day of the week contains it, or one of its areas does.
pub open spec fn term_matches(f: LogFileInfo, term: Seq<char>) -> bool {
    ||| contains_seq(lowercase(name_of(f)), term)
    ||| contains_seq(lowercase(f.date@), term)
    ||| contains_seq(lowercase(f.day_of_week@), term)
    ||| match f.areas {
        Some(areas) => some_area_matches(areas@, term),
        None => false,
    }
}

/// Whether one of the areas matches the (lower-case) term.
pub open spec fn some_area_matches(areas: Seq<AreaVisitInfo>, term: Seq<char>) -> bool {
    exists|i: int| 0 <= i < areas.len() && area_matches(#[trigger] areas[i], term)
}

/// A term found anywhere in the lower-cased character name, date or day of
/// the week of a file, as a run of characters starting at position `i`,
/// matches the file.
pub proof fn lemma_term_found_in_file_matches(f: LogFileInfo, term: Seq<char>, i: int)
    ensures
        0 <= i && i + term.len() <= lowercase(name_of(f)).len() && lowercase(name_of(f)).subrange(
            i,
            i + term.len(),
        ) == term ==> term_matches(f, term),
        0 <= i && i + term.len() <= lowercase(f.date@).len() && lowercase(f.date@).subrange(i, i + term.len())
            == term ==> term_matches(f, term),
        0 <= i && i + term.len() <= lowercase(f.day_of_week@).len() && lowercase(f.day_of_week@).subrange(
            i,
            i + term.len(),
        ) == term ==> term_matches(f, term),
{
}

/// A term found in the lower-cased display string or name of one of a
/// file's areas, starting at position `i`, matches the file.
pub proof fn lemma_term_found_in_area_matches(f: LogFileInfo, term: Seq<char>, k: int, i: int)
    requires
        f.areas is Some,
        0 <= k < f.areas->0@.len(),
    ensures
        0 <= i && i + term.len() <= lowercase(f.areas->0@[k].display@).len() && lowercase(
            f.areas->0@[k].display@,
        ).subrange(i, i + term.len()) == term ==> term_matches(f, term),
        0 <= i && i + term.len() <= lowercase(f.areas->0@[k].area_name@).len() && lowercase(
            f.areas->0@[k].area_name@,
        ).subrange(i, i + term.len()) == term ==> term_matches(f, term),
{
    let areas = f.areas->0@;
    if 0 <= i && i + term.len() <= lowercase(areas[k].display@).len() && lowercase(areas[k].display@).subrange(
        i,
        i + term.len(),
    ) == term {
        assert(area_matches(areas[k], term));
    }
    if 0 <= i && i + term.len() <= lowercase(areas[k].area_name@).len() && lowercase(
        areas[k].area_name@,
    ).subrange(i, i + term.len()) == term {
        assert(area_matches(areas[k], term));
    }
}

/// Whether `p` occurs in `s` starting at position `i`.
pub open spec fn occurs_at(s: Seq<char>, p: Seq<char>, i: int) -> bool {
    0 <= i && i + p.len() <= s.len() && s.subrange(i, i + p.len()) == p
}

/// A term matches a file only where it is found: in the lower-cased
/// character name, date or day of the week, or in an area's lower-cased
/// display string or name.
pub proof fn lemma_term_matches_only_where_found(f: LogFileInfo, term: Seq<char>)
    requires
        term_matches(f, term),
    ensures
        (exists|i: int| occurs_at(lowercase(name_of(f)), term, i)) || (exists|i: int|
            occurs_at(lowercase(f.date@), term, i)) || (exists|i: int|
            occurs_at(lowercase(f.day_of_week@), term, i)) || (f.areas is Some && exists|k: int, i: int|
            0 <= k < f.areas->0@.len() && (occurs_at(lowercase(f.areas->0@[k].display@), term, i)
                || occurs_at(lowercase(f.areas->0@[k].area_name@), term, i))),
{
    if contains_seq(lowercase(name_of(f)), term) {
        let i = choose|i: int| 0 <= i && i + term.len() <= lowercase(name_of(f)).len()
            && #[trigger] lowercase(name_of(f)).subrange(i, i + term.len()) == term;
        assert(occurs_at(lowercase(name_of(f)), term, i));
    } else if contains_seq(lowercase(f.date@), term) {
        let i = choose|i: int| 0 <= i && i + term.len() <= lowercase(f.date@).len()
            && #[trigger] lowercase(f.date@).subrange(i, i + term.len()) == term;
        assert(occurs_at(lowercase(f.date@), term, i));
    } else if contains_seq(lowercase(f.day_of_week@), term) {
        let i = choose|i: int| 0 <= i && i + term.len() <= lowercase(f.day_of_week@).len()
            && #[trigger] lowercase(f.day_of_week@).subrange(i, i + term.len()) == term;
        assert(occurs_at(lowercase(f.day_of_week@), term, i));
    } else {
        let areas = f.areas->0@;
        let k = choose|k: int| 0 <= k < areas.len() && area_matches(#[trigger] areas[k], term);
        if contains_seq(lowercase(areas[k].display@), term) {
            let i = choose|i: int| 0 <= i && i + term.len() <= lowercase(areas[k].display@).len()
                && #[trigger] lowercase(areas[k].display@).subrange(i, i + term.len()) == term;
            assert(occurs_at(lowercase(areas[k].display@), term, i));
        } else {
            let i = choose|i: int| 0 <= i && i + term.len() <= lowercase(areas[k].area_name@).len()
                && #[trigger] lowercase(areas[k].area_name@).subrange(i, i + term.len()) == term;
            assert(occurs_at(lowercase(areas[k].area_name@), term, i));
        }
    }
}

/// Whether a file is listed for the given search text and size setting:
/// small files (under 1 MiB) are hidden when asked, and every non-blank
/// comma-separated piece of the lower-cased search text, trimmed, must match.
pub open spec fn file_listed(f: LogFileInfo, filter: Seq<char>, hide_small: bool) -> bool {
    &&& !(hide_small && f.file_size < SMALL_LOG_FILE_BYTES)
    &&& forall|k: int|
        0 <= k < split_commas(lowercase(filter)).len() && trimmed(
            #[trigger] split_commas(lowercase(filter))[k],
        ).len() > 0 ==> term_matches(f, trimmed(split_commas(lowercase(filter))[k]))
}

/// Whether a file matches one lower-case search term.
fn file_matches_term(f: &LogFileInfo, term: &str) -> (r: bool)
    ensures
        r == term_matches(*f, term@),
{
    let name = match &f.character_name {
        Some(n) => to_lowercase(n.as_str()),
        None => to_lowercase(""),
    };
    proof {
        reveal_strlit("");
        if f.character_name.is_none() {
            assert(name_of(*f) =~= ""@);
        }
    }
    if contains_str(name.as_str(), term) {
        return true;
    }
    let date = to_lowercase(f.date.as_str());
    if contains_str(date.as_str(), term) {
        return true;
    }
    let day = to_lowercase(f.day_of_week.as_str());
    if contains_str(day.as_str(), term) {
        return true;
    }
    match &f.areas {
        Some(areas) => {
            let n = areas.len();
            let mut i: usize = 0;
            while i < n
                invariant
                    n == areas@.len(),
                    i <= n,
                    forall|j: int| 0 <= j < i ==> !area_matches(#[trigger] areas@[j], term@),
                    f.areas == Some(*areas),
                decreases n - i,
            {
                let a = &areas[i];
                let d = to_lowercase(a.display.as_str());
                let an = to_lowercase(a.area_name.as_str());
                if contains_str(d.as_str(), term) || contains_str(an.as_str(), term) {
                    assert(area_matches(areas@[i as int], term@));
                    assert(some_area_matches(areas@, term@));
                    return true;
                }
                i = i + 1;
            }
            false
        },
        None => false,
    }
}

/// Whether the file browser lists a file for the given search text and
/// "hide small files" setting.
pub fn log_file_matches(f: &LogFileInfo, filter: &str, hide_small: bool) -> (r: bool)
    ensures
        r == file_listed(*f, filter@, hide_small),
{
    if hide_small && f.file_size < SMALL_LOG_FILE_BYTES {
        return false;
    }
    let lowered = to_lowercase(filter);
    let l = lowered.as_str();
    let ghost s = l@;
    let n = l.unicode_len();
    let mut start: usize = 0;
    let mut i: usize = 0;
    let ghost mut done: Seq<Seq<char>> = Seq::empty();
    assert(s.take(0) =~= Seq::<char>::empty());
    assert(s.subrange(0, 0) =~= Seq::<char>::empty());
    assert(split_commas(s.take(0)) =~= done.push(s.subrange(0, 0)));
    while i < n
        invariant
            n == s.len(),
            s == l@,
            s == lowercase(filter@),
            start <= i <= n,
            split_commas(s.take(i as int)) == done.push(s.subrange(start as int, i as int)),
            forall|k: int|
                0 <= k < done.len() && trimmed(#[trigger] done[k]).len() > 0 ==> term_matches(*f, trimmed(done[k])),
        decreases n - i,
    {
        let c = l.get_char(i);
        let ghost t = s.take(i + 1);
        assert(t.drop_last() =~= s.take(i as int));
        assert(t.last() == c);
        if c == ',' {
            let piece = l.substring_char(start, i);
            let term = trim(piece);
            if term.unicode_len() > 0 && !file_matches_term(f, term) {
                proof {
                    lemma_split_commas_pieces_cover(s, done, start as int, i as int);
                    let k = done.len() as int;
                    assert(split_commas(s)[k] == piece@);
                    assert(trimmed(split_commas(s)[k]).len() > 0);
                }
                return false;
            }
            proof {
                let old_done = done;
                done = done.push(s.subrange(start as int, i as int));
                assert(s.subrange(i + 1, i + 1) =~= Seq::<char>::empty());
                assert forall|k: int|
                    0 <= k < done.len() && trimmed(#[trigger] done[k]).len() > 0 implies term_matches(*f, trimmed(done[k])) by {
                    if k < old_done.len() {
                        assert(done[k] == old_done[k]);
                    }
                }
            }
            start = i + 1;
        } else {
            proof {
                assert(s.subrange(start as int, i + 1) =~= s.subrange(start as int, i as int).push(c));
            }
        }
        i = i + 1;
    }
    assert(s.take(n as int) =~= s);
    let piece = l.substring_char(start, n);
    let term = trim(piece);
    if term.unicode_len() > 0 && !file_matches_term(f, term) {
        proof {
            let parts = split_commas(s);
            let k = done.len() as int;
            assert(parts[k] == piece@);
            assert(trimmed(parts[k]).len() > 0);
        }
        return false;
    }
    proof {
        let parts = split_commas(s);
        assert forall|k: int|
            0 <= k < parts.len() && trimmed(#[trigger] parts[k]).len() > 0 implies term_matches(*f, trimmed(parts[k])) by {
            if k < done.len() {
                assert(parts[k] == done[k]);
            }
        }
    }
    true
}

/// Once the piece ending at a comma at `i` is known not to match, some piece
/// of the whole text does not match: the pieces of a prefix ending in a comma
/// are pieces of the whole text.
proof fn lemma_split_commas_pieces_cover(s: Seq<char>, done: Seq<Seq<char>>, start: int, i: int)
    requires
        0 <= start <= i < s.len(),
        s[i] == ',',
        split_commas(s.take(i)) == done.push(s.subrange(start, i)),
    ensures
        split_commas(s).len() > done.len(),
        split_commas(s)[done.len() as int] == s.subrange(start, i),
        forall|k: int| 0 <= k < done.len() ==> split_commas(s)[k] == done[k],
{
    lemma_split_commas_prefix(s, i + 1);
    let t = s.take(i + 1);
    assert(t.drop_last() =~= s.take(i));
    assert(t.last() == ',');
    assert(split_commas(t) == done.push(s.subrange(start, i)).push(Seq::empty()));
}

/// The pieces of a prefix are, but for the last one, pieces of the whole.
proof fn lemma_split_commas_prefix(s: Seq<char>, j: int)
    requires
        0 <= j <= s.len(),
    ensures
        split_commas(s).len() >= split_commas(s.take(j)).len(),
        forall|k: int|
            0 <= k < split_commas(s.take(j)).len() - 1 ==> split_commas(s)[k] == split_commas(s.take(j))[k],
        split_commas(s.take(j)).len() >= 1,
    decreases s.len() - j,
{
    lemma_split_commas_nonempty(s.take(j));
    if j < s.len() {
        lemma_split_commas_prefix(s, j + 1);
        let a = s.take(j);
        let b = s.take(j + 1);
        assert(b.drop_last() =~= a);
        lemma_split_commas_nonempty(a);
        let ra = split_commas(a);
        let rb = split_commas(b);
        if b.last() == ',' {
            assert(rb == ra.push(Seq::empty()));
        } else {
            assert(rb == ra.update(ra.len() - 1, ra.last().push(b.last())));
            assert(rb.len() == ra.len());
        }
    } else {
        assert(s.take(j) =~= s);
    }
}

// ─────────────────────────────────────────────────────────────────────────────
// Area badges
// ─────────────────────────────────────────────────────────────────────────────

/// Number of area badges shown in a file's summary line.
pub const AREA_BADGES_SHOWN: usize = 3;

/// How a file's instanced areas are summarised: badges for the first few,
/// a "+N more" tag for the rest, and the full list when it is expanded.
#[derive(Debug, Clone, Copy, PartialEq, Eq, Structural)]
pub struct AreaSummary {
    /// Badges shown in the summary line (the first areas).
    pub badges: usize,
    /// Number of areas beyond the badges, if there are any.
    pub more: Option<usize>,
    /// Whether the expanded view lists every area (only when some are
    /// beyond the badges).
    pub full_list: bool,
}

/// The summary of `count` instanced areas: the first three as badges, a
/// "+N more" tag and the full list when there are more than three.
pub fn area_summary(count: usize) -> (r: AreaSummary)
    ensures
        r == (AreaSummary {
            badges: if count < AREA_BADGES_SHOWN { count } else { AREA_BADGES_SHOWN },
            more: if count > AREA_BADGES_SHOWN { Some((count - AREA_BADGES_SHOWN) as usize) } else { None },
            full_list: count > AREA_BADGES_SHOWN,
        }),
{
    if count > AREA_BADGES_SHOWN {
        AreaSummary { badges: AREA_BADGES_SHOWN, more: Some(count - AREA_BADGES_SHOWN), full_list: true }
    } else {
        AreaSummary { badges: count, more: None, full_list: false }
    }
}

/// Text of the tag counting the areas beyond the badges: "+N more".
pub fn more_areas_label(n: usize) -> (r: String)
    ensures
        r@ == "+"@ + decimal(n as nat) + " more"@,
{
    let mut s = String::from_str("+");
    append_decimal(&mut s, n as u64);
    s.append(" more");
    s
}

} // verus!
