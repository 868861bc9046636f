//! Decisions the settings UI and the main window make on plain values:
//! difficulty tags in the file browser, the Parsely guild list, which metric
//! overlays the backend reports enabled, profile names, and the bounds of
//! integer settings.
use vstd::prelude::*;

use crate::session_view::{append_decimal, decimal};
use crate::text::str_eq;
use crate::types::{all_metric_types, metric_config_key, MetricType};

verus! {

// ─────────────────────────────────────────────────────────────────────────────
// Whitespace trimming
// ─────────────────────────────────────────────────────────────────────────────

/// Unicode `White_Space` characters (the whitespace `str::trim` removes).
pub open spec fn is_white_space(c: char) -> bool {
    let u = c as u32;
    (0x9 <= u <= 0xD) || u == 0x20 || u == 0x85 || u == 0xA0 || u == 0x1680 || (0x2000 <= u
        <= 0x200A) || u == 0x2028 || u == 0x2029 || u == 0x202F || u == 0x205F || u == 0x3000
}

/// `s` without leading whitespace.
pub open spec fn trim_start(s: Seq<char>) -> Seq<char>
    decreases s.len(),
{
    if s.len() > 0 && is_white_space(s[0]) {
        trim_start(s.drop_first())
    } else {
        s
    }
}

/// `s` without trailing whitespace.
pub open spec fn trim_end(s: Seq<char>) -> Seq<char>
    decreases s.len(),
{
    if s.len() > 0 && is_white_space(s.last()) {
        trim_end(s.drop_last())
    } else {
        s
    }
}

/// `s` without leading and trailing whitespace.
pub open spec fn trimmed(s: Seq<char>) -> Seq<char> {
    trim_end(trim_start(s))
}

/// Where `trim_start` cuts: the first non-white-space position.
proof fn lemma_trim_start_cut(s: Seq<char>) -> (a: int)
    ensures
        0 <= a <= s.len(),
        trim_start(s) == s.subrange(a, s.len() as int),
        forall|i: int| 0 <= i < a ==> is_white_space(#[trigger] s[i]),
        a < s.len() ==> !is_white_space(s[a]),
    decreases s.len(),
{
    if s.len() > 0 && is_white_space(s[0]) {
        let a1 = lemma_trim_start_cut(s.drop_first());
        assert(s.drop_first().subrange(a1, s.drop_first().len() as int) =~= s.subrange(a1 + 1, s.len() as int));
        assert forall|i: int| 0 <= i < a1 + 1 implies is_white_space(#[trigger] s[i]) by {
            if i > 0 {
                assert(s[i] == s.drop_first()[i - 1]);
            }
        }
        a1 + 1
    } else {
        assert(s.subrange(0, s.len() as int) =~= s);
        0
    }
}

/// Where `trim_end` cuts: just past the last non-white-space position.
proof fn lemma_trim_end_cut(s: Seq<char>) -> (b: int)
    ensures
        0 <= b <= s.len(),
        trim_end(s) == s.subrange(0, b),
        forall|i: int| b <= i < s.len() ==> is_white_space(#[trigger] s[i]),
        b > 0 ==> !is_white_space(s[b - 1]),
    decreases s.len(),
{
    if s.len() > 0 && is_white_space(s.last()) {
        let b1 = lemma_trim_end_cut(s.drop_last());
        assert(s.drop_last().subrange(0, b1) =~= s.subrange(0, b1));
        assert forall|i: int| b1 <= i < s.len() implies is_white_space(#[trigger] s[i]) by {
            if i < s.len() - 1 {
                assert(s[i] == s.drop_last()[i]);
            }
        }
        b1
    } else {
        assert(s.subrange(0, s.len() as int) =~= s);
        s.len() as int
    }
}

/// Trimming removes exactly the white space at both ends: the result is the
/// part of `s` from `a` to `b`, everything before `a` and from `b` on is white
/// space, and a non-empty result starts and ends with a non-white-space
/// character.
pub proof fn lemma_trimmed_cuts_white_space(s: Seq<char>) -> (ab: (int, int))
    ensures
        0 <= ab.0 <= ab.1 <= s.len(),
        trimmed(s) == s.subrange(ab.0, ab.1),
        forall|i: int| 0 <= i < ab.0 ==> is_white_space(#[trigger] s[i]),
        forall|i: int| ab.1 <= i < s.len() ==> is_white_space(#[trigger] s[i]),
        ab.0 < ab.1 ==> !is_white_space(s[ab.0]) && !is_white_space(s[ab.1 - 1]),
{
    let a = lemma_trim_start_cut(s);
    let u = s.subrange(a, s.len() as int);
    let b = lemma_trim_end_cut(u);
    assert(u.subrange(0, b) =~= s.subrange(a, a + b));
    assert forall|i: int| a + b <= i < s.len() implies is_white_space(#[trigger] s[i]) by {
        assert(s[i] == u[i - a]);
    }
    if b > 0 {
        assert(s[a] == u[0]);
        assert(s[a + b - 1] == u[b - 1]);
    }
    (a, a + b)
}

/// Whether `c` is a Unicode `White_Space` character.
pub fn white_space(c: char) -> (r: bool)
    ensures
        r == is_white_space(c),
{
    let u = c as u32;
    (0x9 <= u && u <= 0xD) || u == 0x20 || u == 0x85 || u == 0xA0 || u == 0x1680 || (0x2000 <= u
        && u <= 0x200A) || u == 0x2028 || u == 0x2029 || u == 0x202F || u == 0x205F || u == 0x3000
}

/// The string without leading and trailing whitespace.
pub fn trim(s: &str) -> (r: &str)
    ensures
        r@ == trimmed(s@),
{
    let n = s.unicode_len();
    let ghost v = s@;
    let mut a: usize = 0;
    assert(v.skip(0) =~= v);
    while a < n && white_space(s.get_char(a))
        invariant
            n == v.len(),
            v == s@,
            a <= n,
            trim_start(v) == trim_start(v.skip(a as int)),
        decreases n - a,
    {
        assert(v.skip(a as int).drop_first() =~= v.skip(a + 1));
        a = a + 1;
    }
    let ghost t = v.skip(a as int);
    assert(trim_start(v) == t);
    let mut b: usize = n;
    assert(t.take((b - a) as int) =~= t);
    while b > a && white_space(s.get_char(b - 1))
        invariant
            n == v.len(),
            v == s@,
            a <= b <= n,
            t == v.skip(a as int),
            trim_end(t) == trim_end(t.take((b - a) as int)),
        decreases b,
    {
        let ghost u = t.take((b - a) as int);
        assert(u.last() == v[b - 1]);
        assert(u.drop_last() =~= t.take((b - 1 - a) as int));
        b = b - 1;
    }
    let ghost u = t.take((b - a) as int);
    assert(u =~= v.subrange(a as int, b as int));
    assert(trim_end(u) == u);
    s.substring_char(a, b)
}

// ─────────────────────────────────────────────────────────────────────────────
// Difficulty tags
// ─────────────────────────────────────────────────────────────────────────────

/// Lower-case form of a string, as `str::to_lowercase` gives it.
pub uninterp spec fn lowercase(s: Seq<char>) -> Seq<char>;

/// Calls `str::to_lowercase`. Trusted to return `lowercase` of its argument.
#[verifier::external_body]
pub(crate) fn to_lowercase(s: &str) -> (r: String)
    ensures
        r@ == lowercase(s@),
{
    s.to_lowercase()
}

/// Whether `p` occurs in `s` as a contiguous run.
pub open spec fn contains_seq(s: Seq<char>, p: Seq<char>) -> bool {
    exists|i: int| 0 <= i && i + p.len() <= s.len() && #[trigger] s.subrange(i, i + p.len()) == p
}

/// Whether `p` occurs in `s` as a contiguous run.
pub fn contains_str(s: &str, p: &str) -> (r: bool)
    ensures
        r == contains_seq(s@, p@),
{
    let n = s.unicode_len();
    let m = p.unicode_len();
    if m > n {
        return false;
    }
    let mut i: usize = 0;
    while i <= n - m
        invariant
            n == s@.len(),
            m == p@.len(),
            m <= n,
            i <= n - m + 1,
            forall|k: int| 0 <= k < i ==> #[trigger] s@.subrange(k, k + m) != p@,
        decreases n - i,
    {
        let mut j: usize = 0;
        while j < m && s.get_char(i + j) == p.get_char(j)
            invariant
                n == s@.len(),
                m == p@.len(),
                i + m <= n,
                j <= m,
                forall|q: int| 0 <= q < j ==> s@[i + q] == p@[q],
            decreases m - j,
        {
            j = j + 1;
        }
        if j == m {
            assert(s@.subrange(i as int, i + m) =~= p@);
            return true;
        }
        assert(s@.subrange(i as int, i + m)[j as int] != p@[j as int]);
        i = i + 1;
    }
    proof {
        assert forall|k: int| 0 <= k && k + p@.len() <= s@.len() implies #[trigger] s@.subrange(k, k + p@.len()) != p@ by {
            assert(k < i);
        }
    }
    false
}

/// CSS class of an area tag, decided on the lower-cased difficulty:
/// flashpoints, then Master, Veteran and Story modes.
pub open spec fn difficulty_class_of(lower: Seq<char>) -> Seq<char> {
    if contains_seq(lower, "4 player"@) {
        "area-tag diff-fp"@
    } else if contains_seq(lower, "master"@) {
        "area-tag diff-nim"@
    } else if contains_seq(lower, "veteran"@) {
        "area-tag diff-hm"@
    } else if contains_seq(lower, "story"@) {
        "area-tag diff-sm"@
    } else {
        "area-tag"@
    }
}

/// CSS class for an area tag of the given difficulty: 4-player content
/// (flashpoints), then Master, Veteran and Story modes get their own
/// classes, matched case-insensitively.
pub fn difficulty_class(difficulty: &str) -> (r: &'static str)
    ensures
        r@ == difficulty_class_of(lowercase(difficulty@)),
{
    let lower = to_lowercase(difficulty);
    let l = lower.as_str();
    if contains_str(l, "4 player") {
        "area-tag diff-fp"
    } else if contains_str(l, "master") {
        "area-tag diff-nim"
    } else if contains_str(l, "veteran") {
        "area-tag diff-hm"
    } else if contains_str(l, "story") {
        "area-tag diff-sm"
    } else {
        "area-tag"
    }
}

/// Areas worth a tag in the file browser: those with a difficulty
/// (instances rather than open world).
pub fn instanced_areas(areas: &Vec<crate::records::AreaVisitInfo>) -> (r: Vec<usize>)
    ensures
        forall|i: int, j: int| 0 <= i < j < r@.len() ==> r@[i] < r@[j],
        forall|k: int|
            0 <= k < areas@.len() ==> (r@.contains(k as usize) <==> areas@[k].difficulty@.len() > 0),
        forall|i: int| 0 <= i < r@.len() ==> r@[i] < areas@.len(),
{
    let mut out: Vec<usize> = Vec::new();
    let n = areas.len();
    let mut k: usize = 0;
    while k < n
        invariant
            n == areas@.len(),
            k <= n,
            forall|i: int, j: int| 0 <= i < j < out@.len() ==> out@[i] < out@[j],
            forall|i: int| 0 <= i < out@.len() ==> out@[i] < k,
            forall|q: int|
                0 <= q < k ==> (out@.contains(q as usize) <==> areas@[q].difficulty@.len() > 0),
        decreases n - k,
    {
        let ghost before = out@;
        if areas[k].difficulty.unicode_len() > 0 {
            out.push(k);
            proof {
                assert forall|q: int| 0 <= q < k + 1 implies (out@.contains(q as usize) <==> areas@[q].difficulty@.len() > 0) by {
                    if q < k {
                        if out@.contains(q as usize) {
                            let p = choose|p: int| 0 <= p < out@.len() && out@[p] == q as usize;
                            assert(p < before.len());
                            assert(before[p] == q as usize);
                        }
                        if before.contains(q as usize) {
                            let p = choose|p: int| 0 <= p < before.len() && before[p] == q as usize;
                            assert(out@[p] == q as usize);
                        }
                    } else {
                        assert(out@[before.len() as int] == k);
                    }
                }
            }
        } else {
            proof {
                assert(!out@.contains(k));
            }
        }
        k = k + 1;
    }
    out
}

// ─────────────────────────────────────────────────────────────────────────────
// Parsely guilds
// ─────────────────────────────────────────────────────────────────────────────

/// Whether some guild in the list has name `name`.
pub open spec fn lists_guild(guilds: Seq<String>, name: Seq<char>) -> bool {
    exists|i: int| 0 <= i < guilds.len() && #[trigger] guilds[i]@ == name
}

/// Add the trimmed guild name from the input box to the list, and make it
/// the selected guild when none is selected. Nothing happens when the
/// trimmed name is empty or already listed. Returns whether it was added
/// (the input box is then cleared and the guild fields saved).
pub fn add_parsely_guild(input: &str, guilds: &mut Vec<String>, selected: &mut Option<String>) -> (added: bool)
    ensures
        added == (trimmed(input@).len() > 0 && !lists_guild(old(guilds)@, trimmed(input@))),
        added ==> final(guilds)@.len() == old(guilds)@.len() + 1 && final(guilds)@.drop_last() == old(guilds)@
            && final(guilds)@.last()@ == trimmed(input@),
        added && old(selected).is_none() ==> final(selected).is_some() && final(selected).unwrap()@ == trimmed(input@),
        added && old(selected).is_some() ==> *final(selected) == *old(selected),
        !added ==> *final(guilds) == *old(guilds) && *final(selected) == *old(selected),
{
    let t = trim(input);
    if t.unicode_len() == 0 {
        return false;
    }
    let n = guilds.len();
    let mut i: usize = 0;
    while i < n
        invariant
            n == guilds@.len(),
            i <= n,
            forall|j: int| 0 <= j < i ==> (#[trigger] guilds@[j])@ != t@,
            t@ == trimmed(input@),
        decreases n - i,
    {
        if str_eq(guilds[i].as_str(), t) {
            assert(guilds@[i as int]@ == trimmed(input@));
            return false;
        }
        i = i + 1;
    }
    let ghost before = guilds@;
    guilds.push(String::from_str(t));
    assert(guilds@.drop_last() =~= before);
    if selected.is_none() {
        *selected = Some(String::from_str(t));
    }
    true
}

// ─────────────────────────────────────────────────────────────────────────────
// Overlay status
// ─────────────────────────────────────────────────────────────────────────────

/// Whether the status lists `key` among the enabled overlays.
pub open spec fn lists_key(enabled: Seq<String>, key: Seq<char>) -> bool {
    exists|i: int| 0 <= i < enabled.len() && #[trigger] enabled[i]@ == key
}

/// For every metric type, in the UI's order, whether the backend's list of
/// enabled overlays holds its config key.
pub fn enabled_metric_overlays(enabled: &Vec<String>) -> (r: Vec<(MetricType, bool)>)
    ensures
        r@.len() == all_metric_types().len(),
        forall|i: int|
            0 <= i < r@.len() ==> #[trigger] r@[i] == (all_metric_types()[i], lists_key(
                enabled@,
                metric_config_key(all_metric_types()[i]),
            )),
{
    let all = MetricType::all();
    let mut out: Vec<(MetricType, bool)> = Vec::new();
    let mut k: usize = 0;
    while k < all.len()
        invariant
            all@ == all_metric_types(),
            k <= all@.len(),
            out@.len() == k,
            forall|i: int|
                0 <= i < k ==> #[trigger] out@[i] == (all_metric_types()[i], lists_key(
                    enabled@,
                    metric_config_key(all_metric_types()[i]),
                )),
        decreases all@.len() - k,
    {
        let m = all[k];
        let key = m.config_key();
        let n = enabled.len();
        let mut found = false;
        let mut j: usize = 0;
        while j < n
            invariant
                n == enabled@.len(),
                j <= n,
                found == exists|q: int| 0 <= q < j && #[trigger] enabled@[q]@ == key@,
            decreases n - j,
        {
            if str_eq(enabled[j].as_str(), key) {
                found = true;
            }
            j = j + 1;
        }
        out.push((m, found));
        k = k + 1;
    }
    out
}

/// Whether any overlay is enabled: a metric overlay or one of the others.
pub fn any_overlay_enabled(metrics: &Vec<(MetricType, bool)>, others: &Vec<bool>) -> (r: bool)
    ensures
        r == ((exists|i: int| 0 <= i < metrics@.len() && (#[trigger] metrics@[i]).1) || (exists|j: int|
            0 <= j < others@.len() && #[trigger] others@[j])),
{
    let mut i: usize = 0;
    while i < metrics.len()
        invariant
            i <= metrics@.len(),
            forall|q: int| 0 <= q < i ==> !(#[trigger] metrics@[q]).1,
        decreases metrics@.len() - i,
    {
        if metrics[i].1 {
            return true;
        }
        i = i + 1;
    }
    let mut j: usize = 0;
    while j < others.len()
        invariant
            j <= others@.len(),
            forall|q: int| 0 <= q < metrics@.len() ==> !(#[trigger] metrics@[q]).1,
            forall|q: int| 0 <= q < j ==> !#[trigger] others@[q],
        decreases others@.len() - j,
    {
        if others[j] {
            return true;
        }
        j = j + 1;
    }
    false
}

/// The overlay modes the main window tracks.
#[derive(Debug, Clone, Copy, PartialEq, Eq, Structural)]
pub struct OverlayModes {
    /// Overlays are shown.
    pub visible: bool,
    /// Overlays are unlocked for moving and resizing.
    pub move_mode: bool,
    /// Raid frames are being rearranged.
    pub rearrange: bool,
    /// Overlays are suppressed by an auto-hide condition.
    pub auto_hidden: bool,
}

/// Which overlay controls can be used.
#[derive(Debug, Clone, Copy, PartialEq, Eq, Structural)]
pub struct OverlayControls {
    /// Show or hide the overlays.
    pub visibility: bool,
    /// Lock or unlock the overlays.
    pub move_mode: bool,
    /// Rearrange the raid frames.
    pub rearrange: bool,
    /// Clear the raid frame assignments from the header.
    pub clear_frames_header: bool,
    /// Clear the raid frame assignments from the overlay settings.
    pub clear_frames_panel: bool,
}

impl OverlayModes {
    /// Which controls can be used, given whether the raid overlay and any
    /// overlay at all are enabled:
    /// - visibility needs an enabled overlay;
    /// - unlocking needs visible overlays, an enabled overlay, no
    ///   rearranging and no auto-hide;
    /// - rearranging needs visible overlays, the raid overlay, locked
    ///   overlays and no auto-hide;
    /// - clearing frames needs the raid overlay, and in the settings also
    ///   visible overlays.
    pub fn controls(&self, raid_on: bool, any_enabled: bool) -> (r: OverlayControls)
        ensures
            r == controls_of(*self, raid_on, any_enabled),
    {
        OverlayControls {
            visibility: any_enabled,
            move_mode: self.visible && any_enabled && !self.rearrange && !self.auto_hidden,
            rearrange: self.visible && raid_on && !self.move_mode && !self.auto_hidden,
            clear_frames_header: raid_on,
            clear_frames_panel: self.visible && raid_on,
        }
    }

    /// The modes after the backend confirmed a visibility toggle: visibility
    /// flips and hiding also locks the overlays. The flag says whether to
    /// tell the user that the shown overlays are auto-hidden.
    pub fn after_visibility_toggle(&self) -> (r: (OverlayModes, bool))
        ensures
            r.0 == (OverlayModes {
                visible: !self.visible,
                move_mode: if self.visible { false } else { self.move_mode },
                rearrange: self.rearrange,
                auto_hidden: self.auto_hidden,
            }),
            r.1 == (!self.visible && self.auto_hidden),
    {
        let modes = OverlayModes {
            visible: !self.visible,
            move_mode: if self.visible { false } else { self.move_mode },
            rearrange: self.rearrange,
            auto_hidden: self.auto_hidden,
        };
        (modes, !self.visible && self.auto_hidden)
    }

    /// The modes after the backend reported the new move mode: unlocking
    /// ends rearranging. The flag says whether the profile became dirty
    /// (locking saves the overlay positions).
    pub fn after_move_mode(&self, new_mode: bool) -> (r: (OverlayModes, bool))
        ensures
            r.0 == moved(*self, new_mode),
            r.1 == !new_mode,
    {
        let modes = OverlayModes {
            visible: self.visible,
            move_mode: new_mode,
            rearrange: if new_mode { false } else { self.rearrange },
            auto_hidden: self.auto_hidden,
        };
        (modes, !new_mode)
    }

    /// The modes after the backend reported the new rearrange mode.
    pub fn after_rearrange(&self, new_mode: bool) -> (r: OverlayModes)
        ensures
            r == rearranged(*self, new_mode),
    {
        OverlayModes { rearrange: new_mode, ..*self }
    }
}

/// Which controls can be used in modes `m`; see [`OverlayModes::controls`].
pub open spec fn controls_of(m: OverlayModes, raid_on: bool, any_enabled: bool) -> OverlayControls {
    OverlayControls {
        visibility: any_enabled,
        move_mode: m.visible && any_enabled && !m.rearrange && !m.auto_hidden,
        rearrange: m.visible && raid_on && !m.move_mode && !m.auto_hidden,
        clear_frames_header: raid_on,
        clear_frames_panel: m.visible && raid_on,
    }
}

/// The modes after a new move mode; see [`OverlayModes::after_move_mode`].
pub open spec fn moved(m: OverlayModes, new_mode: bool) -> OverlayModes {
    OverlayModes { move_mode: new_mode, rearrange: if new_mode { false } else { m.rearrange }, ..m }
}

/// The modes after a new rearrange mode; see [`OverlayModes::after_rearrange`].
pub open spec fn rearranged(m: OverlayModes, new_mode: bool) -> OverlayModes {
    OverlayModes { rearrange: new_mode, ..m }
}

/// What each overlay control needs:
/// - showing or hiding needs some enabled overlay;
/// - unlocking is never offered while the overlays are hidden, none is
///   enabled, raid frames are being rearranged, or the overlays are
///   auto-hidden, and it is offered otherwise;
/// - rearranging is never offered while the overlays are hidden, the raid
///   overlay is off, the overlays are unlocked, or they are auto-hidden,
///   and it is offered otherwise;
/// - clearing raid frames needs the raid overlay (and, in the settings,
///   visible overlays).
pub proof fn lemma_overlay_control_conditions(m: OverlayModes, raid_on: bool, any_enabled: bool)
    ensures
        controls_of(m, raid_on, any_enabled).visibility == any_enabled,
        m.rearrange ==> !controls_of(m, raid_on, any_enabled).move_mode,
        !m.visible ==> !controls_of(m, raid_on, any_enabled).move_mode,
        !any_enabled ==> !controls_of(m, raid_on, any_enabled).move_mode,
        m.auto_hidden ==> !controls_of(m, raid_on, any_enabled).move_mode,
        m.visible && any_enabled && !m.rearrange && !m.auto_hidden ==> controls_of(m, raid_on, any_enabled).move_mode,
        m.move_mode ==> !controls_of(m, raid_on, any_enabled).rearrange,
        !m.visible ==> !controls_of(m, raid_on, any_enabled).rearrange,
        !raid_on ==> !controls_of(m, raid_on, any_enabled).rearrange,
        m.auto_hidden ==> !controls_of(m, raid_on, any_enabled).rearrange,
        m.visible && raid_on && !m.move_mode && !m.auto_hidden ==> controls_of(m, raid_on, any_enabled).rearrange,
        controls_of(m, raid_on, any_enabled).clear_frames_header == raid_on,
        controls_of(m, raid_on, any_enabled).clear_frames_panel == (m.visible && raid_on),
{
}

/// A new move mode is taken as reported, unlocking ends rearranging,
/// locking keeps it, and nothing else changes; a new rearrange mode is
/// taken as reported and changes nothing else.
pub proof fn lemma_overlay_mode_transitions(m: OverlayModes, new_mode: bool)
    ensures
        moved(m, new_mode).move_mode == new_mode,
        moved(m, new_mode).visible == m.visible,
        moved(m, new_mode).auto_hidden == m.auto_hidden,
        new_mode ==> !moved(m, new_mode).rearrange,
        !new_mode ==> moved(m, new_mode).rearrange == m.rearrange,
        rearranged(m, new_mode).rearrange == new_mode,
        rearranged(m, new_mode).visible == m.visible,
        rearranged(m, new_mode).move_mode == m.move_mode,
        rearranged(m, new_mode).auto_hidden == m.auto_hidden,
{
}

/// Unlocked overlays and raid-frame rearranging exclude each other: a new
/// move mode never leaves both on, and a rearrange the controls allow never
/// turns both on.
pub proof fn lemma_move_and_rearrange_exclusive(m: OverlayModes, raid_on: bool, any_enabled: bool, new_mode: bool)
    ensures
        !(moved(m, new_mode).move_mode && moved(m, new_mode).rearrange),
        controls_of(m, raid_on, any_enabled).rearrange ==> !(rearranged(m, new_mode).move_mode
            && rearranged(m, new_mode).rearrange),
{
}

// ─────────────────────────────────────────────────────────────────────────────
// Live preview of settings drafts
// ─────────────────────────────────────────────────────────────────────────────

/// Delay before a settings draft is sent for live preview, in milliseconds.
pub const PREVIEW_DELAY_MS: u32 = 300;

/// The id following `id` (wrapping at the top of the range).
pub open spec fn next_request_id(id: u32) -> u32 {
    if id == u32::MAX {
        0
    } else {
        (id + 1) as u32
    }
}

/// Debouncing of live previews: each draft change takes a new request id and
/// its preview is sent after the delay only if no later change or cancel
/// took another id meanwhile.
pub struct PreviewDebounce {
    latest: u32,
}

impl PreviewDebounce {
    /// The id of the latest request or cancel.
    pub closed spec fn latest(&self) -> u32 {
        self.latest
    }

    /// No request yet.
    pub fn new() -> (r: Self)
        ensures
            r.latest() == 0,
    {
        PreviewDebounce { latest: 0 }
    }

    /// A draft changed: take a new request id, which supersedes every
    /// pending one.
    pub fn request(&mut self) -> (id: u32)
        ensures
            id == next_request_id(old(self).latest()),
            final(self).latest() == id,
    {
        self.latest = self.latest.wrapping_add(1);
        self.latest
    }

    /// Drop any pending preview (the panel is closing or saving).
    pub fn cancel(&mut self)
        ensures
            final(self).latest() == next_request_id(old(self).latest()),
    {
        self.latest = self.latest.wrapping_add(1);
    }

    /// Whether the preview of request `id` is still to be sent once its
    /// delay has passed: no later request or cancel came.
    pub fn should_send(&self, id: u32) -> (r: bool)
        ensures
            r == (id == self.latest()),
    {
        id == self.latest
    }
}

/// A later request or cancel supersedes a pending preview: once another id
/// was taken after request `id`, its preview is not sent.
pub proof fn lemma_later_request_supersedes(id: u32)
    ensures
        next_request_id(id) != id,
{
}

// ─────────────────────────────────────────────────────────────────────────────
// File sizes
// ─────────────────────────────────────────────────────────────────────────────

/// Size label of a log file below one MiB: whole kilobytes and "kb". Sizes
/// from one MiB on are shown in megabytes with one decimal, which is not
/// decided here (none).
pub fn small_file_size_label(size: u64) -> (r: Option<String>)
    ensures
        size >= 1048576 ==> r.is_none(),
        size < 1048576 ==> (r matches Some(s) && s@ == decimal((size / 1024) as nat) + "kb"@),
{
    if size >= 1048576 {
        None
    } else {
        let mut s = String::new();
        append_decimal(&mut s, size / 1024);
        s.append("kb");
        Some(s)
    }
}

// ─────────────────────────────────────────────────────────────────────────────
// Profiles
// ─────────────────────────────────────────────────────────────────────────────

/// A new profile can be saved under the typed name when the trimmed name is
/// not empty and fewer than the allowed number of profiles exist.
pub fn can_create_profile(name_input: &str, profile_count: usize, max_profiles: usize) -> (r: bool)
    ensures
        r == (trimmed(name_input@).len() > 0 && profile_count < max_profiles),
{
    let t = trim(name_input);
    t.unicode_len() > 0 && profile_count < max_profiles
}

/// The new name for a rename confirmed with the given input: the trimmed
/// input, unless it is empty or the current name (the rename is then
/// dropped).
pub fn profile_rename_target(input: &str, current: &str) -> (r: Option<String>)
    ensures
        match r {
            Some(s) => s@ == trimmed(input@) && trimmed(input@).len() > 0 && trimmed(input@) != current@,
            None => trimmed(input@).len() == 0 || trimmed(input@) == current@,
        },
{
    let t = trim(input);
    if t.unicode_len() == 0 || str_eq(t, current) {
        None
    } else {
        Some(String::from_str(t))
    }
}

// ─────────────────────────────────────────────────────────────────────────────
// Integer settings
// ─────────────────────────────────────────────────────────────────────────────

/// Integer settings whose input the settings panel clamps to a range.
#[derive(Debug, Clone, Copy, PartialEq, Eq, Structural)]
pub enum BoundedSetting {
    MapWidth,
    MapHeight,
    EffectsIconSize,
    EffectsMaxDisplay,
    CooldownIconSize,
    CooldownMaxDisplay,
    DotIconSize,
    DotMaxTargets,
    NotesFontSize,
    ChallengeMaxDisplay,
    AlertsFontSize,
    AlertsMaxDisplay,
    RaidGridColumns,
    RaidGridRows,
    RaidMaxEffectsPerFrame,
    MetricMaxEntries,
    LatencyMs,
}

/// Inclusive range of a setting.
pub open spec fn setting_bounds(s: BoundedSetting) -> (u32, u32) {
    match s {
        BoundedSetting::MapWidth => (50, 2560),
        BoundedSetting::MapHeight => (50, 2048),
        BoundedSetting::EffectsIconSize => (16, 64),
        BoundedSetting::EffectsMaxDisplay => (1, 16),
        BoundedSetting::CooldownIconSize => (16, 64),
        BoundedSetting::CooldownMaxDisplay => (1, 20),
        BoundedSetting::DotIconSize => (12, 48),
        BoundedSetting::DotMaxTargets => (1, 10),
        BoundedSetting::NotesFontSize => (10, 24),
        BoundedSetting::ChallengeMaxDisplay => (1, 8),
        BoundedSetting::AlertsFontSize => (8, 24),
        BoundedSetting::AlertsMaxDisplay => (1, 10),
        BoundedSetting::RaidGridColumns => (1, 6),
        BoundedSetting::RaidGridRows => (1, 24),
        BoundedSetting::RaidMaxEffectsPerFrame => (1, 8),
        BoundedSetting::MetricMaxEntries => (1, 16),
        BoundedSetting::LatencyMs => (0, 500),
    }
}

/// `v` clamped to `[lo, hi]`.
pub open spec fn clamped(v: u32, lo: u32, hi: u32) -> u32 {
    if v < lo {
        lo
    } else if v > hi {
        hi
    } else {
        v
    }
}

impl BoundedSetting {
    /// The inclusive range of the setting.
    pub fn bounds(&self) -> (r: (u32, u32))
        ensures
            r == setting_bounds(*self),
    {
        match self {
            BoundedSetting::MapWidth => (50, 2560),
            BoundedSetting::MapHeight => (50, 2048),
            BoundedSetting::EffectsIconSize => (16, 64),
            BoundedSetting::EffectsMaxDisplay => (1, 16),
            BoundedSetting::CooldownIconSize => (16, 64),
            BoundedSetting::CooldownMaxDisplay => (1, 20),
            BoundedSetting::DotIconSize => (12, 48),
            BoundedSetting::DotMaxTargets => (1, 10),
            BoundedSetting::NotesFontSize => (10, 24),
            BoundedSetting::ChallengeMaxDisplay => (1, 8),
            BoundedSetting::AlertsFontSize => (8, 24),
            BoundedSetting::AlertsMaxDisplay => (1, 10),
            BoundedSetting::RaidGridColumns => (1, 6),
            BoundedSetting::RaidGridRows => (1, 24),
            BoundedSetting::RaidMaxEffectsPerFrame => (1, 8),
            BoundedSetting::MetricMaxEntries => (1, 16),
            BoundedSetting::LatencyMs => (0, 500),
        }
    }

    /// An entered value clamped into the setting's range.
    pub fn clamp(&self, v: u32) -> (r: u32)
        ensures
            r == clamped(v, setting_bounds(*self).0, setting_bounds(*self).1),
    {
        let (lo, hi) = self.bounds();
        if v < lo {
            lo
        } else if v > hi {
            hi
        } else {
            v
        }
    }
}

/// A clamped setting lies in its range, and a value already in range is
/// kept as entered.
pub proof fn lemma_clamp_in_range(s: BoundedSetting, v: u32)
    ensures
        setting_bounds(s).0 <= clamped(v, setting_bounds(s).0, setting_bounds(s).1) <= setting_bounds(s).1,
        setting_bounds(s).0 <= v <= setting_bounds(s).1 ==> clamped(v, setting_bounds(s).0, setting_bounds(s).1) == v,
        v < setting_bounds(s).0 ==> clamped(v, setting_bounds(s).0, setting_bounds(s).1) == setting_bounds(s).0,
        v > setting_bounds(s).1 ==> clamped(v, setting_bounds(s).0, setting_bounds(s).1) == setting_bounds(s).1,
{
}

} // verus!
