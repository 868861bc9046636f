use baras_frontend::fonts::{
    available_font_families, face_supports_latin, family_face_support, FontChoice, FontFace,
    DEFAULT_FONT_FAMILY,
};
use baras_frontend::import_flow::{step, ImportAction, ImportEvent, ImportState};
use baras_frontend::records::{AreaVisitInfo, StarParseImportResult, StarParsePreview};
use baras_frontend::renderer::TextRendererState;
use baras_frontend::text::{compare_bytes, str_eq, Comparison};
use baras_frontend::text_cache::TextCacheKey;
use baras_frontend::types::MetricType;
use baras_frontend::ui_rules::{
    add_parsely_guild, can_create_profile, contains_str, difficulty_class, enabled_metric_overlays,
    any_overlay_enabled, instanced_areas, profile_rename_target, trim, BoundedSetting,
    small_file_size_label, OverlayControls, OverlayModes, PreviewDebounce,
};

fn push_u16(v: &mut Vec<u8>, x: u16) {
    v.extend_from_slice(&x.to_be_bytes());
}

fn push_u32(v: &mut Vec<u8>, x: u32) {
    v.extend_from_slice(&x.to_be_bytes());
}

/// A minimal TrueType font: `cmap` (one format 12 Unicode subtable mapping
/// each given character to its own glyph), `head`, `hhea` and `maxp`.
fn minimal_font(chars: &[char]) -> Vec<u8> {
    let mut sorted: Vec<u32> = chars.iter().map(|&c| c as u32).collect();
    sorted.sort();
    let mut cmap = Vec::new();
    push_u16(&mut cmap, 0); // version
    push_u16(&mut cmap, 1); // one encoding record
    push_u16(&mut cmap, 0); // platform: Unicode
    push_u16(&mut cmap, 4); // encoding
    push_u32(&mut cmap, 12); // subtable offset
    push_u16(&mut cmap, 12); // format 12
    push_u16(&mut cmap, 0);
    push_u32(&mut cmap, 16 + 12 * sorted.len() as u32);
    push_u32(&mut cmap, 0); // language
    push_u32(&mut cmap, sorted.len() as u32);
    for (i, cp) in sorted.iter().enumerate() {
        push_u32(&mut cmap, *cp);
        push_u32(&mut cmap, *cp);
        push_u32(&mut cmap, i as u32 + 1);
    }
    let mut head = vec![0u8; 54];
    head[18..20].copy_from_slice(&1000u16.to_be_bytes()); // units per em
    let hhea = vec![0u8; 36];
    let mut maxp = Vec::new();
    push_u32(&mut maxp, 0x0000_5000);
    push_u16(&mut maxp, sorted.len() as u16 + 1);
    let tables: [(&[u8; 4], Vec<u8>); 4] = [(b"cmap", cmap), (b"head", head), (b"hhea", hhea), (b"maxp", maxp)];
    let mut font = Vec::new();
    push_u32(&mut font, 0x0001_0000);
    push_u16(&mut font, 4);
    push_u16(&mut font, 0);
    push_u16(&mut font, 0);
    push_u16(&mut font, 0);
    let mut offset = 12 + 16 * 4;
    let mut body = Vec::new();
    for (tag, data) in tables.iter() {
        font.extend_from_slice(&tag[..]);
        push_u32(&mut font, 0);
        push_u32(&mut font, offset as u32);
        push_u32(&mut font, data.len() as u32);
        body.extend_from_slice(data);
        offset += data.len();
    }
    font.extend_from_slice(&body);
    font
}

#[test]
fn latin_support_needs_every_probe_letter() {
    let full = minimal_font(&['A', 'a', 'g', 'R', 'z', 'e', 'q']);
    assert!(face_supports_latin(&full, 0));
    let missing_z = minimal_font(&['A', 'a', 'g', 'R', 'e']);
    assert!(!face_supports_latin(&missing_z, 0));
    // Index 1 of a single font and data that is no font at all are rejected.
    assert!(!face_supports_latin(&full, 1));
    assert!(!face_supports_latin(&[1, 2, 3, 4, 5], 0));
    assert!(!face_supports_latin(&[], 0));
}

fn face(families: &[&str], weight: u16, slanted: bool, latin: bool) -> FontFace {
    FontFace { families: families.iter().map(|s| s.to_string()).collect(), weight, slanted, latin }
}

#[test]
fn font_families_sorted_unique_latin_only() {
    let faces = vec![
        face(&["Inter"], 400, false, true),
        face(&["DejaVu Sans"], 400, false, true),
        face(&["Inter"], 700, false, true),
        face(&["Noto Sans Hebrew"], 400, false, false),
        face(&[], 400, false, true),
        face(&["Arial", "Arimo"], 400, true, true),
        face(&["arial"], 400, false, true),
    ];
    assert_eq!(available_font_families(&faces), vec!["Arial", "DejaVu Sans", "Inter", "arial"]);
    // The bundled default family is always listed.
    assert_eq!(available_font_families(&vec![]), vec!["Inter"]);
    assert_eq!(
        available_font_families(&vec![face(&["Zed"], 400, false, true)]),
        vec!["Inter", "Zed"]
    );
}

#[test]
fn family_bold_and_italic_support() {
    let faces = vec![
        face(&["Inter"], 400, false, true),
        face(&["Inter"], 600, false, true),
        face(&["Mono"], 700, false, true),
        face(&["Serif", "Mono"], 400, true, true),
        face(&["Light"], 599, false, true),
    ];
    assert_eq!(family_face_support(&faces, "Inter"), (true, false));
    assert_eq!(family_face_support(&faces, "Mono"), (true, true));
    assert_eq!(family_face_support(&faces, "Light"), (false, false));
    assert_eq!(family_face_support(&faces, "Missing"), (false, false));
}

#[test]
fn font_choice_blank_resets_and_change_is_reported() {
    let faces = vec![face(&["Mono"], 400, false, true)];
    let mut f = FontChoice::new();
    assert_eq!(f.family(), DEFAULT_FONT_FAMILY);
    assert!(f.request_bold(true) && f.request_italic(true));
    assert!(!f.set_family("Inter", &faces));
    assert!(f.set_family("Mono", &faces));
    assert_eq!(f.family(), "Mono");
    assert!(!f.request_bold(true));
    assert!(!f.request_italic(true));
    assert!(!f.request_bold(false));
    assert!(f.set_family("", &faces));
    assert_eq!(f.family(), "Inter");
}

#[test]
fn font_choice_white_space_name_is_blank() {
    let faces = vec![face(&["Mono"], 400, false, true)];
    let mut f = FontChoice::new();
    assert!(f.set_family("Mono", &faces));
    assert!(f.set_family(" \t ", &faces));
    assert_eq!(f.family(), "Inter");
    let mut r: TextRendererState<u8> = TextRendererState::new();
    r.set_font_family("Mono", &faces);
    r.set_font_family("  ", &faces);
    assert_eq!(r.font().family(), "Inter");
    // A non-blank name is kept as given.
    assert!(f.set_family(" Mono", &faces));
    assert_eq!(f.family(), " Mono");
}

#[test]
fn font_family_list_is_the_same_for_equal_faces() {
    let faces = vec![
        face(&["Zed"], 400, false, true),
        face(&["Arial"], 400, false, true),
        face(&["Zed"], 700, false, true),
    ];
    let a = available_font_families(&faces);
    let b = available_font_families(&faces.clone());
    assert_eq!(a, b);
    assert_eq!(a, vec!["Arial".to_string(), "Inter".to_string(), "Zed".to_string()]);
}

#[test]
fn renderer_state_store_keeps_other_text_and_repeats_hits() {
    let mut r: TextRendererState<u8> = TextRendererState::new();
    r.store(TextCacheKey { text: "a".to_string(), size_key: 120, bold: false, italic: false }, 1);
    assert!(r.lookup("b", 120, false, false).is_none());
    r.store(TextCacheKey { text: "b".to_string(), size_key: 120, bold: false, italic: false }, 2);
    assert_eq!(r.cache().len(), 2);
    let i = r.lookup("a", 120, false, false).unwrap();
    assert_eq!(*r.cached(i), 1);
    let j = r.lookup("a", 120, false, false).unwrap();
    assert_eq!(i, j);
    assert_eq!(*r.cached(j), 1);
    let k = r.lookup("b", 120, false, false).unwrap();
    assert_eq!(*r.cached(k), 2);
}

#[test]
fn overlay_controls_follow_modes() {
    let m = OverlayModes { visible: true, move_mode: false, rearrange: false, auto_hidden: false };
    assert_eq!(
        m.controls(true, true),
        OverlayControls {
            visibility: true,
            move_mode: true,
            rearrange: true,
            clear_frames_header: true,
            clear_frames_panel: true,
        }
    );
    let hidden = OverlayModes { visible: false, ..m };
    let c = hidden.controls(true, true);
    assert!(c.visibility && !c.move_mode && !c.rearrange && c.clear_frames_header && !c.clear_frames_panel);
    let none = m.controls(false, false);
    assert!(!none.visibility && !none.move_mode && !none.rearrange && !none.clear_frames_header);
    let auto = OverlayModes { auto_hidden: true, ..m };
    assert!(!auto.controls(true, true).move_mode && !auto.controls(true, true).rearrange);
}

#[test]
fn overlay_mode_transitions() {
    let m = OverlayModes { visible: true, move_mode: true, rearrange: false, auto_hidden: true };
    let (hidden, tell) = m.after_visibility_toggle();
    assert!(!hidden.visible && !hidden.move_mode && !tell);
    let (shown, tell) = hidden.after_visibility_toggle();
    assert!(shown.visible && tell);
    let r = OverlayModes { visible: true, move_mode: false, rearrange: true, auto_hidden: false };
    let (unlocked, dirty) = r.after_move_mode(true);
    assert!(unlocked.move_mode && !unlocked.rearrange && !dirty);
    let (locked, dirty) = unlocked.after_move_mode(false);
    assert!(!locked.move_mode && dirty);
    assert!(locked.after_rearrange(true).rearrange);
}

#[test]
fn any_overlay_enabled_checks_metrics_and_others() {
    let metrics = vec![(MetricType::Dps, false), (MetricType::Hps, false)];
    assert!(!any_overlay_enabled(&metrics, &vec![false, false]));
    assert!(any_overlay_enabled(&metrics, &vec![false, true]));
    let metrics = vec![(MetricType::Dps, false), (MetricType::Hps, true)];
    assert!(any_overlay_enabled(&metrics, &vec![]));
}

#[test]
fn renderer_state_clears_shaped_text_on_family_change() {
    let faces = vec![face(&["Mono"], 700, false, true)];
    let mut r: TextRendererState<u8> = TextRendererState::new();
    assert_eq!(r.lookup("x", 120, false, false), None);
    r.store(TextCacheKey { text: "x".to_string(), size_key: 120, bold: false, italic: false }, 5);
    let i = r.lookup("x", 120, false, false).unwrap();
    assert_eq!(*r.cached(i), 5);
    r.set_font_family("Inter", &faces);
    assert_eq!(r.cache().len(), 1);
    r.set_font_family("Mono", &faces);
    assert_eq!(r.cache().len(), 0);
    assert!(r.font().request_bold(true));
}

#[test]
fn string_helpers() {
    assert!(str_eq("abc", "abc"));
    assert!(!str_eq("abc", "abd"));
    assert_eq!(compare_bytes("a", "b"), Comparison::Less);
    assert_eq!(compare_bytes("ab", "a"), Comparison::Greater);
    assert_eq!(compare_bytes("Zeta", "alpha"), Comparison::Less);
    assert_eq!(compare_bytes("same", "same"), Comparison::Equal);
    assert_eq!(trim("  \t guild \n"), "guild");
    assert_eq!(trim("\u{3000}x y\u{2028}"), "x y");
    assert_eq!(trim("   "), "");
    assert!(contains_str("hello world", "o w"));
    assert!(contains_str("abc", ""));
    assert!(!contains_str("ab", "abc"));
}

#[test]
fn difficulty_tags() {
    assert_eq!(difficulty_class("4 Player Veteran"), "area-tag diff-fp");
    assert_eq!(difficulty_class("Master Mode 8"), "area-tag diff-nim");
    assert_eq!(difficulty_class("VETERAN 16"), "area-tag diff-hm");
    assert_eq!(difficulty_class("Story Mode"), "area-tag diff-sm");
    assert_eq!(difficulty_class("Solo"), "area-tag");
}

#[test]
fn instanced_areas_have_a_difficulty() {
    let a = |d: &str| AreaVisitInfo { display: "x".into(), area_name: "x".into(), difficulty: d.into() };
    let areas = vec![a("NiM 8"), a(""), a("SM 16"), a("")];
    assert_eq!(instanced_areas(&areas), vec![0, 2]);
}

#[test]
fn guild_list_additions() {
    let mut guilds: Vec<String> = Vec::new();
    let mut selected: Option<String> = None;
    assert!(add_parsely_guild("  Alpha ", &mut guilds, &mut selected));
    assert_eq!(guilds, vec!["Alpha"]);
    assert_eq!(selected.as_deref(), Some("Alpha"));
    assert!(!add_parsely_guild("Alpha", &mut guilds, &mut selected));
    assert!(!add_parsely_guild("   ", &mut guilds, &mut selected));
    assert!(add_parsely_guild("Beta", &mut guilds, &mut selected));
    assert_eq!(guilds, vec!["Alpha", "Beta"]);
    assert_eq!(selected.as_deref(), Some("Alpha"));
}

#[test]
fn metric_overlays_enabled_from_status_keys() {
    let enabled = vec!["abs".to_string(), "dps".to_string(), "personal".to_string()];
    let r = enabled_metric_overlays(&enabled);
    assert_eq!(r.len(), 9);
    assert_eq!(r[0], (MetricType::Dps, true));
    assert_eq!(r[1], (MetricType::EDps, false));
    assert_eq!(r[5], (MetricType::Htps, true));
    assert!(r.iter().filter(|(_, on)| *on).count() == 2);
}

#[test]
fn profile_rules() {
    assert!(can_create_profile(" Raid ", 2, 10));
    assert!(!can_create_profile("  ", 2, 10));
    assert!(!can_create_profile("Raid", 10, 10));
    assert_eq!(profile_rename_target(" New ", "Old"), Some("New".to_string()));
    assert_eq!(profile_rename_target("Old ", "Old"), None);
    assert_eq!(profile_rename_target("", "Old"), None);
}

#[test]
fn bounded_settings_clamp() {
    assert_eq!(BoundedSetting::MapWidth.clamp(10), 50);
    assert_eq!(BoundedSetting::MapWidth.clamp(4000), 2560);
    assert_eq!(BoundedSetting::MapHeight.clamp(4000), 2048);
    assert_eq!(BoundedSetting::MapHeight.clamp(700), 700);
    assert_eq!(BoundedSetting::DotIconSize.clamp(0), 12);
    assert_eq!(BoundedSetting::LatencyMs.clamp(900), 500);
    assert_eq!(BoundedSetting::RaidGridColumns.bounds(), (1, 6));
}

fn preview() -> StarParsePreview {
    StarParsePreview {
        encounter_timers: 3,
        effect_timers: 1,
        operations: vec![],
        unmapped_bosses: vec![],
        skipped_builtin: 0,
        skipped_unsupported_effects: 0,
    }
}

#[test]
fn import_flow_happy_path() {
    let (s, a) = step(ImportState::Idle, ImportEvent::FileChosen("x.xml".to_string()));
    assert!(matches!(s, ImportState::Previewing));
    assert!(matches!(a, ImportAction::StartPreview(ref p) if p == "x.xml"));
    let (s, a) = step(s, ImportEvent::PreviewLoaded("x.xml".to_string(), preview()));
    assert!(matches!(s, ImportState::Ready(ref p, ref v) if p == "x.xml" && v.encounter_timers == 3));
    assert!(matches!(a, ImportAction::Nothing));
    let (s, a) = step(s, ImportEvent::Confirm);
    assert!(matches!(s, ImportState::Importing));
    assert!(matches!(a, ImportAction::StartImport(ref p) if p == "x.xml"));
    let res = StarParseImportResult { files_written: 2, encounter_timers_imported: 3, effects_imported: 1 };
    let (s, _) = step(s, ImportEvent::ImportFinished(res));
    assert!(matches!(s, ImportState::Done(r) if r == res));
    let (s, _) = step(s, ImportEvent::Reset);
    assert!(matches!(s, ImportState::Idle));
}

#[test]
fn import_flow_errors_and_ignored_events() {
    let (s, _) = step(ImportState::Previewing, ImportEvent::PreviewFailed("bad xml".to_string()));
    assert!(matches!(s, ImportState::Error(ref m) if m == "bad xml"));
    // From an error a new file can be chosen.
    let (s, a) = step(s, ImportEvent::FileChosen("y.xml".to_string()));
    assert!(matches!(s, ImportState::Previewing));
    assert!(matches!(a, ImportAction::StartPreview(_)));
    // Events the state does not expect change nothing.
    let (s, a) = step(s, ImportEvent::Confirm);
    assert!(matches!(s, ImportState::Previewing));
    assert!(matches!(a, ImportAction::Nothing));
    let (s, _) = step(ImportState::Ready("z".to_string(), preview()), ImportEvent::Reset);
    assert!(matches!(s, ImportState::Idle));
    let (s, _) = step(ImportState::Importing, ImportEvent::ImportFailed("disk".to_string()));
    assert!(matches!(s, ImportState::Error(ref m) if m == "disk"));
    let (s, _) = step(ImportState::Idle, ImportEvent::Reset);
    assert!(matches!(s, ImportState::Idle));
}

#[test]
fn preview_debounce_sends_only_the_latest() {
    let mut d = PreviewDebounce::new();
    let first = d.request();
    assert_eq!(first, 1);
    let second = d.request();
    assert!(!d.should_send(first));
    assert!(d.should_send(second));
    d.cancel();
    assert!(!d.should_send(second));
}

#[test]
fn small_file_sizes_in_kilobytes() {
    assert_eq!(small_file_size_label(0).as_deref(), Some("0kb"));
    assert_eq!(small_file_size_label(2047).as_deref(), Some("1kb"));
    assert_eq!(small_file_size_label(1048575).as_deref(), Some("1023kb"));
    assert_eq!(small_file_size_label(1048576), None);
}
