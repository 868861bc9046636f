use baras_frontend::file_browser::{area_summary, log_file_matches, more_areas_label, AreaSummary};
use baras_frontend::records::{AreaVisitInfo, LogFileInfo};
use baras_frontend::session_view::{
    op_timer_button_title, op_timer_fields, op_timer_text, parse_upload_result, player_detail,
    suggested_profile_name, upload_file_name,
};

fn log_file(name: Option<&str>, size: u64, areas: Option<Vec<(&str, &str)>>) -> LogFileInfo {
    LogFileInfo {
        path: "/logs/combat_2024.txt".to_string(),
        display_name: "combat".to_string(),
        character_name: name.map(|s| s.to_string()),
        date: "Jan 18".to_string(),
        day_of_week: "Sunday".to_string(),
        is_empty: false,
        file_size: size,
        areas: areas.map(|v| {
            v.into_iter()
                .map(|(display, area)| AreaVisitInfo {
                    display: display.to_string(),
                    area_name: area.to_string(),
                    difficulty: "NiM 8".to_string(),
                })
                .collect()
        }),
    }
}

#[test]
fn file_filter_terms_are_anded_and_case_insensitive() {
    let f = log_file(Some("Kira"), 5 << 20, Some(vec![("Dxun NiM 8", "Dxun")]));
    assert!(log_file_matches(&f, "", false));
    assert!(log_file_matches(&f, " , ,", false));
    assert!(log_file_matches(&f, "KIRA", false));
    assert!(log_file_matches(&f, "kira, dxun", false));
    assert!(log_file_matches(&f, "sun,jan 18", false));
    assert!(!log_file_matches(&f, "kira,ravagers", false));
    assert!(!log_file_matches(&f, "Vex", false));
    let no_areas = log_file(None, 5 << 20, None);
    assert!(!log_file_matches(&no_areas, "dxun", false));
    assert!(log_file_matches(&no_areas, "sunday", false));
}

#[test]
fn file_filter_hides_small_files() {
    let small = log_file(Some("Kira"), (1 << 20) - 1, None);
    assert!(!log_file_matches(&small, "", true));
    assert!(log_file_matches(&small, "", false));
    let big = log_file(Some("Kira"), 1 << 20, None);
    assert!(log_file_matches(&big, "kira", true));
}

#[test]
fn player_detail_line() {
    let s = |x: &str| Some(x.to_string());
    assert_eq!(player_detail(&s("Sage"), &s("Seer")), "Sage — Seer");
    assert_eq!(player_detail(&s("Sage"), &None), "Sage");
    assert_eq!(player_detail(&s(""), &s("Seer")), "Seer");
    assert_eq!(player_detail(&None, &None), "");
}

#[test]
fn operation_timer_fields_and_title() {
    assert_eq!(op_timer_fields(59), (None, 0, 59));
    assert_eq!(op_timer_fields(3599), (None, 59, 59));
    assert_eq!(op_timer_fields(3600), (Some(1), 0, 0));
    assert_eq!(op_timer_fields(7384), (Some(2), 3, 4));
    assert_eq!(op_timer_button_title(true, 10), "Stop");
    assert_eq!(op_timer_button_title(false, 10), "Resume");
    assert_eq!(op_timer_button_title(false, 0), "Start");
}

#[test]
fn operation_timer_text_is_zero_padded() {
    assert_eq!(op_timer_text(0), "0:00");
    assert_eq!(op_timer_text(65), "1:05");
    assert_eq!(op_timer_text(3599), "59:59");
    assert_eq!(op_timer_text(3600), "1:00:00");
    assert_eq!(op_timer_text(7384), "2:03:04");
    assert_eq!(op_timer_text(36000 + 600 + 10), "10:10:10");
}

#[test]
fn area_badges_summary() {
    assert_eq!(area_summary(0), AreaSummary { badges: 0, more: None, full_list: false });
    assert_eq!(area_summary(3), AreaSummary { badges: 3, more: None, full_list: false });
    assert_eq!(area_summary(5), AreaSummary { badges: 3, more: Some(2), full_list: true });
    assert_eq!(more_areas_label(2), "+2 more");
    assert_eq!(more_areas_label(12), "+12 more");
}

#[test]
fn upload_results_are_split_in_three() {
    assert_eq!(
        parse_upload_result("/a/b.txt|true|Uploaded"),
        Some(("/a/b.txt".to_string(), true, "Uploaded".to_string()))
    );
    assert_eq!(
        parse_upload_result("p|false|error: a|b"),
        Some(("p".to_string(), false, "error: a|b".to_string()))
    );
    assert_eq!(parse_upload_result("p||"), Some(("p".to_string(), false, "".to_string())));
    assert_eq!(parse_upload_result("p|true"), None);
    assert_eq!(parse_upload_result(""), None);
}

#[test]
fn upload_file_names() {
    assert_eq!(upload_file_name("/home/me/combat_1.txt"), "combat_1.txt");
    assert_eq!(upload_file_name("combat.txt"), "combat.txt");
    assert_eq!(upload_file_name("C:\\logs\\combat.txt"), "C:\\logs\\combat.txt");
    assert_eq!(upload_file_name("dir/"), "");
}

#[test]
fn profile_name_suggestion_skips_taken_names() {
    assert_eq!(suggested_profile_name(&vec![]), "Profile 1");
    let names = vec!["Main".to_string(), "Profile 3".to_string()];
    assert_eq!(suggested_profile_name(&names), "Profile 4");
    let names = vec!["Profile 2".to_string(), "Profile 3".to_string()];
    assert_eq!(suggested_profile_name(&names), "Profile 4");
    let many: Vec<String> = (1..=12).map(|n| format!("Profile {}", n + 9)).collect();
    assert_eq!(suggested_profile_name(&many), "Profile 22");
}
