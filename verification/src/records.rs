//! Plain records exchanged with the backend: session and overlay status,
//! log files, updates, encounter-editor items, and import/export previews.
use vstd::prelude::*;

verus! {

/// Session information from the backend.
#[derive(Debug, Clone)]
pub struct SessionInfo {
    pub player_name: Option<String>,
    pub player_class: Option<String>,
    pub player_discipline: Option<String>,
    /// Discipline icon file name.
    pub class_icon: Option<String>,
    /// Role icon file name.
    pub role_icon: Option<String>,
    pub area_name: Option<String>,
    pub in_combat: bool,
    pub encounter_count: usize,
    /// Session start time, formatted like "Jan 18, 3:45 PM".
    pub session_start: Option<String>,
    /// Short start time for inline display, like "3:45 PM".
    pub session_start_short: Option<String>,
    /// Session end time for historical sessions.
    pub session_end: Option<String>,
    /// Duration in short form, like "47m" or "1h 23m".
    pub duration_formatted: Option<String>,
    /// The log file's last event is older than 30 minutes.
    pub stale_session: bool,
    /// The log file holds events from several characters.
    pub character_mismatch: bool,
    /// The log file started without an area-entered event.
    pub missing_area: bool,
}

/// Overlay status response from the backend.
#[derive(Debug, Clone)]
pub struct OverlayStatus {
    pub running: Vec<String>,
    pub enabled: Vec<String>,
    pub personal_running: bool,
    pub personal_enabled: bool,
    pub raid_running: bool,
    pub raid_enabled: bool,
    pub boss_health_running: bool,
    pub boss_health_enabled: bool,
    pub timers_running: bool,
    pub timers_enabled: bool,
    pub timers_b_running: bool,
    pub timers_b_enabled: bool,
    pub challenges_running: bool,
    pub challenges_enabled: bool,
    pub alerts_running: bool,
    pub alerts_enabled: bool,
    pub effects_a_running: bool,
    pub effects_a_enabled: bool,
    pub effects_b_running: bool,
    pub effects_b_enabled: bool,
    pub cooldowns_running: bool,
    pub cooldowns_enabled: bool,
    pub dot_tracker_running: bool,
    pub dot_tracker_enabled: bool,
    pub notes_running: bool,
    pub notes_enabled: bool,
    pub combat_time_running: bool,
    pub combat_time_enabled: bool,
    pub operation_timer_running: bool,
    pub operation_timer_enabled: bool,
    pub ability_queue_running: bool,
    pub ability_queue_enabled: bool,
    pub map_running: bool,
    pub map_enabled: bool,
    pub overlays_visible: bool,
    pub move_mode: bool,
    pub rearrange_mode: bool,
    /// Overlays are suppressed by an auto-hide condition.
    pub auto_hidden: bool,
}

/// Area visit for display in the file browser.
#[derive(Debug, Clone)]
pub struct AreaVisitInfo {
    /// "AreaName Difficulty", like "Dxun NiM 8".
    pub display: String,
    pub area_name: String,
    /// Difficulty (may be empty).
    pub difficulty: String,
}

/// Log file metadata for the file browser.
#[derive(Debug, Clone)]
pub struct LogFileInfo {
    pub path: String,
    pub display_name: String,
    pub character_name: Option<String>,
    pub date: String,
    /// Day of week, like "Sunday".
    pub day_of_week: String,
    pub is_empty: bool,
    pub file_size: u64,
    /// Areas visited in this file (none if not yet indexed).
    pub areas: Option<Vec<AreaVisitInfo>>,
}

/// Update availability from the backend.
#[derive(Debug, Clone)]
pub struct UpdateInfo {
    pub version: String,
    pub notes: Option<String>,
    pub date: Option<String>,
}

/// Changelog response from the backend.
#[derive(Debug, Clone)]
pub struct ChangelogResponse {
    pub should_show: bool,
    pub html: Option<String>,
    pub version: String,
}

/// Per-difficulty HP entry of a shield.
#[derive(Debug, Clone)]
pub struct ShieldHpEntry {
    pub difficulties: Vec<String>,
    pub group_size: Option<u8>,
    pub total: i64,
}

/// Area summary for the lazily loaded encounter editor.
#[derive(Debug, Clone)]
pub struct AreaListItem {
    pub name: String,
    pub area_id: i64,
    pub file_path: String,
    pub category: String,
    pub boss_count: usize,
    pub timer_count: usize,
}

/// Boss item for full editing.
#[derive(Debug, Clone)]
pub struct BossEditItem {
    pub id: String,
    pub name: String,
    pub area_name: String,
    pub area_id: i64,
    pub file_path: String,
    pub difficulties: Vec<String>,
}

/// Request to create a new area.
#[derive(Debug, Clone)]
pub struct NewAreaRequest {
    pub name: String,
    pub area_id: i64,
    pub area_type: String,
}

/// Export result from the backend.
#[derive(Debug, Clone)]
pub struct ExportResult {
    pub toml: String,
    pub is_bundled: bool,
}

/// Item-level diff entry of an import preview.
#[derive(Debug, Clone)]
pub struct ImportItemDiff {
    pub item_type: String,
    pub name: String,
    pub id: String,
}

/// Per-boss import preview.
#[derive(Debug, Clone)]
pub struct ImportBossPreview {
    pub boss_id: String,
    pub boss_name: String,
    pub is_new_boss: bool,
    pub items_to_replace: Vec<ImportItemDiff>,
    pub items_to_add: Vec<ImportItemDiff>,
    pub items_unchanged: usize,
}

/// Full import preview.
#[derive(Debug, Clone)]
pub struct ImportPreview {
    pub source_area_name: Option<String>,
    pub bosses: Vec<ImportBossPreview>,
    pub is_new_area: bool,
    pub errors: Vec<String>,
}

/// Effect import diff entry.
#[derive(Debug, Clone)]
pub struct EffectImportDiff {
    pub id: String,
    pub name: String,
    pub display_targets: Vec<crate::types::DisplayTarget>,
}

/// Effect import preview.
#[derive(Debug, Clone)]
pub struct EffectImportPreview {
    pub effects_to_replace: Vec<EffectImportDiff>,
    pub effects_to_add: Vec<EffectImportDiff>,
    pub effects_unchanged: usize,
    pub errors: Vec<String>,
}

/// Operation summary in a StarParse import preview.
#[derive(Debug, Clone)]
pub struct OperationPreview {
    pub name: String,
    pub timer_count: usize,
}

/// Preview of a StarParse XML import.
#[derive(Debug, Clone)]
pub struct StarParsePreview {
    pub encounter_timers: usize,
    pub effect_timers: usize,
    pub operations: Vec<OperationPreview>,
    pub unmapped_bosses: Vec<String>,
    pub skipped_builtin: usize,
    pub skipped_unsupported_effects: usize,
}

/// Result of a StarParse XML import.
#[derive(Debug, Clone, Copy, PartialEq, Eq, Structural)]
pub struct StarParseImportResult {
    pub files_written: usize,
    pub encounter_timers_imported: usize,
    pub effects_imported: usize,
}

} // verus!
