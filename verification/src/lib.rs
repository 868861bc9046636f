//! Verified core of the BARAS combat-overlay frontend: the metric, timer and
//! condition vocabulary of the settings UI, the timer display-target rules,
//! the map overlay's raster bookkeeping, the shaped-text cache, the glyph
//! compositor and the font-family selection logic.

pub mod text;
pub mod types;
pub mod text_cache;
pub mod glyph;
pub mod map_overlay;
pub mod fonts;
pub mod display_targets;
pub mod records;
pub mod ui_rules;
pub mod import_flow;
pub mod overlay;
pub mod renderer;
pub mod file_browser;
pub mod session_view;
