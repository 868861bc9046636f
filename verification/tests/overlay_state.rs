use std::sync::Arc;

use baras_frontend::glyph::{create_buffer, draw_glyph_to_pixmap, TextColor};
use baras_frontend::map_overlay::{
    frame_base_size, ActiveSource, MapConfig, MapData, MapOverlay, Raster, RenderPlan, WorkerPoll,
};
use baras_frontend::overlay::{OverlayData, OverlayPosition, RaidRegistryAction};
use baras_frontend::text_cache::{
    TextCache, TextCacheKey, TEXT_CACHE_MAX_ENTRIES, TEXT_CACHE_TARGET_ENTRIES,
};

fn svg(s: &str) -> Option<Arc<String>> {
    Some(Arc::new(s.to_string()))
}

fn raster(n: u8) -> Raster {
    Raster { width: 1, height: 1, rgba: vec![n, n, n, 255] }
}

#[test]
fn map_config_default() {
    let c = MapConfig::default();
    assert!(!c.preserve_aspect);
    assert!(!c.lock_size);
    assert_eq!((c.width, c.height), (400, 400));
    let d = MapData::default();
    assert!(d.svg.is_none() && d.placeholder.is_none());
}

#[test]
fn frame_base_size_falls_back_to_default() {
    assert_eq!(frame_base_size(0, 0), (400, 400));
    assert_eq!(frame_base_size(640, 0), (640, 400));
    assert_eq!(frame_base_size(320, 200), (320, 200));
}

#[test]
fn set_map_reports_changes_by_content() {
    let mut m = MapOverlay::new(MapConfig::default());
    assert!(m.set_map(svg("<svg/>")));
    assert_eq!(m.generation(), 1);
    // Same content in a different allocation is no change.
    assert!(!m.set_map(svg("<svg/>")));
    assert_eq!(m.generation(), 1);
    assert!(m.set_map(None));
    assert_eq!(m.generation(), 2);
    assert!(!m.set_map(None));
    assert!(m.set_placeholder(svg("<svg id='p'/>")));
    assert_eq!(m.generation(), 3);
}

#[test]
fn update_data_evaluates_both_sources() {
    let mut m = MapOverlay::new(MapConfig::default());
    let changed = m.update_data(MapData { svg: None, placeholder: svg("<svg/>") });
    assert!(changed);
    assert_eq!(m.generation(), 1);
    let changed = m.update_data(MapData { svg: svg("<a/>"), placeholder: svg("<b/>") });
    assert!(changed);
    assert_eq!(m.generation(), 3);
    let again = m.update_overlay_data(OverlayData::EncounterMap(MapData {
        svg: svg("<a/>"),
        placeholder: svg("<b/>"),
    }));
    assert!(!again);
    assert_eq!(m.generation(), 3);
}

#[test]
fn update_config_bumps_generation_and_applies_locked_size() {
    let mut m = MapOverlay::new(MapConfig::default());
    let r = m.update_config(MapConfig { preserve_aspect: true, lock_size: true, width: 0, height: 300 });
    assert_eq!(r, Some((1, 300)));
    assert_eq!(m.generation(), 1);
    assert_eq!(m.size_correction(1, 300), None);
    assert_eq!(m.size_correction(10, 300), Some((1, 300)));
    let r = m.update_config(MapConfig::default());
    assert_eq!(r, None);
    assert_eq!(m.size_correction(10, 10), None);
}

#[test]
fn nothing_to_show_clears_everything() {
    let mut m = MapOverlay::new(MapConfig::default());
    // Placeholder only counts in edit mode.
    m.set_placeholder(svg("<p/>"));
    assert!(matches!(m.plan_render(100, 100, false, WorkerPoll::NoJob), RenderPlan::Blank));
    assert!(!m.needs_render());
    match m.plan_render(100, 100, true, WorkerPoll::NoJob) {
        RenderPlan::Draw { want, start_job, loading } => {
            assert_eq!(want.active, ActiveSource::PlaceholderSvg);
            assert!(start_job && loading);
        }
        RenderPlan::Blank => panic!("placeholder expected in edit mode"),
    }
    assert!(m.needs_render());
    // Leaving edit mode drops the job.
    assert!(matches!(m.plan_render(100, 100, false, WorkerPoll::Waiting), RenderPlan::Blank));
    assert!(!m.needs_render());
    assert!(m.raster().is_none());
}

#[test]
fn render_flow_starts_one_job_and_accepts_its_result() {
    let mut m = MapOverlay::new(MapConfig::default());
    m.set_map(svg("<svg/>"));
    let want = match m.plan_render(200, 100, false, WorkerPoll::NoJob) {
        RenderPlan::Draw { want, start_job, loading } => {
            assert!(start_job);
            assert!(loading);
            want
        }
        RenderPlan::Blank => panic!("map expected"),
    };
    assert_eq!((want.generation, want.width, want.height), (1, 200, 100));
    assert_eq!(want.active, ActiveSource::MapSvg);
    assert_eq!(m.source(ActiveSource::MapSvg).map(|s| s.as_str()), Some("<svg/>"));
    // Still running: no second job.
    match m.plan_render(200, 100, false, WorkerPoll::Waiting) {
        RenderPlan::Draw { start_job, loading, .. } => assert!(!start_job && loading),
        RenderPlan::Blank => panic!(),
    }
    // Finished: the raster is shown, nothing more to do.
    match m.plan_render(200, 100, false, WorkerPoll::Finished(Some(raster(7)))) {
        RenderPlan::Draw { start_job, loading, .. } => assert!(!start_job && !loading),
        RenderPlan::Blank => panic!(),
    }
    assert_eq!(m.raster().map(|r| r.rgba.clone()), Some(vec![7, 7, 7, 255]));
    assert!(!m.needs_render());
}

#[test]
fn stale_result_is_discarded_and_job_restarted() {
    let mut m = MapOverlay::new(MapConfig::default());
    m.set_map(svg("<svg/>"));
    m.plan_render(200, 100, false, WorkerPoll::NoJob);
    // The window was resized while the job ran: its raster is for the old size.
    match m.plan_render(300, 100, false, WorkerPoll::Finished(Some(raster(1)))) {
        RenderPlan::Draw { want, start_job, loading } => {
            assert_eq!(want.width, 300);
            assert!(start_job && loading);
        }
        RenderPlan::Blank => panic!(),
    }
    assert!(m.raster().is_none());
    // A worker that went away is forgotten; a new one is started.
    match m.plan_render(300, 100, false, WorkerPoll::Disconnected) {
        RenderPlan::Draw { start_job, loading, .. } => assert!(start_job && loading),
        RenderPlan::Blank => panic!(),
    }
}

#[test]
fn config_update_restarts_rasterization() {
    let mut m = MapOverlay::new(MapConfig::default());
    m.set_map(svg("<svg/>"));
    m.plan_render(80, 60, false, WorkerPoll::NoJob);
    m.plan_render(
        80,
        60,
        false,
        WorkerPoll::Finished(Some(Raster { width: 2, height: 1, rgba: vec![3, 3, 3, 255, 3, 3, 3, 255] })),
    );
    assert_eq!(m.raster().map(|r| (r.width, r.height)), Some((2, 1)));
    assert!(!m.needs_render());
    m.update_config(MapConfig { preserve_aspect: true, lock_size: false, width: 80, height: 60 });
    match m.plan_render(80, 60, false, WorkerPoll::NoJob) {
        RenderPlan::Draw { want, start_job, loading } => {
            assert_eq!(want.generation, 2);
            assert!(start_job && loading);
        }
        RenderPlan::Blank => panic!("map expected"),
    }
    // The old image stays up until the new one arrives.
    assert_eq!(m.raster().map(|r| r.rgba.clone()), Some(vec![3, 3, 3, 255, 3, 3, 3, 255]));
    assert_eq!(m.raster().map(|r| (r.width, r.height)), Some((2, 1)));
}

#[test]
fn failed_rasterization_is_not_retried() {
    let mut m = MapOverlay::new(MapConfig::default());
    m.set_map(svg("not svg"));
    m.plan_render(50, 50, false, WorkerPoll::NoJob);
    match m.plan_render(50, 50, false, WorkerPoll::Finished(None)) {
        RenderPlan::Draw { start_job, loading, .. } => assert!(!start_job && !loading),
        RenderPlan::Blank => panic!(),
    }
    assert!(m.raster().is_none());
}

#[test]
fn overlay_messages() {
    let p = OverlayPosition { x: -5, y: 10, width: 300, height: 200 };
    assert_eq!(p, OverlayPosition { x: -5, y: 10, width: 300, height: 200 });
    assert_ne!(RaidRegistryAction::SwapSlots(1, 2), RaidRegistryAction::ClearSlot(1));
}

fn key(text: &str) -> TextCacheKey {
    TextCacheKey { text: text.to_string(), size_key: 140, bold: false, italic: false }
}

#[test]
fn text_cache_hit_after_store() {
    let mut c: TextCache<u32> = TextCache::new();
    assert_eq!(c.access("hello", 140, false, false), None);
    c.insert(key("hello"), 42);
    let i = c.access("hello", 140, false, false).expect("cached");
    assert_eq!(*c.value_at(i), 42);
    // Style and size are part of the key.
    assert_eq!(c.access("hello", 140, true, false), None);
    assert_eq!(c.access("hello", 141, false, false), None);
    assert_eq!(c.len(), 1);
    c.clear();
    assert_eq!(c.len(), 0);
}

#[test]
fn text_cache_evicts_least_recently_used_quarter() {
    let mut c: TextCache<usize> = TextCache::new();
    for n in 0..TEXT_CACHE_MAX_ENTRIES {
        let t = format!("t{}", n);
        assert_eq!(c.access(&t, 140, false, false), None);
        c.insert(key(&t), n);
    }
    assert_eq!(c.len(), TEXT_CACHE_MAX_ENTRIES);
    // Touch the oldest entry so it becomes the most recent.
    assert!(c.access("t0", 140, false, false).is_some());
    assert_eq!(c.access("new", 140, false, false), None);
    c.insert(key("new"), 9999);
    assert_eq!(c.len(), TEXT_CACHE_TARGET_ENTRIES);
    assert!(c.find("new", 140, false, false).is_some());
    assert!(c.find("t0", 140, false, false).is_some());
    // t1 .. t129 were the least recently used and are gone; t130 stays.
    assert!(c.find("t1", 140, false, false).is_none());
    assert!(c.find("t129", 140, false, false).is_none());
    assert!(c.find("t130", 140, false, false).is_some());
    assert!(c.find("t511", 140, false, false).is_some());
}

#[test]
fn create_buffer_is_zeroed() {
    let b = create_buffer(3, 2);
    assert_eq!(b.len(), 24);
    assert!(b.iter().all(|&x| x == 0));
    assert_eq!(create_buffer(0, 5).len(), 0);
}

#[test]
fn glyph_compositing_blends_covered_pixels_only() {
    // 3 x 2 buffer, every pixel (10, 20, 30, 40).
    let mut data: Vec<u8> = (0..6).flat_map(|_| [10u8, 20, 30, 40]).collect();
    // 2 x 1 glyph at (1, 1): full coverage then none.
    let glyph = [255u8, 0];
    let white = TextColor { r: 255, g: 255, b: 255, a: 255 };
    draw_glyph_to_pixmap(&mut data, 3, 2, &glyph, 2, 1, 1, 1, white);
    // Pixel (1, 1) is byte 16.
    assert_eq!(&data[16..20], &[255, 255, 255, 255]);
    // Pixel (2, 1) had zero coverage; pixel (0, 0) is off the glyph.
    assert_eq!(&data[20..24], &[10, 20, 30, 40]);
    assert_eq!(&data[0..4], &[10, 20, 30, 40]);
}

#[test]
fn glyph_compositing_partial_alpha_and_clipping() {
    let mut data = vec![0u8; 2 * 2 * 4];
    // Glyph partially off the top-left corner: only its bottom-right pixel lands.
    let glyph = [200u8, 200, 200, 128];
    let red = TextColor { r: 255, g: 0, b: 0, a: 255 };
    draw_glyph_to_pixmap(&mut data, 2, 2, &glyph, 2, 2, -1, -1, red);
    // src_a = 128 * 255 / 255 = 128; r = 255 * 128 / 255 = 128.
    assert_eq!(&data[0..4], &[128, 0, 0, 128]);
    assert!(data[4..].iter().all(|&x| x == 0));
    // Half-transparent color over white.
    let mut w = vec![255u8; 4];
    draw_glyph_to_pixmap(&mut w, 1, 1, &[255u8], 1, 1, 0, 0, TextColor { r: 0, g: 0, b: 0, a: 102 });
    // src_a = 102; r = (0 + 255 * 153) / 255 = 153; a = 102 + 255 * 153 / 255 = 255.
    assert_eq!(w, vec![153, 153, 153, 255]);
}

#[test]
fn glyph_compositing_leaves_bytes_past_the_pixmap() {
    // 1 x 1 pixmap over an 8-byte buffer.
    let mut data = vec![0u8, 0, 0, 0, 7, 7, 7, 7];
    let white = TextColor { r: 255, g: 255, b: 255, a: 255 };
    draw_glyph_to_pixmap(&mut data, 1, 1, &[255u8, 255], 2, 1, 0, 0, white);
    assert_eq!(data, vec![255, 255, 255, 255, 7, 7, 7, 7]);
}

#[test]
fn oversized_glyph_draws_nothing() {
    let mut data = vec![0u8; 4];
    let white = TextColor { r: 255, g: 255, b: 255, a: 255 };
    draw_glyph_to_pixmap(&mut data, 1, 1, &[255u8], 0x8000_0000, 1, 0, 0, white);
    draw_glyph_to_pixmap(&mut data, 1, 1, &[255u8], 1, u32::MAX, 0, 0, white);
    assert_eq!(data, vec![0u8; 4]);
}
