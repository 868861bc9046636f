//! Map overlay: configuration, the data pushed by the service layer, and the
//! bookkeeping that decides which SVG to show, when a (re)rasterization is
//! needed, and which finished rasterization may replace the shown image.
use std::sync::Arc;

use vstd::prelude::*;

verus! {

/// Default window size of the map overlay, in pixels.
pub const MAP_BASE_SIZE: u32 = 400;

/// Runtime configuration for the map overlay.
#[derive(Debug, Clone, Copy, PartialEq, Eq, Structural)]
pub struct MapConfig {
    /// Preserve the SVG's aspect ratio (letterbox and center) instead of
    /// stretching it over the whole window.
    pub preserve_aspect: bool,
    /// Hold the overlay at `width` x `height`; drag-resizing snaps back.
    pub lock_size: bool,
    /// Locked width (used when `lock_size` is true).
    pub width: u32,
    /// Locked height (used when `lock_size` is true).
    pub height: u32,
}

impl Default for MapConfig {
    /// Stretch to fill, size not locked, 400 x 400.
    fn default() -> (r: Self)
        ensures
            r == (MapConfig { preserve_aspect: false, lock_size: false, width: 400, height: 400 }),
    {
        MapConfig { preserve_aspect: false, lock_size: false, width: 400, height: 400 }
    }
}

/// Data sent from the service layer to the map overlay: the SVG source of
/// the current encounter and phase (or none), and a placeholder SVG shown
/// only in move mode when no map applies.
#[derive(Debug, Clone)]
pub struct MapData {
    pub svg: Option<Arc<String>>,
    pub placeholder: Option<Arc<String>>,
}

impl Default for MapData {
    /// No map and no placeholder.
    fn default() -> (r: Self)
        ensures
            r.svg.is_none(),
            r.placeholder.is_none(),
    {
        MapData { svg: None, placeholder: None }
    }
}

/// Which SVG a raster is produced from.
#[derive(Debug, Clone, Copy, PartialEq, Eq, Structural)]
pub enum ActiveSource {
    MapSvg,
    PlaceholderSvg,
}

/// What a raster must contain: the source generation, the active source and
/// the pixel size.
#[derive(Debug, Clone, Copy, PartialEq, Eq, Structural)]
pub struct RasterId {
    pub generation: u64,
    pub active: ActiveSource,
    pub width: u32,
    pub height: u32,
}

/// A rasterized image: width, height and straight-alpha RGBA bytes.
pub struct Raster {
    pub width: u32,
    pub height: u32,
    pub rgba: Vec<u8>,
}

/// What polling the rasterization worker gave this frame.
pub enum WorkerPoll {
    /// No job is running.
    NoJob,
    /// The job is still running.
    Waiting,
    /// The job finished with this raster (none if the SVG did not parse or
    /// could not be rasterized).
    Finished(Option<Raster>),
    /// The job went away without an answer.
    Disconnected,
}

/// What to draw this frame.
pub enum RenderPlan {
    /// Nothing to show: draw an empty frame without background.
    Blank,
    /// Show the source named by `want.active`: start a rasterization job for
    /// `want` when `start_job` is set, draw the current raster if there is
    /// one, and draw the "Loading…" label when `loading` is set.
    Draw { want: RasterId, start_job: bool, loading: bool },
}

/// Content view of an optional SVG source.
pub open spec fn source_view(s: Option<Arc<String>>) -> Option<Seq<char>> {
    match s {
        Some(a) => Some(a@),
        None => None,
    }
}

/// Whether map data with these sources changes what the overlay holds.
pub open spec fn data_changes(m: MapOverlay, svg: Option<Seq<char>>, placeholder: Option<Seq<char>>) -> bool {
    m.map_source() != svg || m.placeholder() != placeholder
}

/// Sending the same map data again is no change: once an update has set the
/// map and the placeholder, data with the same contents changes nothing.
pub proof fn lemma_same_data_again_is_no_change(
    m: MapOverlay,
    svg: Option<Seq<char>>,
    placeholder: Option<Seq<char>>,
)
    requires
        m.map_source() == svg,
        m.placeholder() == placeholder,
    ensures
        !data_changes(m, svg, placeholder),
{
}

/// The real map is shown whenever there is one, in either mode; the
/// placeholder only when there is no map, in edit mode; and nothing only
/// when there is no map and the placeholder does not apply.
pub proof fn lemma_map_preferred_over_placeholder(m: MapOverlay, edit_mode: bool)
    ensures
        m.map_source().is_some() ==> m.selected(edit_mode) == Some(ActiveSource::MapSvg),
        m.selected(edit_mode) == Some(ActiveSource::PlaceholderSvg) <==> (m.map_source().is_none() && edit_mode
            && m.placeholder().is_some()),
        m.selected(edit_mode).is_none() <==> (m.map_source().is_none() && !(edit_mode
            && m.placeholder().is_some())),
{
}

/// Generation after a bump (wrapping at the top of the range).
pub open spec fn next_generation(g: u64) -> u64 {
    if g == u64::MAX {
        0
    } else {
        (g + 1) as u64
    }
}

/// Larger of `v` and 1.
pub open spec fn at_least_one(v: u32) -> u32 {
    if v >= 1 {
        v
    } else {
        1
    }
}

/// Base dimension for scaling the frame chrome: the window dimension, or
/// the default size when it is unset (0).
pub open spec fn base_dimension(v: u32) -> u32 {
    if v > 0 {
        v
    } else {
        MAP_BASE_SIZE
    }
}

/// Base width and height for scaling the frame chrome of a window of the
/// given saved or spawn size; unset (0) dimensions fall back to 400.
pub fn frame_base_size(window_width: u32, window_height: u32) -> (r: (u32, u32))
    ensures
        r == (base_dimension(window_width), base_dimension(window_height)),
{
    let w = if window_width > 0 {
        window_width
    } else {
        MAP_BASE_SIZE
    };
    let h = if window_height > 0 {
        window_height
    } else {
        MAP_BASE_SIZE
    };
    (w, h)
}

/// Whether two optional sources have the same content.
fn same_source(a: &Option<Arc<String>>, b: &Option<Arc<String>>) -> (r: bool)
    ensures
        r == (source_view(*a) == source_view(*b)),
{
    match (a, b) {
        (Some(x), Some(y)) => {
            let xs: &String = &**x;
            let ys: &String = &**y;
            xs.eq(ys)
        },
        (None, None) => true,
        _ => false,
    }
}

/// The raster id a frame of `width` x `height` wants for the source `active`.
pub open spec fn want_id(m: MapOverlay, active: ActiveSource, width: u32, height: u32) -> RasterId {
    RasterId { generation: m.generation_spec(), active, width, height }
}

/// Whether a frame takes the worker's raster: the job in flight was made for
/// exactly `want` and has finished.
pub open spec fn accepts_result(m: MapOverlay, want: RasterId, poll: WorkerPoll) -> bool {
    m.pending_spec() == Some(want) && poll is Finished
}

/// The id of the shown raster once the worker's answer is taken in.
pub open spec fn raster_id_after_poll(m: MapOverlay, want: RasterId, poll: WorkerPoll) -> Option<RasterId> {
    if accepts_result(m, want, poll) {
        Some(want)
    } else {
        m.raster_id_spec()
    }
}

/// The job in flight once the worker's answer is taken in: a finished or
/// vanished job is done.
pub open spec fn pending_after_poll(m: MapOverlay, poll: WorkerPoll) -> Option<RasterId> {
    if m.pending_spec().is_some() && (poll is Finished || poll is Disconnected) {
        None
    } else {
        m.pending_spec()
    }
}

/// Whether a frame that wants `want` starts a new rasterization: neither the
/// shown raster nor the job in flight matches it.
pub open spec fn starts_job(m: MapOverlay, want: RasterId, poll: WorkerPoll) -> bool {
    raster_id_after_poll(m, want, poll) != Some(want) && pending_after_poll(m, poll) != Some(want)
}

/// How a frame treats the worker and the shown raster, for the raster id
/// `want` it wants:
/// - a raster already made for `want` is not made again;
/// - a job in flight for `want` is not started twice while it runs;
/// - a finished job for `want` is taken: its raster becomes the shown one,
///   the job is done, and nothing new is started;
/// - a finished job made for anything else never becomes the shown raster;
/// - without a job in flight, nothing the worker reports changes the shown
///   raster.
pub proof fn lemma_raster_job_rules(m: MapOverlay, want: RasterId, poll: WorkerPoll)
    ensures
        m.raster_id_spec() == Some(want) ==> !starts_job(m, want, poll),
        m.pending_spec() == Some(want) && (poll is Waiting || poll is NoJob) ==> !starts_job(m, want, poll),
        m.pending_spec() == Some(want) && poll is Finished ==> {
            &&& raster_id_after_poll(m, want, poll) == Some(want)
            &&& pending_after_poll(m, poll).is_none()
            &&& !starts_job(m, want, poll)
        },
        m.pending_spec() != Some(want) ==> raster_id_after_poll(m, want, poll) == m.raster_id_spec(),
        m.pending_spec().is_none() ==> raster_id_after_poll(m, want, poll) == m.raster_id_spec()
            && pending_after_poll(m, poll).is_none(),
        m.pending_spec().is_some() && (poll is Finished || poll is Disconnected) ==> pending_after_poll(
            m,
            poll,
        ).is_none(),
{
}

/// Each source or configuration change moves the generation on by one
/// (wrapping to 0 at the top), so it always differs from the one before.
pub proof fn lemma_generation_steps_by_one(g: u64)
    ensures
        g < u64::MAX ==> next_generation(g) == g + 1,
        g == u64::MAX ==> next_generation(g) == 0,
        next_generation(g) != g,
{
}

/// A bump of the generation (a changed source or configuration) invalidates
/// the raster: when no raster id the overlay holds is ahead of the old
/// generation, the next frame that has something to show starts a new
/// rasterization, whatever the worker reports.
pub proof fn lemma_generation_bump_restarts_raster(
    before: MapOverlay,
    after: MapOverlay,
    width: u32,
    height: u32,
    edit_mode: bool,
    poll: WorkerPoll,
)
    requires
        before.generation_spec() < u64::MAX,
        before.raster_id_spec() matches Some(id) ==> id.generation <= before.generation_spec(),
        before.pending_spec() matches Some(id) ==> id.generation <= before.generation_spec(),
        after.generation_spec() == next_generation(before.generation_spec()),
        after.raster_id_spec() == before.raster_id_spec(),
        after.pending_spec() == before.pending_spec(),
        after.selected(edit_mode) is Some,
    ensures
        starts_job(after, want_id(after, after.selected(edit_mode)->0, width, height), poll),
{
}

/// Map overlay state: configuration, the current map and placeholder
/// sources, the source generation, the shown raster and what it was made
/// for, and the raster id of the job in flight.
pub struct MapOverlay {
    config: MapConfig,
    svg_source: Option<Arc<String>>,
    placeholder_source: Option<Arc<String>>,
    generation: u64,
    raster: Option<Raster>,
    raster_id: Option<RasterId>,
    pending: Option<RasterId>,
}

impl MapOverlay {
    pub closed spec fn config_spec(&self) -> MapConfig {
        self.config
    }

    pub closed spec fn map_source(&self) -> Option<Seq<char>> {
        source_view(self.svg_source)
    }

    pub closed spec fn placeholder(&self) -> Option<Seq<char>> {
        source_view(self.placeholder_source)
    }

    pub closed spec fn generation_spec(&self) -> u64 {
        self.generation
    }

    pub closed spec fn has_raster(&self) -> bool {
        self.raster.is_some()
    }

    pub closed spec fn raster_rgba(&self) -> Seq<u8> {
        self.raster.unwrap().rgba@
    }

    /// The shown raster as width, height and bytes.
    pub closed spec fn raster_view(&self) -> Option<(u32, u32, Seq<u8>)> {
        match self.raster {
            Some(r) => Some((r.width, r.height, r.rgba@)),
            None => None,
        }
    }

    pub closed spec fn raster_width(&self) -> u32 {
        self.raster.unwrap().width
    }

    pub closed spec fn raster_height(&self) -> u32 {
        self.raster.unwrap().height
    }

    pub closed spec fn raster_id_spec(&self) -> Option<RasterId> {
        self.raster_id
    }

    pub closed spec fn pending_spec(&self) -> Option<RasterId> {
        self.pending
    }

    /// The source shown for the given edit mode: the map whenever there is
    /// one; otherwise, in edit mode only, the placeholder.
    pub open spec fn selected(&self, edit_mode: bool) -> Option<ActiveSource> {
        if self.map_source().is_some() {
            Some(ActiveSource::MapSvg)
        } else if edit_mode && self.placeholder().is_some() {
            Some(ActiveSource::PlaceholderSvg)
        } else {
            None
        }
    }

    /// A map overlay with the given configuration, no sources and no raster.
    pub fn new(config: MapConfig) -> (r: Self)
        ensures
            r.config_spec() == config,
            r.map_source().is_none(),
            r.placeholder().is_none(),
            r.generation_spec() == 0,
            !r.has_raster(),
            r.raster_id_spec().is_none(),
            r.pending_spec().is_none(),
    {
        MapOverlay {
            config,
            svg_source: None,
            placeholder_source: None,
            generation: 0,
            raster: None,
            raster_id: None,
            pending: None,
        }
    }

    /// The current configuration.
    pub fn config(&self) -> (r: MapConfig)
        ensures
            r == self.config_spec(),
    {
        self.config
    }

    /// The current source generation.
    pub fn generation(&self) -> (r: u64)
        ensures
            r == self.generation_spec(),
    {
        self.generation
    }

    /// Replace the current map source. Returns `true` if its content changed,
    /// in which case the generation is bumped.
    pub fn set_map(&mut self, svg: Option<Arc<String>>) -> (changed: bool)
        ensures
            changed == (old(self).map_source() != source_view(svg)),
            final(self).map_source() == source_view(svg),
            final(self).generation_spec() == if changed {
                next_generation(old(self).generation_spec())
            } else {
                old(self).generation_spec()
            },
            final(self).placeholder() == old(self).placeholder(),
            final(self).config_spec() == old(self).config_spec(),
            final(self).has_raster() == old(self).has_raster(),
            final(self).raster_view() == old(self).raster_view(),
            final(self).raster_id_spec() == old(self).raster_id_spec(),
            final(self).pending_spec() == old(self).pending_spec(),
    {
        if same_source(&self.svg_source, &svg) {
            return false;
        }
        self.svg_source = svg;
        self.generation = self.generation.wrapping_add(1);
        true
    }

    /// Replace the edit-mode placeholder source. Returns `true` if its
    /// content changed, in which case the generation is bumped.
    pub fn set_placeholder(&mut self, svg: Option<Arc<String>>) -> (changed: bool)
        ensures
            changed == (old(self).placeholder() != source_view(svg)),
            final(self).placeholder() == source_view(svg),
            final(self).generation_spec() == if changed {
                next_generation(old(self).generation_spec())
            } else {
                old(self).generation_spec()
            },
            final(self).map_source() == old(self).map_source(),
            final(self).config_spec() == old(self).config_spec(),
            final(self).has_raster() == old(self).has_raster(),
            final(self).raster_view() == old(self).raster_view(),
            final(self).raster_id_spec() == old(self).raster_id_spec(),
            final(self).pending_spec() == old(self).pending_spec(),
    {
        if same_source(&self.placeholder_source, &svg) {
            return false;
        }
        self.placeholder_source = svg;
        self.generation = self.generation.wrapping_add(1);
        true
    }

    /// Take new data from the service layer: both the map and the
    /// placeholder are replaced. Returns whether either changed.
    pub fn update_data(&mut self, data: MapData) -> (changed: bool)
        ensures
            final(self).map_source() == source_view(data.svg),
            final(self).placeholder() == source_view(data.placeholder),
            changed == data_changes(*old(self), source_view(data.svg), source_view(data.placeholder)),
            final(self).generation_spec() == if old(self).map_source() != source_view(data.svg)
                && old(self).placeholder() != source_view(data.placeholder) {
                next_generation(next_generation(old(self).generation_spec()))
            } else if changed {
                next_generation(old(self).generation_spec())
            } else {
                old(self).generation_spec()
            },
            final(self).config_spec() == old(self).config_spec(),
            final(self).raster_view() == old(self).raster_view(),
            final(self).raster_id_spec() == old(self).raster_id_spec(),
            final(self).pending_spec() == old(self).pending_spec(),
    {
        let map_changed = self.set_map(data.svg);
        let placeholder_changed = self.set_placeholder(data.placeholder);
        map_changed || placeholder_changed
    }

    /// Take a new configuration. Bumps the generation (fit and size settings
    /// may have changed) and returns the size to apply to the window at once
    /// when the size is locked.
    pub fn update_config(&mut self, config: MapConfig) -> (resize: Option<(u32, u32)>)
        ensures
            final(self).config_spec() == config,
            final(self).generation_spec() == next_generation(old(self).generation_spec()),
            resize == if config.lock_size {
                Some((at_least_one(config.width), at_least_one(config.height)))
            } else {
                None
            },
            final(self).map_source() == old(self).map_source(),
            final(self).placeholder() == old(self).placeholder(),
            final(self).raster_view() == old(self).raster_view(),
            final(self).raster_id_spec() == old(self).raster_id_spec(),
            final(self).pending_spec() == old(self).pending_spec(),
    {
        self.config = config;
        self.generation = self.generation.wrapping_add(1);
        if self.config.lock_size {
            Some((at_least_one_exec(self.config.width), at_least_one_exec(self.config.height)))
        } else {
            None
        }
    }

    /// The size to snap a window of the given size back to when the size is
    /// locked and the window has drifted from it.
    pub fn size_correction(&self, width: u32, height: u32) -> (r: Option<(u32, u32)>)
        ensures
            r == if self.config_spec().lock_size && (width != at_least_one(self.config_spec().width)
                || height != at_least_one(self.config_spec().height)) {
                Some((at_least_one(self.config_spec().width), at_least_one(self.config_spec().height)))
            } else {
                None
            },
    {
        if self.config.lock_size {
            let w = at_least_one_exec(self.config.width);
            let h = at_least_one_exec(self.config.height);
            if width != w || height != h {
                return Some((w, h));
            }
        }
        None
    }

    /// The source content of the given kind, to hand to a rasterization job.
    pub fn source(&self, active: ActiveSource) -> (r: Option<&Arc<String>>)
        ensures
            match r {
                Some(s) => Some(s@) == (match active {
                    ActiveSource::MapSvg => self.map_source(),
                    ActiveSource::PlaceholderSvg => self.placeholder(),
                }),
                None => (match active {
                    ActiveSource::MapSvg => self.map_source(),
                    ActiveSource::PlaceholderSvg => self.placeholder(),
                }).is_none(),
            },
    {
        match active {
            ActiveSource::MapSvg => self.svg_source.as_ref(),
            ActiveSource::PlaceholderSvg => self.placeholder_source.as_ref(),
        }
    }

    /// The raster currently shown, if any.
    pub fn raster(&self) -> (r: Option<&Raster>)
        ensures
            r.is_some() == self.has_raster(),
            r matches Some(x) ==> x.rgba@ == self.raster_rgba() && x.width == self.raster_width()
                && x.height == self.raster_height(),
    {
        self.raster.as_ref()
    }

    /// A rasterization is in flight, so the paint loop must keep rendering.
    pub fn needs_render(&self) -> (r: bool)
        ensures
            r == self.pending_spec().is_some(),
    {
        self.pending.is_some()
    }

    /// Decide one frame of the map overlay for a window of `width` x
    /// `height` pixels in the given edit mode, given what polling the
    /// rasterization worker gave.
    ///
    /// With nothing to show, the raster, its id and any job in flight are
    /// dropped. Otherwise the wanted raster id is the current generation, the
    /// selected source and the window size; a finished job's raster is taken
    /// only if it was made for exactly that id (the job is done either way,
    /// as it is when the worker went away); and a new job is started when
    /// neither the shown raster nor the job in flight matches what is wanted.
    pub fn plan_render(&mut self, width: u32, height: u32, edit_mode: bool, poll: WorkerPoll) -> (plan: RenderPlan)
        ensures
            final(self).config_spec() == old(self).config_spec(),
            final(self).map_source() == old(self).map_source(),
            final(self).placeholder() == old(self).placeholder(),
            final(self).generation_spec() == old(self).generation_spec(),
            match old(self).selected(edit_mode) {
                None => {
                    &&& plan is Blank
                    &&& !final(self).has_raster()
                    &&& final(self).raster_id_spec().is_none()
                    &&& final(self).pending_spec().is_none()
                },
                Some(active) => {
                    let want = want_id(*old(self), active, width, height);
                    let start = starts_job(*old(self), want, poll);
                    let accepted = accepts_result(*old(self), want, poll);
                    &&& plan == (RenderPlan::Draw {
                        want,
                        start_job: start,
                        loading: final(self).pending_spec().is_some(),
                    })
                    &&& final(self).raster_id_spec() == raster_id_after_poll(*old(self), want, poll)
                    &&& final(self).pending_spec() == if start {
                        Some(want)
                    } else {
                        pending_after_poll(*old(self), poll)
                    }
                    &&& accepted ==> (final(self).has_raster() == (poll->Finished_0).is_some())
                    &&& accepted && final(self).has_raster() ==> {
                        &&& final(self).raster_rgba() == (poll->Finished_0).unwrap().rgba@
                        &&& final(self).raster_width() == (poll->Finished_0).unwrap().width
                        &&& final(self).raster_height() == (poll->Finished_0).unwrap().height
                    }
                    &&& !accepted ==> (final(self).has_raster() == old(self).has_raster()
                        && (old(self).has_raster() ==> {
                        &&& final(self).raster_rgba() == old(self).raster_rgba()
                        &&& final(self).raster_width() == old(self).raster_width()
                        &&& final(self).raster_height() == old(self).raster_height()
                    }))
                },
            },
    {
        let active = if self.svg_source.is_some() {
            ActiveSource::MapSvg
        } else if edit_mode && self.placeholder_source.is_some() {
            ActiveSource::PlaceholderSvg
        } else {
            self.raster = None;
            self.raster_id = None;
            self.pending = None;
            return RenderPlan::Blank;
        };
        let want = RasterId { generation: self.generation, active, width, height };
        if let Some(id) = self.pending {
            match poll {
                WorkerPoll::Finished(result) => {
                    if same_id(id, want) {
                        self.raster = result;
                        self.raster_id = Some(want);
                    }
                    self.pending = None;
                },
                WorkerPoll::Disconnected => {
                    self.pending = None;
                },
                _ => {},
            }
        }
        let raster_matches = match self.raster_id {
            Some(id) => same_id(id, want),
            None => false,
        };
        let pending_matches = match self.pending {
            Some(id) => same_id(id, want),
            None => false,
        };
        let start_job = !raster_matches && !pending_matches;
        if start_job {
            self.pending = Some(want);
        }
        RenderPlan::Draw { want, start_job, loading: self.pending.is_some() }
    }
}

/// Larger of `v` and 1.
fn at_least_one_exec(v: u32) -> (r: u32)
    ensures
        r == at_least_one(v),
{
    if v >= 1 {
        v
    } else {
        1
    }
}

/// Field-wise equality of raster ids.
fn same_id(a: RasterId, b: RasterId) -> (r: bool)
    ensures
        r == (a == b),
{
    let same_active = match (a.active, b.active) {
        (ActiveSource::MapSvg, ActiveSource::MapSvg) => true,
        (ActiveSource::PlaceholderSvg, ActiveSource::PlaceholderSvg) => true,
        _ => false,
    };
    a.generation == b.generation && same_active && a.width == b.width && a.height == b.height
}

} // verus!
