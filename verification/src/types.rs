//! Frontend vocabulary: metric kinds, overlay kinds, timer and effect display
//! targets, comparison operators, challenge metrics and state conditions,
//! with the labels and keys the settings UI shows and persists.
use vstd::prelude::*;

use crate::text::str_eq;

verus! {

// ─────────────────────────────────────────────────────────────────────────────
// Metric types
// ─────────────────────────────────────────────────────────────────────────────

/// Available metric overlay types.
#[derive(Debug, Clone, Copy, PartialEq, Eq, Hash, Structural)]
pub enum MetricType {
    Dps,
    EDps,
    BossDps,
    Hps,
    EHps,
    Htps,
    Dtps,
    Tps,
    Apm,
}

/// Display label of a metric type.
pub open spec fn metric_label(m: MetricType) -> Seq<char> {
    match m {
        MetricType::Dps => "Damage"@,
        MetricType::EDps => "Effective Damage"@,
        MetricType::BossDps => "Boss Damage"@,
        MetricType::Hps => "Healing"@,
        MetricType::EHps => "Effective Healing"@,
        MetricType::Tps => "Threat"@,
        MetricType::Dtps => "Damage Taken"@,
        MetricType::Htps => "Healing Taken"@,
        MetricType::Apm => "APM"@,
    }
}

/// Font Awesome icon class of a metric type.
pub open spec fn metric_icon_class(m: MetricType) -> Seq<char> {
    match m {
        MetricType::Dps => "fa-solid fa-khanda"@,
        MetricType::EDps => "fa-solid fa-crosshairs"@,
        MetricType::BossDps => "fa-solid fa-skull"@,
        MetricType::Hps => "fa-solid fa-heart"@,
        MetricType::EHps => "fa-solid fa-hand-holding-heart"@,
        MetricType::Htps => "fa-solid fa-kit-medical"@,
        MetricType::Dtps => "fa-solid fa-shield"@,
        MetricType::Tps => "fa-solid fa-triangle-exclamation"@,
        MetricType::Apm => "fa-solid fa-gauge-high"@,
    }
}

/// Persistence key of a metric type.
pub open spec fn metric_config_key(m: MetricType) -> Seq<char> {
    match m {
        MetricType::Dps => "dps"@,
        MetricType::EDps => "edps"@,
        MetricType::BossDps => "bossdps"@,
        MetricType::Hps => "hps"@,
        MetricType::EHps => "ehps"@,
        MetricType::Tps => "tps"@,
        MetricType::Dtps => "dtps"@,
        MetricType::Htps => "abs"@,
        MetricType::Apm => "apm"@,
    }
}

/// The metric types in the order the UI iterates them.
pub open spec fn all_metric_types() -> Seq<MetricType> {
    seq![
        MetricType::Dps,
        MetricType::EDps,
        MetricType::BossDps,
        MetricType::Hps,
        MetricType::EHps,
        MetricType::Htps,
        MetricType::Dtps,
        MetricType::Tps,
        MetricType::Apm,
    ]
}

impl MetricType {
    /// Human-readable label for display.
    pub fn label(&self) -> (r: &'static str)
        ensures
            r@ == metric_label(*self),
    {
        match self {
            MetricType::Dps => "Damage",
            MetricType::EDps => "Effective Damage",
            MetricType::BossDps => "Boss Damage",
            MetricType::Hps => "Healing",
            MetricType::EHps => "Effective Healing",
            MetricType::Tps => "Threat",
            MetricType::Dtps => "Damage Taken",
            MetricType::Htps => "Healing Taken",
            MetricType::Apm => "APM",
        }
    }

    /// Font Awesome icon class for overlay button display.
    pub fn icon_class(&self) -> (r: &'static str)
        ensures
            r@ == metric_icon_class(*self),
    {
        match self {
            MetricType::Dps => "fa-solid fa-khanda",
            MetricType::EDps => "fa-solid fa-crosshairs",
            MetricType::BossDps => "fa-solid fa-skull",
            MetricType::Hps => "fa-solid fa-heart",
            MetricType::EHps => "fa-solid fa-hand-holding-heart",
            MetricType::Htps => "fa-solid fa-kit-medical",
            MetricType::Dtps => "fa-solid fa-shield",
            MetricType::Tps => "fa-solid fa-triangle-exclamation",
            MetricType::Apm => "fa-solid fa-gauge-high",
        }
    }

    /// Config key used for persistence.
    pub fn config_key(&self) -> (r: &'static str)
        ensures
            r@ == metric_config_key(*self),
    {
        match self {
            MetricType::Dps => "dps",
            MetricType::EDps => "edps",
            MetricType::BossDps => "bossdps",
            MetricType::Hps => "hps",
            MetricType::EHps => "ehps",
            MetricType::Tps => "tps",
            MetricType::Dtps => "dtps",
            MetricType::Htps => "abs",
            MetricType::Apm => "apm",
        }
    }

    /// All metric overlay types (for iteration).
    pub fn all() -> (r: &'static [MetricType])
        ensures
            r@ == all_metric_types(),
    {
        &[
            MetricType::Dps,
            MetricType::EDps,
            MetricType::BossDps,
            MetricType::Hps,
            MetricType::EHps,
            MetricType::Htps,
            MetricType::Dtps,
            MetricType::Tps,
            MetricType::Apm,
        ]
    }
}

/// Every metric type occurs exactly once in the iteration order.
pub proof fn lemma_all_metric_types_complete(m: MetricType)
    ensures
        all_metric_types().contains(m),
        all_metric_types().no_duplicates(),
{
    let s = all_metric_types();
    match m {
        MetricType::Dps => assert(s[0] == m),
        MetricType::EDps => assert(s[1] == m),
        MetricType::BossDps => assert(s[2] == m),
        MetricType::Hps => assert(s[3] == m),
        MetricType::EHps => assert(s[4] == m),
        MetricType::Htps => assert(s[5] == m),
        MetricType::Dtps => assert(s[6] == m),
        MetricType::Tps => assert(s[7] == m),
        MetricType::Apm => assert(s[8] == m),
    }
}

/// Distinct metric types persist under distinct config keys.
pub proof fn lemma_metric_config_key_injective(a: MetricType, b: MetricType)
    ensures
        metric_config_key(a) == metric_config_key(b) ==> a == b,
{
    reveal_strlit("dps");
    reveal_strlit("edps");
    reveal_strlit("bossdps");
    reveal_strlit("hps");
    reveal_strlit("ehps");
    reveal_strlit("tps");
    reveal_strlit("dtps");
    reveal_strlit("abs");
    reveal_strlit("apm");
    if metric_config_key(a) == metric_config_key(b) && a != b {
        let ka = metric_config_key(a);
        let kb = metric_config_key(b);
        assert(ka.len() == kb.len());
        assert(ka[0] == kb[0]);
        assert(ka[1] == kb[1]);
    }
}

// ─────────────────────────────────────────────────────────────────────────────
// Overlay kinds
// ─────────────────────────────────────────────────────────────────────────────

/// Unified overlay kind, matching the backend's overlay kinds.
#[derive(Debug, Clone, Copy, PartialEq, Eq, Structural)]
pub enum OverlayType {
    Metric(MetricType),
    Personal,
    Raid,
    BossHealth,
    TimersA,
    TimersB,
    Challenges,
    Alerts,
    EffectsA,
    EffectsB,
    Cooldowns,
    DotTracker,
    Notes,
    CombatTime,
    OperationTimer,
    AbilityQueue,
    EncounterMap,
}

// ─────────────────────────────────────────────────────────────────────────────
// Timer display targets
// ─────────────────────────────────────────────────────────────────────────────

/// Which overlay should display a timer.
#[derive(Debug, Clone, Copy, PartialEq, Eq, Hash, Structural)]
pub enum TimerDisplayTarget {
    /// Timers A overlay (the default).
    TimersA,
    /// Timers B overlay.
    TimersB,
    /// Ability Queue overlay.
    AbilityQueue,
    /// No overlay display (alerts only).
    NoOverlay,
}

/// Display label of a timer display target.
pub open spec fn timer_target_label(t: TimerDisplayTarget) -> Seq<char> {
    match t {
        TimerDisplayTarget::TimersA => "Timers A"@,
        TimerDisplayTarget::TimersB => "Timers B"@,
        TimerDisplayTarget::AbilityQueue => "Ability Queue"@,
        TimerDisplayTarget::NoOverlay => "None"@,
    }
}

/// The timer display targets in the order the UI lists them.
pub open spec fn all_timer_display_targets() -> Seq<TimerDisplayTarget> {
    seq![
        TimerDisplayTarget::TimersA,
        TimerDisplayTarget::TimersB,
        TimerDisplayTarget::AbilityQueue,
        TimerDisplayTarget::NoOverlay,
    ]
}

impl TimerDisplayTarget {
    /// The default target: Timers A.
    pub fn default_target() -> (r: TimerDisplayTarget)
        ensures
            r == TimerDisplayTarget::TimersA,
    {
        TimerDisplayTarget::TimersA
    }

    pub fn label(&self) -> (r: &'static str)
        ensures
            r@ == timer_target_label(*self),
    {
        match self {
            Self::TimersA => "Timers A",
            Self::TimersB => "Timers B",
            Self::AbilityQueue => "Ability Queue",
            Self::NoOverlay => "None",
        }
    }

    pub fn all() -> (r: &'static [TimerDisplayTarget])
        ensures
            r@ == all_timer_display_targets(),
    {
        &[Self::TimersA, Self::TimersB, Self::AbilityQueue, Self::NoOverlay]
    }
}

/// Every timer display target occurs exactly once in the listing.
pub proof fn lemma_all_timer_display_targets_complete(t: TimerDisplayTarget)
    ensures
        all_timer_display_targets().contains(t),
        all_timer_display_targets().no_duplicates(),
{
    let s = all_timer_display_targets();
    match t {
        TimerDisplayTarget::TimersA => assert(s[0] == t),
        TimerDisplayTarget::TimersB => assert(s[1] == t),
        TimerDisplayTarget::AbilityQueue => assert(s[2] == t),
        TimerDisplayTarget::NoOverlay => assert(s[3] == t),
    }
}

/// Targets used when an incoming timer carries no display targets at all:
/// just Timers A.
pub fn default_timer_display_targets() -> (r: Vec<TimerDisplayTarget>)
    ensures
        r@ == seq![TimerDisplayTarget::TimersA],
{
    let mut v = Vec::new();
    v.push(TimerDisplayTarget::TimersA);
    v
}

/// Default timer bar color: opaque orange.
pub fn default_timer_color() -> (r: [u8; 4])
    ensures
        r@ == seq![255u8, 128u8, 0u8, 255u8],
{
    [255, 128, 0, 255]
}

/// Definitions (bosses, timers, phases, counters, challenges) are enabled
/// unless they say otherwise.
pub fn default_enabled() -> (r: bool)
    ensures
        r,
{
    true
}

// ─────────────────────────────────────────────────────────────────────────────
// Effect display targets
// ─────────────────────────────────────────────────────────────────────────────

/// Which overlay should display an effect.
#[derive(Debug, Clone, Copy, PartialEq, Eq, Structural)]
pub enum DisplayTarget {
    NoOverlay,
    RaidFrames,
    EffectsA,
    EffectsB,
    Cooldowns,
    DotTracker,
    BossHealth,
    EffectsOverlay,
}

/// Display label of an effect display target.
pub open spec fn display_target_label(t: DisplayTarget) -> Seq<char> {
    match t {
        DisplayTarget::NoOverlay => "None"@,
        DisplayTarget::RaidFrames => "Raid Frames"@,
        DisplayTarget::EffectsA => "Effects A"@,
        DisplayTarget::EffectsB => "Effects B"@,
        DisplayTarget::Cooldowns => "Cooldowns"@,
        DisplayTarget::DotTracker => "DOT Tracker"@,
        DisplayTarget::BossHealth => "Boss HP Bar"@,
        DisplayTarget::EffectsOverlay => "Effects Overlay"@,
    }
}

/// The effect display targets offered in the effect editor. The legacy
/// `EffectsOverlay` target is not offered.
pub open spec fn selectable_display_targets() -> Seq<DisplayTarget> {
    seq![
        DisplayTarget::NoOverlay,
        DisplayTarget::RaidFrames,
        DisplayTarget::EffectsA,
        DisplayTarget::EffectsB,
        DisplayTarget::Cooldowns,
        DisplayTarget::DotTracker,
        DisplayTarget::BossHealth,
    ]
}

impl DisplayTarget {
    /// The default effect display target: none.
    pub fn default_target() -> (r: DisplayTarget)
        ensures
            r == DisplayTarget::NoOverlay,
    {
        DisplayTarget::NoOverlay
    }

    pub fn label(&self) -> (r: &'static str)
        ensures
            r@ == display_target_label(*self),
    {
        match self {
            Self::NoOverlay => "None",
            Self::RaidFrames => "Raid Frames",
            Self::EffectsA => "Effects A",
            Self::EffectsB => "Effects B",
            Self::Cooldowns => "Cooldowns",
            Self::DotTracker => "DOT Tracker",
            Self::BossHealth => "Boss HP Bar",
            Self::EffectsOverlay => "Effects Overlay",
        }
    }

    pub fn all() -> (r: &'static [DisplayTarget])
        ensures
            r@ == selectable_display_targets(),
    {
        &[
            Self::NoOverlay,
            Self::RaidFrames,
            Self::EffectsA,
            Self::EffectsB,
            Self::Cooldowns,
            Self::DotTracker,
            Self::BossHealth,
        ]
    }
}

/// Every effect display target but the legacy `EffectsOverlay` is offered,
/// each exactly once.
pub proof fn lemma_selectable_display_targets(t: DisplayTarget)
    ensures
        selectable_display_targets().contains(t) <==> t != DisplayTarget::EffectsOverlay,
        selectable_display_targets().no_duplicates(),
{
    let s = selectable_display_targets();
    match t {
        DisplayTarget::NoOverlay => assert(s[0] == t),
        DisplayTarget::RaidFrames => assert(s[1] == t),
        DisplayTarget::EffectsA => assert(s[2] == t),
        DisplayTarget::EffectsB => assert(s[3] == t),
        DisplayTarget::Cooldowns => assert(s[4] == t),
        DisplayTarget::DotTracker => assert(s[5] == t),
        DisplayTarget::BossHealth => assert(s[6] == t),
        DisplayTarget::EffectsOverlay => {},
    }
}

// ─────────────────────────────────────────────────────────────────────────────
// Alert triggers
// ─────────────────────────────────────────────────────────────────────────────

/// When an alert fires for a timer or an effect.
#[derive(Debug, Clone, Copy, PartialEq, Eq, Structural)]
pub enum AlertTrigger {
    NoAlert,
    OnApply,
    OnExpire,
    Countdown,
}

/// Label of an alert trigger in the effect editor.
pub open spec fn effect_alert_label_of(t: AlertTrigger) -> Seq<char> {
    match t {
        AlertTrigger::NoAlert => "None"@,
        AlertTrigger::OnApply => "Effect Start"@,
        AlertTrigger::OnExpire => "Effect End"@,
        AlertTrigger::Countdown => "Countdown"@,
    }
}

/// Label of an alert trigger in the timer editor.
pub open spec fn timer_alert_label_of(t: AlertTrigger) -> Seq<char> {
    match t {
        AlertTrigger::NoAlert => "None"@,
        AlertTrigger::OnApply => "Timer Start"@,
        AlertTrigger::OnExpire => "Timer End"@,
        AlertTrigger::Countdown => "Countdown"@,
    }
}

/// Context-specific labels for alert triggers in effect UIs.
pub fn effect_alert_label(trigger: &AlertTrigger) -> (r: &'static str)
    ensures
        r@ == effect_alert_label_of(*trigger),
{
    match trigger {
        AlertTrigger::NoAlert => "None",
        AlertTrigger::OnApply => "Effect Start",
        AlertTrigger::OnExpire => "Effect End",
        AlertTrigger::Countdown => "Countdown",
    }
}

/// Context-specific labels for alert triggers in timer UIs.
pub fn timer_alert_label(trigger: &AlertTrigger) -> (r: &'static str)
    ensures
        r@ == timer_alert_label_of(*trigger),
{
    match trigger {
        AlertTrigger::NoAlert => "None",
        AlertTrigger::OnApply => "Timer Start",
        AlertTrigger::OnExpire => "Timer End",
        AlertTrigger::Countdown => "Countdown",
    }
}

// ─────────────────────────────────────────────────────────────────────────────
// Comparison operators
// ─────────────────────────────────────────────────────────────────────────────

/// Comparison operators for counter conditions.
#[derive(Debug, Clone, Copy, PartialEq, Eq, Structural)]
pub enum ComparisonOp {
    Eq,
    Lt,
    Gt,
    Lte,
    Gte,
    Ne,
}

/// Display symbol of an operator.
pub open spec fn comparison_label(op: ComparisonOp) -> Seq<char> {
    match op {
        ComparisonOp::Eq => "="@,
        ComparisonOp::Lt => "<"@,
        ComparisonOp::Gt => ">"@,
        ComparisonOp::Lte => "\u{2264}"@,
        ComparisonOp::Gte => "\u{2265}"@,
        ComparisonOp::Ne => "\u{2260}"@,
    }
}

/// Stable key of an operator, used in `<select>` values.
pub open spec fn comparison_key(op: ComparisonOp) -> Seq<char> {
    match op {
        ComparisonOp::Eq => "eq"@,
        ComparisonOp::Lt => "lt"@,
        ComparisonOp::Gt => "gt"@,
        ComparisonOp::Lte => "lte"@,
        ComparisonOp::Gte => "gte"@,
        ComparisonOp::Ne => "ne"@,
    }
}

/// The operator whose key is `s`, or `fallback` when `s` is no key.
pub open spec fn parse_comparison(s: Seq<char>, fallback: ComparisonOp) -> ComparisonOp {
    if s == "eq"@ {
        ComparisonOp::Eq
    } else if s == "lt"@ {
        ComparisonOp::Lt
    } else if s == "gt"@ {
        ComparisonOp::Gt
    } else if s == "lte"@ {
        ComparisonOp::Lte
    } else if s == "gte"@ {
        ComparisonOp::Gte
    } else if s == "ne"@ {
        ComparisonOp::Ne
    } else {
        fallback
    }
}

/// The operators in the order the UI lists them.
pub open spec fn all_comparison_ops() -> Seq<ComparisonOp> {
    seq![
        ComparisonOp::Eq,
        ComparisonOp::Lt,
        ComparisonOp::Gt,
        ComparisonOp::Lte,
        ComparisonOp::Gte,
        ComparisonOp::Ne,
    ]
}

impl ComparisonOp {
    /// The default operator: equality.
    pub fn default_op() -> (r: ComparisonOp)
        ensures
            r == ComparisonOp::Eq,
    {
        ComparisonOp::Eq
    }

    /// Display symbol for use in UI labels.
    pub fn label(&self) -> (r: &'static str)
        ensures
            r@ == comparison_label(*self),
    {
        match self {
            Self::Eq => "=",
            Self::Lt => "<",
            Self::Gt => ">",
            Self::Lte => "\u{2264}",
            Self::Gte => "\u{2265}",
            Self::Ne => "\u{2260}",
        }
    }

    /// Stable string key for `<select>` values and round-trips.
    pub fn as_str(&self) -> (r: &'static str)
        ensures
            r@ == comparison_key(*self),
    {
        match self {
            Self::Eq => "eq",
            Self::Lt => "lt",
            Self::Gt => "gt",
            Self::Lte => "lte",
            Self::Gte => "gte",
            Self::Ne => "ne",
        }
    }

    /// Parse from a key produced by `as_str`; any other string gives `fallback`.
    pub fn from_str_or(s: &str, fallback: Self) -> (r: Self)
        ensures
            r == parse_comparison(s@, fallback),
    {
        if str_eq(s, "eq") {
            Self::Eq
        } else if str_eq(s, "lt") {
            Self::Lt
        } else if str_eq(s, "gt") {
            Self::Gt
        } else if str_eq(s, "lte") {
            Self::Lte
        } else if str_eq(s, "gte") {
            Self::Gte
        } else if str_eq(s, "ne") {
            Self::Ne
        } else {
            fallback
        }
    }

    pub fn all() -> (r: &'static [ComparisonOp])
        ensures
            r@ == all_comparison_ops(),
    {
        &[Self::Eq, Self::Lt, Self::Gt, Self::Lte, Self::Gte, Self::Ne]
    }
}

/// Parsing an operator's own key gives the operator back, whatever the fallback.
pub proof fn lemma_comparison_key_round_trip(op: ComparisonOp, fallback: ComparisonOp)
    ensures
        parse_comparison(comparison_key(op), fallback) == op,
{
    reveal_strlit("eq");
    reveal_strlit("lt");
    reveal_strlit("gt");
    reveal_strlit("lte");
    reveal_strlit("gte");
    reveal_strlit("ne");
    let k = comparison_key(op);
    // Each key differs from every key tried before it, in its first
    // character or in its length.
    match op {
        ComparisonOp::Eq => {},
        ComparisonOp::Lt => {
            assert(k[0] != "eq"@[0]);
        },
        ComparisonOp::Gt => {
            assert(k[0] != "eq"@[0]);
            assert(k[0] != "lt"@[0]);
        },
        ComparisonOp::Lte => {
            assert(k.len() != "eq"@.len());
            assert(k.len() != "lt"@.len());
            assert(k.len() != "gt"@.len());
        },
        ComparisonOp::Gte => {
            assert(k.len() != "eq"@.len());
            assert(k.len() != "lt"@.len());
            assert(k.len() != "gt"@.len());
            assert(k[0] != "lte"@[0]);
        },
        ComparisonOp::Ne => {
            assert(k[0] != "eq"@[0]);
            assert(k[0] != "lt"@[0]);
            assert(k[0] != "gt"@[0]);
            assert(k.len() != "lte"@.len());
            assert(k.len() != "gte"@.len());
        },
    }
}

/// Every operator occurs exactly once in the listing.
pub proof fn lemma_all_comparison_ops_complete(op: ComparisonOp)
    ensures
        all_comparison_ops().contains(op),
        all_comparison_ops().no_duplicates(),
{
    let s = all_comparison_ops();
    match op {
        ComparisonOp::Eq => assert(s[0] == op),
        ComparisonOp::Lt => assert(s[1] == op),
        ComparisonOp::Gt => assert(s[2] == op),
        ComparisonOp::Lte => assert(s[3] == op),
        ComparisonOp::Gte => assert(s[4] == op),
        ComparisonOp::Ne => assert(s[5] == op),
    }
}

/// Default operator for timer-time-remaining conditions ("at least").
pub fn default_gte() -> (r: ComparisonOp)
    ensures
        r == ComparisonOp::Gte,
{
    ComparisonOp::Gte
}

/// Counter condition guarding a timer or a phase.
#[derive(Debug, Clone, PartialEq, Eq)]
pub struct CounterCondition {
    pub counter_id: String,
    pub operator: ComparisonOp,
    pub value: u32,
}

// ─────────────────────────────────────────────────────────────────────────────
// State conditions
// ─────────────────────────────────────────────────────────────────────────────

/// State-based condition for gating triggers, timers, phases and victory
/// triggers, composable through `AllOf`, `AnyOf` and `Not`.
///
/// The remaining-time threshold of `TimerTimeRemaining` is held by the bit
/// pattern of its single-precision value (`f32::to_bits`).
#[derive(Debug)]
pub enum Condition {
    PhaseActive { phase_ids: Vec<String> },
    CounterCompare { counter_id: String, operator: ComparisonOp, value: u32 },
    CounterCompareCounter { counter_id: String, operator: ComparisonOp, other_counter_id: String },
    TimerTimeRemaining { timer_id: String, operator: ComparisonOp, value_bits: u32 },
    AllOf { conditions: Vec<Condition> },
    AnyOf { conditions: Vec<Condition> },
    Not { condition: Box<Condition> },
}

/// Label of a condition's kind.
pub open spec fn condition_label(c: Condition) -> Seq<char> {
    match c {
        Condition::PhaseActive { .. } => "Phase Active"@,
        Condition::CounterCompare { .. } => "Counter Compare"@,
        Condition::CounterCompareCounter { .. } => "Counter vs Counter"@,
        Condition::TimerTimeRemaining { .. } => "Timer Time Remaining"@,
        Condition::AllOf { .. } => "All Of (AND)"@,
        Condition::AnyOf { .. } => "Any Of (OR)"@,
        Condition::Not { .. } => "Not"@,
    }
}

/// Snake-case type name of a condition's kind.
pub open spec fn condition_kind_name(c: Condition) -> Seq<char> {
    match c {
        Condition::PhaseActive { .. } => "phase_active"@,
        Condition::CounterCompare { .. } => "counter_compare"@,
        Condition::CounterCompareCounter { .. } => "counter_compare_counter"@,
        Condition::TimerTimeRemaining { .. } => "timer_time_remaining"@,
        Condition::AllOf { .. } => "all_of"@,
        Condition::AnyOf { .. } => "any_of"@,
        Condition::Not { .. } => "not"@,
    }
}

impl Condition {
    /// Human-readable label for this condition type.
    pub fn label(&self) -> (r: &'static str)
        ensures
            r@ == condition_label(*self),
    {
        match self {
            Self::PhaseActive { .. } => "Phase Active",
            Self::CounterCompare { .. } => "Counter Compare",
            Self::CounterCompareCounter { .. } => "Counter vs Counter",
            Self::TimerTimeRemaining { .. } => "Timer Time Remaining",
            Self::AllOf { .. } => "All Of (AND)",
            Self::AnyOf { .. } => "Any Of (OR)",
            Self::Not { .. } => "Not",
        }
    }

    /// Snake-case type name for this condition.
    pub fn kind_name(&self) -> (r: &'static str)
        ensures
            r@ == condition_kind_name(*self),
    {
        match self {
            Self::PhaseActive { .. } => "phase_active",
            Self::CounterCompare { .. } => "counter_compare",
            Self::CounterCompareCounter { .. } => "counter_compare_counter",
            Self::TimerTimeRemaining { .. } => "timer_time_remaining",
            Self::AllOf { .. } => "all_of",
            Self::AnyOf { .. } => "any_of",
            Self::Not { .. } => "not",
        }
    }
}

// ─────────────────────────────────────────────────────────────────────────────
// Challenges
// ─────────────────────────────────────────────────────────────────────────────

/// Challenge metric types.
#[derive(Debug, Clone, Copy, PartialEq, Eq, Structural)]
pub enum ChallengeMetric {
    Damage,
    Healing,
    EffectiveHealing,
    DamageTaken,
    HealingTaken,
    AbilityCount,
    EffectCount,
    EffectStacks,
    DamageAbsorbed,
    InterruptCount,
}

/// Display label of a challenge metric.
pub open spec fn challenge_metric_label(m: ChallengeMetric) -> Seq<char> {
    match m {
        ChallengeMetric::Damage => "Damage"@,
        ChallengeMetric::Healing => "Healing"@,
        ChallengeMetric::EffectiveHealing => "Effective Healing"@,
        ChallengeMetric::DamageTaken => "Damage Taken"@,
        ChallengeMetric::HealingTaken => "Healing Taken"@,
        ChallengeMetric::AbilityCount => "Ability Count"@,
        ChallengeMetric::EffectCount => "Effect Count"@,
        ChallengeMetric::EffectStacks => "Effect Stacks"@,
        ChallengeMetric::DamageAbsorbed => "Damage Absorbed"@,
        ChallengeMetric::InterruptCount => "Interrupt Count"@,
    }
}

/// The challenge metrics in the order the UI lists them.
pub open spec fn all_challenge_metrics() -> Seq<ChallengeMetric> {
    seq![
        ChallengeMetric::Damage,
        ChallengeMetric::Healing,
        ChallengeMetric::EffectiveHealing,
        ChallengeMetric::DamageTaken,
        ChallengeMetric::HealingTaken,
        ChallengeMetric::AbilityCount,
        ChallengeMetric::EffectCount,
        ChallengeMetric::EffectStacks,
        ChallengeMetric::DamageAbsorbed,
        ChallengeMetric::InterruptCount,
    ]
}

impl ChallengeMetric {
    pub fn label(&self) -> (r: &'static str)
        ensures
            r@ == challenge_metric_label(*self),
    {
        match self {
            Self::Damage => "Damage",
            Self::Healing => "Healing",
            Self::EffectiveHealing => "Effective Healing",
            Self::DamageTaken => "Damage Taken",
            Self::HealingTaken => "Healing Taken",
            Self::AbilityCount => "Ability Count",
            Self::EffectCount => "Effect Count",
            Self::EffectStacks => "Effect Stacks",
            Self::DamageAbsorbed => "Damage Absorbed",
            Self::InterruptCount => "Interrupt Count",
        }
    }

    pub fn all() -> (r: &'static [ChallengeMetric])
        ensures
            r@ == all_challenge_metrics(),
    {
        &[
            Self::Damage,
            Self::Healing,
            Self::EffectiveHealing,
            Self::DamageTaken,
            Self::HealingTaken,
            Self::AbilityCount,
            Self::EffectCount,
            Self::EffectStacks,
            Self::DamageAbsorbed,
            Self::InterruptCount,
        ]
    }
}

/// Every challenge metric occurs exactly once in the listing.
pub proof fn lemma_all_challenge_metrics_complete(m: ChallengeMetric)
    ensures
        all_challenge_metrics().contains(m),
        all_challenge_metrics().no_duplicates(),
{
    let s = all_challenge_metrics();
    match m {
        ChallengeMetric::Damage => assert(s[0] == m),
        ChallengeMetric::Healing => assert(s[1] == m),
        ChallengeMetric::EffectiveHealing => assert(s[2] == m),
        ChallengeMetric::DamageTaken => assert(s[3] == m),
        ChallengeMetric::HealingTaken => assert(s[4] == m),
        ChallengeMetric::AbilityCount => assert(s[5] == m),
        ChallengeMetric::EffectCount => assert(s[6] == m),
        ChallengeMetric::EffectStacks => assert(s[7] == m),
        ChallengeMetric::DamageAbsorbed => assert(s[8] == m),
        ChallengeMetric::InterruptCount => assert(s[9] == m),
    }
}

/// Challenge condition kinds. `F` is the entity filter that `Source` and
/// `Target` match against; the HP bounds of `BossHpRange` are held by the
/// bit patterns of their single-precision values.
#[derive(Debug, Clone, PartialEq, Eq)]
pub enum ChallengeCondition<F> {
    Phase { phase_ids: Vec<String> },
    Source { matcher: F },
    Target { matcher: F },
    Ability { ability_ids: Vec<u64> },
    Effect { effect_ids: Vec<u64> },
    Counter { counter_id: String, operator: ComparisonOp, value: u32 },
    BossHpRange { min_hp_bits: Option<u32>, max_hp_bits: Option<u32>, npc_id: Option<i64> },
}

/// Label of a challenge condition's kind.
pub open spec fn challenge_condition_label<F>(c: ChallengeCondition<F>) -> Seq<char> {
    match c {
        ChallengeCondition::Phase { .. } => "Phase"@,
        ChallengeCondition::Source { .. } => "Source"@,
        ChallengeCondition::Target { .. } => "Target"@,
        ChallengeCondition::Ability { .. } => "Ability"@,
        ChallengeCondition::Effect { .. } => "Effect"@,
        ChallengeCondition::Counter { .. } => "Counter"@,
        ChallengeCondition::BossHpRange { .. } => "Boss HP Range"@,
    }
}

impl<F> ChallengeCondition<F> {
    pub fn label(&self) -> (r: &'static str)
        ensures
            r@ == challenge_condition_label(*self),
    {
        match self {
            Self::Phase { .. } => "Phase",
            Self::Source { .. } => "Source",
            Self::Target { .. } => "Target",
            Self::Ability { .. } => "Ability",
            Self::Effect { .. } => "Effect",
            Self::Counter { .. } => "Counter",
            Self::BossHpRange { .. } => "Boss HP Range",
        }
    }
}

/// Area type of a newly created area when the request names none.
pub fn default_area_type() -> (r: String)
    ensures
        r@ == "operation"@,
{
    String::from_str("operation")
}

} // verus!
