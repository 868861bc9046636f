use baras_frontend::display_targets::{display_targets_from_list, display_targets_from_single};
use baras_frontend::types::{
    default_area_type, default_enabled, default_gte, default_timer_color,
    default_timer_display_targets, effect_alert_label, timer_alert_label, AlertTrigger,
    ChallengeCondition, ChallengeMetric, ComparisonOp, Condition, DisplayTarget, MetricType,
    TimerDisplayTarget,
};

#[test]
fn metric_labels_icons_and_keys() {
    assert_eq!(MetricType::Dps.label(), "Damage");
    assert_eq!(MetricType::EDps.label(), "Effective Damage");
    assert_eq!(MetricType::Htps.label(), "Healing Taken");
    assert_eq!(MetricType::Apm.label(), "APM");
    assert_eq!(MetricType::Tps.icon_class(), "fa-solid fa-triangle-exclamation");
    assert_eq!(MetricType::EHps.icon_class(), "fa-solid fa-hand-holding-heart");
    assert_eq!(MetricType::Htps.config_key(), "abs");
    assert_eq!(MetricType::BossDps.config_key(), "bossdps");
}

#[test]
fn metric_all_lists_each_type_once_in_order() {
    let all = MetricType::all();
    assert_eq!(all.len(), 9);
    assert_eq!(all[0], MetricType::Dps);
    assert_eq!(all[5], MetricType::Htps);
    assert_eq!(all[8], MetricType::Apm);
    let mut keys: Vec<&str> = all.iter().map(|m| m.config_key()).collect();
    keys.sort();
    keys.dedup();
    assert_eq!(keys.len(), 9);
}

#[test]
fn comparison_keys_round_trip() {
    for op in ComparisonOp::all() {
        assert_eq!(ComparisonOp::from_str_or(op.as_str(), ComparisonOp::Ne), *op);
        assert_eq!(ComparisonOp::from_str_or(op.as_str(), ComparisonOp::Eq), *op);
    }
    assert_eq!(ComparisonOp::all().len(), 6);
}

#[test]
fn comparison_unknown_key_gives_fallback() {
    assert_eq!(ComparisonOp::from_str_or("bogus", ComparisonOp::Lt), ComparisonOp::Lt);
    assert_eq!(ComparisonOp::from_str_or("", ComparisonOp::Gte), ComparisonOp::Gte);
    assert_eq!(ComparisonOp::from_str_or("EQ", ComparisonOp::Ne), ComparisonOp::Ne);
    assert_eq!(ComparisonOp::from_str_or("lte", ComparisonOp::Eq), ComparisonOp::Lte);
}

#[test]
fn comparison_labels() {
    assert_eq!(ComparisonOp::Eq.label(), "=");
    assert_eq!(ComparisonOp::Lte.label(), "\u{2264}");
    assert_eq!(ComparisonOp::Gte.label(), "\u{2265}");
    assert_eq!(ComparisonOp::Ne.label(), "\u{2260}");
    assert_eq!(ComparisonOp::default_op(), ComparisonOp::Eq);
    assert_eq!(default_gte(), ComparisonOp::Gte);
}

#[test]
fn timer_display_targets() {
    assert_eq!(TimerDisplayTarget::AbilityQueue.label(), "Ability Queue");
    assert_eq!(TimerDisplayTarget::NoOverlay.label(), "None");
    assert_eq!(TimerDisplayTarget::all().len(), 4);
    assert_eq!(TimerDisplayTarget::default_target(), TimerDisplayTarget::TimersA);
    assert_eq!(default_timer_display_targets(), vec![TimerDisplayTarget::TimersA]);
}

#[test]
fn effect_display_targets_omit_legacy_overlay() {
    let all = DisplayTarget::all();
    assert_eq!(all.len(), 7);
    assert!(!all.contains(&DisplayTarget::EffectsOverlay));
    assert_eq!(DisplayTarget::BossHealth.label(), "Boss HP Bar");
    assert_eq!(DisplayTarget::EffectsOverlay.label(), "Effects Overlay");
    assert_eq!(DisplayTarget::default_target(), DisplayTarget::NoOverlay);
}

#[test]
fn alert_labels_by_context() {
    assert_eq!(effect_alert_label(&AlertTrigger::OnApply), "Effect Start");
    assert_eq!(timer_alert_label(&AlertTrigger::OnApply), "Timer Start");
    assert_eq!(effect_alert_label(&AlertTrigger::OnExpire), "Effect End");
    assert_eq!(timer_alert_label(&AlertTrigger::Countdown), "Countdown");
    assert_eq!(timer_alert_label(&AlertTrigger::NoAlert), "None");
}

#[test]
fn condition_labels_and_kind_names() {
    let c = Condition::Not {
        condition: Box::new(Condition::PhaseActive { phase_ids: vec!["p1".to_string()] }),
    };
    assert_eq!(c.label(), "Not");
    assert_eq!(c.kind_name(), "not");
    let t = Condition::TimerTimeRemaining {
        timer_id: "t".to_string(),
        operator: ComparisonOp::Gte,
        value_bits: 2.5f32.to_bits(),
    };
    assert_eq!(t.label(), "Timer Time Remaining");
    assert_eq!(t.kind_name(), "timer_time_remaining");
    let a = Condition::AllOf { conditions: vec![] };
    assert_eq!(a.label(), "All Of (AND)");
    let cc = Condition::CounterCompareCounter {
        counter_id: "a".to_string(),
        operator: ComparisonOp::Lt,
        other_counter_id: "b".to_string(),
    };
    assert_eq!(cc.kind_name(), "counter_compare_counter");
}

#[test]
fn challenge_labels() {
    assert_eq!(ChallengeMetric::all().len(), 10);
    assert_eq!(ChallengeMetric::InterruptCount.label(), "Interrupt Count");
    let c: ChallengeCondition<u32> = ChallengeCondition::BossHpRange {
        min_hp_bits: Some(10.0f32.to_bits()),
        max_hp_bits: None,
        npc_id: None,
    };
    assert_eq!(c.label(), "Boss HP Range");
    let s: ChallengeCondition<u32> = ChallengeCondition::Source { matcher: 3 };
    assert_eq!(s.label(), "Source");
}

#[test]
fn defaults() {
    assert!(default_enabled());
    assert_eq!(default_timer_color(), [255, 128, 0, 255]);
    assert_eq!(default_area_type(), "operation");
}

#[test]
fn single_display_target_none_means_no_overlay() {
    assert_eq!(display_targets_from_single(TimerDisplayTarget::NoOverlay), vec![]);
    assert_eq!(
        display_targets_from_single(TimerDisplayTarget::TimersB),
        vec![TimerDisplayTarget::TimersB]
    );
}

#[test]
fn display_target_list_drops_none_and_repeats() {
    let items = vec![
        TimerDisplayTarget::TimersA,
        TimerDisplayTarget::NoOverlay,
        TimerDisplayTarget::AbilityQueue,
        TimerDisplayTarget::TimersA,
        TimerDisplayTarget::AbilityQueue,
    ];
    let out = display_targets_from_list(&items);
    assert_eq!(out, vec![TimerDisplayTarget::TimersA, TimerDisplayTarget::AbilityQueue]);
    assert_eq!(display_targets_from_list(&out), out);
    assert_eq!(display_targets_from_list(&vec![]), vec![]);
    assert_eq!(display_targets_from_list(&vec![TimerDisplayTarget::NoOverlay]), vec![]);
}
