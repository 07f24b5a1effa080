use klayer::notify::{
    denial_spike, merge_batch, AgingTracker, Batcher, DenialTracker, FallbackTracker, NotifyConfig,
    NotifyState, RelayEvent, DEFAULT_DENIAL_SPIKE_THRESHOLD, DEFAULT_PROPOSED_AGE_THRESHOLD_SECS,
    DENIAL_COOLDOWN_SECS,
};

#[test]
fn config_from_env_is_none_when_url_unset() {
    assert!(NotifyConfig::from_values(None, None, None).is_none());
    assert!(NotifyConfig::from_values(Some("  ".to_string()), None, None).is_none());
}

#[test]
fn config_from_env_uses_defaults_when_unset() {
    let cfg = NotifyConfig::from_values(Some("https://example.com/hook".to_string()), None, None)
        .unwrap();
    assert_eq!(cfg.webhook_url, "https://example.com/hook");
    assert_eq!(cfg.proposed_age_threshold_secs, DEFAULT_PROPOSED_AGE_THRESHOLD_SECS);
    assert_eq!(cfg.denial_spike_threshold, DEFAULT_DENIAL_SPIKE_THRESHOLD);
}

#[test]
fn config_from_env_parses_overrides() {
    let cfg = NotifyConfig::from_values(
        Some("https://example.com/hook".to_string()),
        Some("3600".to_string()),
        Some("10".to_string()),
    )
    .unwrap();
    assert_eq!(cfg.proposed_age_threshold_secs, 3600);
    assert_eq!(cfg.denial_spike_threshold, 10);
}

#[test]
fn disabled_notify_state_record_denial_never_fires_or_panics() {
    let mut state = NotifyState::disabled();
    for i in 0..50 {
        assert!(state.record_denial("some-domain", i).is_none());
    }
}

#[test]
fn an_enabled_state_tells_of_a_spike() {
    let cfg = NotifyConfig::from_values(Some("https://x".into()), None, Some("2".into())).unwrap();
    let mut state = NotifyState::from_config(&cfg);
    assert!(state.record_denial("d", 10).is_none());
    let e = state.record_denial("d", 11).unwrap();
    assert_eq!(e.trigger, "domain_denial_spike");
    assert_eq!(e.detail, denial_spike("d", 11).detail);
    assert_eq!((e.count, e.ts), (1, 11));
}

#[test]
fn aging_tracker_fires_once_past_threshold() {
    let mut tracker = AgingTracker::default();
    let created_at = 1_000;
    let threshold = 100;
    assert!(!tracker.should_notify(1, created_at, created_at + 50, threshold));
    assert!(tracker.should_notify(1, created_at, created_at + 150, threshold));
    assert!(!tracker.should_notify(1, created_at, created_at + 200, threshold));
}

#[test]
fn aging_tracker_tracks_ids_independently() {
    let mut tracker = AgingTracker::default();
    assert!(tracker.should_notify(1, 0, 1000, 100));
    assert!(tracker.should_notify(2, 0, 1000, 100));
}

#[test]
fn fallback_tracker_first_observation_never_fires() {
    let mut tracker = FallbackTracker::default();
    assert_eq!(tracker.delta("kl-code", 5), None);
}

#[test]
fn fallback_tracker_detects_increase() {
    let mut tracker = FallbackTracker::default();
    tracker.delta("kl-code", 5);
    assert_eq!(tracker.delta("kl-code", 8), Some(3));
    assert_eq!(tracker.delta("kl-code", 8), None);
}

#[test]
fn fallback_tracker_is_per_store() {
    let mut tracker = FallbackTracker::default();
    tracker.delta("kl-code", 5);
    tracker.delta("kl-train", 1);
    assert_eq!(tracker.delta("kl-code", 9), Some(4));
    assert_eq!(tracker.delta("kl-train", 3), Some(2));
}

#[test]
fn denial_tracker_fires_once_threshold_crossed() {
    let mut tracker = DenialTracker::new(3);
    assert!(!tracker.record("d", 0));
    assert!(!tracker.record("d", 1));
    assert!(tracker.record("d", 2));
    assert!(!tracker.record("d", 3), "cooldown should suppress repeat fire");
}

#[test]
fn denial_tracker_expires_old_events_outside_window() {
    let mut tracker = DenialTracker::new(3);
    tracker.record("d", 0);
    tracker.record("d", 1);
    assert!(
        !tracker.record("d", 1000),
        "old denials should have expired out of the window"
    );
}

#[test]
fn denial_tracker_refires_after_cooldown() {
    let mut tracker = DenialTracker::new(2);
    assert!(!tracker.record("d", 0));
    assert!(tracker.record("d", 1));
    let later = 1 + DENIAL_COOLDOWN_SECS;
    assert!(
        !tracker.record("d", later),
        "needs a fresh window to re-cross the threshold"
    );
    assert!(tracker.record("d", later + 1));
}

#[test]
fn denial_tracker_is_per_domain() {
    let mut tracker = DenialTracker::new(2);
    assert!(!tracker.record("a", 0));
    assert!(!tracker.record("b", 0));
}

fn conflict(n: u32, ts: i64) -> RelayEvent {
    RelayEvent {
        trigger: "knowledge_conflict".into(),
        summary: format!("conflict #{n}"),
        detail: "".into(),
        count: 1,
        ts,
    }
}

#[test]
fn merge_batch_sums_counts_and_takes_latest_ts() {
    let events = vec![conflict(1, 100), conflict(2, 200)];
    let merged = merge_batch("knowledge_conflict", &events);
    assert_eq!(merged.count, 2);
    assert_eq!(merged.ts, 200);
    assert!(merged.detail.contains("conflict #1"));
    assert!(merged.detail.contains("conflict #2"));
}

#[test]
fn a_batch_holds_one_event_for_each_trigger() {
    let mut b = Batcher::new();
    b.gather(conflict(1, 5));
    b.gather(conflict(2, 6));
    b.gather(RelayEvent { trigger: "sync_fallback".into(), ..conflict(3, 7) });
    assert!(b.is_countable());
    let out = b.flush();
    assert_eq!(out.len(), 2);
    let conflicts = out.iter().find(|e| e.trigger == "knowledge_conflict").unwrap();
    assert_eq!((conflicts.count, conflicts.ts), (2, 6));
    assert!(b.flush().is_empty());
}

#[test]
fn each_trigger_is_told_once_with_all_its_events() {
    let event =
        |trigger: &str, ts: i64| RelayEvent { trigger: trigger.into(), ..conflict(1, ts) };
    let mut b = Batcher::new();
    for (trigger, n) in [("a", 1), ("b", 2), ("a", 3), ("c", 4), ("b", 5), ("a", 6)] {
        b.gather(event(trigger, n));
    }
    assert!(b.is_countable());
    let told: Vec<(String, u32, i64)> =
        b.flush().into_iter().map(|m| (m.trigger, m.count, m.ts)).collect();
    let want: Vec<(String, u32, i64)> =
        vec![("a".into(), 3, 6), ("b".into(), 2, 5), ("c".into(), 1, 4)];
    assert_eq!(told, want);
    b.gather(event("b", 7));
    let again = b.flush();
    assert_eq!(again.len(), 1);
    assert_eq!((again[0].trigger.as_str(), again[0].count), ("b", 1));
}

#[test]
fn a_batch_that_cannot_be_counted_is_known() {
    let many = |n: u32| RelayEvent { count: n, ..conflict(1, 1) };
    let mut b = Batcher::new();
    b.gather(many(u32::MAX));
    assert!(b.is_countable());
    b.gather(many(1));
    assert!(!b.is_countable());
}
