use klayer::dashboard::{
    author_state, model_registry_grouped, routing_rules_grouped, set_author_name,
    storage_health_entry, tally, totals, usage_by_day, usage_rollup,
};
use klayer::health::SyncHealthSnapshot;
use klayer::marketplace::{
    append_marketplace_template, apply_marketplace_template, approved_template, file_publication,
    import_template, marketplace_template, may_import, publication, read_review, PublishRefusal,
    Review,
};
use klayer::status::{
    build_status_report, collect_health_lines, format_episode_line, format_health_line,
    line_of_step, next_scroll, summarize_trust, trust_panel, watch_fallback, watch_proposals, Key,
    TrustSummary,
};
use klayer::notify::{AgingTracker, FallbackTracker};
use klayer::store::profile::AuthorSetOutcome;
use klayer::store::Store;
use klayer::types::{
    Kind, KnowledgeRow, MarketplaceItem, MarketplaceTemplate, ModelRegistryRow, RoutingRuleRow,
};

const NOW: i64 = 1_700_000_000;

fn fixture() -> Store {
    Store::new()
}

// ---- usage ----------------------------------------------------------------

#[test]
fn episodes_table_round_trips_model_tokens_cost() {
    let mut store = fixture();
    store
        .log_episode_auto(
            "run-tokens",
            Some("recall"),
            Some("recall domain=x query=y"),
            Some("returned 2 hits"),
            Some("success"),
            Some("x"),
            Some("sonnet-5"),
            Some(1234),
            Some(0.05f64.to_bits()),
            NOW,
        )
        .unwrap();
    let episodes = store.list_episodes(Some("run-tokens"));
    assert_eq!(episodes.len(), 1);
    assert_eq!(episodes[0].model.as_deref(), Some("sonnet-5"));
    assert_eq!(episodes[0].tokens_used, Some(1234));
    assert_eq!(episodes[0].cost.map(f64::from_bits), Some(0.05));
}

#[test]
fn episode_defaults_to_no_usage_metadata() {
    let mut store = fixture();
    store
        .log_episode_auto(
            "run-no-tokens",
            Some("promote"),
            Some("promote id=1"),
            Some("promoted"),
            Some("success"),
            None,
            None,
            None,
            None,
            NOW,
        )
        .unwrap();
    let episodes = store.list_episodes(Some("run-no-tokens"));
    assert_eq!(episodes[0].model, None);
    assert_eq!(episodes[0].tokens_used, None);
    assert_eq!(episodes[0].cost, None);
}

fn used(store: &mut Store, action: &str, observation: &str, usage: Option<(i64, f64)>) {
    store
        .log_episode_auto(
            "run-usage",
            Some(action),
            Some(action),
            Some(observation),
            Some("success"),
            Some("x"),
            Some("model-a"),
            usage.map(|u| u.0),
            usage.map(|u| u.1.to_bits()),
            NOW,
        )
        .unwrap();
}

#[test]
fn usage_rollup_sums_tokens_and_cost_including_estimated_fallbacks() {
    let mut store = fixture();
    used(&mut store, "recall", "returned 1 hits", Some((100, 0.01)));
    used(&mut store, "remember", "remembered fact #1", Some((50, 0.02)));
    used(&mut store, "promote id=1", "promoted", None);

    let episodes = store.list_episodes(Some("run-usage"));
    assert_eq!(episodes.len(), 3);
    let rollup = usage_rollup(&episodes);
    assert_eq!(rollup.sample_size, 3);
    assert!(rollup.total_tokens >= 155);
    let total_cost: f64 = episodes
        .iter()
        .zip(&rollup.tokens)
        .map(|(e, t)| e.cost.map(f64::from_bits).unwrap_or(*t as f64 * 0.000002))
        .sum();
    assert!(total_cost > 0.03);
    let count = |a: &str| rollup.by_action.iter().find(|x| x.0 == a).map(|x| x.1);
    assert_eq!(count("recall"), Some(1));
    assert_eq!(count("remember"), Some(1));
    assert_eq!(count("promote id=1"), Some(1));

    assert_eq!(rollup.daily.len(), 1, "all three episodes logged the same day");
    let day_entry = &rollup.daily[0];
    assert_eq!(day_entry.day, "2023-11-14");
    assert!(day_entry.tokens_used >= 155);
    assert_eq!(day_entry.steps.len(), 3);
    assert_eq!(rollup.total_tokens, 155);
}

#[test]
fn usage_is_told_by_day_in_order() {
    let mut store = fixture();
    used(&mut store, "a", "", Some((1, 0.0)));
    used(&mut store, "b", "", Some((2, 0.0)));
    used(&mut store, "a", "", Some((4, 0.0)));
    let rows = store.episodes;
    let days = vec!["2".to_string(), "1".to_string(), "2".to_string()];
    let r = usage_by_day(&rows, &days);
    assert_eq!(r.by_action, vec![("a".to_string(), 2), ("b".to_string(), 1)]);
    assert_eq!(r.by_outcome, vec![("success".to_string(), 3)]);
    let told: Vec<(&str, i128, Vec<usize>)> =
        r.daily.iter().map(|d| (d.day.as_str(), d.tokens_used, d.steps.clone())).collect();
    assert_eq!(told, vec![("1", 2, vec![1]), ("2", 5, vec![0, 2])]);
    assert_eq!(r.total_tokens, r.daily.iter().map(|d| d.tokens_used).sum::<i128>());
    assert_eq!(tally(&Vec::new()).len(), 0);
}

#[test]
fn an_unreadable_time_is_an_unknown_day() {
    let mut store = fixture();
    used(&mut store, "a", "", None);
    store.episodes[0].ts = i64::MAX;
    let r = usage_rollup(&store.episodes);
    assert_eq!(r.daily[0].day, "unknown");
}

// ---- health ---------------------------------------------------------------

#[test]
fn storage_health_entry_kl_store_has_no_sync_field() {
    let v = storage_health_entry("sqlite", true, None);
    assert_eq!(v.engine, "sqlite");
    assert_eq!(v.healthy, true);
    assert!(v.sync.is_none());
}

#[test]
fn storage_health_entry_libsql_surfaces_sync_snapshot() {
    let snap = SyncHealthSnapshot {
        remote_configured: true,
        last_success_at: Some(1_700_000_000),
        consecutive_failures: 2,
        fallback_events: 5,
    };
    let v = storage_health_entry("libsql", false, Some(&snap));
    assert_eq!(v.engine, "libsql");
    assert_eq!(v.healthy, false);
    let sync = v.sync.unwrap();
    assert_eq!(sync.remote_configured, true);
    assert_eq!(sync.last_success_at, Some(1_700_000_000i64));
    assert_eq!(sync.consecutive_failures, 2);
    assert_eq!(sync.fallback_events, 5);
}

// ---- models and rules -----------------------------------------------------

fn model(harness: &str, id: &str, tier: &str, cost: i64, sub: Option<&str>) -> ModelRegistryRow {
    ModelRegistryRow {
        harness: harness.into(),
        model_id: id.into(),
        capability_tier: tier.into(),
        cost_weight: cost,
        sub_agent_name: sub.map(|s| s.to_string()),
    }
}

#[test]
fn model_registry_grouped_groups_by_harness_then_tier() {
    let rows = vec![
        model("code-agent", "opus", "heavy-reasoning", 10, None),
        model("code-agent", "haiku", "fast-cheap", 1, None),
        model("cursor", "gpt", "balanced", 5, Some("frontend-agent")),
    ];
    let store = fixture();
    let harnesses = model_registry_grouped(&rows, &store, &Some("code-agent".to_string()));
    assert_eq!(harnesses.len(), 2);
    let agent = harnesses.iter().find(|h| h.harness == "code-agent").unwrap();
    let tier = |name: &str| agent.tiers.iter().find(|t| t.tier == name).unwrap();
    assert!(tier("heavy-reasoning").models.len() == 1);
    assert!(tier("fast-cheap").models.len() == 1);
    assert_eq!(agent.connected_now, true);
    assert!(agent.last_edit_ts.is_none());
    assert!(agent.last_recommendation_ts.is_none());
    let cursor = harnesses.iter().find(|h| h.harness == "cursor").unwrap();
    assert_eq!(cursor.tiers[0].tier, "balanced");
    assert_eq!(
        cursor.tiers[0].models[0].sub_agent_name.as_deref(),
        Some("frontend-agent")
    );
    assert_eq!(cursor.connected_now, false);
}

#[test]
fn model_registry_grouped_surfaces_last_edit_ts_from_episodes() {
    let mut store = fixture();
    store
        .log_episode_auto(
            "run-1",
            Some("model_registry"),
            Some("configure_model_registry action=add harness=code-agent model=opus"),
            Some("model registry updated"),
            Some("success"),
            None,
            None,
            None,
            None,
            NOW,
        )
        .unwrap();
    let rows = vec![model("code-agent", "opus", "heavy-reasoning", 10, None)];
    let harnesses = model_registry_grouped(&rows, &store, &None);
    let agent = &harnesses[0];
    assert!(agent.last_edit_ts.is_some());
    assert!(agent.last_recommendation_ts.is_none());
    assert_eq!(agent.connected_now, false);
}

#[test]
fn routing_rules_grouped_groups_by_harness_as_a_matrix() {
    let rule = |d: &str, t: &str, c: &str, m: &str| RoutingRuleRow {
        harness: "code-agent".into(),
        domain_type: d.into(),
        task_type: t.into(),
        complexity_tier: c.into(),
        model_id: m.into(),
    };
    let rows = vec![
        rule("frontend", "feature", "high", "opus"),
        rule("backend", "crud", "low", "haiku"),
    ];
    let harnesses = routing_rules_grouped(&rows);
    assert_eq!(harnesses.len(), 1);
    let rules = &harnesses[0].rules;
    assert_eq!(rules.len(), 2);
    assert_eq!(rules[0].model_id, "opus");
}

// ---- counts and the author ------------------------------------------------

#[test]
fn the_store_is_counted() {
    let mut store = fixture();
    let s = store.add_source("web", None, None, "d", NOW).unwrap();
    store.add_chunks(s, "d", &vec!["x".to_string()], NOW).unwrap();
    store.propose(Kind::Rule, "d", None, "t", "b", None, None, None, None, NOW).unwrap();
    store.set_preference("global", "p", NOW).unwrap();
    let t = totals(&store);
    assert_eq!((t.domains, t.documents, t.rules, t.proposed), (1, 1, 0, 1));
    assert_eq!((t.sources, t.episodes, t.preferences), (1, 0, 1));
}

#[test]
fn author_names_are_checked() {
    let mut store = fixture();
    assert!(author_state(&store, NOW).is_none());
    assert_eq!(set_author_name(&mut store, "  ", NOW).unwrap_err(), "name cannot be empty");
    let long = "é".repeat(61);
    assert_eq!(
        set_author_name(&mut store, &long, NOW).unwrap_err(),
        "name too long (max 60 characters)"
    );
    let (name, outcome) = set_author_name(&mut store, &format!(" {} ", "é".repeat(60)), NOW).unwrap();
    assert_eq!(name, "é".repeat(60));
    assert_eq!(outcome, AuthorSetOutcome::Registered);
    let state = author_state(&store, NOW).unwrap();
    assert!(!state.can_change);
    assert_eq!(state.next_change_at, NOW + 14 * 86_400);
    assert!(author_state(&store, NOW + 14 * 86_400).unwrap().can_change);
}

// ---- the marketplace ------------------------------------------------------

fn item(title: &str) -> MarketplaceItem {
    MarketplaceItem {
        kind: Kind::Rule,
        stage: None,
        title: title.into(),
        body: format!("{title} always"),
        trigger: None,
        severity: Some("warn".into()),
        remediation: None,
    }
}

fn template(slug: &str, titles: &[&str]) -> MarketplaceTemplate {
    MarketplaceTemplate {
        slug: slug.into(),
        description: "about".into(),
        query_hint: "hint".into(),
        author: Some("ann".into()),
        items: titles.iter().map(|t| item(t)).collect(),
    }
}

#[test]
fn applying_a_template_and_publishing_it_gives_its_items() {
    let mut store = fixture();
    let t = template("seals", &["check seals", "log seals"]);
    let o = apply_marketplace_template(&mut store, &t, NOW).unwrap();
    assert_eq!((o.inserted, o.skipped, o.source_created), (2, 0, true));
    let items = store.export_domain_items("seals");
    let titles: Vec<&str> = items.iter().map(|i| i.title.as_str()).collect();
    assert_eq!(titles, vec!["check seals", "log seals"]);
    assert_eq!(store.chunks[0].text, "check seals: check seals always");
    assert!(store.list_domains()[0].is_marketplace_template);
    let shown = |s: &Store| format!("{:?} {:?} {:?}", s.knowledge, s.sources, s.chunks);
    let before = shown(&store);
    let again = apply_marketplace_template(&mut store, &t, NOW + 1).unwrap();
    assert_eq!(shown(&store), before);
    assert!(store.list_domains()[0].is_marketplace_template);
    assert_eq!((again.inserted, again.skipped, again.source_created), (0, 2, false));
    assert!(matches!(publication(&store, "seals"), Err(PublishRefusal::FromMarketplace)));
}

#[test]
fn templates_are_replaced_by_name() {
    let mut all = vec![template("a", &["x"]), template("b", &["y"])];
    append_marketplace_template(&mut all, template("a", &["z", "w"]));
    append_marketplace_template(&mut all, template("c", &[]));
    let slugs: Vec<&str> = all.iter().map(|t| t.slug.as_str()).collect();
    assert_eq!(slugs, vec!["a", "b", "c"]);
    assert_eq!(marketplace_template(&all, "a").unwrap().items.len(), 2);
    assert!(marketplace_template(&all, "d").is_none());
}

#[test]
fn publishing_needs_knowledge_and_an_author() {
    let mut store = fixture();
    let refusal = |s: &Store| publication(s, "d").err().unwrap();
    assert_eq!(refusal(&store), PublishRefusal::NoItems);
    assert_eq!(
        refusal(&store).reason(),
        "domain has no enforceable (reviewed/user) knowledge to publish"
    );
    store.remember("d", "a fact", NOW).unwrap();
    assert_eq!(refusal(&store), PublishRefusal::NeedsAuthor);
    set_author_name(&mut store, "ann", NOW).unwrap();
    store.register_domain("d", Some("about"), None, None, None, None, None, None, NOW);
    let p = publication(&store, "d").unwrap();
    assert_eq!((p.slug.as_str(), p.author.as_str(), p.items.len()), ("d", "ann", 1));
    assert_eq!(p.description.as_deref(), Some("about"));
    let id = file_publication(&mut store, &p, "[{}]", NOW).unwrap();
    assert_eq!(store.get_submission(id).unwrap().0.status, "pending");
    assert_eq!(store.get_submission(id).unwrap().0.author.as_deref(), Some("ann"));
}

#[test]
fn reviews_are_for_administrators() {
    assert_eq!(
        read_review(false, "approve").unwrap_err(),
        "submission review is available only in the admin build"
    );
    assert_eq!(read_review(true, "approve").unwrap(), Review::Approve);
    assert_eq!(read_review(true, "deny").unwrap(), Review::Deny);
    assert_eq!(
        read_review(true, "burn").unwrap_err(),
        "unknown action 'burn' (expected 'approve' or 'deny')"
    );
    assert!(may_import(true).is_ok());
    assert_eq!(
        may_import(false).unwrap_err(),
        "importing submissions for review is available only in the admin build"
    );
    let mut store = fixture();
    let t = template("seals", &["check"]);
    let id = import_template(&mut store, &t, "[{}]", NOW).unwrap();
    let (row, _) = store.get_submission(id).unwrap();
    let back = approved_template(&row, vec![item("check")]);
    assert_eq!((back.slug, back.description, back.query_hint), (t.slug, t.description, t.query_hint));
    assert_eq!(back.author.as_deref(), Some("ann"));
}

// ---- status ---------------------------------------------------------------

fn knowledge_row(trust: &str, domain: &str, title: &str) -> KnowledgeRow {
    KnowledgeRow {
        id: 1,
        kind: "fact".into(),
        domain: domain.into(),
        stage: None,
        title: title.into(),
        body: "body".into(),
        trust: trust.into(),
        enforceable: false,
        severity: None,
        created_at: 0,
        updated_at: 0,
        conflict_with_id: None,
        conflict_status: None,
        retention_days: None,
    }
}

#[test]
fn summarize_trust_counts_and_collects_proposed() {
    let rows = vec![
        knowledge_row("proposed", "secure-coding", "Use parameterized queries"),
        knowledge_row("reviewed", "secure-coding", "Validate input"),
        knowledge_row("user", "secure-coding", "Team convention"),
        knowledge_row("proposed", "other", "Another proposal"),
    ];
    let s = summarize_trust(&rows);
    assert_eq!(s.proposed, 2);
    assert_eq!(s.reviewed, 1);
    assert_eq!(s.user, 1);
    assert_eq!(
        s.proposed_items,
        vec![
            ("secure-coding".to_string(), "Use parameterized queries".to_string()),
            ("other".to_string(), "Another proposal".to_string()),
        ]
    );
}

#[test]
fn format_health_line_reports_unhealthy_without_sync() {
    let line = format_health_line("kl_store", "sqlite", false, None);
    assert!(line.contains("UNHEALTHY"));
    assert!(line.contains("kl_store"));
}

#[test]
fn format_health_line_includes_sync_snapshot_fields() {
    let snap = SyncHealthSnapshot {
        remote_configured: true,
        last_success_at: Some(1_700_000_000),
        consecutive_failures: 2,
        fallback_events: 5,
    };
    let line = format_health_line("kl_code", "libsql", true, Some(&snap));
    assert!(line.contains("healthy"));
    assert!(line.contains("remote_configured=true"));
    assert!(line.contains("consecutive_failures=2"));
    assert!(line.contains("fallback_events=5"));
}

#[test]
fn build_status_report_lists_no_episodes_message_when_empty() {
    let trust = TrustSummary { proposed: 0, reviewed: 0, user: 0, proposed_items: Vec::new() };
    let report = build_status_report(&trust, &[], &["kl_store (sqlite)  healthy".into()]);
    assert!(report.contains("Pending promotion: none"));
    assert!(report.contains("no episodes recorded"));
    assert!(report.contains("kl_store (sqlite)  healthy"));
}

#[test]
fn steps_are_told_in_lines() {
    let mut store = fixture();
    used(&mut store, "recall", "returned 1 hits", None);
    assert_eq!(
        format_episode_line(&store.episodes[0]),
        "2023-11-14 22:13:20  [success] recall: recall"
    );
    store.episodes[0].outcome = None;
    store.episodes[0].stage = None;
    store.episodes[0].action = None;
    assert_eq!(line_of_step(&store.episodes[0], "now"), "now  [unknown] -: -");
    let snap = SyncHealthSnapshot {
        remote_configured: false,
        last_success_at: None,
        consecutive_failures: 0,
        fallback_events: 0,
    };
    let lines = collect_health_lines(true, (true, snap), (false, snap), (true, snap));
    assert_eq!(lines.len(), 4);
    assert!(lines[2].contains("UNHEALTHY"));
    let trust = TrustSummary { proposed: 1, reviewed: 2, user: 3, proposed_items: Vec::new() };
    assert!(trust_panel(&trust).contains('1'));
}

#[test]
fn keys_scroll_within_the_list() {
    assert_eq!(next_scroll(0, 3, Key::Up), Some(0));
    assert_eq!(next_scroll(0, 3, Key::Down), Some(1));
    assert_eq!(next_scroll(2, 3, Key::Down), Some(2));
    assert_eq!(next_scroll(1, 3, Key::Other), Some(1));
    assert_eq!(next_scroll(1, 3, Key::Quit), None);
}

#[test]
fn old_proposals_and_fallbacks_are_told_once() {
    let mut store = fixture();
    store.register_domain("d", None, None, None, None, None, None, None, NOW);
    store.propose(Kind::Rule, "d", None, "t", "b", None, None, None, None, NOW).unwrap();
    let mut aging = AgingTracker::default();
    assert!(watch_proposals(&store, &mut aging, 100, NOW + 50).is_empty());
    let told = watch_proposals(&store, &mut aging, 100, NOW + 150);
    assert_eq!(told.len(), 1);
    assert_eq!(told[0].trigger, "proposed_item_aging");
    assert_eq!(told[0].summary, "Proposed item #1 in 'd' aging past threshold");
    assert!(watch_proposals(&store, &mut aging, 100, NOW + 250).is_empty());
    let mut fallback = FallbackTracker::default();
    assert!(watch_fallback(&mut fallback, "kl-code", 3, NOW).is_none());
    let e = watch_fallback(&mut fallback, "kl-code", 5, NOW).unwrap();
    assert_eq!(e.summary, "kl-code fell back to local-only storage 2 time(s)");
    assert_eq!(e.count, 2);
}
