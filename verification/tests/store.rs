use klayer::store::domains::submission_with;
use klayer::store::knowledge::clamp_retention;
use klayer::store::profile::{AuthorSetOutcome, AUTHOR_COOLDOWN_SECS};
use klayer::store::chunks::ChunkRefusal;
use klayer::store::recall::{fts_match, like_terms, text_query, CHUNK_TAG};
use klayer::store::registry::normalize_harness;
use klayer::store::vectors::{check_dims, embedded_text};
use klayer::store::Store;
use klayer::types::{Kind, StageRow};

const NOW: i64 = 1_700_000_000;

fn fixture() -> Store {
    Store::new()
}

/// Backdates an item's `created_at`.
fn backdate(store: &mut Store, id: i64, days_ago: i64) {
    for k in store.knowledge.iter_mut() {
        if k.id == id {
            k.created_at = NOW - days_ago * 86_400;
        }
    }
}

fn key(cost: f64) -> i64 {
    let bits = cost.to_bits() as i64;
    bits ^ ((((bits >> 63) as u64) >> 1) as i64)
}

// ---- retention ------------------------------------------------------------

#[test]
fn sweep_purges_item_past_domain_retention() {
    let mut store = fixture();
    store.register_domain("expiring", None, None, None, None, Some(Some(30)), None, None, NOW);
    let id = store.remember("expiring", "an old fact", NOW).unwrap();
    backdate(&mut store, id, 31);

    let purged = store.retention_sweep("test-run", NOW);
    assert_eq!(purged, 1);
    assert!(store.get_knowledge_by_id(id).is_none());
    let steps = store.list_episodes(Some("test-run"));
    assert_eq!(steps.len(), 1);
}

#[test]
fn sweep_leaves_item_within_domain_retention() {
    let mut store = fixture();
    store.register_domain("expiring", None, None, None, None, Some(Some(30)), None, None, NOW);
    let id = store.remember("expiring", "a fresh fact", NOW).unwrap();
    backdate(&mut store, id, 5);

    let purged = store.retention_sweep("test-run", NOW);
    assert_eq!(purged, 0);
    assert!(store.get_knowledge_by_id(id).is_some());
}

#[test]
fn item_override_wins_over_domain_default() {
    let mut store = fixture();
    store.register_domain("team-domain", None, None, None, None, Some(Some(365)), None, None, NOW);
    let id = store.remember("team-domain", "short-lived fact", NOW).unwrap();
    assert!(store.set_knowledge_retention(id, Some(7), None));
    backdate(&mut store, id, 10);

    let purged = store.retention_sweep("test-run", NOW);
    assert_eq!(purged, 1);
    assert!(store.get_knowledge_by_id(id).is_none());
}

#[test]
fn marketplace_template_without_explicit_retention_is_skipped() {
    let mut store = fixture();
    store.register_domain("template-domain", None, None, None, None, None, Some(true), None, NOW);
    let id = store.remember("template-domain", "template fact", NOW).unwrap();
    backdate(&mut store, id, 9999);

    let purged = store.retention_sweep("test-run", NOW);
    assert_eq!(purged, 0);
    assert!(store.get_knowledge_by_id(id).is_some());
}

#[test]
fn marketplace_template_with_explicit_retention_is_not_skipped() {
    let mut store = fixture();
    store.register_domain(
        "template-domain",
        None,
        None,
        None,
        None,
        Some(Some(10)),
        Some(true),
        None,
        NOW,
    );
    let id = store.remember("template-domain", "template fact", NOW).unwrap();
    backdate(&mut store, id, 11);

    let purged = store.retention_sweep("test-run", NOW);
    assert_eq!(purged, 1);
    assert!(store.get_knowledge_by_id(id).is_none());
}

#[test]
fn register_domain_clamps_retention_to_ceiling() {
    let mut store = fixture();
    store.register_domain(
        "capped-domain",
        None,
        None,
        None,
        None,
        Some(Some(400)),
        None,
        Some(90),
        NOW,
    );
    let domains = store.list_domains();
    let d = domains.iter().find(|d| d.name == "capped-domain").unwrap();
    assert_eq!(d.retention_days, Some(90));
}

#[test]
fn register_domain_clear_retention_resets_to_no_expiration() {
    let mut store = fixture();
    store.register_domain("clearable", None, None, None, None, Some(Some(30)), None, None, NOW);
    store.register_domain("clearable", None, None, None, None, Some(None), None, None, NOW);
    let domains = store.list_domains();
    let d = domains.iter().find(|d| d.name == "clearable").unwrap();
    assert_eq!(d.retention_days, None);
}

#[test]
fn register_domain_unspecified_retention_leaves_it_unchanged() {
    let mut store = fixture();
    store.register_domain("untouched", None, None, None, None, Some(Some(15)), None, None, NOW);
    store.register_domain(
        "untouched",
        Some("updated description"),
        None,
        None,
        None,
        None,
        None,
        None,
        NOW,
    );
    let domains = store.list_domains();
    let d = domains.iter().find(|d| d.name == "untouched").unwrap();
    assert_eq!(d.retention_days, Some(15));
    assert_eq!(d.description.as_deref(), Some("updated description"));
}

#[test]
fn set_knowledge_retention_clamps_to_ceiling() {
    let mut store = fixture();
    let id = store.remember("some-domain", "a fact", NOW).unwrap();
    store.set_knowledge_retention(id, Some(200), Some(60));
    let item = store.get_knowledge_by_id(id).unwrap();
    assert_eq!(item.row.retention_days, Some(60));
}

#[test]
fn a_ceiling_forces_no_expiration() {
    assert_eq!(clamp_retention(None, Some(5)), None);
    assert_eq!(clamp_retention(Some(5), None), Some(5));
    assert_eq!(clamp_retention(Some(5), Some(5)), Some(5));
    assert_eq!(clamp_retention(Some(6), Some(5)), Some(5));
}

// ---- media ----------------------------------------------------------------

#[test]
fn insert_media_standalone_has_no_trust() {
    let mut store = fixture();
    let id = store
        .insert_media(
            "/tmp/media/abc.png",
            "image/png",
            123,
            Some("a screenshot"),
            None,
            Some("secure-coding"),
            NOW,
        )
        .unwrap();
    let row = store.get_media(id).unwrap();
    assert_eq!(row.trust, None);
    assert_eq!(row.domain.as_deref(), Some("secure-coding"));
    assert_eq!(row.size_bytes, 123);
}

#[test]
fn insert_media_with_knowledge_id_inherits_trust() {
    let mut store = fixture();
    let kid = store.remember("secure-coding", "always validate input", NOW).unwrap();
    let mid = store
        .insert_media("/tmp/media/def.png", "image/png", 42, None, Some(kid), None, NOW)
        .unwrap();
    let row = store.get_media(mid).unwrap();
    assert_eq!(row.trust.as_deref(), Some("user"));
    assert_eq!(row.knowledge_id, Some(kid));
}

#[test]
fn attach_media_updates_trust_from_standalone() {
    let mut store = fixture();
    let mid = store
        .insert_media("/tmp/media/ghi.png", "image/png", 10, None, None, Some("d"), NOW)
        .unwrap();
    assert_eq!(store.get_media(mid).unwrap().trust, None);

    let kid = store.remember("d", "some fact", NOW).unwrap();
    let ok = store.attach_media(mid, kid);
    assert!(ok);
    let row = store.get_media(mid).unwrap();
    assert_eq!(row.trust.as_deref(), Some("user"));
    assert_eq!(row.knowledge_id, Some(kid));
}

#[test]
fn attach_media_returns_false_for_missing_knowledge() {
    let mut store = fixture();
    let mid = store
        .insert_media("/tmp/media/jkl.png", "image/png", 10, None, None, None, NOW)
        .unwrap();
    let ok = store.attach_media(mid, 99999);
    assert!(!ok);
}

#[test]
fn list_media_filters_by_domain_and_knowledge_id() {
    let mut store = fixture();
    let kid = store.remember("d1", "fact", NOW).unwrap();
    let m1 = store
        .insert_media("/tmp/1.png", "image/png", 1, None, Some(kid), None, NOW)
        .unwrap();
    let m2 = store
        .insert_media("/tmp/2.png", "image/png", 2, None, None, Some("d2"), NOW)
        .unwrap();

    let by_domain = store.list_media(Some("d2"), None);
    assert_eq!(by_domain.len(), 1);
    assert_eq!(by_domain[0].media_id, m2);

    let by_knowledge = store.list_media(None, Some(kid));
    assert_eq!(by_knowledge.len(), 1);
    assert_eq!(by_knowledge[0].media_id, m1);

    let all = store.list_media(None, None);
    assert_eq!(all.len(), 2);
}

// ---- redaction ------------------------------------------------------------

#[test]
fn remember_redacts_by_default() {
    let mut store = fixture();
    let id = store
        .remember("pii-domain", "reach me at leak@example.com anytime", NOW)
        .unwrap();
    let items = store.list_knowledge("pii-domain", None, None);
    let row = items.into_iter().find(|r| r.id == id).unwrap();
    assert!(row.body.contains("[REDACTED:EMAIL]"));
    assert!(!row.body.contains("leak@example.com"));
}

#[test]
fn propose_redacts_by_default() {
    let mut store = fixture();
    let id = store
        .propose(
            Kind::Fact,
            "pii-domain",
            None,
            "card on file",
            "card number is 4111-1111-1111-1111",
            None,
            None,
            None,
            None,
            NOW,
        )
        .unwrap();
    let items = store.list_knowledge("pii-domain", None, None);
    let row = items.into_iter().find(|r| r.id == id).unwrap();
    assert!(row.body.contains("[REDACTED:CARD]"));
    assert!(!row.body.contains("4111"));
}

#[test]
fn redact_disabled_domain_stores_raw_text() {
    let mut store = fixture();
    store.register_domain("open-domain", None, None, None, Some(false), None, None, None, NOW);
    let id = store
        .remember("open-domain", "reach me at leak@example.com anytime", NOW)
        .unwrap();
    let items = store.list_knowledge("open-domain", None, None);
    let row = items.into_iter().find(|r| r.id == id).unwrap();
    assert!(row.body.contains("leak@example.com"));
    assert!(!row.body.contains("[REDACTED"));
}

#[test]
fn add_chunks_redacts_by_default() {
    let mut store = fixture();
    let source_id = store.add_source("web", None, None, "pii-domain", NOW).unwrap();
    store
        .add_chunks(
            source_id,
            "pii-domain",
            &vec!["call +1-555-123-4567 for support".to_string()],
            NOW,
        )
        .unwrap();
    let text = &store.chunks.iter().find(|c| c.source_id == source_id).unwrap().text;
    assert!(text.contains("[REDACTED:PHONE]"));
    assert!(!text.contains("555-123-4567"));
}

#[test]
fn domain_redact_enabled_defaults_true_for_unknown_domain() {
    let store = fixture();
    assert!(store.domain_redact_enabled("never-registered"));
}

// ---- the model registry ---------------------------------------------------

#[test]
fn add_routing_rule_persists_and_is_retrievable() {
    let mut store = fixture();
    store.add_routing_rule("code-agent", "frontend", "feature", "high", "opus");
    let rules = store.list_routing_rules();
    assert_eq!(rules.len(), 1);
    assert_eq!(rules[0].harness, "code-agent");
    assert_eq!(rules[0].model_id, "opus");

    store.add_routing_rule("code-agent", "frontend", "feature", "high", "sonnet");
    let rules = store.list_routing_rules();
    assert_eq!(rules.len(), 1);
    assert_eq!(rules[0].model_id, "sonnet");
}

#[test]
fn configure_model_upserts_rather_than_duplicates_with_null_sub_agent() {
    let mut store = fixture();
    store.configure_model("code-agent", "opus", "balanced", key(4.0), None);
    store.configure_model("code-agent", "opus", "heavy-reasoning", key(20.0), None);
    let rows = store.list_model_registry();
    let matching: Vec<_> = rows
        .iter()
        .filter(|r| r.harness == "code-agent" && r.model_id == "opus")
        .collect();
    assert_eq!(matching.len(), 1);
    assert_eq!(matching[0].capability_tier, "heavy-reasoning");
    assert_eq!(matching[0].cost_weight, key(20.0));
}

#[test]
fn last_episode_ts_for_finds_most_recent_matching_action() {
    let mut store = fixture();
    store
        .log_episode_auto(
            "run-1",
            Some("model_registry"),
            Some("configure_model_registry action=add harness=code-agent model=opus"),
            Some("model registry updated"),
            Some("success"),
            None,
            None,
            None,
            None,
            NOW,
        )
        .unwrap();
    let second_id = store
        .log_episode_auto(
            "run-1",
            Some("model_registry"),
            Some("configure_model_registry action=add harness=code-agent model=haiku"),
            Some("model registry updated"),
            Some("success"),
            None,
            None,
            None,
            None,
            NOW + 1,
        )
        .unwrap();

    let ts = store
        .last_episode_ts_for("model_registry", "harness=code-agent")
        .expect("expected a matching episode ts");
    let expected = store.episodes.iter().find(|e| e.id == second_id).unwrap().ts;
    assert_eq!(ts, expected);

    assert!(store.last_episode_ts_for("model_registry", "harness=cursor").is_none());
    assert!(store.last_episode_ts_for("model_registry", "harness=code_agent").is_none());
    assert_eq!(store.last_episode_ts_for("model_registry", "Harness=Code-Agent"), Some(NOW + 1));
    assert!(store
        .last_episode_ts_for("model_recommendation", "harness=code-agent")
        .is_none());
}

#[test]
fn recommend_model_uses_routing_rule_once_populated() {
    let mut store = fixture();
    store.configure_model("code-agent", "opus", "heavy-reasoning", key(10.0), None);
    store.configure_model("code-agent", "haiku", "fast-cheap", key(1.0), None);
    store.add_routing_rule("code-agent", "frontend", "feature", "high", "opus");
    let (model, _cost, reason) = store
        .recommend_model("code-agent", "frontend", "feature", "high")
        .unwrap();
    assert_eq!(model, "opus");
    assert_eq!(reason, "routing rule match");
}

#[test]
fn recommend_model_matches_versioned_and_differently_cased_harness() {
    let mut store = fixture();
    store.configure_model("code-agent", "opus", "heavy-reasoning", key(10.0), None);
    store.add_routing_rule("code-agent", "frontend", "feature", "high", "opus");
    let (model, _cost, reason) = store
        .recommend_model("code-agent/2.1.207", "frontend", "feature", "high")
        .unwrap();
    assert_eq!(model, "opus");
    assert_eq!(reason, "routing rule match");
    let (model, ..) = store
        .recommend_model("Code Agent", "frontend", "feature", "high")
        .unwrap();
    assert_eq!(model, "opus");
}

#[test]
fn recommend_model_reports_dangling_routing_rule_distinctly() {
    let mut store = fixture();
    store.configure_model("code-agent", "opus", "heavy-reasoning", key(10.0), None);
    store.add_routing_rule("code-agent", "general", "any", "low", "haiku-nonexistent");
    let (model, _cost, reason) = store
        .recommend_model("code-agent", "general", "any", "low")
        .unwrap();
    assert_eq!(model, "haiku-nonexistent");
    assert!(reason.contains("unregistered model"), "reason was: {reason}");
}

#[test]
fn without_a_rule_the_cheapest_model_is_recommended() {
    let mut store = fixture();
    assert!(store.recommend_model("code-agent", "x", "y", "low").is_none());
    store.configure_model("code-agent", "opus", "heavy-reasoning", key(10.0), None);
    store.configure_model("code-agent", "haiku", "fast-cheap", key(0.5), None);
    store.configure_model("code-agent", "free", "fast-cheap", key(-1.0), None);
    let (model, cost, reason) = store.recommend_model("code-agent", "x", "y", "low").unwrap();
    assert_eq!(model, "free");
    assert_eq!(cost, key(-1.0));
    assert_eq!(reason, "no exact rule; cheapest configured model");
}

#[test]
fn remove_model_deletes_only_matching_row() {
    let mut store = fixture();
    store.configure_model("code-agent", "opus", "heavy-reasoning", key(10.0), None);
    store.configure_model(
        "code-agent",
        "opus",
        "heavy-reasoning",
        key(10.0),
        Some("frontend-agent"),
    );

    let removed = store.remove_model("code-agent", "opus", None);
    assert!(removed);
    let remaining = store.list_model_registry();
    assert_eq!(remaining.len(), 1);
    assert_eq!(remaining[0].sub_agent_name.as_deref(), Some("frontend-agent"));

    let removed_again = store.remove_model("code-agent", "opus", None);
    assert!(!removed_again, "second delete of the same row should be a no-op");
}

#[test]
fn remove_routing_rule_deletes_the_right_row() {
    let mut store = fixture();
    store.add_routing_rule("code-agent", "frontend", "feature", "high", "opus");
    store.add_routing_rule("code-agent", "backend", "crud", "low", "haiku");

    let removed = store.remove_routing_rule("code-agent", "frontend", "feature", "high");
    assert!(removed);
    let remaining = store.list_routing_rules();
    assert_eq!(remaining.len(), 1);
    assert_eq!(remaining[0].domain_type, "backend");
}

#[test]
fn list_model_registry_groups_are_orderable_by_harness_then_tier() {
    let mut store = fixture();
    store.configure_model("cursor", "gpt", "balanced", key(5.0), None);
    store.configure_model("code-agent", "opus", "heavy-reasoning", key(10.0), None);
    store.configure_model("code-agent", "haiku", "fast-cheap", key(1.0), None);
    let rows = store.list_model_registry();
    assert_eq!(rows.len(), 3);
    assert_eq!(rows[0].harness, "code-agent");
    assert_eq!(rows[1].harness, "code-agent");
    assert_eq!(rows[2].harness, "cursor");
}

#[test]
fn harness_names_differ_in_more_than_spelling() {
    assert_eq!(normalize_harness("Code Agent/2.1"), "code-agent");
    assert_eq!(normalize_harness("cursor"), "cursor");
}

// ---- recall ---------------------------------------------------------------

#[test]
fn recall_returns_remembered_fact_via_vector_or_like() {
    let mut store = fixture();
    store
        .remember("auth", "Always verify JWT signatures before trusting claims", NOW)
        .unwrap();
    let ranked = store.like_candidates("auth", "JWT signature verification", None);
    let hits = store.recall("auth", &ranked, 5);
    assert!(
        hits.iter().any(|h| h.body.contains("JWT")),
        "expected JWT fact in hits: {hits:?}"
    );
}

#[test]
fn recall_vector_finds_paraphrase_better_than_empty() {
    let mut store = fixture();
    store
        .remember("sec", "Rate-limit login endpoints to stop credential stuffing", NOW)
        .unwrap();
    store
        .remember("sec", "Use bcrypt with a work factor of at least 12", NOW)
        .unwrap();
    let query = "throttle authentication attempts against stuffing";
    let ranked = store.like_candidates("sec", query, None);
    let hits = store.recall("sec", &ranked, 3);
    assert!(!hits.is_empty());
    assert!(
        hits[0].body.to_lowercase().contains("rate")
            || hits[0].body.to_lowercase().contains("credential")
            || hits.iter().any(|h| h.body.contains("Rate-limit")),
        "unexpected ranking: {hits:?}"
    );
    let _ = Kind::Fact;
}

#[test]
fn recall_puts_trust_before_the_ranking() {
    let mut store = fixture();
    let source = store
        .add_source("web", Some("https://x.org"), Some("X"), "d", NOW)
        .unwrap();
    store.add_chunks(source, "d", &vec!["raw text".to_string()], NOW).unwrap();
    let proposed = store
        .propose(Kind::Rule, "d", None, "p", "proposed rule", None, None, None, None, NOW)
        .unwrap();
    let user = store.remember("d", "a fact of the user", NOW).unwrap();
    let chunk = store.chunk_candidates(&vec![1], "d");
    assert_eq!(chunk.len(), 1);
    let ranking = vec![chunk[0], proposed, user, user, 4711];
    let hits = store.recall("d", &ranking, 10);
    let trusts: Vec<&str> = hits.iter().map(|h| h.trust.as_str()).collect();
    assert_eq!(trusts, vec!["user", "proposed", "untrusted"]);
    assert!(hits[0].enforceable && !hits[1].enforceable && !hits[2].enforceable);
    assert_eq!(hits[2].source_kind, "chunk");
    assert_eq!(hits[2].provenance.as_deref(), Some("https://x.org"));
    assert_eq!(store.recall("d", &ranking, 0).len(), 1);
    assert_eq!(store.recall("other", &ranking, 10).len(), 0);
}

#[test]
fn queries_are_quoted_word_by_word() {
    assert_eq!(fts_match("one \"two\" thr\"ee \"\""), "\"one\" OR \"two\" OR \"three\"");
    assert_eq!(fts_match("  "), "");
    assert_eq!(text_query("one").as_deref(), Some("\"one\""));
    assert_eq!(text_query(" \" "), None);
    assert_eq!(like_terms("JWT 50%"), vec!["%JWT%", "%50%"]);
}

// ---- embeddings -----------------------------------------------------------

#[test]
fn missing_embeddings_are_made_once() {
    let mut store = fixture();
    let a = store.remember("d", "first fact", NOW).unwrap();
    let b = store.remember("d", "second fact", NOW).unwrap();
    let source = store.add_source("web", None, None, "d", NOW).unwrap();
    store.add_chunks(source, "d", &vec!["some chunk".to_string()], NOW).unwrap();
    let (k, c) = store.backfill_embeddings(&vec![a], &Vec::new());
    assert_eq!(k.len(), 1);
    assert_eq!(k[0].id, b);
    assert_eq!(k[0].vector.len(), 384);
    assert_eq!(c.len(), 1);
    let (k, c) = store.backfill_embeddings(&vec![a, b], &vec![c[0].id]);
    assert!(k.is_empty() && c.is_empty());
    assert_eq!(embedded_text("", "body"), "body");
    assert_eq!(embedded_text("title", "body"), "title\nbody");
    assert!(check_dims("chunk", 384).is_ok());
    assert_eq!(
        check_dims("knowledge", 3).unwrap_err(),
        "knowledge embedding must be 384-d, got 3"
    );
}

// ---- knowledge ------------------------------------------------------------

#[test]
fn a_proposal_is_not_in_force_until_it_is_promoted() {
    let mut store = fixture();
    let id = store
        .propose(Kind::Rule, "d", None, "t", "b", None, None, None, None, NOW)
        .unwrap();
    assert!(store.export_domain_items("d").is_empty());
    assert!(store.promote(id, NOW + 1));
    assert!(!store.promote(id, NOW + 2));
    let items = store.export_domain_items("d");
    assert_eq!(items.len(), 1);
    assert_eq!(items[0].title, "t");
    assert_eq!(store.get_knowledge_by_id(id).unwrap().row.trust, "reviewed");
    assert!(!store.promote(99, NOW));
}

#[test]
fn contradictions_are_marked_on_both_sides() {
    let mut store = fixture();
    store.register_domain("d", None, None, None, Some(false), None, None, None, NOW);
    let a = store
        .propose(Kind::Rule, "d", None, "Timeout", "five seconds", None, None, None, None, NOW)
        .unwrap();
    store.promote(a, NOW);
    let b = store
        .propose(Kind::Rule, "d", None, "TIMEOUT", "nine seconds", None, None, None, None, NOW + 1)
        .unwrap();
    let open = store.list_conflicts(Some("d"));
    assert_eq!(open.len(), 2);
    let row = |id: i64| store.get_knowledge_by_id(id).unwrap().row;
    assert_eq!(row(a).conflict_with_id, Some(b));
    assert_eq!(row(b).conflict_with_id, Some(a));
    assert_eq!(row(a).conflict_status.as_deref(), Some("open"));
    assert!(store.resolve_conflict(a, "keep"));
    assert!(store.list_conflicts(None).is_empty());
}

#[test]
fn numbers_are_not_used_twice_while_the_last_row_stands() {
    let mut store = fixture();
    let a = store.remember("d", "one", NOW).unwrap();
    let b = store.remember("d", "two", NOW).unwrap();
    assert!(a != b);
    assert!(store.forget(a));
    assert!(!store.forget(a));
    let c = store.remember("d", "three", NOW).unwrap();
    assert!(c > b);
    assert_eq!(store.clear_all_knowledge(), 2);
}

#[test]
fn knowledge_is_listed_by_tier_and_kind_newest_first() {
    let mut store = fixture();
    store.remember("d", "fact", NOW).unwrap();
    store
        .propose(Kind::Rule, "d", Some("build"), "r", "rb", Some("t"), Some("warn"), None, None, NOW + 5)
        .unwrap();
    let all = store.list_knowledge("d", None, None);
    assert_eq!(all[0].title, "r");
    assert_eq!(all.len(), 2);
    assert_eq!(store.list_knowledge("d", Some("proposed"), None).len(), 1);
    assert_eq!(store.list_knowledge("d", None, Some(Kind::Fact)).len(), 1);
    assert_eq!(store.list_knowledge("e", None, None).len(), 0);
    assert!(store.update_knowledge(2, "r2", "b2", None, None, None, None, NOW + 9));
    assert_eq!(store.list_knowledge("d", None, Some(Kind::Rule))[0].body, "b2");
    assert!(!store.update_knowledge(77, "x", "y", None, None, None, None, NOW));
}

// ---- domains --------------------------------------------------------------

#[test]
fn permissions_bind_once_there_is_one() {
    let mut store = fixture();
    assert!(store.domain_allowed(None, "d"));
    store.set_domain_permission("alice", "d", true);
    assert!(store.domain_allowed(Some("alice"), "d"));
    assert!(!store.domain_allowed(Some("bob"), "d"));
    assert!(!store.domain_allowed(None, "d"));
    store.set_domain_permission("alice", "d", false);
    assert!(!store.domain_allowed(Some("alice"), "d"));
    assert!(store.domain_allowed(Some("bob"), "e"));
}

#[test]
fn domains_count_their_documents_and_rules() {
    let mut store = fixture();
    let s = store.add_source("web", Some("u"), None, "d", NOW).unwrap();
    store.add_chunks(s, "d", &vec!["a".to_string(), "b".to_string()], NOW).unwrap();
    let id = store
        .propose(Kind::Rule, "d", None, "t", "b", None, None, None, Some(s), NOW)
        .unwrap();
    store.promote(id, NOW);
    let d = &store.list_domains()[0];
    assert_eq!((d.doc_count, d.rule_count, d.enforced), (1, 1, false));
    assert!(store.delete_source(s, NOW));
    assert!(!store.delete_source(s, NOW));
    assert_eq!(store.list_domains()[0].doc_count, 0);
    assert!(store.chunks.is_empty());
    assert!(store.update_domain("d", Some("about"), None, Some(true), NOW));
    assert!(store.domain_enforced("d"));
    assert!(!store.update_domain("none", None, None, None, NOW));
    let cleared = store.clear_domain("d", false);
    assert_eq!(cleared, (0, 1));
    assert_eq!(store.clear_all_domains(), store.domains.len());
}

#[test]
fn stages_are_listed_in_order() {
    let mut store = fixture();
    for (name, n) in [("test", 2), ("plan", 1)] {
        store.stages.push(StageRow {
            taxonomy: "default".to_string(),
            name: name.to_string(),
            ordinal: n,
            description: None,
        });
    }
    let names: Vec<String> = store.list_stages("default").into_iter().map(|s| s.name).collect();
    assert_eq!(names, vec!["plan", "test"]);
    assert!(store.list_stages("other").is_empty());
}

#[test]
fn preferences_are_listed_oldest_first() {
    let mut store = fixture();
    store.set_preference("global", "later", NOW + 1).unwrap();
    store.set_preference("global", "earlier", NOW).unwrap();
    assert_eq!(store.list_preferences(), vec!["earlier", "later"]);
}

#[test]
fn the_author_name_stands_for_fourteen_days() {
    let mut store = fixture();
    assert!(store.get_author().is_none());
    assert_eq!(
        store.set_author("ann", AUTHOR_COOLDOWN_SECS, NOW),
        AuthorSetOutcome::Registered
    );
    assert_eq!(
        store.set_author("eve", AUTHOR_COOLDOWN_SECS, NOW + 1),
        AuthorSetOutcome::Blocked { next_allowed_at: NOW + 1_209_600 }
    );
    assert_eq!(store.get_author().unwrap().0, "ann");
    assert_eq!(
        store.set_author("eve", AUTHOR_COOLDOWN_SECS, NOW + 1_209_600),
        AuthorSetOutcome::Updated
    );
    assert_eq!(store.get_author().unwrap(), ("eve".to_string(), NOW, NOW + 1_209_600));
}

#[test]
fn submissions_are_counted_reviewed_and_withdrawn() {
    let mut store = fixture();
    let id = store
        .create_submission("d", Some("about"), None, "[{},{},{}]", Some("ann"), NOW)
        .unwrap();
    let bad = store.create_submission("e", None, None, "no json", None, NOW + 1).unwrap();
    let rows = store.list_submissions(Some("pending"));
    assert_eq!(rows.len(), 2);
    assert_eq!(rows[0].id, bad);
    assert_eq!(rows[0].item_count, 0);
    let (row, items) = store.get_submission(id).unwrap();
    assert_eq!((row.item_count, items.as_str()), (3, "[{},{},{}]"));
    assert!(store.set_submission_status(id, "approved", Some("fine"), NOW + 2));
    let (row, _) = store.get_submission(id).unwrap();
    assert_eq!(row.status, "approved");
    assert_eq!(row.note.as_deref(), Some("fine"));
    assert_eq!(row.reviewed_at, Some(NOW + 2));
    assert!(!store.set_submission_status(77, "denied", None, NOW));
    assert!(store.delete_submission(bad));
    assert!(!store.delete_submission(bad));
    assert_eq!(submission_with(&store.submissions[0], Some(9)).item_count, 9);
    assert_eq!(submission_with(&store.submissions[0], None).item_count, 0);
}

// ---- episodes -------------------------------------------------------------

#[test]
fn steps_are_numbered_by_run() {
    let mut store = fixture();
    let log = |store: &mut Store, run: &str| {
        store
            .log_episode_auto(run, Some("s"), Some("a"), None, None, None, None, None, None, NOW)
            .unwrap()
    };
    log(&mut store, "a");
    log(&mut store, "b");
    let id = log(&mut store, "a");
    let e = store.episodes.iter().find(|e| e.id == id).unwrap();
    assert_eq!((e.run_id.as_str(), e.step), ("a", 2));
    store.log_episode("a", 40, None, None, None, None, NOW).unwrap();
    let id = log(&mut store, "a");
    assert_eq!(store.episodes.iter().find(|e| e.id == id).unwrap().step, 41);
    store.set_episode_knowledge_ids(id, &vec![3, 4]);
    assert_eq!(
        store.episodes.iter().find(|e| e.id == id).unwrap().knowledge_ids_used,
        vec![3, 4]
    );
    assert_eq!(store.list_episodes(Some("b")).len(), 1);
    assert_eq!(store.clear_all_episodes(), 5);
}

#[test]
fn no_row_is_stored_without_a_number() {
    let mut store = fixture();
    store.remember("d", "one", NOW).unwrap();
    store.knowledge[0].id = i64::MAX;
    assert!(store.remember("d", "two", NOW).is_none());
    assert_eq!(store.knowledge.len(), 1);
}

// ---- laws on concrete values ----------------------------------------------

#[test]
fn a_sweep_tells_of_each_item_in_the_log() {
    let mut store = fixture();
    store.register_domain("d", None, None, None, None, Some(Some(1)), None, None, NOW);
    let first = store.remember("d", "one", NOW).unwrap();
    let second = store.remember("d", "two", NOW).unwrap();
    backdate(&mut store, first, 2);
    backdate(&mut store, second, 3);
    assert_eq!(store.retention_sweep("sweep", NOW), 2);
    assert_eq!(store.episodes.len(), 2);
    for step in &store.episodes {
        assert_eq!(step.run_id, "sweep");
        assert_eq!(step.stage.as_deref(), Some("retention_sweep"));
        assert_eq!(step.ts, NOW);
    }
    assert_eq!(
        store.episodes[0].action.as_deref(),
        Some(format!("purge knowledge id={first} domain=d retention_days=1").as_str())
    );
}

#[test]
fn forgetting_one_item_leaves_the_others() {
    let mut store = fixture();
    let first = store.remember("d", "one", NOW).unwrap();
    let second = store.remember("d", "two", NOW).unwrap();
    assert!(store.forget(first));
    assert!(!store.forget(first));
    assert!(store.get_knowledge_by_id(first).is_none());
    assert_eq!(store.get_knowledge_by_id(second).unwrap().row.title, "two");
}

#[test]
fn resolving_a_conflict_ends_it() {
    for action in ["keep", "accept", "merge"] {
        let mut store = fixture();
        let old = store.propose(Kind::Rule, "d", None, "T", "a", None, None, None, None, NOW).unwrap();
        store.promote(old, NOW);
        let new = store.propose(Kind::Rule, "d", None, "t", "b", None, None, None, None, NOW).unwrap();
        assert_eq!(store.list_conflicts(None).len(), 2);
        assert!(store.resolve_conflict(new, action));
        assert!(store.list_conflicts(None).is_empty(), "{action}");
        let left = store.get_knowledge_by_id(new).unwrap().row;
        assert_eq!(store.get_knowledge_by_id(old).is_some(), action == "keep");
        if action == "merge" {
            assert_eq!(left.body, format!("b\nMerged from knowledge #{old}"));
        } else {
            assert_eq!(left.body, "b");
        }
    }
    let mut store = fixture();
    let id = store.remember("d", "x", NOW).unwrap();
    assert!(!store.resolve_conflict(id, "keep"));
}

#[test]
fn clearing_chunks_keeps_what_was_learned() {
    let mut store = fixture();
    let source = store.add_source("web", Some("http://x"), Some("X"), "d", NOW).unwrap();
    store.add_chunks(source, "d", &vec!["text".to_string()], NOW).unwrap();
    let id = store
        .propose(Kind::Fact, "d", None, "T", "B", None, None, None, Some(source), NOW)
        .unwrap();
    assert_eq!(store.clear_domain("d", true), (1, 0));
    assert!(store.chunks.is_empty() && store.sources.is_empty());
    assert_eq!(store.get_knowledge_by_id(id).unwrap().row.body, "B");
    assert_eq!(store.knowledge[0].source_id, None);
    assert_eq!(store.clear_domain("d", false), (0, 1));
}

#[test]
fn the_four_lists_keep_to_the_domain_and_the_kind() {
    let mut store = fixture();
    for domain in ["d", "other"] {
        let source = store.add_source("web", Some("http://x"), None, domain, NOW).unwrap();
        store.add_chunks(source, domain, &vec!["tabs".to_string()], NOW).unwrap();
    }
    let mut add = |kind: Kind, domain: &str| {
        store.propose(kind, domain, None, "tabs", "use tabs", None, None, None, None, NOW).unwrap()
    };
    let rule = add(Kind::Rule, "d");
    let fact = add(Kind::Fact, "d");
    let far = add(Kind::Rule, "other");
    let near = vec![far, fact, rule, 99];
    let lists =
        store.ranked_lists("d", "tabs", Some(Kind::Rule), &vec![2, 1], &vec![1, 2, 7], &near);
    assert_eq!(
        lists,
        (vec![CHUNK_TAG + 1], vec![rule], vec![CHUNK_TAG + 1], vec![rule])
    );
    let fused = [lists.0, lists.1, lists.2, lists.3].concat();
    let hits = store.recall("d", &fused, 6);
    assert_eq!(hits.len(), 2);
    for h in hits {
        assert_eq!(h.kind.as_deref(), (h.source_kind == "knowledge").then_some("rule"));
    }
    let all = store.ranked_lists("d", "tabs", None, &Vec::new(), &Vec::new(), &near);
    assert_eq!((all.0, all.2, all.3), (Vec::new(), Vec::new(), vec![fact, rule]));
    assert_eq!(all.1.len(), 2);
}

#[test]
fn clearing_chunks_keeps_the_domain_as_registered() {
    let mut store = fixture();
    for name in ["d", "other"] {
        store.register_domain(
            name,
            Some("about"),
            Some("ask"),
            Some(true),
            Some(false),
            Some(Some(30)),
            None,
            None,
            NOW,
        );
        let source = store.add_source("web", Some("http://x"), None, name, NOW).unwrap();
        store.add_chunks(source, name, &vec!["text".to_string()], NOW).unwrap();
    }
    assert_eq!(store.clear_domain("d", true), (1, 0));
    assert!(store.domain_exists("d") && store.domain_enforced("d"));
    assert!(!store.domain_redact_enabled("d"));
    let rows = store.list_domains();
    let d = rows.iter().find(|r| r.name == "d").unwrap();
    assert_eq!((d.doc_count, d.retention_days), (0, Some(30)));
    assert_eq!((d.description.as_deref(), d.query_hint.as_deref()), (Some("about"), Some("ask")));
    assert!(store.chunks.iter().all(|c| c.domain == "other") && store.chunks.len() == 1);
    assert!(store.sources.iter().all(|r| r.domain == "other") && store.sources.len() == 1);
    assert_eq!(rows.iter().find(|r| r.name == "other").unwrap().doc_count, 1);
    store.clear_domain("d", false);
    assert!(!store.domain_exists("d") && store.domain_exists("other"));
}

#[test]
fn what_is_stored_is_found_and_recalled() {
    let mut store = fixture();
    let id = store.remember("d", "write to a@b.org about tabs", NOW).unwrap();
    let found = store.like_candidates("d", "TABS", None);
    assert_eq!(found, vec![id]);
    let hits = store.recall("d", &found, 6);
    assert_eq!(hits.len(), 1);
    assert_eq!(hits[0].body, "write to [REDACTED:EMAIL] about tabs");
    assert!(hits[0].enforceable);
    assert!(store.like_candidates("other", "tabs", None).is_empty());
    assert!(store.like_candidates("d", "tabs", Some(Kind::Rule)).is_empty());
}

#[test]
fn ingested_text_is_recalled_with_its_address() {
    let mut store = fixture();
    let source = store.add_source("web", Some("http://x"), Some("X"), "d", NOW).unwrap();
    store.add_chunks(source, "d", &vec!["one".to_string(), "two".to_string()], NOW).unwrap();
    let ranked = store.chunk_candidates(&vec![2, 1, 9], "d");
    assert_eq!(ranked, vec![CHUNK_TAG + 2, CHUNK_TAG + 1]);
    let hits = store.recall("d", &ranked, 6);
    let bodies: Vec<&str> = hits.iter().map(|h| h.body.as_str()).collect();
    assert_eq!(bodies, vec!["two", "one"]);
    for h in &hits {
        assert_eq!(h.source_kind, "chunk");
        assert_eq!(h.provenance.as_deref(), Some("http://x"));
        assert_eq!(h.trust, "untrusted");
        assert!(!h.enforceable);
    }
    assert!(store.recall("other", &ranked, 6).is_empty());
}

// ---- editing by hand ------------------------------------------------------

#[test]
fn sources_and_chunks_are_edited_by_hand() {
    let mut store = fixture();
    let source = store.add_source("web", Some("http://x"), Some("X"), "d", NOW).unwrap();
    store.add_chunks(source, "d", &vec!["one".to_string()], NOW).unwrap();

    assert!(store.update_source(source, Some("Y"), None));
    assert_eq!(store.sources[0].title.as_deref(), Some("Y"));
    assert_eq!(store.sources[0].uri, None);
    assert!(!store.update_source(source + 1, None, None));

    let id = store.add_chunk(source, "call a@b.org").unwrap();
    assert_eq!(store.add_chunk(source + 1, "x"), Err(ChunkRefusal::NoSource));
    let chunks = store.list_chunks(source);
    assert_eq!(chunks.len(), 2);
    assert_eq!((chunks[1].id, chunks[1].ord), (id, 1));
    assert_eq!(chunks[1].domain, "d");
    assert_eq!(chunks[1].text, "call [REDACTED:EMAIL]");
    assert!(store.list_chunks(source + 1).is_empty());

    assert!(store.update_chunk(id, "two"));
    assert_eq!(store.list_chunks(source)[1].text, "two");
    assert!(!store.update_chunk(id + 1, "x"));

    assert!(store.delete_chunk(id));
    assert!(!store.delete_chunk(id));
    assert_eq!(store.list_chunks(source).len(), 1);

    store.chunks[0].id = i64::MAX;
    assert_eq!(store.add_chunk(source, "x"), Err(ChunkRefusal::Full));
}
