use klayer::compliance::{build_compliance_report, ComplianceReport, GapReason};
use klayer::gate::{
    execute_change_gate, plan_model_registry_action, recall_with_framing, resolve_harness,
    validate_label_type, ModelRegistryAction, ModelRegistryParams,
};
use klayer::notify::NotifyState;
use klayer::pdf::{layout_compliance_report, truncate};
use klayer::store::Store;
use klayer::tools::admin::{
    asked_results, configure_model_registry, execute_change, may_ingest, note_search, pdf_resource,
    set_knowledge_retention, wants_pdf, RegistryAnswer,
};
use klayer::tools::knowledge::{promote, propose, recall, register_domain, remember, Proposal};
use klayer::tools::knowledge::{
    clear_domain, clear_episodes, clear_knowledge, forget, resolve_conflict, set_domain_permission,
    set_preference,
};
use klayer::tools::Usage;

const NOW: i64 = 1_700_000_000;

fn fixture() -> Store {
    Store::new()
}

fn enforce(store: &mut Store, domain: &str, enforced: bool) {
    store.register_domain(domain, None, None, Some(enforced), None, None, None, None, NOW);
}

fn unreported() -> Usage {
    Usage { model: None, tokens_used: None, cost: None }
}

// ---- changes --------------------------------------------------------------

#[test]
fn execute_change_blocks_enforced_domain_without_prior_recall() {
    let mut store = fixture();
    enforce(&mut store, "secure-coding", true);

    let decision = execute_change_gate(&store, "secure-coding", "run-blocks", false);
    assert!(!decision.allowed, "expected refusal without a prior recall");
    assert_eq!(decision.outcome, "blocked");
}

#[test]
fn execute_change_allows_after_prior_recall_in_same_run() {
    let mut store = fixture();
    enforce(&mut store, "secure-coding", true);
    store.remember("secure-coding", "Always validate input.", NOW).unwrap();

    let run_id = "run-allows";
    store
        .log_episode_auto(
            run_id,
            Some("recall"),
            Some("recall domain=secure-coding query=input"),
            Some("returned 1 hits"),
            Some("success"),
            Some("secure-coding"),
            None,
            None,
            None,
            NOW,
        )
        .unwrap();

    let decision = execute_change_gate(&store, "secure-coding", run_id, false);
    assert!(decision.allowed, "expected success after a prior recall in the same run");
    assert!(!decision.override_used);
    assert_eq!(decision.outcome, "success");
}

#[test]
fn execute_change_override_bypasses_block_and_is_logged() {
    let mut store = fixture();
    enforce(&mut store, "secure-coding", true);

    let run_id = "run-override";
    let decision = execute_change_gate(&store, "secure-coding", run_id, true);
    assert!(decision.allowed, "override:true must bypass the block");
    assert!(decision.override_used);
    assert_eq!(decision.outcome, "override");

    store
        .log_episode_auto(
            run_id,
            Some("execute_change"),
            Some("execute_change domain=secure-coding action=emergency hotfix"),
            Some(&decision.observation),
            Some(&decision.outcome),
            Some("secure-coding"),
            None,
            None,
            None,
            NOW,
        )
        .unwrap();

    let episodes = store.list_episodes(Some(run_id));
    let logged = episodes
        .iter()
        .find(|e| e.stage.as_deref() == Some("execute_change"))
        .expect("execute_change episode must be logged");
    assert_eq!(logged.outcome.as_deref(), Some("override"));
    assert_eq!(logged.domain.as_deref(), Some("secure-coding"));
}

#[test]
fn recall_marks_enforced_domain_items_with_imperative_framing() {
    let mut store = fixture();
    enforce(&mut store, "secure-coding", true);
    enforce(&mut store, "open-notes", false);
    store.remember("secure-coding", "Never log plaintext passwords.", NOW).unwrap();
    store.remember("open-notes", "Never log plaintext passwords.", NOW).unwrap();

    let ranked = store.like_candidates("secure-coding", "passwords", None);
    let enforced_hits = recall_with_framing(&store, "secure-coding", &ranked, 6);
    assert!(
        enforced_hits.iter().any(|h| h
            .body
            .starts_with("MANDATORY RULE — violating this is a compliance failure:")),
        "enforced-domain recall hits must carry imperative framing"
    );

    let ranked = store.like_candidates("open-notes", "passwords", None);
    let open_hits = recall_with_framing(&store, "open-notes", &ranked, 6);
    assert_eq!(open_hits.len(), 1);
    assert!(
        open_hits.iter().all(|h| !h.body.contains("MANDATORY RULE")),
        "non-enforced domain recall hits must not carry imperative framing"
    );
}

#[test]
fn compliance_report_surfaces_override_and_bypass_gaps() {
    let mut store = fixture();
    enforce(&mut store, "secure-coding", true);

    let run_id = "run-compliance-gap";
    let decision = execute_change_gate(&store, "secure-coding", run_id, true);
    assert!(decision.allowed);
    store
        .log_episode_auto(
            run_id,
            Some("execute_change"),
            Some("execute_change domain=secure-coding action=risky change without recall"),
            Some(&decision.observation),
            Some(&decision.outcome),
            Some("secure-coding"),
            None,
            None,
            None,
            NOW,
        )
        .unwrap();

    let report = build_compliance_report(&store, Some(run_id));
    assert!(
        report
            .gaps
            .iter()
            .any(|g| g.run_id == run_id && g.reason.as_str() == "override"),
        "compliance report must surface the override as a gap"
    );
}

#[test]
fn the_tools_close_and_open_a_domain() {
    let mut store = fixture();
    let mut notify = NotifyState::disabled();
    register_domain(
        &mut store, "r", "d", Some("about"), None, Some(true), None, None, None, None, NOW,
    );
    let refused = execute_change(&mut store, "d", "r", "drop table", None, NOW).unwrap_err();
    assert!(refused.starts_with("Refused: domain 'd' is enforced"));
    let (hits, alert) =
        recall(&mut store, &mut notify, "r", "d", "tables", &Vec::new(), None, None, &unreported(), NOW);
    assert!(hits.unwrap().is_empty());
    assert!(alert.is_none());
    assert_eq!(
        execute_change(&mut store, "d", "r", "drop table", None, NOW).unwrap(),
        "Executed change in domain 'd': drop table"
    );
    assert!(execute_change(&mut store, "d", "other", "x", None, NOW).is_err());
    assert_eq!(
        execute_change(&mut store, "d", "other", "x", Some(true), NOW).unwrap(),
        "Executed change in domain 'd': x (override used — no prior recall() in this run)"
    );
    let report = build_compliance_report(&store, Some("other"));
    let reasons: Vec<GapReason> = report.gaps.iter().map(|g| g.reason).collect();
    assert_eq!(reasons, vec![GapReason::NoPriorRecall, GapReason::Override]);
}

// ---- the report -----------------------------------------------------------

fn fixture_store() -> Store {
    let mut store = Store::new();
    let id = store
        .remember("compliance-test", "Always verify approvals before merge.", NOW)
        .expect("remember");
    store
        .log_episode("run-1", 1, Some("plan"), Some("recall"), Some("found rule"), Some("ok"), NOW)
        .expect("log_episode");
    store.set_episode_knowledge_ids(1, &vec![id]);
    store
}

#[test]
fn build_compliance_report_groups_by_run_and_enriches_items() {
    let store = fixture_store();
    let report = build_compliance_report(&store, None);
    assert_eq!(report.runs.len(), 1);
    let run = &report.runs[0];
    assert_eq!(run.run_id, "run-1");
    assert_eq!(run.knowledge_used.len(), 1);
    let item = &run.knowledge_used[0];
    assert_eq!(item.trust, "user");
    assert_eq!(item.approver.as_deref(), Some("user (direct entry)"));
}

#[test]
fn a_report_is_laid_out_on_one_page() {
    let report = build_compliance_report(&fixture_store(), None);
    let pages = layout_compliance_report(&report);
    assert_eq!(pages.len(), 1);
    let texts: Vec<&str> = pages[0].cells.iter().map(|c| c.text.as_str()).collect();
    assert_eq!(texts[0], "Reverse-Explainability Compliance Report");
    assert_eq!(texts[1], "Run: run-1");
    assert_eq!(
        texts[2],
        "1 step(s), 2023-11-14 22:13:20 UTC to 2023-11-14 22:13:20 UTC"
    );
    assert_eq!(texts[3..8], ["ID", "Trust Tier", "Source", "Approver", "Timestamp"]);
    assert_eq!(texts[8..13], ["1", "user", "-", "user (direct entry)", "2023-11-14 22:13:20 UTC"]);
    assert_eq!(texts[13], "Page 1 of 1");
    let first = &pages[0].cells[0];
    assert_eq!((first.x, first.y, first.size, first.bold), (56, 4 * 281 - 30, 18, true));
}

#[test]
fn an_empty_report_has_a_page() {
    let report = ComplianceReport {
        format: "reverse-explainability-compliance-v1".to_string(),
        run_id: None,
        runs: Vec::new(),
        gaps: Vec::new(),
    };
    let pages = layout_compliance_report(&report);
    assert_eq!(pages.len(), 1);
    let texts: Vec<&str> = pages[0].cells.iter().map(|c| c.text.as_str()).collect();
    assert_eq!(
        texts,
        vec![
            "Reverse-Explainability Compliance Report",
            "No episodes recorded.",
            "Page 1 of 1"
        ]
    );
}

#[test]
fn large_runs_go_on_to_further_pages() {
    let mut store = Store::new();
    let mut ids = Vec::new();
    for i in 0..80 {
        ids.push(store.remember("compliance-test", &format!("rule number {i}"), NOW).unwrap());
    }
    store.log_episode("run-big", 1, None, Some("recall"), None, Some("ok"), NOW).unwrap();
    store.set_episode_knowledge_ids(1, &ids);
    let report = build_compliance_report(&store, None);
    assert_eq!(report.runs[0].knowledge_used.len(), 80);
    let pages = layout_compliance_report(&report);
    assert_eq!(pages.len(), 2);
    assert_eq!(pages[1].cells.last().unwrap().text, "Page 2 of 2");
    for c in pages.iter().flat_map(|p| p.cells.iter()) {
        assert!(c.y >= 4 * 10 && c.y <= 4 * 281);
    }
}

#[test]
fn long_texts_are_cut() {
    assert_eq!(truncate("short", 6), "short");
    assert_eq!(truncate("abcdefgh", 4), "a...");
}

#[test]
fn reports_have_names() {
    assert!(wants_pdf(Some("pdf")));
    assert!(!wants_pdf(Some("json")) && !wants_pdf(None));
    let (name, blob) = pdf_resource(Some("r1"), &b"%PDF-".to_vec());
    assert_eq!((name.as_str(), blob.as_str()), ("compliance-report-r1.pdf", "JVBERi0="));
    assert_eq!(pdf_resource(None, &Vec::new()).0, "compliance-report.pdf");
}

// ---- harness and registry -------------------------------------------------

#[test]
fn resolve_harness_prefers_explicit_over_captured() {
    assert_eq!(
        resolve_harness(Some("explicit-harness".into()), Some("captured-harness".into())),
        Some("explicit-harness".into())
    );
}

#[test]
fn resolve_harness_falls_back_to_captured_clientinfo() {
    assert_eq!(
        resolve_harness(None, Some("captured-harness".into())),
        Some("captured-harness".into())
    );
}

#[test]
fn resolve_harness_none_when_neither_supplied() {
    assert_eq!(resolve_harness(None, None), None);
}

fn base_params(action: &str) -> ModelRegistryParams {
    ModelRegistryParams {
        action: action.into(),
        harness: "code-agent".into(),
        model_id: "opus".into(),
        capability_tier: "heavy-reasoning".into(),
        cost_weight: 10,
        sub_agent_name: None,
        domain_type: None,
        task_type: None,
        complexity_tier: None,
        confirm: Some(true),
    }
}

#[test]
fn add_model_plans_an_upsert() {
    let plan = plan_model_registry_action(&base_params("add_model")).unwrap();
    assert_eq!(plan, ModelRegistryAction::UpsertModel);
}

#[test]
fn add_sub_agent_requires_sub_agent_name() {
    let p = base_params("add_sub_agent");
    let e = plan_model_registry_action(&p).unwrap_err();
    assert!(e.contains("sub_agent_name"));
}

#[test]
fn add_sub_agent_with_name_plans_an_upsert() {
    let mut p = base_params("add_sub_agent");
    p.sub_agent_name = Some("frontend-agent".into());
    let plan = plan_model_registry_action(&p).unwrap();
    assert_eq!(plan, ModelRegistryAction::UpsertModel);
}

#[test]
fn add_routing_rule_requires_all_three_routing_fields() {
    let mut p = base_params("add_routing_rule");
    p.domain_type = Some("frontend".into());
    let e = plan_model_registry_action(&p).unwrap_err();
    assert!(e.contains("add_routing_rule requires"));
}

#[test]
fn add_routing_rule_plans_correctly_with_all_fields() {
    let mut p = base_params("add_routing_rule");
    p.domain_type = Some("frontend".into());
    p.task_type = Some("feature".into());
    p.complexity_tier = Some("high".into());
    let plan = plan_model_registry_action(&p).unwrap();
    assert_eq!(
        plan,
        ModelRegistryAction::AddRoutingRule {
            domain_type: "frontend".into(),
            task_type: "feature".into(),
            complexity_tier: "high".into(),
        }
    );
}

#[test]
fn remove_without_routing_fields_targets_the_model_registry() {
    let plan = plan_model_registry_action(&base_params("remove")).unwrap();
    assert_eq!(plan, ModelRegistryAction::RemoveModel);
}

#[test]
fn remove_with_all_routing_fields_targets_a_routing_rule() {
    let mut p = base_params("remove");
    p.domain_type = Some("backend".into());
    p.task_type = Some("crud".into());
    p.complexity_tier = Some("low".into());
    let plan = plan_model_registry_action(&p).unwrap();
    assert_eq!(
        plan,
        ModelRegistryAction::RemoveRoutingRule {
            domain_type: "backend".into(),
            task_type: "crud".into(),
            complexity_tier: "low".into(),
        }
    );
}

#[test]
fn remove_with_partial_routing_fields_is_rejected_not_silently_a_model_delete() {
    let mut p = base_params("remove");
    p.domain_type = Some("backend".into());
    let e = plan_model_registry_action(&p).unwrap_err();
    assert!(e.contains("together"));
}

#[test]
fn unknown_action_is_rejected() {
    let e = plan_model_registry_action(&base_params("delete")).unwrap_err();
    assert!(e.contains("action must be"));
}

#[test]
fn the_registry_changes_once_it_is_confirmed() {
    let mut store = fixture();
    let mut p = base_params("add_model");
    p.confirm = None;
    assert!(matches!(
        configure_model_registry(&mut store, "r", &p, NOW),
        Ok(RegistryAnswer::Preview)
    ));
    assert!(store.models.is_empty() && store.episodes.is_empty());
    p.confirm = Some(true);
    let said = |a: Result<RegistryAnswer, String>| match a {
        Ok(RegistryAnswer::Done(t)) => t,
        _ => panic!("not done"),
    };
    assert_eq!(said(configure_model_registry(&mut store, "r", &p, NOW)), "model registry updated");
    assert_eq!(store.models.len(), 1);
    assert_eq!(store.episodes.len(), 1);
    p.domain_type = Some("backend".into());
    p.task_type = Some("crud".into());
    p.complexity_tier = Some("low".into());
    p.action = "add_routing_rule".into();
    assert_eq!(said(configure_model_registry(&mut store, "r", &p, NOW)), "routing rule added");
    p.action = "remove".into();
    assert_eq!(said(configure_model_registry(&mut store, "r", &p, NOW)), "routing rule removed");
    assert_eq!(
        said(configure_model_registry(&mut store, "r", &p, NOW)),
        "no matching routing rule found"
    );
    p.domain_type = None;
    p.task_type = None;
    p.complexity_tier = None;
    assert_eq!(
        said(configure_model_registry(&mut store, "r", &p, NOW)),
        "model registry entry removed"
    );
    assert_eq!(
        said(configure_model_registry(&mut store, "r", &p, NOW)),
        "no matching model registry entry found"
    );
    p.action = "rename".into();
    assert!(configure_model_registry(&mut store, "r", &p, NOW).is_err());
}

#[test]
fn labels_are_of_two_kinds() {
    assert!(validate_label_type("grounded").is_ok() && validate_label_type("refusal").is_ok());
    assert_eq!(
        validate_label_type("other").unwrap_err(),
        "label_type must be 'grounded' or 'refusal'"
    );
}

// ---- the knowledge tools --------------------------------------------------

fn proposal(kind: &str) -> Proposal {
    Proposal {
        domain: "d".into(),
        kind: kind.into(),
        title: "Title".into(),
        body: "Body".into(),
        stage: None,
        trigger: None,
        severity: None,
        remediation: None,
    }
}

#[test]
fn knowledge_goes_through_the_tools() {
    let mut store = fixture();
    let mut notify = NotifyState::disabled();
    let (a, _) = propose(&mut store, &mut notify, "r", &proposal("rule"), None, NOW);
    assert!(a.is_ok());
    let (b, _) = propose(&mut store, &mut notify, "r", &proposal("law"), None, NOW);
    assert!(b.is_err());
    assert_eq!(store.knowledge.len(), 1);
    promote(&mut store, "r", 1, NOW);
    assert_eq!(store.export_domain_items("d").len(), 1);
    let (c, _) = remember(&mut store, &mut notify, "r", "d", "a fact", None, &unreported(), NOW);
    assert!(c.is_ok());
    assert_eq!(store.knowledge.len(), 2);
    forget(&mut store, "r", 2, NOW);
    assert_eq!(store.knowledge.len(), 1);
    assert!(set_preference(&mut store, "r", None, "short answers", NOW).is_ok());
    assert!(resolve_conflict(&mut store, "r", 1, "shrug", NOW).is_err());
    clear_domain(&mut store, "r", "d", None, NOW);
    assert!(store.knowledge.is_empty());
    clear_knowledge(&mut store, "r", NOW);
    assert!(store.list_episodes(Some("r")).len() >= 7);
    clear_episodes(&mut store, "r", NOW);
    assert!(store.episodes.len() <= 1);
}

#[test]
fn denied_callers_are_told_and_counted() {
    let mut store = fixture();
    let mut notify = NotifyState::disabled();
    notify.enabled = true;
    notify.denials.threshold = 2;
    set_domain_permission(&mut store, "r", "ann", "d", true, NOW);
    let (r, alert) = recall(
        &mut store, &mut notify, "r", "d", "q", &Vec::new(), None, Some("bob"), &unreported(), NOW,
    );
    assert_eq!(r.unwrap_err(), "access denied for identity 'bob' to domain 'd'");
    assert!(alert.is_none());
    let (r, alert) = may_ingest(&store, &mut notify, "d", NOW + 1);
    assert_eq!(r.unwrap_err(), "domain 'd' is restricted");
    let event = alert.unwrap();
    assert_eq!(event.trigger, "domain_denial_spike");
    assert_eq!(event.summary, "Denial spike in domain 'd'");
    assert!(may_ingest(&store, &mut notify, "e", NOW).0.is_ok());
}

#[test]
fn a_recall_notes_the_items_that_it_used() {
    let mut store = fixture();
    let mut notify = NotifyState::disabled();
    let id = store.remember("d", "check the seals", NOW).unwrap();
    let source = store.add_source("web", Some("u"), None, "d", NOW).unwrap();
    store.add_chunks(source, "d", &vec!["seals".to_string()], NOW).unwrap();
    let chunk = store.chunk_candidates(&vec![1], "d")[0];
    let usage = Usage { model: Some("m".into()), tokens_used: Some(12), cost: None };
    let (hits, _) = recall(
        &mut store, &mut notify, "r", "d", "seals", &vec![chunk, id], Some(5), None, &usage, NOW,
    );
    assert_eq!(hits.unwrap().len(), 2);
    let e = &store.episodes[0];
    assert_eq!(e.knowledge_ids_used, vec![id]);
    assert_eq!(e.action.as_deref(), Some("recall domain=d query=seals"));
    assert_eq!(e.observation.as_deref(), Some("returned 2 hits"));
    assert_eq!((e.model.as_deref(), e.tokens_used), (Some("m"), Some(12)));
    let report = build_compliance_report(&store, None);
    assert_eq!(report.runs[0].knowledge_used[0].id, id);
}

#[test]
fn retention_is_set_and_cleared_by_the_tool() {
    let mut store = fixture();
    let id = store.remember("d", "x", NOW).unwrap();
    let t = set_knowledge_retention(&mut store, "r", id, Some(9), None, None, NOW);
    assert_eq!(t, format!("Updated retention override on knowledge #{id}."));
    assert_eq!(store.knowledge[0].retention_days, Some(9));
    assert_eq!(
        store.episodes[0].observation.as_deref(),
        Some("set retention override on knowledge #1 to Some(9) days")
    );
    set_knowledge_retention(&mut store, "r", id, Some(9), Some(true), None, NOW);
    assert_eq!(store.knowledge[0].retention_days, None);
    assert_eq!(set_knowledge_retention(&mut store, "r", 50, None, None, None, NOW), "No item #50.");
}

#[test]
fn searches_of_the_web_are_noted() {
    let mut store = fixture();
    assert_eq!((asked_results(None), asked_results(Some(2))), (5, 2));
    note_search(&mut store, "r", "rust", &Vec::new(), NOW);
    assert_eq!(store.episodes[0].observation.as_deref(), Some("returned 0 results"));
}
