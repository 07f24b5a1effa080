use klayer::session::SessionStore;
use klayer::store::Store;
use klayer::tools::session::{log_episode, log_work, purge_journal, recall_session};
use klayer::tools::training::{
    author_example, capture_example, export_dataset, promote_example, queue_weak, seed_from_topics,
    Candidate,
};
use klayer::train::{join_path, sanitize_filename, training_body, PromoteOutcome, TrainStore};
use klayer::types::{EpisodeRow, Kind, KnowledgeRow, StageRow};

const NOW: i64 = 1_700_000_000;

fn store() -> TrainStore {
    TrainStore::new()
}

#[test]
fn collapse_guard_blocks_student_promotion() {
    let mut s = store();
    let sid = s
        .capture_example("d", None, "q?", Some("a"), "grounded", "student", None, None, NOW)
        .unwrap();
    assert_eq!(s.promote_example(sid, NOW), PromoteOutcome::BlockedStudent);

    let rows = s.list_training(Some("d"), Some("proposed"));
    assert_eq!(rows.len(), 1);
    assert_eq!(rows[0].trust, "proposed");

    let tid = s
        .capture_example("d", None, "q2?", Some("a2"), "grounded", "teacher", None, None, NOW)
        .unwrap();
    assert_eq!(s.promote_example(tid, NOW), PromoteOutcome::Promoted);
    assert_eq!(s.promote_example(tid, NOW), PromoteOutcome::NotFound);
    assert_eq!(s.promote_example(99, NOW), PromoteOutcome::NotFound);
}

#[test]
fn export_emits_only_reviewed_and_user() {
    let mut s = store();
    s.capture_example(
        "d", Some("sys"), "PROPOSED_Q?", Some("pa"), "grounded", "teacher", None, None, NOW,
    )
    .unwrap();
    let r = s
        .capture_example("d", Some("sys"), "rq?", Some("ra"), "grounded", "teacher", None, None, NOW)
        .unwrap();
    assert_eq!(s.promote_example(r, NOW), PromoteOutcome::Promoted);
    s.author_example("d", None, "uq?", "ua", "grounded", None, None, NOW).unwrap();

    let files = s.export_dataset(None, "/tmp/out");
    assert_eq!(files.len(), 1);
    assert_eq!(files[0].0.rows, 2);
    assert_eq!(files[0].0.path, "/tmp/out/d.jsonl");

    let content = &files[0].1;
    let lines: Vec<&str> = content.lines().collect();
    assert_eq!(lines.len(), 2);
    for l in &lines {
        let v: serde_json::Value = serde_json::from_str(l).unwrap();
        let msgs = v["messages"].as_array().unwrap();
        let roles: Vec<&str> = msgs.iter().map(|m| m["role"].as_str().unwrap()).collect();
        assert!(roles.contains(&"user"));
        assert!(roles.contains(&"assistant"));
    }
    assert!(!content.contains("PROPOSED_Q?"));
}

#[test]
fn exported_texts_are_escaped_as_json() {
    let mut s = store();
    let odd = "say \"hi\"\n\ttab \\ back \u{1} é 😀";
    s.author_example("d", Some(odd), odd, odd, "refusal", None, None, NOW).unwrap();
    let files = s.export_dataset(Some("d"), "out");
    let v: serde_json::Value = serde_json::from_str(files[0].1.lines().next().unwrap()).unwrap();
    for m in v["messages"].as_array().unwrap() {
        assert_eq!(m["content"].as_str().unwrap(), odd);
    }
    assert!(s.export_dataset(Some("none"), "out").iter().all(|f| f.0.rows == 0));
}

#[test]
fn queue_weak_captures_zero_hit_recalls_once() {
    let mut s = store();
    let ep = |step: i64, q: &str, hits: i64| EpisodeRow {
        id: step,
        run_id: "run1".into(),
        step,
        stage: Some("recall".into()),
        action: Some(format!("recall domain=secdev query={q}")),
        observation: Some(format!("returned {hits} hits")),
        outcome: Some("success".into()),
        ts: 0,
        knowledge_ids_used: Vec::new(),
        domain: None,
        model: None,
        tokens_used: None,
        cost: None,
    };
    let eps = vec![
        ep(1, "how to sanitize input?", 0),
        ep(2, "what is xss?", 5),
        ep(3, "how to sanitize input?", 0),
    ];

    let n = s.queue_weak(&eps, 0, NOW).unwrap();
    assert_eq!(n, 1);

    let rows = s.list_training(Some("secdev"), Some("proposed"));
    assert_eq!(rows.len(), 1);
    assert_eq!(rows[0].provenance, "student");
    assert_eq!(rows[0].label_type, "grounded");
    assert!(rows[0].assistant_content.as_deref().unwrap_or("").is_empty());

    assert_eq!(s.queue_weak(&eps, 0, NOW).unwrap(), 0);
}

#[test]
fn seed_from_topics_emits_varied_student_stubs() {
    let mut s = store();
    let k = |id: i64, kind: &str, title: &str| KnowledgeRow {
        id,
        kind: kind.into(),
        domain: "secdev".into(),
        stage: None,
        title: title.into(),
        body: "body".into(),
        trust: "reviewed".into(),
        enforceable: true,
        severity: Some("block".into()),
        created_at: 0,
        updated_at: 0,
        conflict_with_id: None,
        conflict_status: None,
        retention_days: None,
    };
    let knowledge = vec![k(1, "rule", "validate all input"), k(2, "fact", "TLS 1.3 is preferred")];
    let stages: Vec<StageRow> = vec![];

    let n = s.seed_from_topics("secdev", None, &knowledge, &stages, NOW).unwrap();
    assert_eq!(n, 5);

    let rows = s.list_training(Some("secdev"), Some("proposed"));
    assert_eq!(rows.len(), 5);
    assert!(rows.iter().all(|r| r.provenance == "student"));
    assert!(rows
        .iter()
        .all(|r| r.assistant_content.as_deref().unwrap_or("").is_empty()));
    assert!(rows
        .iter()
        .all(|r| r.retrieval_ref.as_deref().unwrap_or("").starts_with("knowledge:#")));

    assert_eq!(s.seed_from_topics("secdev", None, &knowledge, &stages, NOW).unwrap(), 0);
    let stats = s.stats();
    assert_eq!((stats.total, stats.proposed, stats.reviewed, stats.user), (5, 5, 0, 0));
    assert_eq!(s.clear_all(), 5);
}

#[test]
fn files_of_a_dataset_have_plain_names() {
    assert_eq!(sanitize_filename("a b/c-d_e.f"), "a_b_c-d_e_f");
    assert_eq!(join_path("out", "x"), "out/x");
    assert_eq!(join_path("out/", "x"), "out/x");
    assert!(training_body("q", Some("a")).contains('q'));
}

fn candidate(label: Option<&str>) -> Candidate {
    Candidate {
        domain: "d".into(),
        system_prompt: None,
        user_content: "q?".into(),
        assistant_content: Some("a".into()),
        label_type: label.map(|l| l.to_string()),
        retrieval_ref: None,
        verify_log: None,
    }
}

#[test]
fn the_training_tools_answer_and_note() {
    let mut store = Store::new();
    let mut train = TrainStore::new();
    assert_eq!(
        capture_example(&mut store, &mut train, "r", &candidate(None), None, NOW).unwrap(),
        "Captured training example #1 in 'd' (provenance=teacher, trust=proposed)."
    );
    assert!(capture_example(&mut store, &mut train, "r", &candidate(Some("x")), None, NOW).is_err());
    assert!(capture_example(&mut store, &mut train, "r", &candidate(None), Some("human"), NOW)
        .unwrap_err()
        .starts_with("provenance must be 'teacher' or 'student'"));
    capture_example(&mut store, &mut train, "r", &candidate(None), Some("student"), NOW).unwrap();
    assert_eq!(
        author_example(&mut store, &mut train, "r", &candidate(None), "answer", NOW).unwrap(),
        "Authored training example #3 in 'd' (trust=user, exportable)."
    );
    assert_eq!(
        promote_example(&mut store, &mut train, "r", 1, NOW),
        "Promoted training example #1 to trust=reviewed."
    );
    assert!(promote_example(&mut store, &mut train, "r", 2, NOW).starts_with("Refused: training example #2"));
    assert_eq!(
        promote_example(&mut store, &mut train, "r", 9, NOW),
        "No proposed training example #9 to promote."
    );
    let files = export_dataset(&mut store, &train, "r", None, "out", NOW);
    assert_eq!(files[0].0.rows, 2);
    assert_eq!(
        store.episodes.last().unwrap().observation.as_deref(),
        Some("exported 2 rows across 1 file(s) to out")
    );
}

#[test]
fn questions_come_from_weak_recalls_and_topics() {
    let mut store = Store::new();
    let mut train = TrainStore::new();
    store
        .log_episode_auto(
            "r",
            Some("recall"),
            Some("recall domain=d query=why?"),
            Some("returned 0 hits"),
            Some("success"),
            Some("d"),
            None,
            None,
            None,
            NOW,
        )
        .unwrap();
    assert_eq!(
        queue_weak(&mut store, &mut train, "r", None, NOW).unwrap(),
        "Queued 1 weak-query question-stubs (threshold=0, trust=proposed, provenance=student)."
    );
    assert_eq!(
        seed_from_topics(&mut store, &mut train, "r", "d", None, NOW).unwrap_err(),
        "domain 'd' does not exist — seed_from_topics never creates domains; register it first"
    );
    store.register_domain("d", None, None, None, None, None, None, None, NOW);
    store
        .propose(Kind::Rule, "d", Some("a \"b\""), "seal", "b", None, None, None, None, NOW)
        .unwrap();
    let t = seed_from_topics(&mut store, &mut train, "r", "d", Some("a \"b\""), NOW).unwrap();
    assert!(t.starts_with("Seeded "));
    assert_eq!(
        store.episodes.last().unwrap().action.as_deref(),
        Some("seed_from_topics domain=d stage=Some(\"a \\\"b\\\"\")")
    );
}

// ---- the journal ----------------------------------------------------------

#[test]
fn log_work_and_recall_session_roundtrip() {
    let mut s = SessionStore::new();
    s.log_work("repo1", "done", "did a thing", Some("details"), false, NOW).unwrap();
    s.log_work("repo1", "avoid", "checkpoint entry", None, true, NOW).unwrap();

    let all = s.recall_session("repo1", None, 10, false);
    assert_eq!(all.len(), 2);

    let checkpoints = s.recall_session("repo1", None, 10, true);
    assert_eq!(checkpoints.len(), 1);
    assert!(checkpoints[0].is_checkpoint);

    let cleared = s.clear_journal(Some("repo1"));
    assert_eq!(cleared, 2);
    assert!(s.recall_session("repo1", None, 10, false).is_empty());
}

#[test]
fn the_journal_is_redacted_and_ages() {
    let mut s = SessionStore::new();
    s.log_work("r", "note", "mail leak@example.com", Some("call +1-555-123-4567"), false, NOW)
        .unwrap();
    let row = &s.list_journal(Some("r"))[0];
    assert_eq!(row.title, "mail [REDACTED:EMAIL]");
    assert!(row.body.as_deref().unwrap().contains("[REDACTED:PHONE]"));
    assert_eq!(s.purge_older_than(1, NOW + 86_400 - 1), 0);
    assert_eq!(s.purge_older_than(1, NOW + 2 * 86_400), 1);
    assert!(s.list_journal(None).is_empty());
}

#[test]
fn the_session_tools_answer_and_note() {
    let mut store = Store::new();
    let mut s = SessionStore::new();
    assert_eq!(
        log_work(&mut store, &mut s, "run", "r", "done", "t", None, None, NOW).unwrap(),
        "Logged done entry #1 for 'r' session memory."
    );
    assert_eq!(
        log_work(&mut store, &mut s, "run", "r", "oops", "t", None, None, NOW).unwrap_err(),
        "kind must be 'done', 'failed', 'avoid', 'decision', or 'note'"
    );
    log_work(&mut store, &mut s, "run", "r", "decision", "u", None, Some(true), NOW).unwrap();
    let recent = recall_session(&mut store, &s, "run", "r", None, None, None, NOW).unwrap();
    assert_eq!(recent.len(), 2);
    let marks =
        recall_session(&mut store, &s, "run", "r", None, Some(9), Some("full_session_summary"), NOW)
            .unwrap();
    assert_eq!(marks.len(), 1);
    assert_eq!(
        recall_session(&mut store, &s, "run", "r", None, None, Some("all"), NOW).unwrap_err(),
        "mode must be 'recent_context' or 'full_session_summary'"
    );
    assert_eq!(
        log_episode(&mut store, "run", 7, Some("s"), None, None, None, NOW).unwrap(),
        "Logged episode #5 (run=run, step=7)."
    );
    assert_eq!(purge_journal(&mut store, &mut s, "sweep", 1, NOW + 9 * 86_400), 2);
    assert_eq!(
        store.episodes.last().unwrap().observation.as_deref(),
        Some("purged 2 row(s)")
    );
    assert_eq!(purge_journal(&mut store, &mut s, "sweep", 1, NOW), 0);
}
