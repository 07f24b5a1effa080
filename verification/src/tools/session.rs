//! The tools for sessions: how hard a task is, the steps of a run, and the journal.
use vstd::prelude::*;

use crate::codebase::{repo_stats, CodeStats, CodeStore, CodeStoreModel};
use crate::gate::resolve_harness;
use crate::session::{entry_of, next_entry_id, replayed, SessionStore};
use crate::store::episodes::{logged, next_episode_id, StepNote};
use crate::store::knowledge::knowledge_list;
use crate::store::registry::{advice, key_of, same_advice, Advice};
use crate::store::{Store, StoreModel};
use crate::table::count_of;
use crate::text::{decimal, number, opt, opt_str, own, same};
use crate::tools::{answer, full, full_text, log, note, stepped};
use crate::types::{models, JournalRow, JournalRowModel, KnowledgeRow};

verus! {

// ---- how hard a task is ---------------------------------------------------

/// How hard a task is, and the model that is recommended for it.
#[derive(Debug)]
pub struct Estimate {
    pub complexity_tier: String,
    pub harness: String,
    /// Whether the size of the code or that of the knowledge was looked at.
    pub signal_source: String,
    pub signal: i128,
    pub repo: Option<String>,
    /// The model, the key of its cost weight, and why it is recommended.
    pub recommendation: Option<(String, i64, String)>,
}

/// How much code a task touches.
pub open spec fn code_size(code: CodeStoreModel, repo: Option<Seq<char>>) -> CodeStats {
    match repo {
        Some(r) => repo_stats(code, r),
        None => CodeStats {
            repos: count_of(code.repos.len() as int),
            files: count_of(code.files.len() as int),
            chunks: count_of(code.chunks.len() as int),
        },
    }
}

/// What tells how hard a task is: the size of the code, where there is some, else the
/// number of items that are known of the domain.
pub open spec fn signal_of(s: StoreModel, size: CodeStats, domain: Option<Seq<char>>) -> int {
    if size.files > 0 {
        size.files + size.chunks / 4
    } else {
        match domain {
            Some(d) => knowledge_list(s, d, None, None).len() as int,
            None => 0,
        }
    }
}

/// The tier of a signal.
pub open spec fn tier_of(signal: int) -> Seq<char> {
    if signal >= 50 {
        "high"@
    } else if signal >= 10 {
        "medium"@
    } else {
        "low"@
    }
}

/// The tier of a signal.
pub fn complexity(signal: i128) -> (r: &'static str)
    ensures
        r@ == tier_of(signal as int),
{
    if signal >= 50 {
        "high"
    } else if signal >= 10 {
        "medium"
    } else {
        "low"
    }
}

/// A recommendation in words.
pub open spec fn advice_text(a: Option<Advice>) -> Seq<char> {
    match a {
        Some(x) => x.model_id + " ("@ + x.reason + ")"@,
        None => "none"@,
    }
}

/// What is answered where it is not known which program asks.
pub open spec fn no_harness() -> Seq<char> {
    "harness was not supplied and no clientInfo harness was captured for this connection — pass harness explicitly"@
}

/// Estimates how hard a task is, and recommends a model for it. Refused where it is not
/// known which program asks.
pub fn estimate_task_complexity(
    store: &mut Store,
    code: &CodeStore,
    run_id: &str,
    explicit: Option<String>,
    captured: Option<String>,
    domain_type: &str,
    task_type: &str,
    domain: Option<&str>,
    repo: Option<&str>,
    now: i64,
) -> (r: Result<Estimate, String>)
    ensures
        match if explicit is Some {
            explicit
        } else {
            captured
        } {
            None => {
                &&& final(store)@ == old(store)@
                &&& r matches Err(e) && e@ == no_harness()
            },
            Some(harness) => {
                let size = code_size(code@, opt_str(repo));
                let signal = signal_of(old(store)@, size, opt_str(domain));
                let best = advice(
                    old(store)@,
                    key_of(harness@, domain_type@, task_type@, tier_of(signal)),
                );
                &&& final(store)@ == stepped(
                    old(store)@,
                    note(
                        run_id@,
                        "model_recommendation"@,
                        "estimate_task_complexity harness="@ + harness@ + " domain_type="@ + domain_type@ + " task_type="@ + task_type@ + " complexity="@ + tier_of(signal),
                        "recommended model="@ + advice_text(best),
                        "success"@,
                        opt_str(domain),
                    ),
                    now,
                )
                &&& r matches Ok(e) && {
                    &&& e.complexity_tier@ == tier_of(signal)
                    &&& e.harness@ == harness@
                    &&& e.signal_source@ == (if size.files > 0 {
                        "codebase"@
                    } else {
                        "domain"@
                    })
                    &&& e.signal == signal
                    &&& opt(e.repo) == opt_str(repo)
                    &&& same_advice(e.recommendation, best)
                }
            },
        },
{
    let harness: String = match resolve_harness(explicit, captured) {
        Some(h) => h,
        None => {
            return Err(
                "harness was not supplied and no clientInfo harness was captured for this connection — pass harness explicitly".to_owned(),
            );
        },
    };
    let size: CodeStats = match repo {
        Some(r) => code.stats_for_repo(r),
        None => code.stats(),
    };
    let (source, signal): (&str, i128) = if size.files > 0 {
        proof {
            lemma_counts(code@, opt_str(repo));
        }
        ("codebase", size.files as i128 + (size.chunks as i128) / 4)
    } else {
        match domain {
            Some(d) => {
                let rows: Vec<KnowledgeRow> = store.list_knowledge(d, None, None);
                assert(models(rows@).len() == rows@.len());
                ("domain", rows.len() as i128)
            },
            None => ("domain", 0),
        }
    };
    let tier: &str = complexity(signal);
    let best: Option<(String, i64, String)> = store.recommend_model(
        harness.as_str(),
        domain_type,
        task_type,
        tier,
    );
    let mut action: String = "estimate_task_complexity harness=".to_owned();
    action.append(harness.as_str());
    action.append(" domain_type=");
    action.append(domain_type);
    action.append(" task_type=");
    action.append(task_type);
    action.append(" complexity=");
    action.append(tier);
    let mut observation: String = "recommended model=".to_owned();
    let mut summary: String = String::new();
    match &best {
        Some(x) => {
            summary.append(x.0.as_str());
            summary.append(" (");
            summary.append(x.2.as_str());
            summary.append(")");
        },
        None => {
            summary.append("none");
        },
    }
    assert(summary@ =~= advice_text(
        advice(old(store)@, key_of(harness@, domain_type@, task_type@, tier@)),
    ));
    observation.append(summary.as_str());
    log(
        store,
        run_id,
        "model_recommendation",
        action.as_str(),
        observation.as_str(),
        "success",
        domain,
        now,
    );
    Ok(
        Estimate {
            complexity_tier: tier.to_owned(),
            harness,
            signal_source: source.to_owned(),
            signal,
            repo: own(repo),
            recommendation: best,
        },
    )
}

proof fn lemma_counts(code: CodeStoreModel, repo: Option<Seq<char>>)
    ensures
        code_size(code, repo).chunks >= 0,
{
}

// ---- steps ----------------------------------------------------------------

/// Notes a step of a run under a number of the caller's.
pub fn log_episode(
    store: &mut Store,
    run_id: &str,
    step: i64,
    stage: Option<&str>,
    action: Option<&str>,
    observation: Option<&str>,
    outcome: Option<&str>,
    now: i64,
) -> (r: Result<String, String>)
    ensures
        final(store)@ == logged(
            old(store)@,
            (StepNote {
                run_id: run_id@,
                stage: opt_str(stage),
                action: opt_str(action),
                observation: opt_str(observation),
                outcome: opt_str(outcome),
                domain: None,
                model: None,
                tokens_used: None,
                cost: None,
            }),
            step,
            now,
        ),
        answer(r) == (if next_episode_id(old(store)@) > i64::MAX {
            Err::<Seq<char>, Seq<char>>(full())
        } else {
            Ok::<Seq<char>, Seq<char>>(
                "Logged episode #"@ + decimal(next_episode_id(old(store)@)) + " (run="@ + run_id@ + ", step="@ + decimal(step as int) + ")."@,
            )
        }),
{
    match store.log_episode(run_id, step, stage, action, observation, outcome, now) {
        Some(id) => {
            let mut t: String = "Logged episode #".to_owned();
            t.append(number(id as i128).as_str());
            t.append(" (run=");
            t.append(run_id);
            t.append(", step=");
            t.append(number(step as i128).as_str());
            t.append(").");
            Ok(t)
        },
        None => Err(full_text()),
    }
}

// ---- the journal ----------------------------------------------------------

/// The kinds of entries.
pub open spec fn is_entry_kind(k: Seq<char>) -> bool {
    ||| k == "done"@
    ||| k == "failed"@
    ||| k == "avoid"@
    ||| k == "decision"@
    ||| k == "note"@
}

/// Writes an entry into the journal of a repository. Refused where the kind is unknown.
pub fn log_work(
    store: &mut Store,
    session: &mut SessionStore,
    run_id: &str,
    repo: &str,
    kind: &str,
    title: &str,
    body: Option<&str>,
    is_checkpoint: Option<bool>,
    now: i64,
) -> (r: Result<String, String>)
    ensures
        ({
            let id = next_entry_id(old(session)@);
            if !is_entry_kind(kind@) {
                &&& final(store)@ == old(store)@
                &&& final(session)@ == old(session)@
                &&& answer(r) == Err::<Seq<char>, Seq<char>>(
                    "kind must be 'done', 'failed', 'avoid', 'decision', or 'note'"@,
                )
            } else if id > i64::MAX {
                &&& final(store)@ == old(store)@
                &&& final(session)@ == old(session)@
                &&& answer(r) == Err::<Seq<char>, Seq<char>>(full())
            } else {
                &&& final(session)@ == old(session)@.push(
                    entry_of(
                        id,
                        repo@,
                        kind@,
                        title@,
                        opt_str(body),
                        now,
                        is_checkpoint == Some(true),
                    ),
                )
                &&& final(store)@ == stepped(
                    old(store)@,
                    note(
                        run_id@,
                        "log_work"@,
                        "log_work repo="@ + repo@ + " kind="@ + kind@,
                        "journaled entry #"@ + decimal(id) + " ("@ + kind@ + ")"@,
                        "success"@,
                        None,
                    ),
                    now,
                )
                &&& answer(r) == Ok::<Seq<char>, Seq<char>>(
                    "Logged "@ + kind@ + " entry #"@ + decimal(id) + " for '"@ + repo@ + "' session memory."@,
                )
            }
        }),
{
    if !(same(kind, "done") || same(kind, "failed") || same(kind, "avoid") || same(
        kind,
        "decision",
    ) || same(kind, "note")) {
        return Err("kind must be 'done', 'failed', 'avoid', 'decision', or 'note'".to_owned());
    }
    let checkpoint: bool = match is_checkpoint {
        Some(c) => c,
        None => false,
    };
    let id: i64 = match session.log_work(repo, kind, title, body, checkpoint, now) {
        Some(n) => n,
        None => {
            return Err(full_text());
        },
    };
    let mut action: String = "log_work repo=".to_owned();
    action.append(repo);
    action.append(" kind=");
    action.append(kind);
    let mut observation: String = "journaled entry #".to_owned();
    observation.append(number(id as i128).as_str());
    observation.append(" (");
    observation.append(kind);
    observation.append(")");
    log(
        store,
        run_id,
        "log_work",
        action.as_str(),
        observation.as_str(),
        "success",
        None,
        now,
    );
    let mut t: String = "Logged ".to_owned();
    t.append(kind);
    t.append(" entry #");
    t.append(number(id as i128).as_str());
    t.append(" for '");
    t.append(repo);
    t.append("' session memory.");
    Ok(t)
}

/// How many entries are replayed, where nothing is said.
pub open spec fn asked_entries(k: Option<u32>) -> int {
    match k {
        Some(n) => n as int,
        None => 30,
    }
}

/// How a journal is replayed, where nothing is said.
pub open spec fn replay_mode(mode: Option<Seq<char>>) -> Seq<char> {
    match mode {
        Some(m) => m,
        None => "recent_context"@,
    }
}

/// Replays the journal of a repository: the latest entries, or the checkpoints. Refused
/// where anything else is asked for.
pub fn recall_session(
    store: &mut Store,
    session: &SessionStore,
    run_id: &str,
    repo: &str,
    kind: Option<&str>,
    k: Option<u32>,
    mode: Option<&str>,
    now: i64,
) -> (r: Result<Vec<JournalRow>, String>)
    ensures
        ({
            let mode = replay_mode(opt_str(mode));
            if mode != "recent_context"@ && mode != "full_session_summary"@ {
                &&& final(store)@ == old(store)@
                &&& r matches Err(e) && e@
                    == "mode must be 'recent_context' or 'full_session_summary'"@
            } else {
                let rows = replayed(
                    session@,
                    repo@,
                    opt_str(kind),
                    asked_entries(k),
                    mode == "full_session_summary"@,
                );
                &&& r matches Ok(v) && models(v@) == rows
                &&& final(store)@ == stepped(
                    old(store)@,
                    note(
                        run_id@,
                        "recall_session"@,
                        "recall_session repo="@ + repo@,
                        "returned "@ + decimal(rows.len() as int) + " journal entries"@,
                        "success"@,
                        None,
                    ),
                    now,
                )
            }
        }),
{
    let mode: &str = match mode {
        Some(m) => m,
        None => "recent_context",
    };
    let summary: bool = same(mode, "full_session_summary");
    if !same(mode, "recent_context") && !summary {
        return Err("mode must be 'recent_context' or 'full_session_summary'".to_owned());
    }
    let n: usize = match k {
        Some(n) => n as usize,
        None => 30,
    };
    let rows: Vec<JournalRow> = session.recall_session(repo, kind, n, summary);
    assert(models(rows@).len() == rows@.len());
    let mut action: String = "recall_session repo=".to_owned();
    action.append(repo);
    let mut observation: String = "returned ".to_owned();
    observation.append(number(rows.len() as i128).as_str());
    observation.append(" journal entries");
    log(
        store,
        run_id,
        "recall_session",
        action.as_str(),
        observation.as_str(),
        "success",
        None,
        now,
    );
    Ok(rows)
}

/// What is logged once entries of the journal whose time was over were removed.
pub fn purge_journal(
    store: &mut Store,
    session: &mut SessionStore,
    run_id: &str,
    days: i64,
    now: i64,
) -> (r: usize)
    ensures
        final(session)@ == old(session)@.filter(
            |e: JournalRowModel| !crate::session::is_outdated(e, days, now),
        ),
        r == old(session)@.len() - final(session)@.len(),
        final(store)@ == (if r > 0 {
            stepped(
                old(store)@,
                note(
                    run_id@,
                    "retention_sweep"@,
                    "purge session journal rows older than "@ + decimal(days as int) + " days"@,
                    "purged "@ + decimal(r as int) + " row(s)"@,
                    "success"@,
                    None,
                ),
                now,
            )
        } else {
            old(store)@
        }),
{
    let n: usize = session.purge_older_than(days, now);
    if n > 0 {
        let mut action: String = "purge session journal rows older than ".to_owned();
        action.append(number(days as i128).as_str());
        action.append(" days");
        let mut observation: String = "purged ".to_owned();
        observation.append(number(n as i128).as_str());
        observation.append(" row(s)");
        log(
            store,
            run_id,
            "retention_sweep",
            action.as_str(),
            observation.as_str(),
            "success",
            None,
            now,
        );
    }
    n
}

} // verus!
