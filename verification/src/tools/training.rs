//! The tools for training examples.
use vstd::prelude::*;

use crate::gate::{is_label_type, validate_label_type};
use crate::store::domains::{registered, stage_list};
use crate::store::episodes::episode_list;
use crate::store::knowledge::knowledge_list;
use crate::store::Store;
use crate::text::{debug_form, debug_text, decimal, natural, number, opt, opt_str, same};
use crate::tools::{answer, full, full_text, log, note, stepped};
use crate::train::{asked_all, captured, cut_short, exported_domains, files_of};
use crate::train::{next_training_id, promoted_row, promotion, seed_questions};
use crate::train::{weak_questions, written, Example, ExportFile, PromoteOutcome};
use crate::train::{TrainStore, TrainingRowModel, Written};
use crate::types::{EpisodeRow, KnowledgeRow, StageRow};

verus! {

/// A training example that is handed in.
#[derive(Debug)]
pub struct Candidate {
    pub domain: String,
    pub system_prompt: Option<String>,
    pub user_content: String,
    pub assistant_content: Option<String>,
    pub label_type: Option<String>,
    pub retrieval_ref: Option<String>,
    pub verify_log: Option<String>,
}

/// The label of an example, where nothing is said.
pub open spec fn label_of(label: Option<Seq<char>>) -> Seq<char> {
    match label {
        Some(l) => l,
        None => "grounded"@,
    }
}

/// The example that a candidate is stored as.
pub open spec fn example_of(c: Candidate, trust: Seq<char>, provenance: Seq<char>) -> Example {
    Example {
        domain: c.domain@,
        system_prompt: opt(c.system_prompt),
        user_content: c.user_content@,
        assistant_content: opt(c.assistant_content),
        label_type: label_of(opt(c.label_type)),
        trust,
        provenance,
        retrieval_ref: opt(c.retrieval_ref),
        verify_log: opt(c.verify_log),
    }
}

fn borrowed(t: &Option<String>) -> (r: Option<&str>)
    ensures
        opt_str(r) == opt(*t),
{
    match t {
        Some(s) => Some(s.as_str()),
        None => None,
    }
}

fn label(c: &Candidate) -> (r: &str)
    ensures
        r@ == label_of(opt(c.label_type)),
{
    match &c.label_type {
        Some(l) => l.as_str(),
        None => "grounded",
    }
}

/// Where an example comes from, where nothing is said.
pub open spec fn origin_of(provenance: Option<Seq<char>>) -> Seq<char> {
    match provenance {
        Some(p) => p,
        None => "teacher"@,
    }
}

/// Stores a candidate. Refused where its label or where it comes from is unknown.
pub fn capture_example(
    store: &mut Store,
    train: &mut TrainStore,
    run_id: &str,
    c: &Candidate,
    provenance: Option<&str>,
    now: i64,
) -> (r: Result<String, String>)
    ensures
        ({
            let origin = origin_of(opt_str(provenance));
            let id = next_training_id(old(train)@);
            if !is_label_type(label_of(opt(c.label_type))) {
                &&& final(store)@ == old(store)@
                &&& final(train)@ == old(train)@
                &&& answer(r) == Err::<Seq<char>, Seq<char>>(
                    "label_type must be 'grounded' or 'refusal'"@,
                )
            } else if origin != "teacher"@ && origin != "student"@ {
                &&& final(store)@ == old(store)@
                &&& final(train)@ == old(train)@
                &&& answer(r) == Err::<Seq<char>, Seq<char>>(
                    "provenance must be 'teacher' or 'student' (use author_example for human-authored rows)"@,
                )
            } else if id > i64::MAX {
                &&& final(store)@ == old(store)@
                &&& final(train)@ == old(train)@
                &&& answer(r) == Err::<Seq<char>, Seq<char>>(full())
            } else {
                &&& final(train)@ == captured(
                    old(train)@,
                    example_of(*c, "proposed"@, origin),
                    now,
                )
                &&& final(store)@ == stepped(
                    old(store)@,
                    note(
                        run_id@,
                        "capture_example"@,
                        "capture_example domain="@ + c.domain@ + " provenance="@ + origin,
                        "captured training example #"@ + decimal(id) + " (provenance="@ + origin + ", trust=proposed)"@,
                        "success"@,
                        Some(c.domain@),
                    ),
                    now,
                )
                &&& answer(r) == Ok::<Seq<char>, Seq<char>>(
                    "Captured training example #"@ + decimal(id) + " in '"@ + c.domain@ + "' (provenance="@ + origin + ", trust=proposed)."@,
                )
            }
        }),
{
    if let Err(e) = validate_label_type(label(c)) {
        return Err(e);
    }
    let origin: &str = match provenance {
        Some(p) => p,
        None => "teacher",
    };
    if !same(origin, "teacher") && !same(origin, "student") {
        return Err(
            "provenance must be 'teacher' or 'student' (use author_example for human-authored rows)".to_owned(),
        );
    }
    let stored: Option<i64> = train.capture_example(
        c.domain.as_str(),
        borrowed(&c.system_prompt),
        c.user_content.as_str(),
        borrowed(&c.assistant_content),
        label(c),
        origin,
        borrowed(&c.retrieval_ref),
        borrowed(&c.verify_log),
        now,
    );
    let id: i64 = match stored {
        Some(n) => n,
        None => {
            return Err(full_text());
        },
    };
    let mut action: String = "capture_example domain=".to_owned();
    action.append(c.domain.as_str());
    action.append(" provenance=");
    action.append(origin);
    let mut observation: String = "captured training example #".to_owned();
    observation.append(number(id as i128).as_str());
    observation.append(" (provenance=");
    observation.append(origin);
    observation.append(", trust=proposed)");
    log(
        store,
        run_id,
        "capture_example",
        action.as_str(),
        observation.as_str(),
        "success",
        Some(c.domain.as_str()),
        now,
    );
    let mut t: String = "Captured training example #".to_owned();
    t.append(number(id as i128).as_str());
    t.append(" in '");
    t.append(c.domain.as_str());
    t.append("' (provenance=");
    t.append(origin);
    t.append(", trust=proposed).");
    Ok(t)
}

/// Stores an example that a person wrote, with its answer. Refused where its label is
/// unknown.
pub fn author_example(
    store: &mut Store,
    train: &mut TrainStore,
    run_id: &str,
    c: &Candidate,
    assistant_content: &str,
    now: i64,
) -> (r: Result<String, String>)
    ensures
        ({
            let id = next_training_id(old(train)@);
            if !is_label_type(label_of(opt(c.label_type))) {
                &&& final(store)@ == old(store)@
                &&& final(train)@ == old(train)@
                &&& answer(r) == Err::<Seq<char>, Seq<char>>(
                    "label_type must be 'grounded' or 'refusal'"@,
                )
            } else if id > i64::MAX {
                &&& final(store)@ == old(store)@
                &&& final(train)@ == old(train)@
                &&& answer(r) == Err::<Seq<char>, Seq<char>>(full())
            } else {
                &&& final(train)@ == captured(
                    old(train)@,
                    (Example {
                        assistant_content: Some(assistant_content@),
                        ..example_of(*c, "user"@, "human"@)
                    }),
                    now,
                )
                &&& final(store)@ == stepped(
                    old(store)@,
                    note(
                        run_id@,
                        "author_example"@,
                        "author_example domain="@ + c.domain@,
                        "authored training example #"@ + decimal(id) + " (trust=user)"@,
                        "success"@,
                        Some(c.domain@),
                    ),
                    now,
                )
                &&& answer(r) == Ok::<Seq<char>, Seq<char>>(
                    "Authored training example #"@ + decimal(id) + " in '"@ + c.domain@ + "' (trust=user, exportable)."@,
                )
            }
        }),
{
    if let Err(e) = validate_label_type(label(c)) {
        return Err(e);
    }
    let stored: Option<i64> = train.author_example(
        c.domain.as_str(),
        borrowed(&c.system_prompt),
        c.user_content.as_str(),
        assistant_content,
        label(c),
        borrowed(&c.retrieval_ref),
        borrowed(&c.verify_log),
        now,
    );
    let id: i64 = match stored {
        Some(n) => n,
        None => {
            return Err(full_text());
        },
    };
    let mut action: String = "author_example domain=".to_owned();
    action.append(c.domain.as_str());
    let mut observation: String = "authored training example #".to_owned();
    observation.append(number(id as i128).as_str());
    observation.append(" (trust=user)");
    log(
        store,
        run_id,
        "author_example",
        action.as_str(),
        observation.as_str(),
        "success",
        Some(c.domain.as_str()),
        now,
    );
    let mut t: String = "Authored training example #".to_owned();
    t.append(number(id as i128).as_str());
    t.append(" in '");
    t.append(c.domain.as_str());
    t.append("' (trust=user, exportable).");
    Ok(t)
}

/// What is noted of a promotion.
pub open spec fn promotion_note(o: PromoteOutcome, id: i64) -> Seq<char> {
    match o {
        PromoteOutcome::Promoted => "promoted training example #"@ + decimal(id as int) + " to trust=reviewed"@,
        PromoteOutcome::BlockedStudent => "REFUSED to promote #"@ + decimal(id as int) + ": provenance=student (collapse guard)"@,
        PromoteOutcome::NotFound => "no proposed training example #"@ + decimal(id as int) + " to promote"@,
    }
}

/// What is answered to a promotion.
pub open spec fn promotion_text(o: PromoteOutcome, id: i64) -> Seq<char> {
    match o {
        PromoteOutcome::Promoted => "Promoted training example #"@ + decimal(id as int) + " to trust=reviewed."@,
        PromoteOutcome::BlockedStudent => "Refused: training example #"@ + decimal(id as int) + " has provenance='student' and can never be promoted (model-collapse guard). Capture a teacher-labeled version instead."@,
        PromoteOutcome::NotFound => "No proposed training example #"@ + decimal(id as int) + " to promote."@,
    }
}

/// Promotes a training example. One that comes from the model under training is refused.
pub fn promote_example(store: &mut Store, train: &mut TrainStore, run_id: &str, id: i64, now: i64) -> (r:
    String)
    ensures
        final(train)@ == old(train)@.map_values(
            |t: TrainingRowModel| promoted_row(t, id, now),
        ),
        final(store)@ == stepped(
            old(store)@,
            note(
                run_id@,
                "promote_example"@,
                "promote_example id="@ + decimal(id as int),
                promotion_note(promotion(old(train)@, id), id),
                "success"@,
                None,
            ),
            now,
        ),
        r@ == promotion_text(promotion(old(train)@, id), id),
{
    let outcome: PromoteOutcome = train.promote_example(id, now);
    let mut action: String = "promote_example id=".to_owned();
    action.append(number(id as i128).as_str());
    let (observation, answer): (String, String) = match outcome {
        PromoteOutcome::Promoted => {
            let mut a: String = "promoted training example #".to_owned();
            a.append(number(id as i128).as_str());
            a.append(" to trust=reviewed");
            let mut b: String = "Promoted training example #".to_owned();
            b.append(number(id as i128).as_str());
            b.append(" to trust=reviewed.");
            (a, b)
        },
        PromoteOutcome::BlockedStudent => {
            let mut a: String = "REFUSED to promote #".to_owned();
            a.append(number(id as i128).as_str());
            a.append(": provenance=student (collapse guard)");
            let mut b: String = "Refused: training example #".to_owned();
            b.append(number(id as i128).as_str());
            b.append(" has provenance='student' and can never be promoted (model-collapse guard). Capture a teacher-labeled version instead.");
            (a, b)
        },
        PromoteOutcome::NotFound => {
            let mut a: String = "no proposed training example #".to_owned();
            a.append(number(id as i128).as_str());
            a.append(" to promote");
            let mut b: String = "No proposed training example #".to_owned();
            b.append(number(id as i128).as_str());
            b.append(" to promote.");
            (a, b)
        },
    };
    log(
        store,
        run_id,
        "promote_example",
        action.as_str(),
        observation.as_str(),
        "success",
        None,
        now,
    );
    answer
}

/// How many examples some files hold.
pub open spec fn rows_in(files: Seq<Written>) -> int
    decreases files.len(),
{
    if files.len() == 0 {
        0
    } else {
        rows_in(files.drop_last()) + files.last().rows
    }
}

fn total_rows(files: &Vec<(ExportFile, String)>) -> (r: u128)
    ensures
        r == rows_in(written(files@)),
{
    let ghost all = written(files@);
    let mut n: u128 = 0;
    let mut i: usize = 0;
    assert(rows_in(all.take(0)) == 0);
    while i < files.len()
        invariant
            i <= files@.len(),
            all == written(files@),
            n == rows_in(all.take(i as int)),
            0 <= n <= i * usize::MAX,
        decreases files.len() - i,
    {
        assert(all.take(i + 1).drop_last() =~= all.take(i as int));
        assert(all[i as int].rows == files@[i as int].0.rows);
        assert(i * usize::MAX + usize::MAX == (i + 1) * usize::MAX) by (nonlinear_arith);
        assert((i + 1) * usize::MAX <= 0xffff_ffff_ffff_ffffint * 0xffff_ffff_ffff_ffffint)
            by (nonlinear_arith)
            requires
                0 <= i + 1 <= 0xffff_ffff_ffff_ffffint,
                0 <= usize::MAX <= 0xffff_ffff_ffff_ffffint,
        ;
        n = n + files[i].0.rows as u128;
        i += 1;
    }
    assert(all.take(i as int) =~= all);
    n
}

/// The files of the dataset and what they hold; the step is noted.
pub fn export_dataset(
    store: &mut Store,
    train: &TrainStore,
    run_id: &str,
    domain: Option<&str>,
    out_dir: &str,
    now: i64,
) -> (r: Vec<(ExportFile, String)>)
    ensures
        ({
            let files = files_of(train@, exported_domains(train@, opt_str(domain)), out_dir@);
            &&& written(r@) == files
            &&& final(store)@ == stepped(
                old(store)@,
                note(
                    run_id@,
                    "export_dataset"@,
                    "export_dataset out_dir="@ + out_dir@,
                    "exported "@ + decimal(rows_in(files)) + " rows across "@ + decimal(files.len() as int) + " file(s) to "@ + out_dir@,
                    "success"@,
                    None,
                ),
                now,
            )
        }),
{
    let files: Vec<(ExportFile, String)> = train.export_dataset(domain, out_dir);
    assert(written(files@).len() == files@.len());
    let total: u128 = total_rows(&files);
    let mut action: String = "export_dataset out_dir=".to_owned();
    action.append(out_dir);
    let mut observation: String = "exported ".to_owned();
    observation.append(natural(total).as_str());
    observation.append(" rows across ");
    observation.append(number(files.len() as i128).as_str());
    observation.append(" file(s) to ");
    observation.append(out_dir);
    log(
        store,
        run_id,
        "export_dataset",
        action.as_str(),
        observation.as_str(),
        "success",
        None,
        now,
    );
    files
}

/// The hits below which a recall counts as weak, where nothing is said.
pub open spec fn weak_threshold(threshold: Option<i64>) -> i64 {
    match threshold {
        Some(n) => n,
        None => 0,
    }
}

/// Files the questions of the recalls of late that the knowledge could not answer.
/// Refused where no numbers are left for them.
pub fn queue_weak(
    store: &mut Store,
    train: &mut TrainStore,
    run_id: &str,
    threshold: Option<i64>,
    now: i64,
) -> (r: Result<String, String>)
    ensures
        ({
            let t = weak_threshold(threshold);
            let questions = weak_questions(episode_list(old(store)@, None), t);
            match r {
                Ok(text) => {
                    let n = final(train)@.len() - old(train)@.len();
                    &&& final(train)@ == asked_all(old(train)@, questions, now)
                    &&& final(store)@ == stepped(
                        old(store)@,
                        note(
                            run_id@,
                            "queue_weak"@,
                            "queue_weak threshold="@ + decimal(t as int),
                            "queued "@ + decimal(n) + " weak-query stubs (threshold="@ + decimal(t as int) + ")"@,
                            "success"@,
                            None,
                        ),
                        now,
                    )
                    &&& text@ == "Queued "@ + decimal(n) + " weak-query question-stubs (threshold="@ + decimal(t as int) + ", trust=proposed, provenance=student)."@
                },
                Err(e) => {
                    &&& e@ == full()
                    &&& final(store)@ == old(store)@
                    &&& cut_short(old(train)@, questions, now, final(train)@)
                },
            }
        }),
{
    let t: i64 = match threshold {
        Some(n) => n,
        None => 0,
    };
    let episodes: Vec<EpisodeRow> = store.list_episodes(None);
    let n: usize = match train.queue_weak(episodes.as_slice(), t, now) {
        Some(n) => n,
        None => {
            return Err(full_text());
        },
    };
    let mut action: String = "queue_weak threshold=".to_owned();
    action.append(number(t as i128).as_str());
    let mut observation: String = "queued ".to_owned();
    observation.append(number(n as i128).as_str());
    observation.append(" weak-query stubs (threshold=");
    observation.append(number(t as i128).as_str());
    observation.append(")");
    log(
        store,
        run_id,
        "queue_weak",
        action.as_str(),
        observation.as_str(),
        "success",
        None,
        now,
    );
    let mut answer: String = "Queued ".to_owned();
    answer.append(number(n as i128).as_str());
    answer.append(" weak-query question-stubs (threshold=");
    answer.append(number(t as i128).as_str());
    answer.append(", trust=proposed, provenance=student).");
    Ok(answer)
}

/// A stage that may be missing, as it is noted.
pub open spec fn shown_stage(stage: Option<Seq<char>>) -> Seq<char> {
    match stage {
        Some(t) => "Some("@ + debug_form(t) + ")"@,
        None => "None"@,
    }
}

fn stage_text(stage: Option<&str>) -> (r: String)
    ensures
        r@ == shown_stage(opt_str(stage)),
{
    match stage {
        Some(t) => {
            let mut r: String = "Some(".to_owned();
            r.append(debug_text(t).as_str());
            r.append(")");
            r
        },
        None => "None".to_owned(),
    }
}

/// What is answered where a domain is not registered.
pub open spec fn no_such_domain(domain: Seq<char>) -> Seq<char> {
    "domain '"@ + domain + "' does not exist — seed_from_topics never creates domains; register it first"@
}

/// Files questions about the knowledge and the stages of a domain. Refused where the
/// domain is not registered, and where no numbers are left.
pub fn seed_from_topics(
    store: &mut Store,
    train: &mut TrainStore,
    run_id: &str,
    domain: &str,
    stage: Option<&str>,
    now: i64,
) -> (r: Result<String, String>)
    ensures
        ({
            let questions = seed_questions(
                domain@,
                opt_str(stage),
                knowledge_list(old(store)@, domain@, None, None),
                stage_list(old(store)@, "default"@),
            );
            match r {
                Ok(text) => {
                    let n = final(train)@.len() - old(train)@.len();
                    &&& registered(old(store)@, domain@)
                    &&& final(train)@ == asked_all(old(train)@, questions, now)
                    &&& final(store)@ == stepped(
                        old(store)@,
                        note(
                            run_id@,
                            "seed_from_topics"@,
                            "seed_from_topics domain="@ + domain@ + " stage="@ + shown_stage(opt_str(stage)),
                            "seeded "@ + decimal(n) + " topic stubs for domain '"@ + domain@ + "'"@,
                            "success"@,
                            Some(domain@),
                        ),
                        now,
                    )
                    &&& text@ == "Seeded "@ + decimal(n) + " question-stubs for '"@ + domain@ + "' (trust=proposed, provenance=student)."@
                },
                Err(e) => if !registered(old(store)@, domain@) {
                    &&& e@ == no_such_domain(domain@)
                    &&& final(store)@ == old(store)@
                    &&& final(train)@ == old(train)@
                } else {
                    &&& e@ == full()
                    &&& final(store)@ == old(store)@
                    &&& cut_short(old(train)@, questions, now, final(train)@)
                },
            }
        }),
{
    if !store.domain_exists(domain) {
        let mut t: String = "domain '".to_owned();
        t.append(domain);
        t.append("' does not exist — seed_from_topics never creates domains; register it first");
        return Err(t);
    }
    let knowledge: Vec<KnowledgeRow> = store.list_knowledge(domain, None, None);
    let stages: Vec<StageRow> = store.list_stages("default");
    let filed: Option<usize> = train.seed_from_topics(
        domain,
        stage,
        knowledge.as_slice(),
        stages.as_slice(),
        now,
    );
    let n: usize = match filed {
        Some(n) => n,
        None => {
            return Err(full_text());
        },
    };
    let mut action: String = "seed_from_topics domain=".to_owned();
    action.append(domain);
    action.append(" stage=");
    action.append(stage_text(stage).as_str());
    let mut observation: String = "seeded ".to_owned();
    observation.append(number(n as i128).as_str());
    observation.append(" topic stubs for domain '");
    observation.append(domain);
    observation.append("'");
    log(
        store,
        run_id,
        "seed_from_topics",
        action.as_str(),
        observation.as_str(),
        "success",
        Some(domain),
        now,
    );
    let mut answer: String = "Seeded ".to_owned();
    answer.append(number(n as i128).as_str());
    answer.append(" question-stubs for '");
    answer.append(domain);
    answer.append("' (trust=proposed, provenance=student).");
    Ok(answer)
}

} // verus!
