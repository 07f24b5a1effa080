//! The tools for the web, for documents, for retention, for changes and for models.
use vstd::prelude::*;

use crate::gate::{execute_change_gate, gate_observation, gate_outcome, is_gated};
use crate::gate::{plan_model_registry_action, registry_plan, ExecuteChangeDecision};
use crate::gate::{ModelRegistryAction, ModelRegistryParams, RegistryPlan};
use crate::ingest::{chunk, chunked, document_text, document_title, extract, Fetched, PdfText};
use crate::media::{base64_encoded, encode_base64};
use crate::notify::{denial_noted, NotifyState, RelayEvent};
use crate::store::acl::may_use;
use crate::store::knowledge::{clamped, known, retained_item};
use crate::store::registry::{configured, is_model, is_rule, key_of, ruled, without_model};
use crate::store::sources::{next_chunk_id, next_source_id, with_chunks};
use crate::store::{KnowledgeItemModel, Store, StoreModel};
use crate::table::some_match;
use crate::text::{decimal, number, opt, opt_str, same};
use crate::tools::{answer, event, full, full_text, log, log_usage, note, reported, stepped, Usage};
use crate::types::{ModelRegistryRowModel, RoutingRuleRowModel, SearchResult, SourceRowModel};

verus! {

// ---- the web --------------------------------------------------------------

/// How many results a search of the web is asked for.
pub fn asked_results(limit: Option<u32>) -> (r: usize)
    ensures
        r == (match limit {
            Some(n) => n as int,
            None => 5,
        }),
{
    match limit {
        Some(n) => n as usize,
        None => 5,
    }
}

/// Notes a search of the web and what it came to.
pub fn note_search(store: &mut Store, run_id: &str, query: &str, results: &Vec<SearchResult>, now: i64)
    ensures
        final(store)@ == stepped(
            old(store)@,
            note(
                run_id@,
                "search_web"@,
                "search_web query="@ + query@,
                "returned "@ + decimal(results@.len() as int) + " results"@,
                "success"@,
                None,
            ),
            now,
        ),
{
    let mut action: String = "search_web query=".to_owned();
    action.append(query);
    let mut observation: String = "returned ".to_owned();
    observation.append(number(results.len() as i128).as_str());
    observation.append(" results");
    log(
        store,
        run_id,
        "search_web",
        action.as_str(),
        observation.as_str(),
        "success",
        None,
        now,
    );
}

// ---- documents ------------------------------------------------------------

/// Whether documents may be added to a domain. Refused where the domain is restricted,
/// which counts as a denial; gives the event that is to be told of it, if one is.
pub fn may_ingest(store: &Store, notify: &mut NotifyState, domain: &str, now: i64) -> (r: (
    Result<(), String>,
    Option<RelayEvent>,
))
    requires
        old(notify).denials.wf(),
    ensures
        final(notify).denials.wf(),
        if may_use(store@, None, domain@) {
            &&& r.0 is Ok
            &&& r.1 is None
            &&& *final(notify) == *old(notify)
        } else {
            &&& r.0 matches Err(e) && e@ == "domain '"@ + domain@ + "' is restricted"@
            &&& denial_noted(*old(notify), *final(notify), domain@, now, event(r.1))
        },
{
    if store.domain_allowed(None, domain) {
        return (Ok(()), None);
    }
    let alert: Option<RelayEvent> = notify.record_denial(domain, now);
    let mut t: String = "domain '".to_owned();
    t.append(domain);
    t.append("' is restricted");
    (Err(t), alert)
}

/// The size of the chunks that a document is cut into.
pub const INGEST_CHUNK: usize = 800;

/// The store with a source from the web.
pub open spec fn with_web_source(
    s: StoreModel,
    url: Seq<char>,
    title: Seq<char>,
    domain: Seq<char>,
    now: i64,
) -> StoreModel {
    StoreModel {
        sources: s.sources.push(
            SourceRowModel {
                id: next_source_id(s) as i64,
                kind: "web"@,
                uri: Some(url),
                title: Some(title),
                domain,
                fetched_at: now,
                trust: "untrusted"@,
            },
        ),
        ..s
    }
}

/// Adds a document that was fetched to a domain: cut into chunks, and not trusted. A
/// document without a text is noted as an error. Refused where no number is left for the
/// source, or for its chunks.
pub fn ingest(
    store: &mut Store,
    run_id: &str,
    url: &str,
    domain: &str,
    fetched: &Fetched,
    pdf: &PdfText,
    usage: &Usage,
    now: i64,
) -> (r: Result<String, String>)
    ensures
        ({
            let title = document_title(fetched.content_type@, fetched.body@);
            let parts = chunked(
                document_text(fetched.content_type@, fetched.body@, *pdf),
                800,
            );
            let action = "ingest url="@ + url@ + " domain="@ + domain@;
            let id = next_source_id(old(store)@);
            let sourced = with_web_source(old(store)@, url@, title, domain@, now);
            if parts.len() == 0 {
                &&& answer(r) == Ok::<Seq<char>, Seq<char>>("No extractable text at "@ + url@)
                &&& final(store)@ == stepped(
                    old(store)@,
                    reported(
                        note(
                            run_id@,
                            "ingest"@,
                            action,
                            "no extractable text"@,
                            "error"@,
                            Some(domain@),
                        ),
                        *usage,
                    ),
                    now,
                )
            } else if id > i64::MAX {
                &&& answer(r) == Err::<Seq<char>, Seq<char>>(full())
                &&& final(store)@ == old(store)@
            } else if next_chunk_id(old(store)@) + parts.len() > i64::MAX + 1 {
                &&& answer(r) == Err::<Seq<char>, Seq<char>>(full())
                &&& final(store)@ == sourced
            } else {
                &&& answer(r) == Ok::<Seq<char>, Seq<char>>(
                    "Ingested "@ + decimal(parts.len() as int) + " chunks from \""@ + title + "\" into domain '"@ + domain@ + "' (source #"@ + decimal(id) + ", type="@ + fetched.content_type@ + ", trust=untrusted)."@,
                )
                &&& final(store)@ == stepped(
                    with_chunks(sourced, id as i64, domain@, parts, now),
                    reported(
                        note(
                            run_id@,
                            "ingest"@,
                            action,
                            "ingested "@ + decimal(parts.len() as int) + " chunks from \""@ + title + "\""@,
                            "success"@,
                            Some(domain@),
                        ),
                        *usage,
                    ),
                    now,
                )
            }
        }),
{
    let (title, text): (String, String) = extract(fetched, pdf);
    let parts: Vec<String> = chunk(text.as_str(), INGEST_CHUNK);
    assert(crate::text::texts(parts@).len() == parts@.len());
    let mut action: String = "ingest url=".to_owned();
    action.append(url);
    action.append(" domain=");
    action.append(domain);
    if parts.len() == 0 {
        log_usage(
            store,
            run_id,
            "ingest",
            action.as_str(),
            "no extractable text",
            "error",
            Some(domain),
            usage,
            now,
        );
        let mut t: String = "No extractable text at ".to_owned();
        t.append(url);
        return Ok(t);
    }
    let added: Option<i64> = store.add_source("web", Some(url), Some(title.as_str()), domain, now);
    let id: i64 = match added {
        Some(n) => n,
        None => {
            return Err(full_text());
        },
    };
    assert(store@ =~= with_web_source(old(store)@, url@, title@, domain@, now));
    let n: usize = match store.add_chunks(id, domain, &parts, now) {
        Some(n) => n,
        None => {
            return Err(full_text());
        },
    };
    let mut observation: String = "ingested ".to_owned();
    observation.append(number(n as i128).as_str());
    observation.append(" chunks from \"");
    observation.append(title.as_str());
    observation.append("\"");
    log_usage(
        store,
        run_id,
        "ingest",
        action.as_str(),
        observation.as_str(),
        "success",
        Some(domain),
        usage,
        now,
    );
    let mut t: String = "Ingested ".to_owned();
    t.append(number(n as i128).as_str());
    t.append(" chunks from \"");
    t.append(title.as_str());
    t.append("\" into domain '");
    t.append(domain);
    t.append("' (source #");
    t.append(number(id as i128).as_str());
    t.append(", type=");
    t.append(fetched.content_type.as_str());
    t.append(", trust=untrusted).");
    Ok(t)
}

// ---- retention ------------------------------------------------------------

/// A number of days that may be missing, as it is noted.
pub open spec fn shown_days(days: Option<i64>) -> Seq<char> {
    match days {
        Some(n) => "Some("@ + decimal(n as int) + ")"@,
        None => "None"@,
    }
}

fn days_text(days: Option<i64>) -> (r: String)
    ensures
        r@ == shown_days(days),
{
    match days {
        Some(n) => {
            let mut t: String = "Some(".to_owned();
            t.append(number(n as i128).as_str());
            t.append(")");
            t
        },
        None => "None".to_owned(),
    }
}

/// Sets or clears how long an item is kept.
pub fn set_knowledge_retention(
    store: &mut Store,
    run_id: &str,
    id: i64,
    retention_days: Option<i64>,
    clear: Option<bool>,
    max_retention_days: Option<i64>,
    now: i64,
) -> (r: String)
    ensures
        ({
            let days = if clear == Some(true) {
                None
            } else {
                retention_days
            };
            let there = known(old(store)@, id);
            &&& final(store)@ == stepped(
                (StoreModel {
                    knowledge: old(store)@.knowledge.map_values(
                        |k: KnowledgeItemModel|
                            retained_item(k, id, clamped(days, max_retention_days)),
                    ),
                    ..old(store)@
                }),
                note(
                    run_id@,
                    "set_knowledge_retention"@,
                    "set_knowledge_retention id="@ + decimal(id as int),
                    if there {
                        "set retention override on knowledge #"@ + decimal(id as int) + " to "@ + shown_days(days) + " days"@
                    } else {
                        "no knowledge item #"@ + decimal(id as int) + " found"@
                    },
                    "success"@,
                    None,
                ),
                now,
            )
            &&& r@ == if there {
                "Updated retention override on knowledge #"@ + decimal(id as int) + "."@
            } else {
                "No item #"@ + decimal(id as int) + "."@
            }
        }),
{
    let days: Option<i64> = match clear {
        Some(true) => None,
        _ => retention_days,
    };
    let done: bool = store.set_knowledge_retention(id, days, max_retention_days);
    let mut action: String = "set_knowledge_retention id=".to_owned();
    action.append(number(id as i128).as_str());
    if done {
        let mut observation: String = "set retention override on knowledge #".to_owned();
        observation.append(number(id as i128).as_str());
        observation.append(" to ");
        observation.append(days_text(days).as_str());
        observation.append(" days");
        log(
            store,
            run_id,
            "set_knowledge_retention",
            action.as_str(),
            observation.as_str(),
            "success",
            None,
            now,
        );
        let mut t: String = "Updated retention override on knowledge #".to_owned();
        t.append(number(id as i128).as_str());
        t.append(".");
        t
    } else {
        let mut observation: String = "no knowledge item #".to_owned();
        observation.append(number(id as i128).as_str());
        observation.append(" found");
        log(
            store,
            run_id,
            "set_knowledge_retention",
            action.as_str(),
            observation.as_str(),
            "success",
            None,
            now,
        );
        let mut t: String = "No item #".to_owned();
        t.append(number(id as i128).as_str());
        t.append(".");
        t
    }
}

// ---- changes --------------------------------------------------------------

/// What is answered to a change that is refused.
pub open spec fn refused_change(domain: Seq<char>, run_id: Seq<char>) -> Seq<char> {
    "Refused: domain '"@ + domain + "' is enforced and no recall() against it has been logged in run '"@ + run_id + "'. Call recall(domain=\""@ + domain + "\", ...) first, or pass override:true (this bypass will be logged and surfaced in compliance reports)."@
}

/// Makes a change in a domain. Where the domain is enforced, the run must have recalled
/// it before; an override is let through and noted as one.
pub fn execute_change(
    store: &mut Store,
    domain: &str,
    run_id: &str,
    change: &str,
    override_flag: Option<bool>,
    now: i64,
) -> (r: Result<String, String>)
    ensures
        ({
            let gated = is_gated(old(store)@, domain@, run_id@);
            let forced = override_flag == Some(true);
            &&& final(store)@ == stepped(
                old(store)@,
                note(
                    run_id@,
                    "execute_change"@,
                    "execute_change domain="@ + domain@ + " action="@ + change@,
                    gate_observation(gated, forced, domain@, run_id@),
                    gate_outcome(gated, forced),
                    Some(domain@),
                ),
                now,
            )
            &&& answer(r) == if gated && !forced {
                Err::<Seq<char>, Seq<char>>(refused_change(domain@, run_id@))
            } else {
                Ok::<Seq<char>, Seq<char>>(
                    "Executed change in domain '"@ + domain@ + "': "@ + change@ + (if gated {
                        " (override used — no prior recall() in this run)"@
                    } else {
                        seq![]
                    }),
                )
            }
        }),
{
    let forced: bool = match override_flag {
        Some(f) => f,
        None => false,
    };
    let decision: ExecuteChangeDecision = execute_change_gate(store, domain, run_id, forced);
    let mut action: String = "execute_change domain=".to_owned();
    action.append(domain);
    action.append(" action=");
    action.append(change);
    log(
        store,
        run_id,
        "execute_change",
        action.as_str(),
        decision.observation.as_str(),
        decision.outcome.as_str(),
        Some(domain),
        now,
    );
    if !decision.allowed {
        let mut t: String = "Refused: domain '".to_owned();
        t.append(domain);
        t.append("' is enforced and no recall() against it has been logged in run '");
        t.append(run_id);
        t.append("'. Call recall(domain=\"");
        t.append(domain);
        t.append("\", ...) first, or pass override:true (this bypass will be logged and surfaced in compliance reports).");
        return Err(t);
    }
    let mut t: String = "Executed change in domain '".to_owned();
    t.append(domain);
    t.append("': ");
    t.append(change);
    if decision.override_used {
        t.append(" (override used — no prior recall() in this run)");
    } else {
        assert(t@ + Seq::<char>::empty() =~= t@);
    }
    Ok(t)
}

// ---- models ---------------------------------------------------------------

/// What a request to change the model registry came to.
#[derive(Debug)]
pub enum RegistryAnswer {
    /// The change is only shown, and waits to be confirmed.
    Preview,
    /// The change was made; what is said of it.
    Done(String),
}

/// The store after a change of the model registry.
pub open spec fn reconfigured(s: StoreModel, p: ModelRegistryParams, plan: RegistryPlan) -> StoreModel {
    match plan {
        RegistryPlan::UpsertModel => configured(
            s,
            ModelRegistryRowModel {
                harness: p.harness@,
                model_id: p.model_id@,
                capability_tier: p.capability_tier@,
                cost_weight: p.cost_weight,
                sub_agent_name: opt(p.sub_agent_name),
            },
        ),
        RegistryPlan::AddRoutingRule(d, t, c) => ruled(
            s,
            key_of(p.harness@, d, t, c),
            p.model_id@,
        ),
        RegistryPlan::RemoveRoutingRule(d, t, c) => StoreModel {
            rules: s.rules.filter(
                |r: RoutingRuleRowModel| !is_rule(r, key_of(p.harness@, d, t, c)),
            ),
            ..s
        },
        RegistryPlan::RemoveModel => without_model(
            s,
            p.harness@,
            p.model_id@,
            opt(p.sub_agent_name),
        ),
        RegistryPlan::Refused(_) => s,
    }
}

/// What is said of a change of the model registry.
pub open spec fn registry_note(s: StoreModel, p: ModelRegistryParams, plan: RegistryPlan) -> Seq<char> {
    match plan {
        RegistryPlan::UpsertModel => "model registry updated"@,
        RegistryPlan::AddRoutingRule(_, _, _) => "routing rule added"@,
        RegistryPlan::RemoveRoutingRule(d, t, c) => if some_match(
            s.rules,
            |r: RoutingRuleRowModel| is_rule(r, key_of(p.harness@, d, t, c)),
        ) {
            "routing rule removed"@
        } else {
            "no matching routing rule found"@
        },
        RegistryPlan::RemoveModel => if some_match(
            s.models,
            |r: ModelRegistryRowModel|
                is_model(r, p.harness@, p.model_id@, opt(p.sub_agent_name)),
        ) {
            "model registry entry removed"@
        } else {
            "no matching model registry entry found"@
        },
        RegistryPlan::Refused(why) => why,
    }
}

/// Changes the model registry as a request says, once it is confirmed; until then
/// nothing changes.
pub fn configure_model_registry(
    store: &mut Store,
    run_id: &str,
    p: &ModelRegistryParams,
    now: i64,
) -> (r: Result<RegistryAnswer, String>)
    ensures
        ({
            let plan = registry_plan(*p);
            match plan {
                RegistryPlan::Refused(why) => {
                    &&& final(store)@ == old(store)@
                    &&& r matches Err(e) && e@ == why
                },
                _ => if p.confirm != Some(true) {
                    &&& final(store)@ == old(store)@
                    &&& r matches Ok(RegistryAnswer::Preview)
                } else {
                    let said = registry_note(old(store)@, *p, plan);
                    &&& r matches Ok(RegistryAnswer::Done(t)) && t@ == said
                    &&& final(store)@ == stepped(
                        reconfigured(old(store)@, *p, plan),
                        note(
                            run_id@,
                            "model_registry"@,
                            "configure_model_registry action="@ + p.action@ + " harness="@ + p.harness@ + " model="@ + p.model_id@,
                            said,
                            "success"@,
                            None,
                        ),
                        now,
                    )
                },
            }
        }),
{
    let plan: ModelRegistryAction = match plan_model_registry_action(p) {
        Ok(a) => a,
        Err(e) => {
            return Err(e);
        },
    };
    let confirmed: bool = match p.confirm {
        Some(c) => c,
        None => false,
    };
    if !confirmed {
        return Ok(RegistryAnswer::Preview);
    }
    let sub: Option<&str> = match &p.sub_agent_name {
        Some(t) => Some(t.as_str()),
        None => None,
    };
    let harness: &str = p.harness.as_str();
    let said: &str = match &plan {
        ModelRegistryAction::UpsertModel => {
            store.configure_model(
                harness,
                p.model_id.as_str(),
                p.capability_tier.as_str(),
                p.cost_weight,
                sub,
            );
            "model registry updated"
        },
        ModelRegistryAction::AddRoutingRule { domain_type, task_type, complexity_tier } => {
            store.add_routing_rule(
                harness,
                domain_type.as_str(),
                task_type.as_str(),
                complexity_tier.as_str(),
                p.model_id.as_str(),
            );
            "routing rule added"
        },
        ModelRegistryAction::RemoveRoutingRule { domain_type, task_type, complexity_tier } => {
            let removed: bool = store.remove_routing_rule(
                harness,
                domain_type.as_str(),
                task_type.as_str(),
                complexity_tier.as_str(),
            );
            if removed {
                "routing rule removed"
            } else {
                "no matching routing rule found"
            }
        },
        ModelRegistryAction::RemoveModel => {
            if store.remove_model(harness, p.model_id.as_str(), sub) {
                "model registry entry removed"
            } else {
                "no matching model registry entry found"
            }
        },
    };
    assert(store@ == reconfigured(old(store)@, *p, registry_plan(*p)));
    let mut action: String = "configure_model_registry action=".to_owned();
    action.append(p.action.as_str());
    action.append(" harness=");
    action.append(harness);
    action.append(" model=");
    action.append(p.model_id.as_str());
    log(
        store,
        run_id,
        "model_registry",
        action.as_str(),
        said,
        "success",
        None,
        now,
    );
    Ok(RegistryAnswer::Done(said.to_owned()))
}

// ---- reports --------------------------------------------------------------

/// Whether a report is asked for as a PDF; else it is JSON.
pub fn wants_pdf(format: Option<&str>) -> (r: bool)
    ensures
        r == (opt_str(format) == Some("pdf"@)),
{
    match format {
        Some(f) => same(f, "pdf"),
        None => false,
    }
}

/// The name of the report of a run, or of that of all runs.
pub open spec fn report_name(run_id: Option<Seq<char>>) -> Seq<char> {
    match run_id {
        Some(r) => "compliance-report-"@ + r + ".pdf"@,
        None => "compliance-report.pdf"@,
    }
}

/// A report as it is handed out: its name, and its bytes in Base64.
pub fn pdf_resource(run_id: Option<&str>, bytes: &Vec<u8>) -> (r: (String, String))
    ensures
        r.0@ == report_name(opt_str(run_id)),
        r.1@ == base64_encoded(bytes@),
{
    let name: String = match run_id {
        Some(r) => {
            let mut t: String = "compliance-report-".to_owned();
            t.append(r);
            t.append(".pdf");
            t
        },
        None => "compliance-report.pdf".to_owned(),
    };
    (name, encode_base64(bytes))
}

} // verus!
