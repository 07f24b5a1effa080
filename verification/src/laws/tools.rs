//! What the tools answer, and what they leave in the log.
use vstd::prelude::*;

use crate::codebase::CodeStoreModel;
use crate::gate::{gate_observation, is_label_type, ModelRegistryParams, RegistryPlan};
use crate::store::StoreModel;
use crate::store::episodes::next_episode_id;
use crate::store::knowledge::{next_knowledge_id, with_source};
use crate::store::registry::{is_model, is_rule, key_of, ruled, without_model, RuleKey};
use crate::store::sources::next_source_id;
use crate::text::{decimal, opt};
use crate::tools::{full, note, reported, shown_bool, stepped, Usage};
use crate::tools::admin::{reconfigured, refused_change, registry_note, report_name, shown_days};
use crate::tools::admin::with_web_source;
use crate::tools::codebase::asked_code_hits;
use crate::tools::knowledge::{asked_hits, conflict_event, denied, draft_of, found_hits};
use crate::tools::knowledge::{knowledge_fate, proposed, recalled_store, remembered};
use crate::tools::knowledge::{retention_change, scope_of, used_ids, Proposal};
use crate::tools::session::{code_size, no_harness};
use crate::tools::training::{example_of, label_of, no_such_domain, origin_of, promotion_note};
use crate::tools::training::{promotion_text, rows_in, weak_threshold, Candidate};
use crate::train::PromoteOutcome;
use crate::types::{Kind, ModelRegistryRowModel, RecallHitModel, RoutingRuleRowModel, Trust};

verus! {

/// A note is logged as one step more of its run, as it was told.
pub proof fn notes_are_logged_as_told(
    s: StoreModel,
    run_id: Seq<char>,
    stage: Seq<char>,
    action: Seq<char>,
    observation: Seq<char>,
    outcome: Seq<char>,
    domain: Option<Seq<char>>,
    now: i64,
)
    requires
        next_episode_id(s) <= i64::MAX,
    ensures
        ({
            let t = stepped(s, note(run_id, stage, action, observation, outcome, domain), now);
            let e = t.episodes.last();
            &&& t == (StoreModel { episodes: t.episodes, ..s })
            &&& t.episodes.len() == s.episodes.len() + 1 && t.episodes.drop_last() == s.episodes
            &&& e.run_id == run_id && e.stage == Some(stage) && e.action == Some(action)
            &&& e.observation == Some(observation) && e.outcome == Some(outcome)
            &&& e.domain == domain && e.ts == now && e.knowledge_ids_used.len() == 0
            &&& e.model is None && e.tokens_used is None && e.cost is None
        }),
{
    let t = stepped(s, note(run_id, stage, action, observation, outcome, domain), now);
    assert(t.episodes.drop_last() =~= s.episodes);
}

/// What was used for a step is logged with it.
pub proof fn usage_is_logged(s: StoreModel, n: crate::store::episodes::StepNote, u: Usage, now: i64)
    ensures
        reported(n, u).model == opt(u.model),
        reported(n, u).tokens_used == u.tokens_used,
        reported(n, u).cost == u.cost,
        reported(n, u).action == n.action && reported(n, u).stage == n.stage,
        reported(n, u).outcome == n.outcome && reported(n, u).domain == n.domain,
        reported(n, u).run_id == n.run_id && reported(n, u).observation == n.observation,
{
}

/// What is asked for where nothing is said: six hits, eight pieces of code, a chunk of 800.
pub proof fn tools_have_their_defaults(n: u32, days: i64)
    ensures
        asked_hits(None) == 6,
        asked_hits(Some(n)) == n,
        asked_code_hits(None) == 8,
        asked_code_hits(Some(n)) == n,
        crate::tools::admin::INGEST_CHUNK == 800,
        weak_threshold(None) == 0,
        weak_threshold(Some(days)) == days,
        scope_of(None) == "global"@,
        forall|t: Seq<char>| #[trigger] scope_of(Some(t)) == t,
        label_of(None) == "grounded"@,
        forall|t: Seq<char>| #[trigger] label_of(Some(t)) == t,
        origin_of(None) == "teacher"@,
        forall|t: Seq<char>| #[trigger] origin_of(Some(t)) == t,
        report_name(None) == "compliance-report.pdf"@,
        forall|t: Seq<char>| #[trigger]
            report_name(Some(t)) == "compliance-report-"@ + t + ".pdf"@,
        full() == "no row number is left"@,
        forall|t: Seq<char>| #[trigger] denied(t) == "access denied to domain '"@ + t + "'"@,
        shown_days(None) == "None"@,
        shown_days(Some(days)) == "Some("@ + decimal(days as int) + ")"@,
        forall|t: Seq<char>| #[trigger] is_label_type(t) <==> t == "grounded"@ || t == "refusal"@,
{
}

/// A recall is logged as one of its domain, with the numbers of the items that it gave.
pub proof fn recalls_are_logged_with_their_items(
    s: StoreModel,
    run_id: Seq<char>,
    domain: Seq<char>,
    query: Seq<char>,
    ranking: Seq<i64>,
    k: Option<u32>,
    usage: Usage,
    now: i64,
)
    requires
        next_episode_id(s) <= i64::MAX,
    ensures
        ({
            let t = recalled_store(s, run_id, domain, query, ranking, k, usage, now);
            let hits = found_hits(s, domain, ranking, k);
            let e = t.episodes.last();
            &&& t.episodes.len() == s.episodes.len() + 1
            &&& forall|i: int| 0 <= i < s.episodes.len() ==> #[trigger] t.episodes[i] == s.episodes[i]
            &&& t == (StoreModel { episodes: t.episodes, ..s })
            &&& e.run_id == run_id && e.stage == Some("recall"@) && e.domain == Some(domain)
            &&& e.action == Some("recall domain="@ + domain + " query="@ + query)
            &&& e.observation == Some("returned "@ + decimal(hits.len() as int) + " hits"@)
            &&& e.outcome == Some("success"@) && e.ts == now && e.model == opt(usage.model)
            &&& e.tokens_used == usage.tokens_used && e.cost == usage.cost
            &&& e.knowledge_ids_used == used_ids(ranking, hits)
        }),
{
    crate::store::fresh_id_is_fresh(s.episodes, |e: crate::types::EpisodeRowModel| e.id);
    let t = recalled_store(s, run_id, domain, query, ranking, k, usage, now);
    let id = |e: crate::types::EpisodeRowModel| e.id;
    assert forall|i: int| 0 <= i < s.episodes.len() implies #[trigger] t.episodes[i]
        == s.episodes[i] by {
        assert(id(s.episodes[i]) < next_episode_id(s));
    }
}

/// The items of a recall are those of its hits that are knowledge, in their order.
pub proof fn hits_that_are_knowledge_are_used(
    ranking: Seq<i64>,
    hits: Seq<RecallHitModel>,
    h: RecallHitModel,
)
    ensures
        used_ids(ranking, seq![]).len() == 0,
        h.source_kind == "knowledge"@ && h.rank < ranking.len() ==> used_ids(ranking, hits.push(h))
            == used_ids(ranking, hits).push(ranking[h.rank as int]),
        h.source_kind != "knowledge"@ ==> used_ids(ranking, hits.push(h)) == used_ids(ranking, hits),
{
    assert(hits.push(h).drop_last() =~= hits);
}

/// A fact that was stated is stored, and that is logged.
pub proof fn stated_facts_are_logged(
    s: StoreModel,
    run_id: Seq<char>,
    domain: Seq<char>,
    statement: Seq<char>,
    usage: Usage,
    now: i64,
)
    requires
        next_knowledge_id(s) <= i64::MAX,
        next_episode_id(s) <= i64::MAX,
    ensures
        ({
            let t = remembered(s, run_id, domain, statement, usage, now);
            let e = t.episodes.last();
            &&& t.episodes.len() == s.episodes.len() + 1
            &&& t.knowledge.len() == s.knowledge.len() + 1
            &&& t.knowledge.last().kind == Kind::Fact && t.knowledge.last().trust == Trust::User
            &&& e.run_id == run_id && e.stage == Some("remember"@) && e.domain == Some(domain)
            &&& e.action == Some("remember domain="@ + domain + " statement="@ + statement)
            &&& e.observation == Some(
                "remembered fact #"@ + decimal(next_knowledge_id(s)) + " (trust=user)"@,
            )
            &&& e.outcome == Some("success"@) && e.ts == now
        }),
{
    crate::laws::knowledge::what_is_stored_is_what_was_said(
        s,
        crate::store::knowledge::user_fact(domain, statement),
        now,
    );
}

/// A proposal is stored as one, whatever it says of itself, and that is logged.
pub proof fn proposals_are_logged(
    s: StoreModel,
    run_id: Seq<char>,
    p: Proposal,
    kind: Kind,
    now: i64,
)
    requires
        next_knowledge_id(s) <= i64::MAX,
        next_episode_id(s) <= i64::MAX,
    ensures
        ({
            let t = proposed(s, run_id, p, kind, now);
            let e = t.episodes.last();
            &&& t.episodes.len() == s.episodes.len() + 1
            &&& t.knowledge.len() == s.knowledge.len() + 1
            &&& t.knowledge.last().kind == kind && t.knowledge.last().trust == Trust::Proposed
            &&& t.knowledge.last().domain == p.domain@
            &&& e.run_id == run_id && e.stage == Some("propose"@) && e.domain == Some(p.domain@)
            &&& e.action == Some(
                "propose domain="@ + p.domain@ + " kind="@ + p.kind@ + " title="@ + p.title@,
            )
            &&& e.observation == Some(
                "proposed candidate "@ + p.kind@ + " #"@ + decimal(next_knowledge_id(s)),
            )
            &&& e.outcome == Some("success"@) && e.ts == now
        }),
        ({
            let d = draft_of(p, kind);
            &&& d.kind == kind && d.domain == p.domain@ && d.title == p.title@ && d.body == p.body@
            &&& d.stage == opt(p.stage) && d.trigger == opt(p.trigger)
            &&& d.severity == opt(p.severity) && d.remediation == opt(p.remediation)
            &&& d.source_id is None && d.trust == Trust::Proposed
        }),
{
    crate::laws::knowledge::what_is_stored_is_what_was_said(s, draft_of(p, kind), now);
}

/// A conflict is told where the item has one that is open.
pub proof fn open_conflicts_are_told(s: StoreModel, id: i64, now: i64)
    ensures
        conflict_event(s, id, now) is Some <==> (with_source(s, id) matches Some(k)
            && k.row.conflict_status == Some("open"@)),
        conflict_event(s, id, now) matches Some(e) ==> {
            let k = with_source(s, id)->0;
            &&& e.trigger == "knowledge_conflict"@ && e.detail == k.row.title && e.count == 1
            &&& e.ts == now
            &&& k.row.conflict_with_id matches Some(n) ==> e.summary == "Conflict in domain '"@
                + k.row.domain + "': #"@ + decimal(id as int) + " vs #"@ + decimal(n as int)
        },
{
}

/// Clearing a retention comes before setting one; else it stays.
pub proof fn clearing_comes_before_setting(clear: Option<bool>, days: Option<i64>)
    ensures
        clear == Some(true) ==> retention_change(clear, days) == Some(None::<i64>),
        clear != Some(true) && days is Some ==> retention_change(clear, days) == Some(days),
        clear != Some(true) && days is None ==> retention_change(clear, days) is None,
{
}

/// What became of the knowledge of a domain is told.
pub proof fn the_fate_of_knowledge_is_told(n: int)
    ensures
        knowledge_fate(true, n) == "knowledge kept"@,
        knowledge_fate(false, n) == decimal(n) + " knowledge items deleted"@,
{
}

/// A document of the web is not trusted.
pub proof fn documents_are_not_trusted(
    s: StoreModel,
    url: Seq<char>,
    title: Seq<char>,
    domain: Seq<char>,
    now: i64,
)
    ensures
        ({
            let t = with_web_source(s, url, title, domain, now);
            let r = t.sources.last();
            &&& t.sources.len() == s.sources.len() + 1 && t.sources.drop_last() == s.sources
            &&& r.kind == "web"@ && r.uri == Some(url) && r.title == Some(title)
            &&& r.domain == domain && r.fetched_at == now && r.trust == "untrusted"@
            &&& next_source_id(s) <= i64::MAX && next_source_id(s) >= i64::MIN ==> r.id
                == next_source_id(s)
            &&& t == (StoreModel { sources: t.sources, ..s })
        }),
{
    let t = with_web_source(s, url, title, domain, now);
    assert(t.sources.drop_last() =~= s.sources);
}

/// A change that is refused says how it is let through; one that was observed says what
/// became of it.
pub proof fn refused_changes_say_what_is_missing(domain: Seq<char>, run_id: Seq<char>)
    ensures
        refused_change(domain, run_id) == "Refused: domain '"@ + domain
            + "' is enforced and no recall() against it has been logged in run '"@ + run_id
            + "'. Call recall(domain=\""@ + domain
            + "\", ...) first, or pass override:true (this bypass will be logged and surfaced in compliance reports)."@,
        gate_observation(true, false, domain, run_id) == "blocked: enforced domain '"@ + domain
            + "' has no prior recall() in run '"@ + run_id + "'"@,
        gate_observation(true, true, domain, run_id)
            == "override=true bypassed missing-recall precondition for enforced domain '"@ + domain
            + "'"@,
        gate_observation(false, true, domain, run_id) == "executed change in domain '"@ + domain
            + "'"@,
        gate_observation(false, false, domain, run_id) == "executed change in domain '"@ + domain
            + "'"@,
{
}

/// An example holds the candidate.
pub proof fn examples_hold_their_candidate(c: Candidate, trust: Seq<char>, provenance: Seq<char>)
    ensures
        ({
            let e = example_of(c, trust, provenance);
            &&& e.domain == c.domain@ && e.system_prompt == opt(c.system_prompt)
            &&& e.user_content == c.user_content@ && e.trust == trust
            &&& e.assistant_content == opt(c.assistant_content) && e.provenance == provenance
            &&& opt(c.label_type) matches Some(l) ==> e.label_type == l
            &&& c.label_type is None ==> e.label_type == "grounded"@
            &&& e.retrieval_ref == opt(c.retrieval_ref) && e.verify_log == opt(c.verify_log)
        }),
{
}

/// What became of a promotion is told.
pub proof fn promotions_are_told(id: i64)
    ensures
        promotion_note(PromoteOutcome::Promoted, id) == "promoted training example #"@ + decimal(
            id as int,
        ) + " to trust=reviewed"@,
        promotion_note(PromoteOutcome::BlockedStudent, id) == "REFUSED to promote #"@ + decimal(
            id as int,
        ) + ": provenance=student (collapse guard)"@,
        promotion_note(PromoteOutcome::NotFound, id) == "no proposed training example #"@ + decimal(
            id as int,
        ) + " to promote"@,
        promotion_text(PromoteOutcome::Promoted, id) == "Promoted training example #"@ + decimal(
            id as int,
        ) + " to trust=reviewed."@,
        promotion_text(PromoteOutcome::BlockedStudent, id) == "Refused: training example #"@
            + decimal(id as int)
            + " has provenance='student' and can never be promoted (model-collapse guard). Capture a teacher-labeled version instead."@,
        promotion_text(PromoteOutcome::NotFound, id) == "No proposed training example #"@ + decimal(
            id as int,
        ) + " to promote."@,
{
}

/// The rows of an export are those of its files, added up.
pub proof fn exported_rows_add_up(files: Seq<crate::train::Written>, f: crate::train::Written)
    ensures
        rows_in(seq![]) == 0,
        rows_in(files.push(f)) == rows_in(files) + f.rows,
{
    assert(files.push(f).drop_last() =~= files);
}

/// A request to the registry does what its plan says, and one that is refused changes
/// nothing.
pub proof fn plans_are_carried_out(
    s: StoreModel,
    p: ModelRegistryParams,
    d: Seq<char>,
    t: Seq<char>,
    c: Seq<char>,
    why: Seq<char>,
)
    ensures
        reconfigured(s, p, RegistryPlan::Refused(why)) == s,
        reconfigured(s, p, RegistryPlan::RemoveModel) == without_model(
            s,
            p.harness@,
            p.model_id@,
            opt(p.sub_agent_name),
        ),
        reconfigured(s, p, RegistryPlan::AddRoutingRule(d, t, c)) == ruled(
            s,
            RuleKey {
                harness: p.harness@,
                domain_type: d,
                task_type: t,
                complexity_tier: c,
            },
            p.model_id@,
        ),
        ({
            let r = reconfigured(s, p, RegistryPlan::UpsertModel).models.last();
            &&& r.harness == p.harness@ && r.model_id == p.model_id@
            &&& r.capability_tier == p.capability_tier@ && r.cost_weight == p.cost_weight
            &&& r.sub_agent_name == opt(p.sub_agent_name)
        }),
        forall|r: RoutingRuleRowModel| #[trigger]
            reconfigured(s, p, RegistryPlan::RemoveRoutingRule(d, t, c)).rules.contains(r)
                <==> s.rules.contains(r) && !(r.harness == p.harness@ && r.domain_type == d
                && r.task_type == t && r.complexity_tier == c),
{
    crate::laws::domains::lemma_kept(
        s.rules,
        |r: RoutingRuleRowModel| !is_rule(r, key_of(p.harness@, d, t, c)),
    );
}

/// What became of a request to the registry is told.
pub proof fn plans_are_told(
    s: StoreModel,
    p: ModelRegistryParams,
    d: Seq<char>,
    t: Seq<char>,
    c: Seq<char>,
    why: Seq<char>,
)
    ensures
        registry_note(s, p, RegistryPlan::UpsertModel) == "model registry updated"@,
        registry_note(s, p, RegistryPlan::AddRoutingRule(d, t, c)) == "routing rule added"@,
        registry_note(s, p, RegistryPlan::Refused(why)) == why,
        (exists|i: int|
            0 <= i < s.rules.len() && (#[trigger] s.rules[i]).harness == p.harness@
                && s.rules[i].domain_type == d && s.rules[i].task_type == t
                && s.rules[i].complexity_tier == c) ==> registry_note(
            s,
            p,
            RegistryPlan::RemoveRoutingRule(d, t, c),
        ) == "routing rule removed"@,
        s.rules.len() == 0 ==> registry_note(s, p, RegistryPlan::RemoveRoutingRule(d, t, c))
            == "no matching routing rule found"@,
        (exists|i: int|
            0 <= i < s.models.len() && (#[trigger] s.models[i]).harness == p.harness@
                && s.models[i].model_id == p.model_id@ && s.models[i].sub_agent_name == opt(
                p.sub_agent_name,
            )) ==> registry_note(s, p, RegistryPlan::RemoveModel)
            == "model registry entry removed"@,
        s.models.len() == 0 ==> registry_note(s, p, RegistryPlan::RemoveModel)
            == "no matching model registry entry found"@,
{
    let a = |r: RoutingRuleRowModel| is_rule(r, key_of(p.harness@, d, t, c));
    let b = |r: ModelRegistryRowModel| is_model(r, p.harness@, p.model_id@, opt(p.sub_agent_name));
    if exists|i: int|
        0 <= i < s.rules.len() && (#[trigger] s.rules[i]).harness == p.harness@
            && s.rules[i].domain_type == d && s.rules[i].task_type == t && s.rules[i].complexity_tier
            == c {
        let i = choose|i: int|
            0 <= i < s.rules.len() && (#[trigger] s.rules[i]).harness == p.harness@
                && s.rules[i].domain_type == d && s.rules[i].task_type == t
                && s.rules[i].complexity_tier == c;
        assert(a(s.rules[i]));
    }
    if exists|i: int|
        0 <= i < s.models.len() && (#[trigger] s.models[i]).harness == p.harness@
            && s.models[i].model_id == p.model_id@ && s.models[i].sub_agent_name == opt(
            p.sub_agent_name,
        ) {
        let i = choose|i: int|
            0 <= i < s.models.len() && (#[trigger] s.models[i]).harness == p.harness@
                && s.models[i].model_id == p.model_id@ && s.models[i].sub_agent_name == opt(
                p.sub_agent_name,
            );
        assert(b(s.models[i]));
    }
}

/// The code that a task is measured by is that of its repository, or all that is on record.
pub proof fn tasks_are_measured_by_code(code: CodeStoreModel, repo: Seq<char>)
    requires
        code.repos.len() <= i64::MAX,
        code.files.len() <= i64::MAX,
        code.chunks.len() <= i64::MAX,
    ensures
        code_size(code, Some(repo)) == crate::codebase::repo_stats(code, repo),
        code_size(code, None).repos == code.repos.len(),
        code_size(code, None).files == code.files.len(),
        code_size(code, None).chunks == code.chunks.len(),
{
}

/// What is missing is told.
pub proof fn what_is_missing_is_told(domain: Seq<char>, b: bool)
    ensures
        no_harness()
            == "harness was not supplied and no clientInfo harness was captured for this connection — pass harness explicitly"@,
        no_such_domain(domain) == "domain '"@ + domain
            + "' does not exist — seed_from_topics never creates domains; register it first"@,
        shown_bool(b) == if b {
            "true"@
        } else {
            "false"@
        },
{
}

} // verus!
