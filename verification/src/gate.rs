//! The rules that stand between a caller and the store: the recall that an enforced
//! domain demands before a change, the framing of what is mandatory, and what a request
//! to the model registry means.
use vstd::prelude::*;

use crate::store::acl::is_enforced;
use crate::store::episodes::{episode_of, is_recall, logged, next_episode_id, recalled, StepNote};
use crate::store::{Store, StoreModel};
use crate::text::{opt, same};
use crate::types::{models, EpisodeRowModel, RecallHit, RecallHitModel};

verus! {

// ---- the precondition of a change -----------------------------------------

/// What is decided on a change.
#[derive(Debug)]
pub struct ExecuteChangeDecision {
    /// Whether the change may proceed.
    pub allowed: bool,
    /// Whether it may only because of an override.
    pub override_used: bool,
    /// The outcome under which the decision is logged.
    pub outcome: String,
    /// What is observed of it.
    pub observation: String,
}

/// Whether a domain is closed to the changes of a run: it is enforced, and the run has not
/// recalled it.
pub open spec fn is_gated(s: StoreModel, domain: Seq<char>, run_id: Seq<char>) -> bool {
    is_enforced(s, domain) && !recalled(s, run_id, domain)
}

/// The outcome under which a decision is logged.
pub open spec fn gate_outcome(gated: bool, override_flag: bool) -> Seq<char> {
    if gated && !override_flag {
        "blocked"@
    } else if gated {
        "override"@
    } else {
        "success"@
    }
}

/// What is observed of a decision.
pub open spec fn gate_observation(
    gated: bool,
    override_flag: bool,
    domain: Seq<char>,
    run_id: Seq<char>,
) -> Seq<char> {
    if gated && !override_flag {
        "blocked: enforced domain '"@ + domain + "' has no prior recall() in run '"@ + run_id
            + "'"@
    } else if gated {
        "override=true bypassed missing-recall precondition for enforced domain '"@ + domain
            + "'"@
    } else {
        "executed change in domain '"@ + domain + "'"@
    }
}

/// Decides on a change to a domain: it is refused where the domain is enforced and the
/// run has not recalled it, unless the caller overrides that.
pub fn execute_change_gate(store: &Store, domain: &str, run_id: &str, override_flag: bool) -> (r:
    ExecuteChangeDecision)
    ensures
        ({
            let gated = is_gated(store@, domain@, run_id@);
            &&& r.allowed == (!gated || override_flag)
            &&& r.override_used == (gated && override_flag)
            &&& r.outcome@ == gate_outcome(gated, override_flag)
            &&& r.observation@ == gate_observation(gated, override_flag, domain@, run_id@)
        }),
{
    let gated: bool = store.domain_enforced(domain) && !store.has_prior_recall(run_id, domain);
    if gated && !override_flag {
        let mut t: String = "blocked: enforced domain '".to_owned();
        t.append(domain);
        t.append("' has no prior recall() in run '");
        t.append(run_id);
        t.append("'");
        ExecuteChangeDecision {
            allowed: false,
            override_used: false,
            outcome: "blocked".to_owned(),
            observation: t,
        }
    } else if gated {
        let mut t: String =
            "override=true bypassed missing-recall precondition for enforced domain '".to_owned();
        t.append(domain);
        t.append("'");
        ExecuteChangeDecision {
            allowed: true,
            override_used: true,
            outcome: "override".to_owned(),
            observation: t,
        }
    } else {
        let mut t: String = "executed change in domain '".to_owned();
        t.append(domain);
        t.append("'");
        ExecuteChangeDecision {
            allowed: true,
            override_used: false,
            outcome: "success".to_owned(),
            observation: t,
        }
    }
}

// ---- framing --------------------------------------------------------------

/// A hit as it is handed out: in an enforced domain an enforceable knowledge item is
/// framed as mandatory.
pub open spec fn framed(h: RecallHitModel, enforced: bool) -> RecallHitModel {
    if enforced && h.source_kind == "knowledge"@ && h.enforceable {
        RecallHitModel {
            body: "MANDATORY RULE — violating this is a compliance failure: "@ + h.body,
            ..h
        }
    } else {
        h
    }
}

/// The hits as they are handed out.
pub open spec fn framed_hits(hits: Seq<RecallHitModel>, enforced: bool) -> Seq<RecallHitModel> {
    hits.map_values(|h: RecallHitModel| framed(h, enforced))
}

/// Frames what is mandatory in a domain that is enforced.
pub fn frame_hits(hits: Vec<RecallHit>, enforced: bool) -> (r: Vec<RecallHit>)
    ensures
        models(r@) == framed_hits(models(hits@), enforced),
{
    let mut out: Vec<RecallHit> = hits;
    let frame = |h: RecallHit| -> (q: RecallHit)
        ensures
            q@ == framed(h@, enforced),
        {
            let mut q: RecallHit = h;
            if enforced && same(q.source_kind.as_str(), "knowledge") && q.enforceable {
                let mut t: String =
                    "MANDATORY RULE — violating this is a compliance failure: ".to_owned();
                t.append(q.body.as_str());
                q.body = t;
            }
            q
        };
    crate::table::rewrite(&mut out, frame, Ghost(|h: RecallHitModel| framed(h, enforced)));
    out
}

/// What is recalled of a domain, given the fused ranking, with what is mandatory framed.
pub fn recall_with_framing(store: &Store, domain: &str, fused: &Vec<i64>, k: usize) -> (r: Vec<
    RecallHit,
>)
    ensures
        models(r@) == framed_hits(
            crate::store::recall::recalled_hits(store@, fused@, domain@, k as int),
            is_enforced(store@, domain@),
        ),
{
    frame_hits(store.recall(domain, fused, k), store.domain_enforced(domain))
}

// ---- requests -------------------------------------------------------------

/// The harness to advise: what the caller says, else what the connection told of itself.
pub fn resolve_harness(explicit: Option<String>, captured: Option<String>) -> (r: Option<String>)
    ensures
        r == (if explicit is Some {
            explicit
        } else {
            captured
        }),
{
    match explicit {
        Some(h) => Some(h),
        None => captured,
    }
}

/// Whether a text names a kind of label.
pub open spec fn is_label_type(t: Seq<char>) -> bool {
    t == "grounded"@ || t == "refusal"@
}

/// Refuses what is no kind of label.
pub fn validate_label_type(label_type: &str) -> (r: Result<(), String>)
    ensures
        match r {
            Ok(()) => is_label_type(label_type@),
            Err(e) => !is_label_type(label_type@) && e@
                == "label_type must be 'grounded' or 'refusal'"@,
        },
{
    if same(label_type, "grounded") || same(label_type, "refusal") {
        Ok(())
    } else {
        Err("label_type must be 'grounded' or 'refusal'".to_owned())
    }
}

/// A request to change the model registry.
#[derive(Debug)]
pub struct ModelRegistryParams {
    pub action: String,
    pub harness: String,
    pub model_id: String,
    pub capability_tier: String,
    /// The key of the cost weight.
    pub cost_weight: i64,
    pub sub_agent_name: Option<String>,
    pub domain_type: Option<String>,
    pub task_type: Option<String>,
    pub complexity_tier: Option<String>,
    pub confirm: Option<bool>,
}

/// What a request to change the model registry does.
#[derive(Debug, PartialEq)]
pub enum ModelRegistryAction {
    UpsertModel,
    AddRoutingRule { domain_type: String, task_type: String, complexity_tier: String },
    RemoveRoutingRule { domain_type: String, task_type: String, complexity_tier: String },
    RemoveModel,
}

/// What a request does, as mathematical values; `Err` holds the reason of a refusal.
pub enum RegistryPlan {
    UpsertModel,
    AddRoutingRule(Seq<char>, Seq<char>, Seq<char>),
    RemoveRoutingRule(Seq<char>, Seq<char>, Seq<char>),
    RemoveModel,
    Refused(Seq<char>),
}

/// Whether a text names an action on the model registry.
pub open spec fn is_registry_action(a: Seq<char>) -> bool {
    a == "add_model"@ || a == "add_sub_agent"@ || a == "add_routing_rule"@ || a == "update"@ || a
        == "remove"@
}

/// What a request does. A removal is that of a rule where it says anything of a rule,
/// and must then say all; else it is that of a model.
pub open spec fn registry_plan(p: ModelRegistryParams) -> RegistryPlan {
    let a = p.action@;
    let rule = match (opt(p.domain_type), opt(p.task_type), opt(p.complexity_tier)) {
        (Some(d), Some(t), Some(c)) => Some((d, t, c)),
        _ => None,
    };
    let shaped = p.domain_type is Some || p.task_type is Some || p.complexity_tier is Some;
    if !is_registry_action(a) {
        RegistryPlan::Refused(
            "action must be add_model, add_sub_agent, add_routing_rule, update, or remove"@,
        )
    } else if a == "add_sub_agent"@ && (opt(p.sub_agent_name) matches Some(n) ==> n.len() == 0) {
        RegistryPlan::Refused("add_sub_agent requires a non-empty sub_agent_name"@)
    } else if a == "add_routing_rule"@ {
        match rule {
            Some(r) => RegistryPlan::AddRoutingRule(r.0, r.1, r.2),
            None => RegistryPlan::Refused(
                "add_routing_rule requires domain_type, task_type, and complexity_tier"@,
            ),
        }
    } else if a == "remove"@ && shaped {
        match rule {
            Some(r) => RegistryPlan::RemoveRoutingRule(r.0, r.1, r.2),
            None => RegistryPlan::Refused(
                "remove of a routing rule requires domain_type, task_type, and complexity_tier together"@,
            ),
        }
    } else if a == "remove"@ {
        RegistryPlan::RemoveModel
    } else {
        RegistryPlan::UpsertModel
    }
}

/// What a result of planning says, as mathematical values.
pub open spec fn plan_of(r: Result<ModelRegistryAction, String>) -> RegistryPlan {
    match r {
        Ok(ModelRegistryAction::UpsertModel) => RegistryPlan::UpsertModel,
        Ok(ModelRegistryAction::AddRoutingRule { domain_type, task_type, complexity_tier }) => {
            RegistryPlan::AddRoutingRule(domain_type@, task_type@, complexity_tier@)
        },
        Ok(ModelRegistryAction::RemoveRoutingRule { domain_type, task_type, complexity_tier }) => {
            RegistryPlan::RemoveRoutingRule(domain_type@, task_type@, complexity_tier@)
        },
        Ok(ModelRegistryAction::RemoveModel) => RegistryPlan::RemoveModel,
        Err(e) => RegistryPlan::Refused(e@),
    }
}

/// Decides what a request to change the model registry does.
pub fn plan_model_registry_action(p: &ModelRegistryParams) -> (r: Result<
    ModelRegistryAction,
    String,
>)
    ensures
        plan_of(r) == registry_plan(*p),
{
    proof {
        reveal_strlit("add_model");
        reveal_strlit("add_sub_agent");
        reveal_strlit("add_routing_rule");
        reveal_strlit("update");
        reveal_strlit("remove");
        assert("remove"@[0] == 'r' && "add_model"@.len() == 9 && "add_sub_agent"@.len() == 13
            && "add_routing_rule"@.len() == 16 && "update"@[0] == 'u' && "update"@.len() == 6);
    }
    let action: &str = p.action.as_str();
    let adds_rule: bool = same(action, "add_routing_rule");
    let adds_sub_agent: bool = same(action, "add_sub_agent");
    let removes: bool = same(action, "remove");
    if !(same(action, "add_model") || adds_sub_agent || adds_rule || same(action, "update")
        || removes) {
        return Err(
            "action must be add_model, add_sub_agent, add_routing_rule, update, or remove".to_owned(),
        );
    }
    let nameless: bool = match &p.sub_agent_name {
        Some(n) => n.as_str().is_empty(),
        None => true,
    };
    if adds_sub_agent && nameless {
        return Err("add_sub_agent requires a non-empty sub_agent_name".to_owned());
    }
    if adds_rule {
        return match (&p.domain_type, &p.task_type, &p.complexity_tier) {
            (Some(d), Some(t), Some(c)) => Ok(
                ModelRegistryAction::AddRoutingRule {
                    domain_type: d.clone(),
                    task_type: t.clone(),
                    complexity_tier: c.clone(),
                },
            ),
            _ => Err(
                "add_routing_rule requires domain_type, task_type, and complexity_tier".to_owned(),
            ),
        };
    }
    if removes {
        if p.domain_type.is_some() || p.task_type.is_some() || p.complexity_tier.is_some() {
            return match (&p.domain_type, &p.task_type, &p.complexity_tier) {
                (Some(d), Some(t), Some(c)) => Ok(
                    ModelRegistryAction::RemoveRoutingRule {
                        domain_type: d.clone(),
                        task_type: t.clone(),
                        complexity_tier: c.clone(),
                    },
                ),
                _ => Err(
                    "remove of a routing rule requires domain_type, task_type, and complexity_tier together".to_owned(),
                ),
            };
        }
        return Ok(ModelRegistryAction::RemoveModel);
    }
    Ok(ModelRegistryAction::UpsertModel)
}

// ---- what opens a domain --------------------------------------------------

/// A step of a run opens a domain to the changes of the run where it is a recall of that
/// domain, and leaves it as it is where it is anything else.
pub proof fn only_a_recall_opens_a_domain(
    s: StoreModel,
    n: StepNote,
    step: i64,
    now: i64,
    domain: Seq<char>,
    run_id: Seq<char>,
)
    requires
        next_episode_id(s) <= i64::MAX,
    ensures
        ({
            let t = logged(s, n, step, now);
            let recalls = n.run_id == run_id && n.domain == Some(domain) && n.stage == Some(
                "recall"@,
            );
            is_gated(t, domain, run_id) == (is_gated(s, domain, run_id) && !recalls)
        }),
{
    let t = logged(s, n, step, now);
    let p = |e: EpisodeRowModel| is_recall(e, run_id, domain);
    let last = s.episodes.len() as int;
    assert(t.episodes[last] == episode_of(s, n, step, now));
    if recalled(s, run_id, domain) {
        let i = choose|i: int| 0 <= i < s.episodes.len() && p(#[trigger] s.episodes[i]);
        assert(t.episodes[i] == s.episodes[i]);
        assert(p(t.episodes[i]));
    }
    if recalled(t, run_id, domain) {
        let i = choose|i: int| 0 <= i < t.episodes.len() && p(#[trigger] t.episodes[i]);
        if i < last {
            assert(p(s.episodes[i]));
        }
    }
    if p(t.episodes[last]) {
        assert(recalled(t, run_id, domain));
    }
}

/// A change is let through where the domain is not enforced, where the run has recalled
/// it, and where it is forced; and in no other case.
pub proof fn changes_need_a_recall(s: StoreModel, domain: Seq<char>, run_id: Seq<char>, forced: bool)
    ensures
        gate_outcome(is_gated(s, domain, run_id), forced) == "blocked"@ <==> is_enforced(s, domain)
            && !recalled(s, run_id, domain) && !forced,
        gate_outcome(is_gated(s, domain, run_id), forced) == "override"@ <==> is_enforced(s, domain)
            && !recalled(s, run_id, domain) && forced,
{
    reveal_strlit("blocked");
    reveal_strlit("override");
    reveal_strlit("success");
    assert("blocked"@.len() == 7 && "override"@.len() == 8 && "success"@.len() == 7);
    assert("blocked"@[0] != "success"@[0]);
}

/// In an enforced domain an enforceable item is framed as mandatory, and nothing else is
/// changed by the framing.
pub proof fn framing_marks_what_is_mandatory(h: RecallHitModel, enforced: bool)
    ensures
        ({
            let f = framed(h, enforced);
            &&& f == (RecallHitModel { body: f.body, ..h })
            &&& (enforced && h.source_kind == "knowledge"@ && h.enforceable) ==> f.body
                == "MANDATORY RULE — violating this is a compliance failure: "@ + h.body
            &&& !(enforced && h.source_kind == "knowledge"@ && h.enforceable) ==> f.body == h.body
        }),
{
}

} // verus!
