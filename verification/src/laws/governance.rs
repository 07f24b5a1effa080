//! Who may do what, what a change needs, and what is reported of it.
use vstd::prelude::*;

use crate::compliance::{all_gaps, approver, first_time, gap_of, gap_reason, ids_in_order, ids_used};
use crate::compliance::{is_recall_step, items_used, last_time, recalled_before, report, run_gaps};
use crate::compliance::{run_names, run_steps, section, GapReason};
use crate::gate::{gate_outcome, is_gated, registry_plan, ModelRegistryParams, RegistryPlan};
use crate::order::{lemma_sort_in_order, lemma_sort_members, pair_desc, stable_sort};
use crate::store::{DomainRecordModel, PermissionModel, StoreModel};
use crate::store::acl::{domain_named, is_enforced, is_permission, may_use, permitted};
use crate::store::episodes::{episode_list, is_recall, recalled, tells_of};
use crate::store::knowledge::with_source;
use crate::store::profile::{author_after, author_outcome, AUTHOR_COOLDOWN_SECS, AuthorSetOutcome};
use crate::store::registry::{advice, candidates, cheapest, dangling, first_found, harnesses};
use crate::store::registry::{is_rule, key_of, normalized, routed, rule_model, RuleKey};
use crate::table::{deduped, first_match, lemma_deduped_members, lemma_distinct_members};
use crate::table::{lemma_distinct_once, lemma_first_match, listed, reversed_key, some_match};
use crate::text::opt;
use crate::types::{EpisodeRowModel, ModelRegistryRowModel, RoutingRuleRowModel};

verus! {

// ---- access ---------------------------------------------------------------

/// A domain that no permission speaks of is open to all. One that some permission speaks of
/// is open only to those whom a permission allows it; whoever gives no name is `default`.
pub proof fn a_listed_domain_is_closed_to_others(
    s: StoreModel,
    identity: Option<Seq<char>>,
    domain: Seq<char>,
)
    ensures
        (forall|i: int|
            0 <= i < s.permissions.len() ==> (#[trigger] s.permissions[i]).domain != domain)
            ==> may_use(s, identity, domain),
        (exists|i: int|
            0 <= i < s.permissions.len() && (#[trigger] s.permissions[i]).domain == domain) && (
        forall|i: int|
            0 <= i < s.permissions.len() && (#[trigger] s.permissions[i]).domain == domain
                && s.permissions[i].identity == (match identity {
                Some(n) => n,
                None => "default"@,
            }) ==> !s.permissions[i].allowed) ==> !may_use(s, identity, domain),
        (exists|i: int|
            0 <= i < s.permissions.len() && (#[trigger] s.permissions[i]).domain == domain
                && s.permissions[i].identity == (match identity {
                Some(n) => n,
                None => "default"@,
            })) && (forall|i: int|
            0 <= i < s.permissions.len() && (#[trigger] s.permissions[i]).domain == domain
                && s.permissions[i].identity == (match identity {
                Some(n) => n,
                None => "default"@,
            }) ==> s.permissions[i].allowed) ==> may_use(s, identity, domain),
{
    let id = match identity {
        Some(n) => n,
        None => "default"@,
    };
    let own = |p: PermissionModel| is_permission(p, id, domain);
    let of = |p: PermissionModel| p.domain == domain;
    lemma_first_match(s.permissions, own);
    if let Some(p) = first_match(s.permissions, own) {
        let i = s.permissions.index_of(p);
        assert(s.permissions[i] == p);
    }
    if exists|i: int|
        0 <= i < s.permissions.len() && (#[trigger] s.permissions[i]).domain == domain {
        let i = choose|i: int|
            0 <= i < s.permissions.len() && (#[trigger] s.permissions[i]).domain == domain;
        assert(of(s.permissions[i]));
    }
    if exists|i: int|
        0 <= i < s.permissions.len() && (#[trigger] s.permissions[i]).domain == domain
            && s.permissions[i].identity == id {
        let i = choose|i: int|
            0 <= i < s.permissions.len() && (#[trigger] s.permissions[i]).domain == domain
                && s.permissions[i].identity == id;
        assert(own(s.permissions[i]));
    }
}

/// A permission leaves other domains alone.
pub proof fn permissions_leave_other_domains(
    s: StoreModel,
    identity: Seq<char>,
    domain: Seq<char>,
    allowed: bool,
    who: Option<Seq<char>>,
    other: Seq<char>,
)
    requires
        other != domain,
    ensures
        may_use(permitted(s, identity, domain, allowed), who, other) == may_use(s, who, other),
{
    let t = permitted(s, identity, domain, allowed);
    let id = match who {
        Some(n) => n,
        None => "default"@,
    };
    lemma_same_permissions(s.permissions, t.permissions, id, other, identity, domain, allowed);
}

proof fn lemma_same_permissions(
    a: Seq<PermissionModel>,
    b: Seq<PermissionModel>,
    id: Seq<char>,
    other: Seq<char>,
    identity: Seq<char>,
    domain: Seq<char>,
    allowed: bool,
)
    requires
        other != domain || id != identity,
        b == a.map_values(
            |p: PermissionModel|
                if is_permission(p, identity, domain) {
                    PermissionModel { allowed, ..p }
                } else {
                    p
                },
        ) || b == a.push(PermissionModel { identity, domain, allowed }),
    ensures
        some_match(a, |p: PermissionModel| p.domain == other) ==> some_match(
            b,
            |p: PermissionModel| p.domain == other,
        ),
        other != domain && some_match(b, |p: PermissionModel| p.domain == other) ==> some_match(
            a,
            |p: PermissionModel| p.domain == other,
        ),
        (match first_match(a, |p: PermissionModel| is_permission(p, id, other)) {
            Some(p) => Some(p.allowed),
            None => None,
        }) == (match first_match(b, |p: PermissionModel| is_permission(p, id, other)) {
            Some(p) => Some(p.allowed),
            None => None,
        }),
    decreases a.len(),
{
    let of = |p: PermissionModel| p.domain == other;
    let own = |p: PermissionModel| is_permission(p, id, other);
    let m = |p: PermissionModel|
        if is_permission(p, identity, domain) {
            PermissionModel { allowed, ..p }
        } else {
            p
        };
    if some_match(a, of) {
        let i = choose|i: int| 0 <= i < a.len() && of(#[trigger] a[i]);
        assert(of(b[i]));
    }
    if other != domain && some_match(b, of) {
        let i = choose|i: int| 0 <= i < b.len() && of(#[trigger] b[i]);
        assert(i < a.len());
        assert(of(a[i]));
    }
    reveal_with_fuel(first_match, 2);
    if a.len() > 0 {
        if b == a.map_values(m) {
            assert(b.skip(1) =~= a.skip(1).map_values(m));
        } else {
            assert(b.skip(1) =~= a.skip(1).push(PermissionModel { identity, domain, allowed }));
        }
        lemma_same_permissions(a.skip(1), b.skip(1), id, other, identity, domain, allowed);
    } else if b.len() > 0 {
        assert(b.skip(1) =~= seq![]);
    }
}

// ---- changes --------------------------------------------------------------

/// A change to a domain that is registered as enforced is blocked unless the run recalled
/// the domain before, or the change is forced; any other change is let through.
pub proof fn enforced_domains_need_a_recall(
    s: StoreModel,
    domain: Seq<char>,
    run_id: Seq<char>,
    forced: bool,
)
    ensures
        ({
            let enforced = domain_named(s, domain) matches Some(d) && d.enforced;
            let seen = exists|i: int|
                0 <= i < s.episodes.len() && (#[trigger] s.episodes[i]).run_id == run_id
                    && s.episodes[i].domain == Some(domain) && s.episodes[i].stage == Some(
                    "recall"@,
                );
            let outcome = gate_outcome(is_gated(s, domain, run_id), forced);
            &&& enforced && !seen && !forced ==> outcome == "blocked"@
            &&& enforced && !seen && forced ==> outcome == "override"@
            &&& !enforced || seen ==> outcome == "success"@
        }),
{
    let p = |e: EpisodeRowModel| is_recall(e, run_id, domain);
    if recalled(s, run_id, domain) {
        let i = choose|i: int| 0 <= i < s.episodes.len() && p(#[trigger] s.episodes[i]);
        assert(s.episodes[i].run_id == run_id);
    }
    if exists|i: int|
        0 <= i < s.episodes.len() && (#[trigger] s.episodes[i]).run_id == run_id
            && s.episodes[i].domain == Some(domain) && s.episodes[i].stage == Some("recall"@) {
        let i = choose|i: int|
            0 <= i < s.episodes.len() && (#[trigger] s.episodes[i]).run_id == run_id
                && s.episodes[i].domain == Some(domain) && s.episodes[i].stage == Some("recall"@);
        assert(p(s.episodes[i]));
    }
}

/// A domain is enforced as its record says, and not where it has none.
pub proof fn records_tell_what_is_enforced(s: StoreModel, i: int, name: Seq<char>)
    requires
        0 <= i < s.domains.len(),
        s.domains[i].name == name,
        forall|j: int| 0 <= j < i ==> (#[trigger] s.domains[j]).name != name,
    ensures
        is_enforced(s, name) == s.domains[i].enforced,
        crate::store::acl::redacts(s, name) == s.domains[i].redact_enabled,
{
    lemma_first_domain(s.domains, i, name);
}

proof fn lemma_first_domain(rows: Seq<DomainRecordModel>, i: int, name: Seq<char>)
    requires
        0 <= i < rows.len(),
        rows[i].name == name,
        forall|j: int| 0 <= j < i ==> (#[trigger] rows[j]).name != name,
    ensures
        first_match(rows, |d: DomainRecordModel| d.name == name) == Some(rows[i]),
    decreases i,
{
    if i > 0 {
        assert(rows[0].name != name);
        let rest = rows.skip(1);
        assert forall|j: int| 0 <= j < i - 1 implies (#[trigger] rest[j]).name != name by {
            assert(rest[j] == rows[j + 1]);
        }
        lemma_first_domain(rest, i - 1, name);
    }
}

// ---- models ---------------------------------------------------------------

/// A request to the registry is refused where its action is none of the five, where a
/// sub-agent has no name, and where a routing rule is not told whole; else it does what its
/// action says.
pub proof fn registry_requests_are_told_whole(p: ModelRegistryParams)
    ensures
        ({
            let a = p.action@;
            let whole = p.domain_type is Some && p.task_type is Some && p.complexity_tier is Some;
            let none = p.domain_type is None && p.task_type is None && p.complexity_tier is None;
            &&& a == "add_model"@ || a == "update"@ ==> registry_plan(p) == RegistryPlan::UpsertModel
            &&& a == "add_sub_agent"@ ==> (registry_plan(p) == RegistryPlan::UpsertModel <==> (opt(
                p.sub_agent_name,
            ) matches Some(n) && n.len() > 0))
            &&& a == "add_routing_rule"@ && whole ==> registry_plan(p)
                == RegistryPlan::AddRoutingRule(
                p.domain_type->0@,
                p.task_type->0@,
                p.complexity_tier->0@,
            )
            &&& a == "remove"@ && whole ==> registry_plan(p) == RegistryPlan::RemoveRoutingRule(
                p.domain_type->0@,
                p.task_type->0@,
                p.complexity_tier->0@,
            )
            &&& a == "remove"@ && none ==> registry_plan(p) == RegistryPlan::RemoveModel
            &&& (a == "add_routing_rule"@ && !whole) || (a == "remove"@ && !whole && !none)
                ==> registry_plan(p) is Refused
            &&& a != "add_model"@ && a != "update"@ && a != "add_sub_agent"@ && a
                != "add_routing_rule"@ && a != "remove"@ ==> registry_plan(p) is Refused
        }),
{
    reveal_strlit("add_model");
    reveal_strlit("update");
    reveal_strlit("add_sub_agent");
    reveal_strlit("add_routing_rule");
    reveal_strlit("remove");
    assert("add_model"@.len() == 9 && "update"@.len() == 6 && "add_sub_agent"@.len() == 13);
    assert("add_routing_rule"@.len() == 16 && "remove"@.len() == 6 && "remove"@[0] == 'r');
    assert("update"@[0] == 'u');
}

/// Where no rule speaks of a task, the cheapest model of the harness is advised.
pub proof fn the_cheapest_model_is_advised(s: StoreModel, k: RuleKey)
    requires
        forall|i: int|
            0 <= i < s.rules.len() ==> (#[trigger] s.rules[i]).domain_type != k.domain_type
                || s.rules[i].task_type != k.task_type || s.rules[i].complexity_tier
                != k.complexity_tier,
        exists|i: int| 0 <= i < s.models.len() && (#[trigger] s.models[i]).harness == k.harness,
    ensures
        advice(s, k) matches Some(a) && a.reason == "no exact rule; cheapest configured model"@ && (
        exists|i: int|
            0 <= i < s.models.len() && (#[trigger] s.models[i]).harness == k.harness
                && s.models[i].model_id == a.model_id && s.models[i].cost_weight == a.cost) && (
        forall|i: int|
            0 <= i < s.models.len() && (#[trigger] s.models[i]).harness == k.harness ==> a.cost
                <= s.models[i].cost_weight),
{
    broadcast use vstd::seq_lib::group_filter_ensures;

    let c = candidates(s, k.harness);
    let i = choose|i: int|
        0 <= i < s.models.len() && (#[trigger] s.models[i]).harness == k.harness;
    let names = s.models.map_values(|r: ModelRegistryRowModel| r.harness);
    let all = names + s.rules.map_values(|r: RoutingRuleRowModel| r.harness);
    assert(all[i] == k.harness);
    assert(all.contains(k.harness));
    lemma_distinct_members(all);
    assert(harnesses(s).contains(k.harness));
    assert(c[0] == k.harness);
    let f = |h: Seq<char>| routed(s, key_of(h, k.domain_type, k.task_type, k.complexity_tier));
    let g = |h: Seq<char>| dangling(s, key_of(h, k.domain_type, k.task_type, k.complexity_tier));
    assert forall|h: Seq<char>| rule_model(
        s,
        #[trigger] key_of(h, k.domain_type, k.task_type, k.complexity_tier),
    ) is None by {
        let key = key_of(h, k.domain_type, k.task_type, k.complexity_tier);
        let own = |r: RoutingRuleRowModel| is_rule(r, key);
        lemma_first_match(s.rules, own);
        if let Some(r) = first_match(s.rules, own) {
            assert(s.rules[s.rules.index_of(r)] == r);
        }
    }
    lemma_none_found(c, f);
    lemma_none_found(c, g);
    let p = |r: ModelRegistryRowModel| r.harness == k.harness;
    let key = |r: ModelRegistryRowModel| (reversed_key(r.cost_weight), 0i64);
    let le = |a: ModelRegistryRowModel, b: ModelRegistryRowModel| pair_desc(key(a), key(b));
    let own = s.models.filter(p);
    let found = listed(s.models, p, key);
    lemma_sort_members(own, le);
    lemma_sort_in_order(own, le);
    assert(p(s.models[i]));
    assert(own.contains(s.models[i]));
    assert(found.contains(s.models[i]));
    assert(found.len() > 0);
    let a = found[0];
    assert(found.contains(a));
    s.models.lemma_filter_contains_rev(p, a);
    assert(p(own[own.index_of(a)]));
    assert(s.models[s.models.index_of(a)] == a);
    assert forall|j: int|
        0 <= j < s.models.len() && (#[trigger] s.models[j]).harness == k.harness implies a.cost_weight
        <= s.models[j].cost_weight by {
        assert(p(s.models[j]));
        assert(own.contains(s.models[j]));
        assert(found.contains(s.models[j]));
        let m = found.index_of(s.models[j]);
        if m > 0 {
            assert(le(found[0], found[m]));
        }
    }
    assert(cheapest(s, c[0]) is Some);
}

proof fn lemma_none_found<A, B>(c: Seq<A>, f: spec_fn(A) -> Option<B>)
    requires
        forall|x: A| (#[trigger] f(x)) is None,
    ensures
        first_found(c, f) is None,
    decreases c.len(),
{
    if c.len() > 0 {
        lemma_none_found(c.skip(1), f);
    }
}

/// Harnesses are the same whatever version follows a slash, capitals aside, with spaces or
/// hyphens.
pub proof fn harness_names_are_loose(a: Seq<char>, version: Seq<char>)
    requires
        forall|i: int| 0 <= i < a.len() ==> #[trigger] a[i] != '/',
    ensures
        normalized(a + seq!['/'] + version) == normalized(a),
        normalized(a) == Seq::new(
            a.len(),
            |i: int|
                if a[i] == ' ' {
                    '-'
                } else {
                    crate::text::lower_char(a[i])
                },
        ),
{
    let s = a + seq!['/'] + version;
    lemma_until_slash(a, seq!['/'] + version);
    assert(s =~= a + (seq!['/'] + version));
    assert(s.take(a.len() as int) =~= a);
    lemma_until_slash(a, seq![]);
    assert(a + seq![] =~= a);
    assert(a.take(a.len() as int) =~= a);
    assert(normalized(a) =~= Seq::new(
        a.len(),
        |i: int|
            if a[i] == ' ' {
                '-'
            } else {
                crate::text::lower_char(a[i])
            },
    ));
}

proof fn lemma_until_slash(a: Seq<char>, b: Seq<char>)
    requires
        forall|i: int| 0 <= i < a.len() ==> #[trigger] a[i] != '/',
        b.len() == 0 || b[0] == '/',
    ensures
        crate::text::until(a + b, '/') == a.len(),
    decreases a.len(),
{
    if a.len() > 0 {
        assert(a[0] != '/');
        assert((a + b).skip(1) =~= a.skip(1) + b);
        assert forall|i: int| 0 <= i < a.skip(1).len() implies #[trigger] a.skip(1)[i] != '/' by {
            assert(a[i + 1] != '/');
        }
        lemma_until_slash(a.skip(1), b);
    } else {
        assert(a + b =~= b);
    }
}

// ---- the author -----------------------------------------------------------

/// The name of the author can be set once, and then again after fourteen days.
pub proof fn the_author_waits_fourteen_days(s: StoreModel, name: Seq<char>, now: i64)
    requires
        s.author matches Some(a) ==> a.updated_at + 1209600 <= i64::MAX,
    ensures
        match s.author {
            None => author_outcome(s, AUTHOR_COOLDOWN_SECS, now) == AuthorSetOutcome::Registered
                && (author_after(s, name, AUTHOR_COOLDOWN_SECS, now) matches Some(x) && x.name
                == name && x.registered_at == now && x.updated_at == now),
            Some(a) => {
                &&& now - a.updated_at >= 1209600 && a.updated_at + 1209600 >= i64::MIN
                    ==> author_outcome(s, AUTHOR_COOLDOWN_SECS, now) == AuthorSetOutcome::Updated
                    && (author_after(s, name, AUTHOR_COOLDOWN_SECS, now) matches Some(x) && x.name
                    == name && x.registered_at == a.registered_at && x.updated_at == now)
                &&& now - a.updated_at < 1209600 ==> author_outcome(s, AUTHOR_COOLDOWN_SECS, now)
                    is Blocked && author_after(s, name, AUTHOR_COOLDOWN_SECS, now) == Some(a)
            },
        },
{
    assert(AUTHOR_COOLDOWN_SECS == 1209600);
}

// ---- the report -----------------------------------------------------------

/// A step in a domain is a gap where it was forced, or where the domain is enforced and the
/// run had not recalled it before; a recall is none.
pub proof fn gaps_are_changes_without_a_recall(
    s: StoreModel,
    before: Seq<EpisodeRowModel>,
    e: EpisodeRowModel,
    domain: Seq<char>,
)
    requires
        e.domain == Some(domain),
    ensures
        ({
            let seen = exists|i: int|
                0 <= i < before.len() && (#[trigger] before[i]).stage == Some("recall"@)
                    && before[i].domain == Some(domain);
            &&& e.stage == Some("recall"@) ==> gap_reason(s, before, e) is None
            &&& e.stage != Some("recall"@) && e.outcome == Some("override"@) ==> gap_reason(
                s,
                before,
                e,
            ) == Some(GapReason::Override)
            &&& e.stage != Some("recall"@) && e.outcome != Some("override"@) ==> (gap_reason(
                s,
                before,
                e,
            ) == Some(GapReason::NoPriorRecall) <==> !seen && is_enforced(s, domain)) && (
            gap_reason(s, before, e) is Some ==> gap_reason(s, before, e) == Some(
                GapReason::NoPriorRecall,
            ))
        }),
{
    if recalled_before(before, domain) {
        let i = choose|i: int|
            0 <= i < before.len() && is_recall_step(#[trigger] before[i]) && before[i].domain
                == Some(domain);
        assert(before[i].stage == Some("recall"@));
    }
    if exists|i: int|
        0 <= i < before.len() && (#[trigger] before[i]).stage == Some("recall"@) && before[i].domain
            == Some(domain) {
        let i = choose|i: int|
            0 <= i < before.len() && (#[trigger] before[i]).stage == Some("recall"@)
                && before[i].domain == Some(domain);
        assert(is_recall_step(before[i]));
    }
}

/// Nothing is reported as a gap but a step that is one: the gaps of a run are those of its
/// steps, one at most for each, in their order.
pub proof fn gaps_are_steps(s: StoreModel, run: Seq<char>, steps: Seq<EpisodeRowModel>)
    ensures
        ({
            let gaps = run_gaps(s, run, steps);
            &&& gaps.len() <= steps.len()
            &&& forall|g: int|
                0 <= g < gaps.len() ==> exists|i: int|
                    0 <= i < steps.len() && gap_reason(s, steps.take(i), #[trigger] steps[i]) == Some(
                        (#[trigger] gaps[g]).reason,
                    ) && gaps[g].episode_id == steps[i].id && gaps[g].step == steps[i].step
                        && gaps[g].run_id == run && gaps[g].ts == steps[i].ts && Some(
                        gaps[g].domain,
                    ) == steps[i].domain
        }),
    decreases steps.len(),
{
    if steps.len() > 0 {
        let head = steps.drop_last();
        let n = head.len() as int;
        gaps_are_steps(s, run, head);
        let before = run_gaps(s, run, head);
        let gaps = run_gaps(s, run, steps);
        assert(steps.take(n) =~= head);
        assert forall|g: int| 0 <= g < gaps.len() implies exists|i: int|
            0 <= i < steps.len() && gap_reason(s, steps.take(i), #[trigger] steps[i]) == Some(
                (#[trigger] gaps[g]).reason,
            ) && gaps[g].episode_id == steps[i].id && gaps[g].step == steps[i].step
                && gaps[g].run_id == run && gaps[g].ts == steps[i].ts && Some(gaps[g].domain)
                == steps[i].domain by {
            if g < before.len() {
                assert(gaps[g] == before[g]);
                let i = choose|i: int|
                    0 <= i < head.len() && gap_reason(s, head.take(i), #[trigger] head[i]) == Some(
                        before[g].reason,
                    ) && before[g].episode_id == head[i].id && before[g].step == head[i].step
                        && before[g].run_id == run && before[g].ts == head[i].ts && Some(
                        before[g].domain,
                    ) == head[i].domain;
                assert(head.take(i) =~= steps.take(i));
                assert(head[i] == steps[i]);
            } else {
                assert(gaps[g] == gap_of(run, steps[n], gap_reason(s, head, steps[n])->0));
            }
        }
    }
}

/// The steps of a run are told in the order of their numbers, all that were listed.
pub proof fn runs_are_told_step_by_step(episodes: Seq<EpisodeRowModel>, run: Seq<char>)
    ensures
        ({
            let steps = run_steps(episodes, run);
            &&& forall|i: int, j: int|
                0 <= i < j < steps.len() ==> (#[trigger] steps[i]).step <= (#[trigger] steps[j]).step
            &&& forall|e: EpisodeRowModel| #[trigger]
                steps.contains(e) <==> episodes.contains(e) && e.run_id == run
        }),
{
    broadcast use vstd::seq_lib::group_filter_ensures;

    let p = |e: EpisodeRowModel| e.run_id == run;
    let key = |e: EpisodeRowModel| (reversed_key(e.step), 0i64);
    let le = |a: EpisodeRowModel, b: EpisodeRowModel| pair_desc(key(a), key(b));
    let f = episodes.filter(p);
    let steps = run_steps(episodes, run);
    lemma_sort_members(f, le);
    lemma_sort_in_order(f, le);
    assert forall|i: int, j: int| 0 <= i < j < steps.len() implies (#[trigger] steps[i]).step <= (
    #[trigger] steps[j]).step by {
        assert(le(steps[i], steps[j]));
    }
    assert forall|e: EpisodeRowModel| #[trigger] steps.contains(e) <==> episodes.contains(e)
        && e.run_id == run by {
        if steps.contains(e) {
            episodes.lemma_filter_contains_rev(p, e);
            assert(p(f[f.index_of(e)]));
        }
        if episodes.contains(e) && e.run_id == run {
            assert(p(episodes[episodes.index_of(e)]));
            assert(f.contains(e));
        }
    }
}

/// Every run that was listed is told once, with the number of its steps and the times of
/// the first and the last.
pub proof fn every_run_is_told_once(s: StoreModel, run_id: Option<Seq<char>>)
    ensures
        ({
            let episodes = episode_list(s, run_id);
            let runs = report(s, run_id).runs;
            &&& forall|i: int, j: int|
                0 <= i < j < runs.len() ==> (#[trigger] runs[i]).run_id != (
                #[trigger] runs[j]).run_id
            &&& forall|i: int|
                0 <= i < episodes.len() ==> exists|j: int|
                    0 <= j < runs.len() && (#[trigger] runs[j]).run_id == (
                    #[trigger] episodes[i]).run_id
            &&& forall|j: int|
                0 <= j < runs.len() ==> (#[trigger] runs[j]).steps == run_steps(
                    episodes,
                    runs[j].run_id,
                ) && forall|i: int|
                    0 <= i < runs[j].steps.len() ==> runs[j].first_ts <= (
                    #[trigger] runs[j].steps[i]).ts <= runs[j].last_ts
            &&& report(s, run_id).run_id == run_id
            &&& report(s, run_id).format == "reverse-explainability-compliance-v1"@
            &&& forall|j: int|
                0 <= j < runs.len() && runs[j].steps.len() <= usize::MAX ==> (
                #[trigger] runs[j]).step_count == runs[j].steps.len()
        }),
{
    let episodes = episode_list(s, run_id);
    let all = episodes.map_values(|e: EpisodeRowModel| e.run_id);
    let names = run_names(episodes);
    let runs = report(s, run_id).runs;
    lemma_distinct_once(all);
    lemma_distinct_members(all);
    assert forall|i: int, j: int| 0 <= i < j < runs.len() implies (#[trigger] runs[i]).run_id != (
    #[trigger] runs[j]).run_id by {
        assert(names[i] != names[j]);
    }
    assert forall|i: int| 0 <= i < episodes.len() implies exists|j: int|
        0 <= j < runs.len() && (#[trigger] runs[j]).run_id == (#[trigger] episodes[i]).run_id by {
        assert(all[i] == episodes[i].run_id);
        assert(all.contains(all[i]));
        assert(names.contains(all[i]));
        let j = names.index_of(all[i]);
        assert(0 <= j < names.len());
        assert(runs[j].run_id == all[i]);
    }
    assert forall|j: int| 0 <= j < runs.len() implies (#[trigger] runs[j]).steps == run_steps(
        episodes,
        runs[j].run_id,
    ) && forall|i: int|
        0 <= i < runs[j].steps.len() ==> runs[j].first_ts <= (#[trigger] runs[j].steps[i]).ts
            <= runs[j].last_ts by {
        lemma_times(runs[j].steps);
    }
}

proof fn lemma_times(steps: Seq<EpisodeRowModel>)
    ensures
        forall|i: int|
            0 <= i < steps.len() ==> first_time(steps) <= (#[trigger] steps[i]).ts <= last_time(steps),
    decreases steps.len(),
{
    if steps.len() > 0 {
        lemma_times(steps.drop_last());
        assert forall|i: int| 0 <= i < steps.len() implies first_time(steps) <= (
        #[trigger] steps[i]).ts <= last_time(steps) by {
            if i < steps.len() - 1 {
                assert(steps.drop_last()[i] == steps[i]);
            }
        }
    }
}

/// The numbers that the steps of a run used are told in order, each once.
pub proof fn used_numbers_are_told_once(ids: Seq<i64>)
    ensures
        forall|n: i64| #[trigger] ids_in_order(ids).contains(n) <==> ids.contains(n),
        forall|i: int, j: int|
            0 <= i < j < ids_in_order(ids).len() ==> #[trigger] ids_in_order(ids)[i]
                < #[trigger] ids_in_order(ids)[j],
{
    let le = |a: i64, b: i64| a <= b;
    let sorted = stable_sort(ids, le);
    lemma_sort_members(ids, le);
    lemma_sort_in_order(ids, le);
    lemma_deduped_members(sorted);
    lemma_deduped_order(sorted);
    assert forall|i: int, j: int| 0 <= i < j < sorted.len() implies #[trigger] sorted[i]
        <= #[trigger] sorted[j] by {
        assert(le(sorted[i], sorted[j]));
    }
}

proof fn lemma_deduped_order(s: Seq<i64>)
    ensures
        (forall|i: int, j: int| 0 <= i < j < s.len() ==> #[trigger] s[i] <= #[trigger] s[j])
            ==> (forall|i: int, j: int|
            0 <= i < j < deduped(s).len() ==> #[trigger] deduped(s)[i] < #[trigger] deduped(s)[j]),
        deduped(s).len() > 0 ==> deduped(s).last() == s.last(),
        s.len() > 0 ==> deduped(s).len() > 0,
    decreases s.len(),
{
    if s.len() > 0 {
        let head = s.drop_last();
        lemma_deduped_order(head);
        lemma_deduped_members(head);
        if forall|i: int, j: int| 0 <= i < j < s.len() ==> #[trigger] s[i] <= #[trigger] s[j] {
            assert forall|i: int, j: int| 0 <= i < j < head.len() implies #[trigger] head[i]
                <= #[trigger] head[j] by {
                assert(s[i] <= s[j]);
            }
            let d = deduped(s);
            let h = deduped(head);
            assert forall|i: int, j: int| 0 <= i < j < d.len() implies #[trigger] d[i]
                < #[trigger] d[j] by {
                if j < h.len() {
                    assert(d[i] == h[i] && d[j] == h[j]);
                } else {
                    let prior = h[h.len() - 1];
                    assert(prior == head.last());
                    assert(h[i] <= prior);
                    assert(s[s.len() - 2] <= s[s.len() - 1]);
                }
            }
        }
    }
}

/// Who stands behind an item is told by its tier.
pub proof fn approvers_are_told_by_tier()
    ensures
        approver("user"@) == Some("user (direct entry)"@),
        approver("reviewed"@) == Some("reviewed (admin promotion)"@),
        approver("proposed"@) is None,
        approver("untrusted"@) is None,
{
    crate::types::trust_tiers_are_distinct(crate::types::Trust::User, crate::types::Trust::Reviewed);
    crate::types::trust_tiers_are_distinct(crate::types::Trust::User, crate::types::Trust::Proposed);
    crate::types::trust_tiers_are_distinct(crate::types::Trust::User, crate::types::Trust::Untrusted);
    crate::types::trust_tiers_are_distinct(crate::types::Trust::Reviewed, crate::types::Trust::Proposed);
    crate::types::trust_tiers_are_distinct(crate::types::Trust::Reviewed, crate::types::Trust::Untrusted);
}

/// The items that a run used are told with their tier, their source and who stands behind
/// them; an item that is no longer there is passed over.
pub proof fn used_items_are_told(s: StoreModel, ids: Seq<i64>, id: i64)
    ensures
        items_used(s, seq![]).len() == 0,
        with_source(s, id) is None ==> items_used(s, ids.push(id)) == items_used(s, ids),
        with_source(s, id) matches Some(k) ==> {
            let all = items_used(s, ids.push(id));
            let x = all.last();
            &&& all.len() == items_used(s, ids).len() + 1 && all.drop_last() == items_used(s, ids)
            &&& x.id == k.row.id && x.title == k.row.title && x.trust == k.row.trust
            &&& x.created_at == k.row.created_at && x.updated_at == k.row.updated_at
            &&& x.approver == approver(k.row.trust)
            &&& k.source_title is Some ==> x.source == k.source_title
            &&& k.source_title is None ==> x.source == k.source_uri
        },
{
    assert(ids.push(id).drop_last() =~= ids);
    if with_source(s, id) is Some {
        assert(items_used(s, ids.push(id)).drop_last() =~= items_used(s, ids));
    }
}

/// The numbers that a run used are those of its steps, and the gaps of a report are those
/// of its runs, one after the other.
pub proof fn runs_are_gone_through_in_order(
    s: StoreModel,
    steps: Seq<EpisodeRowModel>,
    e: EpisodeRowModel,
    episodes: Seq<EpisodeRowModel>,
    runs: Seq<Seq<char>>,
    run: Seq<char>,
)
    ensures
        ids_used(seq![]).len() == 0,
        ids_used(steps.push(e)) == ids_used(steps) + e.knowledge_ids_used,
        all_gaps(s, episodes, seq![]).len() == 0,
        all_gaps(s, episodes, runs.push(run)) == all_gaps(s, episodes, runs) + run_gaps(
            s,
            run,
            run_steps(episodes, run),
        ),
        section(s, run, steps).knowledge_used == items_used(s, ids_in_order(ids_used(steps))),
{
    assert(steps.push(e).drop_last() =~= steps);
    assert(runs.push(run).drop_last() =~= runs);
}

/// A step tells of something where it is of the stage and its action holds it, in any case.
pub proof fn steps_tell_in_any_case(e: EpisodeRowModel, stage: Seq<char>, needle: Seq<char>)
    ensures
        tells_of(e, stage, needle) <==> e.stage == Some(stage) && (e.action matches Some(a)
            && crate::text::has(crate::text::lower(a), crate::text::lower(needle))),
{
}

/// In a domain that some permission speaks of already, a permission leaves whoever else
/// there is alone.
pub proof fn permissions_leave_others_in_the_domain(
    s: StoreModel,
    identity: Seq<char>,
    domain: Seq<char>,
    allowed: bool,
    who: Seq<char>,
    at: int,
)
    requires
        who != identity,
        0 <= at < s.permissions.len(),
        s.permissions[at].domain == domain,
    ensures
        may_use(permitted(s, identity, domain, allowed), Some(who), domain) == may_use(
            s,
            Some(who),
            domain,
        ),
{
    let of = |p: PermissionModel| p.domain == domain;
    assert(of(s.permissions[at]));
    let t = permitted(s, identity, domain, allowed);
    lemma_same_permissions(s.permissions, t.permissions, who, domain, identity, domain, allowed);
}

/// A domain that is not on record is not enforced, and its texts are redacted.
pub proof fn unknown_domains_are_redacted(s: StoreModel, name: Seq<char>)
    requires
        forall|i: int| 0 <= i < s.domains.len() ==> (#[trigger] s.domains[i]).name != name,
    ensures
        !is_enforced(s, name),
        crate::store::acl::redacts(s, name),
{
    let p = |d: DomainRecordModel| d.name == name;
    lemma_first_match(s.domains, p);
    if let Some(d) = first_match(s.domains, p) {
        assert(s.domains[s.domains.index_of(d)] == d);
    }
}

} // verus!
