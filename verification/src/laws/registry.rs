//! Models and the rules by which they are chosen.
use vstd::prelude::*;

use crate::order::{stable_sort, texts_le};
use crate::store::StoreModel;
use crate::store::registry::{advice, candidates, configured, dangling, first_found, harnesses};
use crate::store::registry::{is_akin, is_model, is_rule, key_of, model_key, normalized, routed};
use crate::store::registry::{rule_key, rule_model, ruled, without_model, Advice, RuleKey};
use crate::table::{distinct, first_match, lemma_distinct_members, lemma_first_match, some_match};
use crate::table::sorted_by;
use crate::types::{ModelRegistryRowModel, RoutingRuleRowModel};

verus! {

/// A model that is configured replaces the one of its names, and leaves the others.
pub proof fn models_replace_their_like(
    s: StoreModel,
    row: ModelRegistryRowModel,
    r: ModelRegistryRowModel,
)
    ensures
        configured(s, row).models.contains(row),
        r != row ==> (configured(s, row).models.contains(r) <==> s.models.contains(r) && !(r.harness
            == row.harness && r.model_id == row.model_id && r.sub_agent_name
            == row.sub_agent_name)),
        configured(s, row) == (StoreModel { models: configured(s, row).models, ..s }),
{
    let p = |r: ModelRegistryRowModel| !is_model(r, row.harness, row.model_id, row.sub_agent_name);
    crate::laws::domains::lemma_kept(s.models, p);
    let f = s.models.filter(p);
    let t = configured(s, row).models;
    assert(t == f.push(row));
    assert(t[f.len() as int] == row);
    if t.contains(r) && r != row {
        let m = t.index_of(r);
        assert(f[m] == r);
        assert(f.contains(r));
    }
    if f.contains(r) {
        let m = f.index_of(r);
        assert(t[m] == r);
    }
}

/// A model is removed by its harness, its name and its sub-agent.
pub proof fn models_are_removed_by_name(
    s: StoreModel,
    harness: Seq<char>,
    model_id: Seq<char>,
    sub_agent: Option<Seq<char>>,
    r: ModelRegistryRowModel,
)
    ensures
        without_model(s, harness, model_id, sub_agent).models.contains(r) <==> s.models.contains(r)
            && !(r.harness == harness && r.model_id == model_id && r.sub_agent_name == sub_agent),
{
    crate::laws::domains::lemma_kept(
        s.models,
        |r: ModelRegistryRowModel| !is_model(r, harness, model_id, sub_agent),
    );
}

/// A rule that is set holds for its harness, domain, task and tier, and for no other.
pub proof fn rules_hold_for_their_key(s: StoreModel, k: RuleKey, model: Seq<char>)
    ensures
        ({
            let t = ruled(s, k, model);
            &&& exists|i: int|
                0 <= i < t.rules.len() && (#[trigger] t.rules[i]).harness == k.harness
                    && t.rules[i].domain_type == k.domain_type && t.rules[i].task_type
                    == k.task_type && t.rules[i].complexity_tier == k.complexity_tier
                    && t.rules[i].model_id == model
            &&& forall|i: int|
                0 <= i < t.rules.len() && (#[trigger] t.rules[i]).harness == k.harness
                    && t.rules[i].domain_type == k.domain_type && t.rules[i].task_type
                    == k.task_type && t.rules[i].complexity_tier == k.complexity_tier
                    ==> t.rules[i].model_id == model
            &&& forall|i: int|
                0 <= i < s.rules.len() && !((#[trigger] s.rules[i]).harness == k.harness
                    && s.rules[i].domain_type == k.domain_type && s.rules[i].task_type
                    == k.task_type && s.rules[i].complexity_tier == k.complexity_tier)
                    ==> t.rules[i] == s.rules[i]
        }),
{
    let p = |r: RoutingRuleRowModel| is_rule(r, k);
    let t = ruled(s, k, model);
    if some_match(s.rules, p) {
        let i = choose|i: int| 0 <= i < s.rules.len() && p(#[trigger] s.rules[i]);
        assert(t.rules[i].model_id == model);
    } else {
        assert(t.rules[s.rules.len() as int].model_id == model);
        assert forall|i: int| 0 <= i < s.rules.len() implies !p(#[trigger] s.rules[i]) by {}
        assert forall|i: int|
            0 <= i < t.rules.len() && (#[trigger] t.rules[i]).harness == k.harness
                && t.rules[i].domain_type == k.domain_type && t.rules[i].task_type == k.task_type
                && t.rules[i].complexity_tier == k.complexity_tier implies t.rules[i].model_id
            == model by {
            if i < s.rules.len() {
                assert(t.rules[i] == s.rules[i]);
                assert(!p(s.rules[i]));
            }
        }
    }
}

/// A rule whose model is registered decides; one whose model is not says that.
pub proof fn rules_decide_before_cost(s: StoreModel, k: RuleKey, at: int)
    requires
        0 <= at < s.rules.len(),
        s.rules[at].harness == k.harness,
        s.rules[at].domain_type == k.domain_type,
        s.rules[at].task_type == k.task_type,
        s.rules[at].complexity_tier == k.complexity_tier,
        forall|i: int|
            0 <= i < s.rules.len() && (#[trigger] s.rules[i]).domain_type == k.domain_type
                && s.rules[i].task_type == k.task_type && s.rules[i].complexity_tier
                == k.complexity_tier ==> i == at,
    ensures
        (exists|i: int|
            0 <= i < s.models.len() && (#[trigger] s.models[i]).harness == k.harness
                && s.models[i].model_id == s.rules[at].model_id) ==> (advice(s, k) matches Some(a)
            && a.model_id == s.rules[at].model_id && a.reason == "routing rule match"@ && exists|
            i: int,
        |
            0 <= i < s.models.len() && (#[trigger] s.models[i]).harness == k.harness
                && s.models[i].model_id == a.model_id && s.models[i].cost_weight == a.cost),
        (forall|i: int|
            0 <= i < s.models.len() && (#[trigger] s.models[i]).harness == k.harness
                ==> s.models[i].model_id != s.rules[at].model_id) ==> advice(s, k) == Some(
            Advice {
                model_id: s.rules[at].model_id,
                cost: 0,
                reason: "routing rule points to unregistered model '"@ + s.rules[at].model_id
                    + "' for harness '"@ + k.harness + "' — register it or fix the rule"@,
            },
        ),
{
    let m = s.rules[at].model_id;
    let own = |r: RoutingRuleRowModel| is_rule(r, k);
    lemma_first_match(s.rules, own);
    assert(own(s.rules[at]));
    if let Some(r) = first_match(s.rules, own) {
        let i = s.rules.index_of(r);
        assert(s.rules[i] == r);
        assert(i == at);
    }
    assert(rule_model(s, k) == Some(m));
    let names = s.models.map_values(|r: ModelRegistryRowModel| r.harness);
    let rules = s.rules.map_values(|r: RoutingRuleRowModel| r.harness);
    let all = names + rules;
    assert(all[names.len() + at] == k.harness);
    assert(all.contains(k.harness));
    lemma_distinct_members(all);
    assert(harnesses(s).contains(k.harness));
    let c = candidates(s, k.harness);
    assert(c[0] == k.harness);
    let f = |h: Seq<char>| routed(s, key_of(h, k.domain_type, k.task_type, k.complexity_tier));
    let g = |h: Seq<char>| dangling(s, key_of(h, k.domain_type, k.task_type, k.complexity_tier));
    assert(key_of(k.harness, k.domain_type, k.task_type, k.complexity_tier) == k);
    let q = |r: ModelRegistryRowModel| r.harness == k.harness && r.model_id == m;
    lemma_first_match(s.models, q);
    if exists|i: int|
        0 <= i < s.models.len() && (#[trigger] s.models[i]).harness == k.harness
            && s.models[i].model_id == m {
        let i = choose|i: int|
            0 <= i < s.models.len() && (#[trigger] s.models[i]).harness == k.harness
                && s.models[i].model_id == m;
        assert(q(s.models[i]));
        let x = first_match(s.models, q)->0;
        assert(s.models[s.models.index_of(x)] == x);
        assert(f(c[0]) is Some);
        assert(first_found(c, f) == f(c[0]));
    }
    if forall|i: int|
        0 <= i < s.models.len() && (#[trigger] s.models[i]).harness == k.harness
            ==> s.models[i].model_id != m {
        if let Some(x) = first_match(s.models, q) {
            assert(s.models[s.models.index_of(x)] == x);
        }
        assert(f(c[0]) is None);
        assert(g(c[0]) is Some);
        assert forall|h: Seq<char>| h != k.harness implies #[trigger] f(h) is None by {
            let other = key_of(h, k.domain_type, k.task_type, k.complexity_tier);
            let its = |r: RoutingRuleRowModel| is_rule(r, other);
            lemma_first_match(s.rules, its);
            if let Some(r) = first_match(s.rules, its) {
                let i = s.rules.index_of(r);
                assert(s.rules[i] == r);
            }
        }
        lemma_found_in_none(c, f);
        assert(first_found(c, g) == g(c[0]));
    }
}

proof fn lemma_found_in_none<A, B>(c: Seq<A>, f: spec_fn(A) -> Option<B>)
    requires
        forall|i: int| 0 <= i < c.len() ==> (#[trigger] f(c[i])) is None,
    ensures
        first_found(c, f) is None,
    decreases c.len(),
{
    if c.len() > 0 {
        assert(f(c[0]) is None);
        assert forall|i: int| 0 <= i < c.skip(1).len() implies (#[trigger] f(c.skip(1)[i]))
            is None by {
            assert(c.skip(1)[i] == c[i + 1]);
        }
        lemma_found_in_none(c.skip(1), f);
    }
}

/// A harness is looked for under its own name first, then under names that are loosely the
/// same.
pub proof fn own_names_come_first(s: StoreModel, harness: Seq<char>, other: Seq<char>)
    ensures
        harnesses(s).contains(harness) ==> candidates(s, harness).len() > 0 && candidates(
            s,
            harness,
        )[0] == harness,
        candidates(s, harness).contains(other) <==> harnesses(s).contains(other) && (other
            == harness || normalized(other) == normalized(harness)),
        harnesses(s).contains(other) <==> (exists|i: int|
            0 <= i < s.models.len() && (#[trigger] s.models[i]).harness == other) || (exists|i: int|
            0 <= i < s.rules.len() && (#[trigger] s.rules[i]).harness == other),
{
    let known = harnesses(s);
    let p = |h: Seq<char>| is_akin(h, harness);
    crate::laws::domains::lemma_kept(known, p);
    let rest = known.filter(p);
    let c = candidates(s, harness);
    if known.contains(harness) {
        assert(c =~= seq![harness] + rest);
        assert(c[0] == harness);
    } else {
        assert(c =~= rest);
    }
    if c.contains(other) {
        let m = c.index_of(other);
        if known.contains(harness) && m > 0 {
            assert(rest[m - 1] == other);
            assert(rest.contains(other));
        }
    }
    if rest.contains(other) {
        let m = rest.index_of(other);
        if known.contains(harness) {
            assert(c[m + 1] == other);
        } else {
            assert(c[m] == other);
        }
    }
    let names = s.models.map_values(|r: ModelRegistryRowModel| r.harness);
    let rules = s.rules.map_values(|r: RoutingRuleRowModel| r.harness);
    let all = names + rules;
    lemma_distinct_members(all);
    assert(known == distinct(all));
    if all.contains(other) {
        let m = all.index_of(other);
        if m < names.len() {
            assert(s.models[m].harness == other);
        } else {
            assert(s.rules[m - names.len()].harness == other);
        }
    }
    if exists|i: int| 0 <= i < s.models.len() && (#[trigger] s.models[i]).harness == other {
        let i = choose|i: int| 0 <= i < s.models.len() && (#[trigger] s.models[i]).harness == other;
        assert(all[i] == other);
    }
    if exists|i: int| 0 <= i < s.rules.len() && (#[trigger] s.rules[i]).harness == other {
        let i = choose|i: int| 0 <= i < s.rules.len() && (#[trigger] s.rules[i]).harness == other;
        assert(all[names.len() + i] == other);
    }
}

/// Models are listed by harness, tier and name, rules by what they hold for; none is left
/// out.
pub proof fn models_and_rules_are_listed_in_order(
    models: Seq<ModelRegistryRowModel>,
    rules: Seq<RoutingRuleRowModel>,
    m: ModelRegistryRowModel,
    r: RoutingRuleRowModel,
)
    ensures
        sorted_by(models, |r: ModelRegistryRowModel| model_key(r)).contains(m) <==> models.contains(
            m,
        ),
        sorted_by(rules, |r: RoutingRuleRowModel| rule_key(r)).contains(r) <==> rules.contains(r),
        model_key(m) == seq![m.harness, m.capability_tier, m.model_id],
        rule_key(r) == seq![r.harness, r.domain_type, r.task_type, r.complexity_tier],
{
    let a = |r: ModelRegistryRowModel| model_key(r);
    let b = |r: RoutingRuleRowModel| rule_key(r);
    crate::order::lemma_sort_members(
        models,
        |x: ModelRegistryRowModel, y: ModelRegistryRowModel| texts_le(a(x), a(y)),
    );
    crate::order::lemma_sort_members(
        rules,
        |x: RoutingRuleRowModel, y: RoutingRuleRowModel| texts_le(b(x), b(y)),
    );
    assert(sorted_by(models, a) == stable_sort(
        models,
        |a1: ModelRegistryRowModel, b1: ModelRegistryRowModel| texts_le(a(a1), a(b1)),
    ));
}

} // verus!
