//! The model registry, and the rules that route a task to a model.
use vstd::prelude::*;

use crate::order::{ints, picked};
use crate::store::{Store, StoreModel};
use crate::table::{any, find_row, first_match, lemma_first_match, list, listed, map_at, retain};
use crate::table::{distinct, distinct_texts, reversed_key, rewrite, some_match, sort_by};
use crate::table::{lemma_distinct_members, lemma_filter_filter, lemma_positions, positions};
use crate::table::sorted_by;
use crate::text::{chars, find_char, lower, lowered, opt_str, own, same};
use crate::text::{swap_char, swapped, text_of, texts, until};
use crate::types::{lemma_models_push, models};
use crate::types::{ModelRegistryRow, ModelRegistryRowModel, RoutingRuleRow, RoutingRuleRowModel};

verus! {

// ---- the tables -----------------------------------------------------------

/// Whether a row is that of a model of a harness, for all or for one sub-agent.
pub open spec fn is_model(
    r: ModelRegistryRowModel,
    harness: Seq<char>,
    model_id: Seq<char>,
    sub_agent: Option<Seq<char>>,
) -> bool {
    r.harness == harness && r.model_id == model_id && r.sub_agent_name == sub_agent
}

/// What a routing rule is for.
pub struct RuleKey {
    pub harness: Seq<char>,
    pub domain_type: Seq<char>,
    pub task_type: Seq<char>,
    pub complexity_tier: Seq<char>,
}

/// Whether a rule is for a key.
pub open spec fn is_rule(r: RoutingRuleRowModel, k: RuleKey) -> bool {
    r.harness == k.harness && r.domain_type == k.domain_type && r.task_type == k.task_type
        && r.complexity_tier == k.complexity_tier
}

/// The store after a model was configured: in the place of the row that it had.
pub open spec fn configured(s: StoreModel, row: ModelRegistryRowModel) -> StoreModel {
    StoreModel {
        models: s.models.filter(
            |r: ModelRegistryRowModel|
                !is_model(r, row.harness, row.model_id, row.sub_agent_name),
        ).push(row),
        ..s
    }
}

/// The store without a model.
pub open spec fn without_model(
    s: StoreModel,
    harness: Seq<char>,
    model_id: Seq<char>,
    sub_agent: Option<Seq<char>>,
) -> StoreModel {
    StoreModel {
        models: s.models.filter(
            |r: ModelRegistryRowModel| !is_model(r, harness, model_id, sub_agent),
        ),
        ..s
    }
}

/// The store after a rule was set: one for each key.
pub open spec fn ruled(s: StoreModel, k: RuleKey, model_id: Seq<char>) -> StoreModel {
    StoreModel {
        rules: if some_match(s.rules, |r: RoutingRuleRowModel| is_rule(r, k)) {
            s.rules.map_values(
                |r: RoutingRuleRowModel|
                    if is_rule(r, k) {
                        RoutingRuleRowModel { model_id, ..r }
                    } else {
                        r
                    },
            )
        } else {
            s.rules.push(
                RoutingRuleRowModel {
                    harness: k.harness,
                    domain_type: k.domain_type,
                    task_type: k.task_type,
                    complexity_tier: k.complexity_tier,
                    model_id,
                },
            )
        },
        ..s
    }
}

fn rule_is(r: &RoutingRuleRow, harness: &str, domain_type: &str, task_type: &str, tier: &str) -> (b:
    bool)
    ensures
        b == is_rule(
            r@,
            key_of(harness@, domain_type@, task_type@, tier@),
        ),
{
    same(r.harness.as_str(), harness) && same(r.domain_type.as_str(), domain_type) && same(
        r.task_type.as_str(),
        task_type,
    ) && same(r.complexity_tier.as_str(), tier)
}

fn model_is(r: &ModelRegistryRow, harness: &str, model_id: &str, sub_agent: Option<&str>) -> (b:
    bool)
    ensures
        b == is_model(r@, harness@, model_id@, opt_str(sub_agent)),
{
    same(r.harness.as_str(), harness) && same(r.model_id.as_str(), model_id) && (match (
        &r.sub_agent_name,
        sub_agent,
    ) {
        (Some(a), Some(b)) => same(a.as_str(), b),
        (None, None) => true,
        _ => false,
    })
}

impl Store {
    /// Configures a model of a harness, for all or for one sub-agent; a row that it had
    /// is replaced. `cost` is the key of its cost weight.
    pub fn configure_model(
        &mut self,
        harness: &str,
        model_id: &str,
        tier: &str,
        cost: i64,
        sub_agent: Option<&str>,
    )
        ensures
            final(self)@ == configured(
                old(self)@,
                (ModelRegistryRowModel {
                    harness: harness@,
                    model_id: model_id@,
                    capability_tier: tier@,
                    cost_weight: cost,
                    sub_agent_name: opt_str(sub_agent),
                }),
            ),
    {
        broadcast use lemma_models_push;

        self.remove_model(harness, model_id, sub_agent);
        let row: ModelRegistryRow = ModelRegistryRow {
            harness: harness.to_owned(),
            model_id: model_id.to_owned(),
            capability_tier: tier.to_owned(),
            cost_weight: cost,
            sub_agent_name: own(sub_agent),
        };
        let ghost model = row@;
        self.models.push(row);
        assert(self@ =~= configured(old(self)@, model));
    }

    /// Sets the model that a rule routes to; a rule for the same key is replaced.
    pub fn add_routing_rule(
        &mut self,
        harness: &str,
        domain_type: &str,
        task_type: &str,
        complexity_tier: &str,
        model_id: &str,
    )
        ensures
            final(self)@ == ruled(
                old(self)@,
                key_of(harness@, domain_type@, task_type@, complexity_tier@),
                model_id@,
            ),
    {
        broadcast use lemma_models_push;

        let ghost k = key_of(harness@, domain_type@, task_type@, complexity_tier@);
        if self.rule_at(harness, domain_type, task_type, complexity_tier).is_some() {
            let set = |r: RoutingRuleRow| -> (q: RoutingRuleRow)
                ensures
                    q@ == (if is_rule(
                        r@,
                        key_of(harness@, domain_type@, task_type@, complexity_tier@),
                    ) {
                        RoutingRuleRowModel { model_id: model_id@, ..r@ }
                    } else {
                        r@
                    }),
                {
                    let mut q: RoutingRuleRow = r;
                    if rule_is(&q, harness, domain_type, task_type, complexity_tier) {
                        q.model_id = model_id.to_owned();
                    }
                    q
                };
            let ghost g = |r: RoutingRuleRowModel|
                if is_rule(r, k) {
                    RoutingRuleRowModel { model_id: model_id@, ..r }
                } else {
                    r
                };
            rewrite(&mut self.rules, set, Ghost(g));
        } else {
            let row: RoutingRuleRow = RoutingRuleRow {
                harness: harness.to_owned(),
                domain_type: domain_type.to_owned(),
                task_type: task_type.to_owned(),
                complexity_tier: complexity_tier.to_owned(),
                model_id: model_id.to_owned(),
            };
            self.rules.push(row);
        }
        assert(self@ =~= ruled(old(self)@, k, model_id@));
    }

    fn rule_at(&self, harness: &str, domain_type: &str, task_type: &str, tier: &str) -> (r: Option<
        usize,
    >)
        ensures
            ({
                let k = key_of(harness@, domain_type@, task_type@, tier@);
                let p = |r: RoutingRuleRowModel| is_rule(r, k);
                match r {
                    Some(i) => i < self.rules@.len() && first_match(self@.rules, p) == Some(
                        self.rules@[i as int]@,
                    ) && some_match(self@.rules, p),
                    None => first_match(self@.rules, p) is None && !some_match(self@.rules, p),
                }
            }),
    {
        let ghost k = key_of(harness@, domain_type@, task_type@, tier@);
        let is = |r: &RoutingRuleRow| -> (b: bool)
            ensures
                b == is_rule(
                    r@,
                    key_of(harness@, domain_type@, task_type@, tier@),
                ),
            { rule_is(r, harness, domain_type, task_type, tier) };
        find_row(&self.rules, is, Ghost(|r: RoutingRuleRowModel| is_rule(r, k)))
    }

    /// Removes a model of a harness, for all or for one sub-agent. Says whether there
    /// was one.
    pub fn remove_model(
        &mut self,
        harness: &str,
        model_id: &str,
        sub_agent_name: Option<&str>,
    ) -> (r: bool)
        ensures
            final(self)@ == without_model(old(self)@, harness@, model_id@, opt_str(sub_agent_name)),
            r == some_match(
                old(self)@.models,
                |r: ModelRegistryRowModel|
                    is_model(r, harness@, model_id@, opt_str(sub_agent_name)),
            ),
    {
        let is = |r: &ModelRegistryRow| -> (b: bool)
            ensures
                b == is_model(r@, harness@, model_id@, opt_str(sub_agent_name)),
            { model_is(r, harness, model_id, sub_agent_name) };
        let done: bool = any(
            &self.models,
            is,
            Ghost(
                |r: ModelRegistryRowModel|
                    is_model(r, harness@, model_id@, opt_str(sub_agent_name)),
            ),
        );
        let other = |r: &ModelRegistryRow| -> (b: bool)
            ensures
                b == !is_model(r@, harness@, model_id@, opt_str(sub_agent_name)),
            { !model_is(r, harness, model_id, sub_agent_name) };
        retain(
            &mut self.models,
            other,
            Ghost(
                |r: ModelRegistryRowModel|
                    !is_model(r, harness@, model_id@, opt_str(sub_agent_name)),
            ),
        );
        assert(self@ =~= without_model(
            old(self)@,
            harness@,
            model_id@,
            opt_str(sub_agent_name),
        ));
        done
    }

    /// Removes a rule. Says whether there was one.
    pub fn remove_routing_rule(
        &mut self,
        harness: &str,
        domain_type: &str,
        task_type: &str,
        complexity_tier: &str,
    ) -> (r: bool)
        ensures
            ({
                let k = key_of(harness@, domain_type@, task_type@, complexity_tier@);
                &&& r == some_match(old(self)@.rules, |r: RoutingRuleRowModel| is_rule(r, k))
                &&& final(self)@ == StoreModel {
                    rules: old(self)@.rules.filter(|r: RoutingRuleRowModel| !is_rule(r, k)),
                    ..old(self)@
                }
            }),
    {
        let ghost k = key_of(harness@, domain_type@, task_type@, complexity_tier@);
        let done: bool = self.rule_at(harness, domain_type, task_type, complexity_tier).is_some();
        let other = |r: &RoutingRuleRow| -> (b: bool)
            ensures
                b == !is_rule(
                    r@,
                    key_of(harness@, domain_type@, task_type@, complexity_tier@),
                ),
            { !rule_is(r, harness, domain_type, task_type, complexity_tier) };
        let ghost p = |r: RoutingRuleRowModel| !is_rule(r, k);
        retain(&mut self.rules, other, Ghost(p));
        assert(self@ =~= (StoreModel { rules: old(self)@.rules.filter(p), ..old(self)@ }));
        done
    }
}

// ---- listing --------------------------------------------------------------

/// What models are listed by: the harness, then the tier, then the model.
pub open spec fn model_key(r: ModelRegistryRowModel) -> Seq<Seq<char>> {
    seq![r.harness, r.capability_tier, r.model_id]
}

/// What rules are listed by: the harness, then the domain, the task and the complexity.
pub open spec fn rule_key(r: RoutingRuleRowModel) -> Seq<Seq<char>> {
    seq![r.harness, r.domain_type, r.task_type, r.complexity_tier]
}

impl Store {
    /// The models, by harness, tier and model.
    pub fn list_model_registry(&self) -> (r: Vec<ModelRegistryRow>)
        ensures
            models(r@) == sorted_by(self@.models, |r: ModelRegistryRowModel| model_key(r)),
    {
        let key = |r: &ModelRegistryRow| -> (k: Vec<String>)
            ensures
                texts(k@) == model_key(r@),
            {
                let mut k: Vec<String> = Vec::new();
                k.push(r.harness.clone());
                k.push(r.capability_tier.clone());
                k.push(r.model_id.clone());
                assert(texts(k@) =~= model_key(r@));
                k
            };
        let at: Vec<usize> = sort_by(
            &self.models,
            key,
            Ghost(|r: ModelRegistryRowModel| model_key(r)),
        );
        let f = |r: &ModelRegistryRow| -> (q: ModelRegistryRow)
            ensures
                q@ == r@,
            { r.clone() };
        let out: Vec<ModelRegistryRow> = map_at(
            &self.models,
            &at,
            f,
            Ghost(|r: ModelRegistryRowModel| r),
        );
        assert(models(out@) =~= picked(self@.models, ints(at@)));
        out
    }

    /// The rules, by harness, domain, task and complexity.
    pub fn list_routing_rules(&self) -> (r: Vec<RoutingRuleRow>)
        ensures
            models(r@) == sorted_by(self@.rules, |r: RoutingRuleRowModel| rule_key(r)),
    {
        let key = |r: &RoutingRuleRow| -> (k: Vec<String>)
            ensures
                texts(k@) == rule_key(r@),
            {
                let mut k: Vec<String> = Vec::new();
                k.push(r.harness.clone());
                k.push(r.domain_type.clone());
                k.push(r.task_type.clone());
                k.push(r.complexity_tier.clone());
                assert(texts(k@) =~= rule_key(r@));
                k
            };
        let at: Vec<usize> = sort_by(
            &self.rules,
            key,
            Ghost(|r: RoutingRuleRowModel| rule_key(r)),
        );
        let f = |r: &RoutingRuleRow| -> (q: RoutingRuleRow)
            ensures
                q@ == r@,
            { r.clone() };
        let out: Vec<RoutingRuleRow> = map_at(
            &self.rules,
            &at,
            f,
            Ghost(|r: RoutingRuleRowModel| r),
        );
        assert(models(out@) =~= picked(self@.rules, ints(at@)));
        out
    }
}

// ---- recommending ---------------------------------------------------------

/// A harness name without a version and without differences of spelling: what stands
/// before the first slash, in lower case, with dashes for spaces.
pub open spec fn normalized(h: Seq<char>) -> Seq<char> {
    lower(swapped(h.take(until(h, '/') as int), ' ', '-'))
}

/// A harness name without a version and without differences of spelling.
pub fn normalize_harness(h: &str) -> (r: String)
    ensures
        r@ == normalized(h@),
{
    let v: Vec<char> = chars(h);
    assert(v@.skip(0) =~= v@);
    let i: usize = find_char(&v, '/', 0);
    let base: String = text_of(&v, 0, i);
    assert(base@ =~= h@.take(until(h@, '/') as int));
    lowered(swap_char(base.as_str(), ' ', '-').as_str())
}

/// The harnesses on record, each once, in order.
pub open spec fn harnesses(s: StoreModel) -> Seq<Seq<char>> {
    let all = s.models.map_values(|r: ModelRegistryRowModel| r.harness) + s.rules.map_values(
        |r: RoutingRuleRowModel| r.harness,
    );
    distinct(all)
}

/// Whether a name differs from another in version or spelling only.
pub open spec fn is_akin(h: Seq<char>, harness: Seq<char>) -> bool {
    h != harness && normalized(h) == normalized(harness)
}

/// The harnesses to look under: the very name first, where it is on record, then every
/// other name on record that differs from it in version or spelling only.
pub open spec fn candidates(s: StoreModel, harness: Seq<char>) -> Seq<Seq<char>> {
    (if harnesses(s).contains(harness) {
        seq![harness]
    } else {
        seq![]
    }) + harnesses(s).filter(
        |h: Seq<char>| is_akin(h, harness),
    )
}

/// The first thing that `f` finds for an element of `s`.
pub open spec fn first_found<A, B>(s: Seq<A>, f: spec_fn(A) -> Option<B>) -> Option<B>
    decreases s.len(),
{
    if s.len() == 0 {
        None
    } else if f(s[0]) is Some {
        f(s[0])
    } else {
        first_found(s.skip(1), f)
    }
}

/// A recommended model, the key of its cost weight, and why it is recommended.
pub struct Advice {
    pub model_id: Seq<char>,
    pub cost: i64,
    pub reason: Seq<char>,
}

/// The model that a rule names.
pub open spec fn rule_model(s: StoreModel, k: RuleKey) -> Option<Seq<char>> {
    match first_match(s.rules, |r: RoutingRuleRowModel| is_rule(r, k)) {
        Some(r) => Some(r.model_id),
        None => None,
    }
}

/// The advice of a rule whose model is registered.
pub open spec fn routed(s: StoreModel, k: RuleKey) -> Option<Advice> {
    match rule_model(s, k) {
        Some(m) => match first_match(
            s.models,
            |r: ModelRegistryRowModel| r.harness == k.harness && r.model_id == m,
        ) {
            Some(r) => Some(
                Advice {
                    model_id: r.model_id,
                    cost: r.cost_weight,
                    reason: "routing rule match"@,
                },
            ),
            None => None,
        },
        None => None,
    }
}

/// The advice of a rule, said to name a model that is not registered.
pub open spec fn dangling(s: StoreModel, k: RuleKey) -> Option<Advice> {
    match rule_model(s, k) {
        Some(m) => Some(
            Advice {
                model_id: m,
                cost: 0,
                reason: "routing rule points to unregistered model '"@ + m + "' for harness '"@
                    + k.harness + "' — register it or fix the rule"@,
            },
        ),
        None => None,
    }
}

/// The cheapest model of a harness.
pub open spec fn cheapest(s: StoreModel, harness: Seq<char>) -> Option<Advice> {
    let found = listed(
        s.models,
        |r: ModelRegistryRowModel| r.harness == harness,
        |r: ModelRegistryRowModel| (reversed_key(r.cost_weight), 0i64),
    );
    if found.len() == 0 {
        None
    } else {
        Some(
            Advice {
                model_id: found[0].model_id,
                cost: found[0].cost_weight,
                reason: "no exact rule; cheapest configured model"@,
            },
        )
    }
}

/// What a rule is for, from its parts.
pub open spec fn key_of(
    harness: Seq<char>,
    domain_type: Seq<char>,
    task_type: Seq<char>,
    complexity_tier: Seq<char>,
) -> RuleKey {
    RuleKey { harness, domain_type, task_type, complexity_tier }
}

/// The model to use: that of a rule, where one names a registered model; else a rule
/// that names one that is not registered is reported; else the cheapest model there is.
pub open spec fn advice(s: StoreModel, k: RuleKey) -> Option<Advice> {
    let c = candidates(s, k.harness);
    let a = first_found(
        c,
        |h: Seq<char>| routed(s, key_of(h, k.domain_type, k.task_type, k.complexity_tier)),
    );
    let b = first_found(
        c,
        |h: Seq<char>| dangling(s, key_of(h, k.domain_type, k.task_type, k.complexity_tier)),
    );
    if a is Some {
        a
    } else if b is Some {
        b
    } else {
        first_found(c, |h: Seq<char>| cheapest(s, h))
    }
}

impl Store {
    fn harness_names(&self) -> (r: Vec<String>)
        ensures
            texts(r@) == harnesses(self@),
    {
        let mut all: Vec<String> = Vec::new();
        let ghost a = self@.models.map_values(|r: ModelRegistryRowModel| r.harness);
        let ghost b = self@.rules.map_values(|r: RoutingRuleRowModel| r.harness);
        let mut i: usize = 0;
        assert(texts(all@) =~= a.take(0));
        while i < self.models.len()
            invariant
                i <= self.models@.len(),
                a == self@.models.map_values(|r: ModelRegistryRowModel| r.harness),
                texts(all@) == a.take(i as int),
            decreases self.models.len() - i,
        {
            let ghost before = texts(all@);
            all.push(self.models[i].harness.clone());
            assert(texts(all@) =~= before.push(a[i as int]));
            assert(texts(all@) =~= a.take(i + 1));
            i += 1;
        }
        assert(a.take(i as int) =~= a);
        let mut j: usize = 0;
        assert(texts(all@) =~= a + b.take(0));
        while j < self.rules.len()
            invariant
                j <= self.rules@.len(),
                b == self@.rules.map_values(|r: RoutingRuleRowModel| r.harness),
                texts(all@) == a + b.take(j as int),
            decreases self.rules.len() - j,
        {
            let ghost before = texts(all@);
            all.push(self.rules[j].harness.clone());
            assert(texts(all@) =~= before.push(b[j as int]));
            assert(texts(all@) =~= a + b.take(j + 1));
            j += 1;
        }
        assert(b.take(j as int) =~= b);
        assert(texts(all@) =~= a + b);
        distinct_texts(&all)
    }

    /// The harnesses to look under for one of a name.
    fn candidate_harnesses(&self, harness: &str) -> (r: Vec<String>)
        ensures
            texts(r@) == candidates(self@, harness@),
    {
        let all: Vec<String> = self.harness_names();
        let target: String = normalize_harness(harness);
        let is = |h: &String| -> (b: bool)
            ensures
                b == (h@ == harness@),
            { same(h.as_str(), harness) };
        let mut out: Vec<String> = Vec::new();
        let there: bool = any(&all, is, Ghost(|h: Seq<char>| h == harness@));
        let ghost known = harnesses(self@);
        assert(models(all@) =~= known);
        proof {
            let p = |h: Seq<char>| h == harness@;
            if some_match(known, p) {
                let i = choose|i: int| 0 <= i < known.len() && p(#[trigger] known[i]);
                assert(known[i] == harness@);
            }
            if known.contains(harness@) {
                let i = choose|i: int| 0 <= i < known.len() && known[i] == harness@;
                assert(p(known[i]));
            }
        }
        if there {
            out.push(harness.to_owned());
        }
        let ghost first = texts(out@);
        assert(first =~= if known.contains(harness@) {
            seq![harness@]
        } else {
            seq![]
        });
        let ghost p = |h: Seq<char>| is_akin(h, harness@);
        let mut i: usize = 0;
        proof {
            reveal(Seq::filter);
            assert(known.take(0).filter(p) =~= seq![]);
            assert(first + seq![] =~= first);
        }
        while i < all.len()
            invariant
                i <= all@.len(),
                texts(all@) == known,
                target@ == normalized(harness@),
                p == (|h: Seq<char>| is_akin(h, harness@)),
                texts(out@) == first + known.take(i as int).filter(p),
            decreases all.len() - i,
        {
            proof {
                reveal(Seq::filter);
                assert(known.take(i + 1).drop_last() =~= known.take(i as int));
            }
            let ghost before = texts(out@);
            if !same(all[i].as_str(), harness) && same(
                normalize_harness(all[i].as_str()).as_str(),
                target.as_str(),
            ) {
                out.push(all[i].clone());
                assert(texts(out@) =~= before.push(known[i as int]));
                assert(texts(out@) =~= first + known.take(i + 1).filter(p));
            }
            i += 1;
        }
        assert(known.take(i as int) =~= known);
        out
    }

    fn routed_under(&self, harness: &str, domain_type: &str, task_type: &str, tier: &str) -> (r:
        Option<(String, i64, String)>)
        ensures
            same_advice(
                r,
                routed(
                    self@,
                    key_of(harness@, domain_type@, task_type@, tier@),
                ),
            ),
    {
        match self.rule_at(harness, domain_type, task_type, tier) {
            Some(i) => {
                let m: &String = &self.rules[i].model_id;
                let is = |r: &ModelRegistryRow| -> (b: bool)
                    ensures
                        b == (r@.harness == harness@ && r@.model_id == m@),
                    { same(r.harness.as_str(), harness) && same(r.model_id.as_str(), m.as_str()) };
                match find_row(
                    &self.models,
                    is,
                    Ghost(|r: ModelRegistryRowModel| r.harness == harness@ && r.model_id == m@),
                ) {
                    Some(j) => Some(
                        (
                            self.models[j].model_id.clone(),
                            self.models[j].cost_weight,
                            "routing rule match".to_owned(),
                        ),
                    ),
                    None => None,
                }
            },
            None => None,
        }
    }

    fn dangling_under(&self, harness: &str, domain_type: &str, task_type: &str, tier: &str) -> (r:
        Option<(String, i64, String)>)
        ensures
            same_advice(
                r,
                dangling(
                    self@,
                    key_of(harness@, domain_type@, task_type@, tier@),
                ),
            ),
    {
        match self.rule_at(harness, domain_type, task_type, tier) {
            Some(i) => {
                let m: String = self.rules[i].model_id.clone();
                let mut reason: String = "routing rule points to unregistered model '".to_owned();
                reason.append(m.as_str());
                reason.append("' for harness '");
                reason.append(harness);
                reason.append("' — register it or fix the rule");
                Some((m, 0, reason))
            },
            None => None,
        }
    }

    fn cheapest_under(&self, harness: &str) -> (r: Option<(String, i64, String)>)
        ensures
            same_advice(r, cheapest(self@, harness@)),
    {
        let is = |r: &ModelRegistryRow| -> (b: bool)
            ensures
                b == (r@.harness == harness@),
            { same(r.harness.as_str(), harness) };
        let key = |r: &ModelRegistryRow| -> (k: (i64, i64))
            ensures
                k == (reversed_key(r@.cost_weight), 0i64),
            { (-1 - r.cost_weight, 0) };
        let at: Vec<usize> = list(
            &self.models,
            is,
            key,
            1,
            Ghost(|r: ModelRegistryRowModel| r.harness == harness@),
            Ghost(|r: ModelRegistryRowModel| (reversed_key(r.cost_weight), 0i64)),
        );
        let ghost p = picked(self@.models, ints(at@));
        if at.len() == 0 {
            assert(p.len() == 0);
            None
        } else {
            assert(p.len() > 0);
            assert(at@[0] < self.models@.len());
            assert(p[0] == self@.models[at@[0] as int]);
            Some(
                (
                    self.models[at[0]].model_id.clone(),
                    self.models[at[0]].cost_weight,
                    "no exact rule; cheapest configured model".to_owned(),
                ),
            )
        }
    }

    fn first_routed(&self, names: &Vec<String>, domain_type: &str, task_type: &str, tier: &str) -> (r:
        Option<(String, i64, String)>)
        ensures
            same_advice(
                r,
                first_found(
                    texts(names@),
                    |h: Seq<char>| routed(self@, key_of(h, domain_type@, task_type@, tier@)),
                ),
            ),
    {
        let ghost c = texts(names@);
        let ghost f = |h: Seq<char>| routed(self@, key_of(h, domain_type@, task_type@, tier@));
        assert(c.skip(0) =~= c);
        let mut i: usize = 0;
        while i < names.len()
            invariant
                i <= names@.len(),
                c == texts(names@),
                f == (|h: Seq<char>| routed(self@, key_of(h, domain_type@, task_type@, tier@))),
                first_found(c, f) == first_found(c.skip(i as int), f),
            decreases names.len() - i,
        {
            assert(c.skip(i as int).skip(1) =~= c.skip(i + 1));
            let a: Option<(String, i64, String)> = self.routed_under(
                names[i].as_str(),
                domain_type,
                task_type,
                tier,
            );
            assert(same_advice(a, f(c[i as int])));
            if a.is_some() {
                return a;
            }
            i += 1;
        }
        None
    }

    fn first_dangling(&self, names: &Vec<String>, domain_type: &str, task_type: &str, tier: &str) -> (r:
        Option<(String, i64, String)>)
        ensures
            same_advice(
                r,
                first_found(
                    texts(names@),
                    |h: Seq<char>| dangling(self@, key_of(h, domain_type@, task_type@, tier@)),
                ),
            ),
    {
        let ghost c = texts(names@);
        let ghost f = |h: Seq<char>| dangling(self@, key_of(h, domain_type@, task_type@, tier@));
        assert(c.skip(0) =~= c);
        let mut i: usize = 0;
        while i < names.len()
            invariant
                i <= names@.len(),
                c == texts(names@),
                f == (|h: Seq<char>| dangling(self@, key_of(h, domain_type@, task_type@, tier@))),
                first_found(c, f) == first_found(c.skip(i as int), f),
            decreases names.len() - i,
        {
            assert(c.skip(i as int).skip(1) =~= c.skip(i + 1));
            let a: Option<(String, i64, String)> = self.dangling_under(
                names[i].as_str(),
                domain_type,
                task_type,
                tier,
            );
            assert(same_advice(a, f(c[i as int])));
            if a.is_some() {
                return a;
            }
            i += 1;
        }
        None
    }

    fn first_cheapest(&self, names: &Vec<String>) -> (r: Option<(String, i64, String)>)
        ensures
            same_advice(r, first_found(texts(names@), |h: Seq<char>| cheapest(self@, h))),
    {
        let ghost c = texts(names@);
        let ghost f = |h: Seq<char>| cheapest(self@, h);
        assert(c.skip(0) =~= c);
        let mut i: usize = 0;
        while i < names.len()
            invariant
                i <= names@.len(),
                c == texts(names@),
                f == (|h: Seq<char>| cheapest(self@, h)),
                first_found(c, f) == first_found(c.skip(i as int), f),
            decreases names.len() - i,
        {
            assert(c.skip(i as int).skip(1) =~= c.skip(i + 1));
            let a: Option<(String, i64, String)> = self.cheapest_under(names[i].as_str());
            assert(same_advice(a, f(c[i as int])));
            if a.is_some() {
                return a;
            }
            i += 1;
        }
        None
    }

    /// The model to use for a task: its name, the key of its cost weight, and why.
    pub fn recommend_model(
        &self,
        harness: &str,
        domain_type: &str,
        task_type: &str,
        complexity: &str,
    ) -> (r: Option<(String, i64, String)>)
        ensures
            same_advice(
                r,
                advice(
                    self@,
                    key_of(harness@, domain_type@, task_type@, complexity@),
                ),
            ),
    {
        let names: Vec<String> = self.candidate_harnesses(harness);
        let a: Option<(String, i64, String)> = self.first_routed(
            &names,
            domain_type,
            task_type,
            complexity,
        );
        if a.is_some() {
            return a;
        }
        let b: Option<(String, i64, String)> = self.first_dangling(
            &names,
            domain_type,
            task_type,
            complexity,
        );
        if b.is_some() {
            return b;
        }
        self.first_cheapest(&names)
    }
}

/// Whether a recommendation is the advice given.
pub open spec fn same_advice(r: Option<(String, i64, String)>, a: Option<Advice>) -> bool {
    match (r, a) {
        (Some(x), Some(y)) => x.0@ == y.model_id && x.1 == y.cost && x.2@ == y.reason,
        (None, None) => true,
        _ => false,
    }
}

// ---- what the tables keep -------------------------------------------------

/// A model that was configured is on record once, as it was configured.
pub proof fn models_are_configured_once(s: StoreModel, row: ModelRegistryRowModel)
    ensures
        configured(s, row).models.filter(
            |r: ModelRegistryRowModel|
                is_model(r, row.harness, row.model_id, row.sub_agent_name),
        ) == seq![row],
{
    let is = |r: ModelRegistryRowModel|
        is_model(r, row.harness, row.model_id, row.sub_agent_name);
    let not = |r: ModelRegistryRowModel|
        !is_model(r, row.harness, row.model_id, row.sub_agent_name);
    let kept = s.models.filter(not);
    let all = kept.push(row);
    lemma_filter_filter(s.models, not, is);
    let none = |r: ModelRegistryRowModel| not(r) && is(r);
    lemma_positions(s.models, none);
    assert(s.models.filter(none).len() == 0) by {
        if s.models.filter(none).len() > 0 {
            let at = positions(s.models, none);
            assert(picked(s.models, at).len() == at.len());
            assert(none(s.models[at[0]]));
        }
    }
    assert(all.drop_last() =~= kept);
    assert(all.filter(is) =~= seq![row]) by {
        reveal(Seq::filter);
    }
}

/// A rule that was set names the model that it was set to, and the rules for other keys
/// name what they named.
pub proof fn rules_are_set_for_their_key_alone(s: StoreModel, k: RuleKey, model_id: Seq<char>, other: RuleKey)
    ensures
        rule_model(ruled(s, k, model_id), k) == Some(model_id),
        other != k ==> rule_model(ruled(s, k, model_id), other) == rule_model(s, other),
{
    lemma_ruled(s.rules, k, model_id, other);
}

/// The rules with one of them set.
spec fn set_rule(rules: Seq<RoutingRuleRowModel>, k: RuleKey, model_id: Seq<char>) -> Seq<
    RoutingRuleRowModel,
> {
    rules.map_values(
        |r: RoutingRuleRowModel|
            if is_rule(r, k) {
                RoutingRuleRowModel { model_id, ..r }
            } else {
                r
            },
    )
}

spec fn new_rule(k: RuleKey, model_id: Seq<char>) -> RoutingRuleRowModel {
    RoutingRuleRowModel {
        harness: k.harness,
        domain_type: k.domain_type,
        task_type: k.task_type,
        complexity_tier: k.complexity_tier,
        model_id,
    }
}

proof fn lemma_ruled(
    rules: Seq<RoutingRuleRowModel>,
    k: RuleKey,
    model_id: Seq<char>,
    other: RuleKey,
)
    ensures
        ({
            let is = |r: RoutingRuleRowModel| is_rule(r, k);
            let is_other = |r: RoutingRuleRowModel| is_rule(r, other);
            let set = set_rule(rules, k, model_id);
            let put = rules.push(new_rule(k, model_id));
            &&& some_match(rules, is) ==> first_match(set, is) is Some && first_match(
                set,
                is,
            )->0.model_id == model_id
            &&& !some_match(rules, is) ==> first_match(put, is) == Some(new_rule(k, model_id))
            &&& other != k ==> first_match(set, is_other) == first_match(rules, is_other)
            &&& other != k ==> first_match(put, is_other) == first_match(rules, is_other)
        }),
    decreases rules.len(),
{
    let is = |r: RoutingRuleRowModel| is_rule(r, k);
    let is_other = |r: RoutingRuleRowModel| is_rule(r, other);
    let set = set_rule(rules, k, model_id);
    let put = rules.push(new_rule(k, model_id));
    if rules.len() == 0 {
        reveal_with_fuel(first_match, 2);
        assert(put.skip(1) =~= seq![]);
        assert(set =~= rules);
    } else {
        let rest = rules.skip(1);
        lemma_ruled(rest, k, model_id, other);
        assert(set.skip(1) =~= set_rule(rest, k, model_id));
        assert(put.skip(1) =~= rest.push(new_rule(k, model_id)));
        assert(some_match(rules, is) == (is(rules[0]) || some_match(rest, is))) by {
            if some_match(rules, is) {
                let i = choose|i: int| 0 <= i < rules.len() && is(#[trigger] rules[i]);
                if i > 0 {
                    assert(rest[i - 1] == rules[i]);
                    assert(is(rest[i - 1]));
                }
            }
            if some_match(rest, is) {
                let i = choose|i: int| 0 <= i < rest.len() && is(#[trigger] rest[i]);
                assert(rules[i + 1] == rest[i]);
                assert(is(rules[i + 1]));
            }
            if is(rules[0]) {
                assert(some_match(rules, is));
            }
        }
        if is(rules[0]) && other != k {
            assert(!is_other(rules[0]));
            assert(!is_other(set[0]));
        }
    }
}

/// A rule that names a registered model decides: what is recommended is the model of the
/// rule, whatever the other models cost.
pub proof fn a_rule_decides(s: StoreModel, k: RuleKey, model_id: Seq<char>)
    requires
        rule_model(s, k) == Some(model_id),
        some_match(
            s.models,
            |r: ModelRegistryRowModel| r.harness == k.harness && r.model_id == model_id,
        ),
    ensures
        advice(s, k) matches Some(a) && a.model_id == model_id && a.reason
            == "routing rule match"@,
{
    let is = |r: RoutingRuleRowModel| is_rule(r, k);
    let has = |r: ModelRegistryRowModel| r.harness == k.harness && r.model_id == model_id;
    lemma_first_match(s.rules, is);
    lemma_first_match(s.models, has);
    let all = s.models.map_values(|r: ModelRegistryRowModel| r.harness) + s.rules.map_values(
        |r: RoutingRuleRowModel| r.harness,
    );
    let i = choose|i: int| 0 <= i < s.models.len() && has(#[trigger] s.models[i]);
    assert(all[i] == k.harness);
    lemma_distinct_members(all);
    assert(all.contains(k.harness));
    assert(harnesses(s).contains(k.harness));
    let c = candidates(s, k.harness);
    assert(c[0] == k.harness);
    let f = |h: Seq<char>| routed(s, key_of(h, k.domain_type, k.task_type, k.complexity_tier));
    assert(key_of(k.harness, k.domain_type, k.task_type, k.complexity_tier) == k);
    assert(f(c[0]) is Some);
}

} // verus!
