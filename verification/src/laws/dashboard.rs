//! What the dashboard counts.
use vstd::prelude::*;

use crate::dashboard::{daily_usage, day_of, estimated_tokens, known_texts, models_in, occurrences};
use crate::dashboard::{rule_groups, tallied, tiers_of, tokens_of, total, usage_on};
use crate::table::{distinct, lemma_distinct_members, lemma_distinct_once};
use crate::text::byte_len;
use crate::types::{EpisodeRowModel, ModelRegistryRowModel, RoutingRuleRowModel};

verus! {

/// A total is added up number by number.
pub proof fn totals_add_up(a: Seq<int>, b: Seq<int>)
    ensures
        total(a + b) == total(a) + total(b),
        total(seq![]) == 0,
        forall|n: int| total(#[trigger] seq![n]) == n,
    decreases b.len(),
{
    assert forall|n: int| total(#[trigger] seq![n]) == n by {
        reveal_with_fuel(total, 2);
        assert(seq![n].drop_last() =~= seq![]);
    }
    if b.len() > 0 {
        totals_add_up(a, b.drop_last());
        assert((a + b).drop_last() =~= a + b.drop_last());
    } else {
        assert(a + b =~= a);
    }
}

/// Four bytes are a token, begun ones counted; no text is one.
pub proof fn four_bytes_are_a_token(bytes: nat)
    ensures
        estimated_tokens(0) == 1,
        bytes > 0 ==> 4 * estimated_tokens(bytes as int) - 4 < bytes <= 4 * estimated_tokens(
            bytes as int,
        ),
{
}

/// A step has the tokens that were told, and without them those of its action and
/// observation.
pub proof fn steps_have_their_tokens(e: EpisodeRowModel)
    ensures
        e.tokens_used matches Some(n) ==> tokens_of(e) == n,
        e.tokens_used is None ==> tokens_of(e) == estimated_tokens(
            (match e.action {
                Some(a) => byte_len(a) as int,
                None => 0,
            }) + (match e.observation {
                Some(o) => byte_len(o) as int,
                None => 0,
            }),
        ),
        day_of(None) == "unknown"@,
        forall|d: Seq<char>| #[trigger] day_of(Some(d)) == d,
{
}

/// A tally counts each text once, by its name, with how often it occurs.
pub proof fn tallies_count_each_text(all: Seq<Seq<char>>, t: Seq<char>)
    ensures
        occurrences(all.push(t), t) == occurrences(all, t) + 1,
        forall|u: Seq<char>| u != t ==> #[trigger] occurrences(all.push(t), u) == occurrences(all, u),
        occurrences(seq![], t) == 0,
        forall|i: int, j: int|
            0 <= i < j < tallied(all).len() ==> (#[trigger] tallied(all)[i]).0 != (
            #[trigger] tallied(all)[j]).0,
        forall|i: int|
            0 <= i < tallied(all).len() ==> (#[trigger] tallied(all)[i]).1 == occurrences(
                all,
                tallied(all)[i].0,
            ) && all.contains(tallied(all)[i].0),
{
    reveal(Seq::filter);
    assert(all.push(t).drop_last() =~= all);
    assert(seq![t].drop_last() =~= seq![]);
    lemma_distinct_members(all);
    lemma_distinct_once(all);
    let d = distinct(all);
    assert forall|i: int, j: int| 0 <= i < j < tallied(all).len() implies (
    #[trigger] tallied(all)[i]).0 != (#[trigger] tallied(all)[j]).0 by {
        assert(d[i] != d[j]);
    }
    assert forall|i: int| 0 <= i < tallied(all).len() implies (#[trigger] tallied(all)[i]).1
        == occurrences(all, tallied(all)[i].0) && all.contains(tallied(all)[i].0) by {
        assert(d.contains(d[i]));
    }
}

/// A day has the tokens of its steps.
pub proof fn days_have_their_steps(
    tokens: Seq<int>,
    days: Seq<Seq<char>>,
    d: Seq<char>,
    n: int,
    e: Seq<char>,
)
    requires
        tokens.len() == days.len(),
    ensures
        ({
            let before = usage_on(tokens, days, d);
            let after = usage_on(tokens.push(n), days.push(e), d);
            &&& before.day == d
            &&& e == d ==> after.tokens_used == before.tokens_used + n && after.steps
                == before.steps.push(days.len() as int)
            &&& e != d ==> after.tokens_used == before.tokens_used && after.steps == before.steps
            &&& usage_on(seq![], seq![], d).tokens_used == 0
        }),
        forall|i: int|
            0 <= i < daily_usage(tokens, days).len() ==> #[trigger] daily_usage(tokens, days)[i]
                == usage_on(tokens, days, daily_usage(tokens, days)[i].day),
        forall|i: int|
            0 <= i < days.len() ==> exists|j: int|
                0 <= j < daily_usage(tokens, days).len() && (#[trigger] daily_usage(
                    tokens,
                    days,
                )[j]).day == #[trigger] days[i],
{
    let p = crate::dashboard::is_day(d);
    let at = crate::table::positions(days, p);
    assert(days.push(e).drop_last() =~= days);
    assert(tokens.push(n).drop_last() =~= tokens);
    crate::table::lemma_positions(days, p);
    let a = crate::order::picked(tokens, at);
    assert(crate::order::picked(tokens.push(n), at) =~= a);
    if e == d {
        let b = crate::order::picked(tokens.push(n), at.push(days.len() as int));
        assert(b =~= a.push(n));
        assert(b.drop_last() =~= a);
    }
    lemma_distinct_members(days);
    assert forall|i: int| 0 <= i < days.len() implies exists|j: int|
        0 <= j < daily_usage(tokens, days).len() && (#[trigger] daily_usage(tokens, days)[j]).day
            == #[trigger] days[i] by {
        assert(days.contains(days[i]));
        assert(distinct(days).contains(days[i]));
        let j = distinct(days).index_of(days[i]);
        assert(daily_usage(tokens, days)[j].day == days[i]);
    }
}

/// A text that is not known is shown as such.
pub proof fn unknown_texts_are_shown_as_such(all: Seq<Option<Seq<char>>>, i: int)
    requires
        0 <= i < all.len(),
    ensures
        known_texts(all).len() == all.len(),
        known_texts(all)[i] == (match all[i] {
            Some(t) => t,
            None => "unknown"@,
        }),
{
}

/// The models of a harness are grouped by tier: each tier once, with all its models in
/// their order.
pub proof fn models_are_grouped_by_tier(
    rows: Seq<ModelRegistryRowModel>,
    harness: Seq<char>,
    r: ModelRegistryRowModel,
)
    ensures
        ({
            let g = tiers_of(rows, harness);
            &&& forall|i: int, j: int|
                0 <= i < j < g.len() ==> (#[trigger] g[i]).tier != (#[trigger] g[j]).tier
            &&& forall|i: int|
                0 <= i < g.len() ==> (#[trigger] g[i]).models == rows.filter(
                    |r: ModelRegistryRowModel|
                        r.harness == harness && r.capability_tier == g[i].tier,
                )
            &&& rows.contains(r) && r.harness == harness ==> exists|i: int|
                0 <= i < g.len() && (#[trigger] g[i]).tier == r.capability_tier
        }),
{
    let p = |r: ModelRegistryRowModel| r.harness == harness;
    let own = rows.filter(p);
    let names = own.map_values(|r: ModelRegistryRowModel| r.capability_tier);
    let g = tiers_of(rows, harness);
    lemma_distinct_members(names);
    lemma_distinct_once(names);
    assert forall|i: int, j: int| 0 <= i < j < g.len() implies (#[trigger] g[i]).tier != (
    #[trigger] g[j]).tier by {
        assert(distinct(names)[i] != distinct(names)[j]);
    }
    assert forall|i: int| 0 <= i < g.len() implies (#[trigger] g[i]).models == rows.filter(
        |r: ModelRegistryRowModel| r.harness == harness && r.capability_tier == g[i].tier,
    ) by {
        assert(g[i].models == models_in(rows, harness, g[i].tier));
    }
    if rows.contains(r) && r.harness == harness {
        crate::laws::domains::lemma_kept(rows, p);
        assert(own.contains(r));
        let m = own.index_of(r);
        assert(names[m] == r.capability_tier);
        assert(names.contains(r.capability_tier));
        assert(distinct(names).contains(r.capability_tier));
        let i = distinct(names).index_of(r.capability_tier);
        assert(g[i].tier == r.capability_tier);
    }
}

/// The rules are grouped by harness: each once, with all its rules in their order.
pub proof fn rules_are_grouped_by_harness(rows: Seq<RoutingRuleRowModel>, r: RoutingRuleRowModel)
    ensures
        ({
            let g = rule_groups(rows);
            &&& forall|i: int, j: int|
                0 <= i < j < g.len() ==> (#[trigger] g[i]).harness != (#[trigger] g[j]).harness
            &&& forall|i: int|
                0 <= i < g.len() ==> (#[trigger] g[i]).rules == rows.filter(
                    |r: RoutingRuleRowModel| r.harness == g[i].harness,
                )
            &&& rows.contains(r) ==> exists|i: int|
                0 <= i < g.len() && (#[trigger] g[i]).harness == r.harness
        }),
{
    let names = rows.map_values(|r: RoutingRuleRowModel| r.harness);
    let g = rule_groups(rows);
    lemma_distinct_members(names);
    lemma_distinct_once(names);
    assert forall|i: int, j: int| 0 <= i < j < g.len() implies (#[trigger] g[i]).harness != (
    #[trigger] g[j]).harness by {
        assert(distinct(names)[i] != distinct(names)[j]);
    }
    if rows.contains(r) {
        let m = rows.index_of(r);
        assert(names[m] == r.harness);
        assert(names.contains(r.harness));
        assert(distinct(names).contains(r.harness));
        let i = distinct(names).index_of(r.harness);
        assert(g[i].harness == r.harness);
    }
}

} // verus!
