//! What the dashboard shows: counts, usage, the health of the databases, and the models
//! and rules by harness.
use vstd::prelude::*;

use crate::calendar::{format_utc, utc_text};
use crate::health::SyncHealthSnapshot;
use crate::order::{ints, picked};
use crate::status::{knowledge_across, text_or};
use crate::store::domains::domain_list;
use crate::store::episodes::{episode_list, is_last_told};
use crate::store::profile::{change_allowed_from, next_change, preference_list};
use crate::store::profile::{author_after, author_outcome, AuthorSetOutcome, AUTHOR_COOLDOWN_SECS};
use crate::store::registry::{normalize_harness, normalized};
use crate::store::sources::source_list;
use crate::store::{Store, StoreModel};
use crate::table::{count_rows, distinct, distinct_texts, lemma_distinct_members};
use crate::table::{lemma_distinct_once, lemma_positions, map_at, positions, select};
use crate::text::{byte_len, bytes_in, chars, lemma_texts_push, opt, same, texts};
use crate::text::{trim, trimmed};
use crate::types::{lemma_models_push, models, DomainRow, DomainRowModel, EpisodeRow};
use crate::types::{EpisodeRowModel, ModelRegistryRow, ModelRegistryRowModel, RoutingRuleRow};
use crate::types::RoutingRuleRowModel;

verus! {

// ---- counts ---------------------------------------------------------------

/// How much the store holds.
#[derive(Debug)]
pub struct Totals {
    pub domains: usize,
    pub documents: i128,
    pub rules: i128,
    pub proposed: usize,
    pub sources: usize,
    /// The episodes that a list of them shows.
    pub episodes: usize,
    pub preferences: usize,
}

/// The sum of some numbers.
pub open spec fn total(s: Seq<int>) -> int
    decreases s.len(),
{
    if s.len() == 0 {
        0
    } else {
        total(s.drop_last()) + s.last()
    }
}

/// Counts what the store holds.
pub fn totals(store: &Store) -> (r: Totals)
    ensures
        r.domains == domain_list(store@).len(),
        r.documents == total(
            domain_list(store@).map_values(|d: DomainRowModel| d.doc_count as int),
        ),
        r.rules == total(
            domain_list(store@).map_values(|d: DomainRowModel| d.rule_count as int),
        ),
        r.proposed == knowledge_across(
            store@,
            domain_list(store@),
            Some("proposed"@),
            None,
        ).len(),
        r.sources == source_list(store@, None).len(),
        r.episodes == episode_list(store@, None).len(),
        r.preferences == preference_list(store@).len(),
{
    let domains: Vec<DomainRow> = store.list_domains();
    let ghost all = models(domains@);
    let ghost docs = |d: DomainRowModel| d.doc_count as int;
    let ghost rules_of = |d: DomainRowModel| d.rule_count as int;
    let mut documents: i128 = 0;
    let mut rules: i128 = 0;
    let mut i: usize = 0;
    assert(all.map_values(docs).take(0) =~= seq![]);
    assert(all.map_values(rules_of).take(0) =~= seq![]);
    while i < domains.len()
        invariant
            i <= domains@.len(),
            all == models(domains@),
            docs == (|d: DomainRowModel| d.doc_count as int),
            rules_of == (|d: DomainRowModel| d.rule_count as int),
            documents == total(all.map_values(docs).take(i as int)),
            rules == total(all.map_values(rules_of).take(i as int)),
            -0x8000_0000_0000_0000int * i <= documents <= 0x8000_0000_0000_0000int * i,
            -0x8000_0000_0000_0000int * i <= rules <= 0x8000_0000_0000_0000int * i,
        decreases domains.len() - i,
    {
        assert(all.map_values(docs).take(i + 1).drop_last() =~= all.map_values(docs).take(
            i as int,
        ));
        assert(all.map_values(rules_of).take(i + 1).drop_last() =~= all.map_values(rules_of).take(
            i as int,
        ));
        documents = documents + domains[i].doc_count as i128;
        rules = rules + domains[i].rule_count as i128;
        i += 1;
    }
    assert(all.map_values(docs).take(i as int) =~= all.map_values(docs));
    assert(all.map_values(rules_of).take(i as int) =~= all.map_values(rules_of));
    let proposed: Vec<crate::types::KnowledgeRow> = store.knowledge_of_all(Some("proposed"), None);
    let sources: Vec<crate::types::SourceRow> = store.list_sources(None);
    let episodes: Vec<EpisodeRow> = store.list_episodes(None);
    let preferences: Vec<String> = store.list_preferences();
    assert(models(proposed@).len() == proposed@.len());
    assert(models(sources@).len() == sources@.len());
    assert(models(episodes@).len() == episodes@.len());
    assert(texts(preferences@).len() == preferences@.len());
    Totals {
        domains: domains.len(),
        documents,
        rules,
        proposed: proposed.len(),
        sources: sources.len(),
        episodes: episodes.len(),
        preferences: preferences.len(),
    }
}

// ---- usage ----------------------------------------------------------------

/// How often a text occurs in a list.
pub open spec fn occurrences(all: Seq<Seq<char>>, t: Seq<char>) -> nat {
    all.filter(|x: Seq<char>| x == t).len()
}

/// The texts of a list, each once, in order, with how often it occurs.
pub open spec fn tallied(all: Seq<Seq<char>>) -> Seq<(Seq<char>, nat)> {
    distinct(all).map_values(|t: Seq<char>| (t, occurrences(all, t)))
}

/// Some texts with how often they occur, as mathematical values.
pub open spec fn tally_texts(v: Seq<(String, usize)>) -> Seq<(Seq<char>, nat)> {
    Seq::new(v.len(), |i: int| (v[i].0@, v[i].1 as nat))
}

/// Counts how often each text of a list occurs.
pub fn tally(all: &Vec<String>) -> (r: Vec<(String, usize)>)
    ensures
        tally_texts(r@) == tallied(texts(all@)),
{
    assert(models(all@) =~= texts(all@));
    let once: Vec<String> = distinct_texts(all);
    let ghost want = tallied(texts(all@));
    let mut r: Vec<(String, usize)> = Vec::new();
    let mut i: usize = 0;
    assert(tally_texts(r@) =~= want.take(0));
    while i < once.len()
        invariant
            i <= once@.len(),
            models(all@) == texts(all@),
            texts(once@) == distinct(texts(all@)),
            want == tallied(texts(all@)),
            tally_texts(r@) == want.take(i as int),
        decreases once.len() - i,
    {
        let t: &String = &once[i];
        let is = |x: &String| -> (b: bool)
            ensures
                b == (x@ == t@),
            { same(x.as_str(), t.as_str()) };
        let n: usize = count_rows(all, is, Ghost(|x: Seq<char>| x == t@));
        let ghost before = tally_texts(r@);
        r.push((t.clone(), n));
        assert(texts(once@)[i as int] == t@);
        assert(want[i as int] == (t@, n as nat));
        assert(tally_texts(r@) =~= before.push((t@, n as nat)));
        assert(tally_texts(r@) =~= want.take(i + 1));
        i += 1;
    }
    assert(want.len() == once@.len()) by {
        assert(texts(once@).len() == once@.len());
    }
    assert(tally_texts(r@) =~= want);
    r
}

/// The tokens that a text of so many bytes is taken for: one for every four, and one at
/// least.
pub open spec fn estimated_tokens(bytes: int) -> int {
    if bytes == 0 {
        1
    } else {
        (bytes + 3) / 4
    }
}

/// The bytes of a text that may be missing.
pub open spec fn bytes_of(t: Option<Seq<char>>) -> int {
    match t {
        Some(s) => byte_len(s) as int,
        None => 0,
    }
}

/// The tokens of a step: those that were reported, else an estimate.
pub open spec fn tokens_of(e: EpisodeRowModel) -> int {
    match e.tokens_used {
        Some(n) => n as int,
        None => estimated_tokens(bytes_of(e.action) + bytes_of(e.observation)),
    }
}

fn length(t: &Option<String>) -> (n: usize)
    ensures
        n == bytes_of(opt(*t)),
{
    match t {
        Some(s) => bytes_in(s.as_str()),
        None => 0,
    }
}

fn step_tokens(e: &EpisodeRow) -> (n: i128)
    ensures
        n == tokens_of(e@),
        -0x8000_0000_0000_0000int <= n <= 0x8000_0000_0000_0000int,
{
    match e.tokens_used {
        Some(n) => n as i128,
        None => {
            let bytes: i128 = length(&e.action) as i128 + length(&e.observation) as i128;
            if bytes == 0 {
                1
            } else {
                (bytes + 3) / 4
            }
        },
    }
}

/// The usage of one day.
#[derive(Debug)]
pub struct DailyUsage {
    pub day: String,
    pub tokens_used: i128,
    /// The steps of the day, by their places in the list.
    pub steps: Vec<usize>,
}

/// What a [`DailyUsage`] holds, as mathematical values.
#[verifier::ext_equal]
pub struct DailyUsageModel {
    pub day: Seq<char>,
    pub tokens_used: int,
    pub steps: Seq<int>,
}

impl View for DailyUsage {
    type V = DailyUsageModel;

    open spec fn view(&self) -> DailyUsageModel {
        DailyUsageModel {
            day: self.day@,
            tokens_used: self.tokens_used as int,
            steps: ints(self.steps@),
        }
    }
}

/// The usage of some steps.
#[derive(Debug)]
pub struct UsageRollup {
    pub sample_size: usize,
    pub by_action: Vec<(String, usize)>,
    pub by_outcome: Vec<(String, usize)>,
    pub total_tokens: i128,
    /// The tokens of each step.
    pub tokens: Vec<i128>,
    pub daily: Vec<DailyUsage>,
}

/// Some numbers, as mathematical values.
pub open spec fn wide(v: Seq<i128>) -> Seq<int> {
    Seq::new(v.len(), |i: int| v[i] as int)
}

/// The day of a step, given its date as text; unknown where there is none.
pub open spec fn day_of(date: Option<Seq<char>>) -> Seq<char> {
    text_or(date, "unknown"@)
}

/// The days of some steps.
pub open spec fn days_of(rows: Seq<EpisodeRowModel>) -> Seq<Seq<char>> {
    rows.map_values(|e: EpisodeRowModel| day_of(utc_text(e.ts, "%Y-%m-%d"@)))
}

/// That a step was taken on a day.
pub open spec fn is_day(d: Seq<char>) -> spec_fn(Seq<char>) -> bool {
    |x: Seq<char>| x == d
}

/// The usage of a day, given the tokens and the days of the steps.
pub open spec fn usage_on(tokens: Seq<int>, days: Seq<Seq<char>>, d: Seq<char>) -> DailyUsageModel {
    let at = positions(days, is_day(d));
    DailyUsageModel { day: d, tokens_used: total(picked(tokens, at)), steps: at }
}

/// The usage of each day, in the order of the days.
pub open spec fn daily_usage(tokens: Seq<int>, days: Seq<Seq<char>>) -> Seq<DailyUsageModel> {
    distinct(days).map_values(|d: Seq<char>| usage_on(tokens, days, d))
}

fn sum_at(tokens: &Vec<i128>, at: &Vec<usize>) -> (r: i128)
    requires
        forall|i: int|
            0 <= i < tokens@.len() ==> -0x8000_0000_0000_0000int <= #[trigger] tokens@[i]
                <= 0x8000_0000_0000_0000int,
        forall|i: int| 0 <= i < at@.len() ==> #[trigger] at@[i] < tokens@.len(),
    ensures
        r == total(picked(wide(tokens@), ints(at@))),
{
    let ghost all = picked(wide(tokens@), ints(at@));
    let mut r: i128 = 0;
    let mut i: usize = 0;
    assert(all.take(0) =~= seq![]);
    while i < at.len()
        invariant
            i <= at@.len(),
            all == picked(wide(tokens@), ints(at@)),
            forall|j: int|
                0 <= j < tokens@.len() ==> -0x8000_0000_0000_0000int <= #[trigger] tokens@[j]
                    <= 0x8000_0000_0000_0000int,
            forall|j: int| 0 <= j < at@.len() ==> #[trigger] at@[j] < tokens@.len(),
            r == total(all.take(i as int)),
            -0x8000_0000_0000_0000int * i <= r <= 0x8000_0000_0000_0000int * i,
        decreases at.len() - i,
    {
        assert(at@[i as int] < tokens@.len());
        assert(all.take(i + 1).drop_last() =~= all.take(i as int));
        assert(all[i as int] == tokens@[at@[i as int] as int]);
        r = r + tokens[at[i]];
        i += 1;
    }
    assert(all.take(i as int) =~= all);
    r
}

fn sum(tokens: &Vec<i128>) -> (r: i128)
    requires
        forall|i: int|
            0 <= i < tokens@.len() ==> -0x8000_0000_0000_0000int <= #[trigger] tokens@[i]
                <= 0x8000_0000_0000_0000int,
    ensures
        r == total(wide(tokens@)),
{
    let ghost all = wide(tokens@);
    let mut r: i128 = 0;
    let mut i: usize = 0;
    assert(all.take(0) =~= seq![]);
    while i < tokens.len()
        invariant
            i <= tokens@.len(),
            all == wide(tokens@),
            forall|j: int|
                0 <= j < tokens@.len() ==> -0x8000_0000_0000_0000int <= #[trigger] tokens@[j]
                    <= 0x8000_0000_0000_0000int,
            r == total(all.take(i as int)),
            -0x8000_0000_0000_0000int * i <= r <= 0x8000_0000_0000_0000int * i,
        decreases tokens.len() - i,
    {
        assert(all.take(i + 1).drop_last() =~= all.take(i as int));
        r = r + tokens[i];
        i += 1;
    }
    assert(all.take(i as int) =~= all);
    r
}

fn by_day(tokens: &Vec<i128>, days: &Vec<String>) -> (r: Vec<DailyUsage>)
    requires
        tokens@.len() == days@.len(),
        forall|i: int|
            0 <= i < tokens@.len() ==> -0x8000_0000_0000_0000int <= #[trigger] tokens@[i]
                <= 0x8000_0000_0000_0000int,
    ensures
        models(r@) == daily_usage(wide(tokens@), texts(days@)),
{
    broadcast use lemma_models_push;

    assert(models(days@) =~= texts(days@));
    let once: Vec<String> = distinct_texts(days);
    let ghost want = daily_usage(wide(tokens@), texts(days@));
    let mut r: Vec<DailyUsage> = Vec::new();
    let mut i: usize = 0;
    assert(models(r@) =~= want.take(0));
    while i < once.len()
        invariant
            i <= once@.len(),
            tokens@.len() == days@.len(),
            forall|j: int|
                0 <= j < tokens@.len() ==> -0x8000_0000_0000_0000int <= #[trigger] tokens@[j]
                    <= 0x8000_0000_0000_0000int,
            models(days@) == texts(days@),
            texts(once@) == distinct(texts(days@)),
            want == daily_usage(wide(tokens@), texts(days@)),
            models(r@) == want.take(i as int),
        decreases once.len() - i,
    {
        broadcast use lemma_models_push;

        let d: &String = &once[i];
        let is = |x: &String| -> (b: bool)
            ensures
                b == (x@ == d@),
            { same(x.as_str(), d.as_str()) };
        let steps: Vec<usize> = select(days, is, Ghost(is_day(d@)));
        let tokens_used: i128 = sum_at(tokens, &steps);
        let row: DailyUsage = DailyUsage { day: d.clone(), tokens_used, steps };
        assert(texts(once@)[i as int] == d@);
        assert(row@ =~= usage_on(wide(tokens@), texts(days@), d@));
        assert(want[i as int] == row@);
        r.push(row);
        assert(models(r@) =~= want.take(i + 1));
        i += 1;
    }
    assert(want.len() == once@.len()) by {
        assert(texts(once@).len() == once@.len());
    }
    assert(models(r@) =~= want);
    r
}

/// What the steps did, or how they came out; unknown where nothing is noted.
pub open spec fn known_texts(all: Seq<Option<Seq<char>>>) -> Seq<Seq<char>> {
    all.map_values(|t: Option<Seq<char>>| text_or(t, "unknown"@))
}

/// The usage of some steps, given the day of each.
pub fn usage_by_day(rows: &Vec<EpisodeRow>, days: &Vec<String>) -> (r: UsageRollup)
    requires
        days@.len() == rows@.len(),
    ensures
        ({
            let all = models(rows@);
            let tokens = all.map_values(|e: EpisodeRowModel| tokens_of(e));
            &&& r.sample_size == all.len()
            &&& tally_texts(r.by_action@) == tallied(
                known_texts(all.map_values(|e: EpisodeRowModel| e.action)),
            )
            &&& tally_texts(r.by_outcome@) == tallied(
                known_texts(all.map_values(|e: EpisodeRowModel| e.outcome)),
            )
            &&& wide(r.tokens@) == tokens
            &&& r.total_tokens == total(tokens)
            &&& models(r.daily@) == daily_usage(tokens, texts(days@))
        }),
{
    broadcast use lemma_texts_push;

    let ghost all = models(rows@);
    let ghost want = all.map_values(|e: EpisodeRowModel| tokens_of(e));
    let ghost did = known_texts(all.map_values(|e: EpisodeRowModel| e.action));
    let ghost came = known_texts(all.map_values(|e: EpisodeRowModel| e.outcome));
    let mut actions: Vec<String> = Vec::new();
    let mut outcomes: Vec<String> = Vec::new();
    let mut tokens: Vec<i128> = Vec::new();
    let mut i: usize = 0;
    assert(texts(actions@) =~= did.take(0));
    assert(texts(outcomes@) =~= came.take(0));
    while i < rows.len()
        invariant
            i <= rows@.len(),
            all == models(rows@),
            want == all.map_values(|e: EpisodeRowModel| tokens_of(e)),
            did == known_texts(all.map_values(|e: EpisodeRowModel| e.action)),
            came == known_texts(all.map_values(|e: EpisodeRowModel| e.outcome)),
            texts(actions@) == did.take(i as int),
            texts(outcomes@) == came.take(i as int),
            tokens@.len() == i,
            forall|j: int| 0 <= j < i ==> #[trigger] tokens@[j] == want[j],
            forall|j: int|
                0 <= j < i ==> -0x8000_0000_0000_0000int <= #[trigger] tokens@[j]
                    <= 0x8000_0000_0000_0000int,
        decreases rows.len() - i,
    {
        broadcast use lemma_texts_push;

        let e: &EpisodeRow = &rows[i];
        let a: String = match &e.action {
            Some(t) => t.clone(),
            None => "unknown".to_owned(),
        };
        let o: String = match &e.outcome {
            Some(t) => t.clone(),
            None => "unknown".to_owned(),
        };
        assert(a@ == did[i as int]);
        assert(o@ == came[i as int]);
        actions.push(a);
        outcomes.push(o);
        assert(texts(actions@) =~= did.take(i + 1));
        assert(texts(outcomes@) =~= came.take(i + 1));
        tokens.push(step_tokens(e));
        i += 1;
    }
    assert(texts(actions@) =~= did);
    assert(texts(outcomes@) =~= came);
    assert(wide(tokens@) =~= want);
    UsageRollup {
        sample_size: rows.len(),
        by_action: tally(&actions),
        by_outcome: tally(&outcomes),
        total_tokens: sum(&tokens),
        daily: by_day(&tokens, days),
        tokens,
    }
}

/// The usage of some steps.
pub fn usage_rollup(rows: &Vec<EpisodeRow>) -> (r: UsageRollup)
    ensures
        ({
            let all = models(rows@);
            let tokens = all.map_values(|e: EpisodeRowModel| tokens_of(e));
            &&& r.sample_size == all.len()
            &&& tally_texts(r.by_action@) == tallied(
                known_texts(all.map_values(|e: EpisodeRowModel| e.action)),
            )
            &&& tally_texts(r.by_outcome@) == tallied(
                known_texts(all.map_values(|e: EpisodeRowModel| e.outcome)),
            )
            &&& wide(r.tokens@) == tokens
            &&& r.total_tokens == total(tokens)
            &&& models(r.daily@) == daily_usage(tokens, days_of(all))
        }),
{
    broadcast use lemma_texts_push;

    let ghost all = models(rows@);
    let mut days: Vec<String> = Vec::new();
    let mut i: usize = 0;
    assert(texts(days@) =~= days_of(all).take(0));
    while i < rows.len()
        invariant
            i <= rows@.len(),
            all == models(rows@),
            texts(days@) == days_of(all).take(i as int),
        decreases rows.len() - i,
    {
        broadcast use lemma_texts_push;

        let d: String = match format_utc(rows[i].ts, "%Y-%m-%d") {
            Some(t) => t,
            None => "unknown".to_owned(),
        };
        assert(d@ == days_of(all)[i as int]);
        days.push(d);
        assert(texts(days@) =~= days_of(all).take(i + 1));
        i += 1;
    }
    assert(texts(days@) =~= days_of(all));
    assert(texts(days@).len() == days@.len());
    usage_by_day(rows, &days)
}

// ---- health ---------------------------------------------------------------

/// The health of a database.
#[derive(Debug)]
pub struct StorageHealth {
    pub engine: String,
    pub healthy: bool,
    /// How it keeps up with a remote, where it is a kind that can.
    pub sync: Option<SyncHealthSnapshot>,
}

/// The health of a database.
pub fn storage_health_entry(engine: &str, healthy: bool, sync: Option<&SyncHealthSnapshot>) -> (r:
    StorageHealth)
    ensures
        r.engine@ == engine@,
        r.healthy == healthy,
        match sync {
            Some(s) => r.sync == Some(*s),
            None => r.sync is None,
        },
{
    StorageHealth {
        engine: engine.to_owned(),
        healthy,
        sync: match sync {
            Some(s) => Some(*s),
            None => None,
        },
    }
}

// ---- models and rules -----------------------------------------------------

/// The models of a harness that are of one tier.
#[derive(Debug)]
pub struct TierGroup {
    pub tier: String,
    pub models: Vec<ModelRegistryRow>,
}

/// What a [`TierGroup`] holds, as mathematical values.
#[verifier::ext_equal]
pub struct TierGroupModel {
    pub tier: Seq<char>,
    pub models: Seq<ModelRegistryRowModel>,
}

impl View for TierGroup {
    type V = TierGroupModel;

    open spec fn view(&self) -> TierGroupModel {
        TierGroupModel { tier: self.tier@, models: models(self.models@) }
    }
}

/// A harness with its models.
#[derive(Debug)]
pub struct HarnessGroup {
    pub harness: String,
    pub tiers: Vec<TierGroup>,
    /// Whether the program is connected to this harness.
    pub connected_now: bool,
    /// When the registry was last changed for it, as far as the episodes tell.
    pub last_edit_ts: Option<i64>,
    /// When a model was last recommended for it, as far as the episodes tell.
    pub last_recommendation_ts: Option<i64>,
}

/// The models of one harness and one tier.
pub open spec fn models_in(
    rows: Seq<ModelRegistryRowModel>,
    harness: Seq<char>,
    tier: Seq<char>,
) -> Seq<ModelRegistryRowModel> {
    rows.filter(|r: ModelRegistryRowModel| r.harness == harness && r.capability_tier == tier)
}

/// The tiers of a harness, in order, with their models.
pub open spec fn tiers_of(rows: Seq<ModelRegistryRowModel>, harness: Seq<char>) -> Seq<
    TierGroupModel,
> {
    distinct(
        rows.filter(|r: ModelRegistryRowModel| r.harness == harness).map_values(
            |r: ModelRegistryRowModel| r.capability_tier,
        ),
    ).map_values(
        |t: Seq<char>| TierGroupModel { tier: t, models: models_in(rows, harness, t) },
    )
}

/// Whether a group is that of a harness.
pub open spec fn is_group(
    g: HarnessGroup,
    harness: Seq<char>,
    rows: Seq<ModelRegistryRowModel>,
    s: StoreModel,
    captured: Option<Seq<char>>,
) -> bool {
    &&& g.harness@ == harness
    &&& models(g.tiers@) == tiers_of(rows, harness)
    &&& g.connected_now == (captured matches Some(c) && normalized(c) == normalized(harness))
    &&& is_last_told(s, "model_registry"@, "harness="@ + harness, g.last_edit_ts)
    &&& is_last_told(s, "model_recommendation"@, "harness="@ + harness, g.last_recommendation_ts)
}

fn tier_groups(rows: &Vec<ModelRegistryRow>, harness: &str) -> (r: Vec<TierGroup>)
    ensures
        models(r@) == tiers_of(models(rows@), harness@),
{
    broadcast use lemma_models_push;

    let ghost all = models(rows@);
    let ghost here = |r: ModelRegistryRowModel| r.harness == harness@;
    let is = |r: &ModelRegistryRow| -> (b: bool)
        ensures
            b == (r@.harness == harness@),
        { same(r.harness.as_str(), harness) };
    let at: Vec<usize> = select(rows, is, Ghost(here));
    let tier = |r: &ModelRegistryRow| -> (t: String)
        ensures
            t@ == r@.capability_tier,
        { r.capability_tier.clone() };
    let ghost f = |r: ModelRegistryRowModel| r.capability_tier;
    let tiers: Vec<String> = map_at(rows, &at, tier, Ghost(f));
    proof {
        lemma_positions(all, here);
        assert(models(tiers@) =~= texts(tiers@));
    }
    let once: Vec<String> = distinct_texts(&tiers);
    let ghost want = tiers_of(all, harness@);
    let mut r: Vec<TierGroup> = Vec::new();
    let mut i: usize = 0;
    assert(models(r@) =~= want.take(0));
    while i < once.len()
        invariant
            i <= once@.len(),
            all == models(rows@),
            want == tiers_of(all, harness@),
            texts(once@) == distinct(
                all.filter(|r: ModelRegistryRowModel| r.harness == harness@).map_values(
                    |r: ModelRegistryRowModel| r.capability_tier,
                ),
            ),
            models(r@) == want.take(i as int),
        decreases once.len() - i,
    {
        broadcast use lemma_models_push;

        let t: &String = &once[i];
        let ghost p = |r: ModelRegistryRowModel| r.harness == harness@ && r.capability_tier == t@;
        let both = |r: &ModelRegistryRow| -> (b: bool)
            ensures
                b == (r@.harness == harness@ && r@.capability_tier == t@),
            { same(r.harness.as_str(), harness) && same(r.capability_tier.as_str(), t.as_str()) };
        let at: Vec<usize> = select(rows, both, Ghost(p));
        let copy = |r: &ModelRegistryRow| -> (q: ModelRegistryRow)
            ensures
                q@ == r@,
            { r.clone() };
        let found: Vec<ModelRegistryRow> = map_at(
            rows,
            &at,
            copy,
            Ghost(|r: ModelRegistryRowModel| r),
        );
        proof {
            lemma_positions(all, p);
            assert(picked(all, ints(at@)).map_values(|r: ModelRegistryRowModel| r) =~= picked(
                all,
                ints(at@),
            ));
        }
        let row: TierGroup = TierGroup { tier: t.clone(), models: found };
        assert(texts(once@)[i as int] == t@);
        assert(row@ =~= (TierGroupModel { tier: t@, models: models_in(all, harness@, t@) }));
        assert(want[i as int] == row@);
        r.push(row);
        assert(models(r@) =~= want.take(i + 1));
        i += 1;
    }
    assert(want.len() == once@.len()) by {
        assert(texts(once@).len() == once@.len());
    }
    assert(models(r@) =~= want);
    r
}

fn is_connected(captured: &Option<String>, harness: &str) -> (r: bool)
    ensures
        r == (opt(*captured) matches Some(c) && normalized(c) == normalized(harness@)),
{
    match captured {
        Some(c) => same(
            normalize_harness(c.as_str()).as_str(),
            normalize_harness(harness).as_str(),
        ),
        None => false,
    }
}

/// The models by harness and tier, each in order.
pub fn model_registry_grouped(
    rows: &Vec<ModelRegistryRow>,
    store: &Store,
    captured_harness: &Option<String>,
) -> (r: Vec<HarnessGroup>)
    ensures
        ({
            let names = distinct(
                models(rows@).map_values(|r: ModelRegistryRowModel| r.harness),
            );
            &&& r@.len() == names.len()
            &&& forall|i: int|
                0 <= i < names.len() ==> is_group(
                    #[trigger] r@[i],
                    names[i],
                    models(rows@),
                    store@,
                    opt(*captured_harness),
                )
        }),
{
    let ghost names = distinct(models(rows@).map_values(|r: ModelRegistryRowModel| r.harness));
    let name = |r: &ModelRegistryRow| -> (t: String)
        ensures
            t@ == r@.harness,
        { r.harness.clone() };
    let all: Vec<String> = crate::table::map_rows(
        rows,
        name,
        Ghost(|r: ModelRegistryRowModel| r.harness),
    );
    assert(models(all@) =~= texts(all@));
    let once: Vec<String> = distinct_texts(&all);
    assert(texts(once@).len() == once@.len());
    let mut r: Vec<HarnessGroup> = Vec::new();
    let mut i: usize = 0;
    while i < once.len()
        invariant
            i <= once@.len(),
            texts(once@) == names,
            r@.len() == i,
            forall|j: int|
                0 <= j < i ==> is_group(
                    #[trigger] r@[j],
                    names[j],
                    models(rows@),
                    store@,
                    opt(*captured_harness),
                ),
        decreases once.len() - i,
    {
        let h: &str = once[i].as_str();
        let mut needle: String = "harness=".to_owned();
        needle.append(h);
        assert(names[i as int] == h@);
        let group: HarnessGroup = HarnessGroup {
            harness: h.to_owned(),
            tiers: tier_groups(rows, h),
            connected_now: is_connected(captured_harness, h),
            last_edit_ts: store.last_episode_ts_for("model_registry", needle.as_str()),
            last_recommendation_ts: store.last_episode_ts_for(
                "model_recommendation",
                needle.as_str(),
            ),
        };
        r.push(group);
        i += 1;
    }
    r
}

/// A harness with its rules.
#[derive(Debug)]
pub struct RuleGroup {
    pub harness: String,
    pub rules: Vec<RoutingRuleRow>,
}

/// What a [`RuleGroup`] holds, as mathematical values.
#[verifier::ext_equal]
pub struct RuleGroupModel {
    pub harness: Seq<char>,
    pub rules: Seq<RoutingRuleRowModel>,
}

impl View for RuleGroup {
    type V = RuleGroupModel;

    open spec fn view(&self) -> RuleGroupModel {
        RuleGroupModel { harness: self.harness@, rules: models(self.rules@) }
    }
}

/// The rules by harness, in the order of the harnesses.
pub open spec fn rule_groups(rows: Seq<RoutingRuleRowModel>) -> Seq<RuleGroupModel> {
    distinct(rows.map_values(|r: RoutingRuleRowModel| r.harness)).map_values(
        |h: Seq<char>|
            RuleGroupModel {
                harness: h,
                rules: rows.filter(|r: RoutingRuleRowModel| r.harness == h),
            },
    )
}

/// The rules by harness.
pub fn routing_rules_grouped(rows: &Vec<RoutingRuleRow>) -> (r: Vec<RuleGroup>)
    ensures
        models(r@) == rule_groups(models(rows@)),
{
    broadcast use lemma_models_push;

    let ghost all = models(rows@);
    let name = |r: &RoutingRuleRow| -> (t: String)
        ensures
            t@ == r@.harness,
        { r.harness.clone() };
    let names: Vec<String> = crate::table::map_rows(
        rows,
        name,
        Ghost(|r: RoutingRuleRowModel| r.harness),
    );
    assert(models(names@) =~= texts(names@));
    let once: Vec<String> = distinct_texts(&names);
    let ghost want = rule_groups(all);
    let mut r: Vec<RuleGroup> = Vec::new();
    let mut i: usize = 0;
    assert(models(r@) =~= want.take(0));
    while i < once.len()
        invariant
            i <= once@.len(),
            all == models(rows@),
            want == rule_groups(all),
            texts(once@) == distinct(all.map_values(|r: RoutingRuleRowModel| r.harness)),
            models(r@) == want.take(i as int),
        decreases once.len() - i,
    {
        broadcast use lemma_models_push;

        let h: &String = &once[i];
        let ghost p = |r: RoutingRuleRowModel| r.harness == h@;
        let is = |r: &RoutingRuleRow| -> (b: bool)
            ensures
                b == (r@.harness == h@),
            { same(r.harness.as_str(), h.as_str()) };
        let at: Vec<usize> = select(rows, is, Ghost(p));
        let copy = |r: &RoutingRuleRow| -> (q: RoutingRuleRow)
            ensures
                q@ == r@,
            { r.clone() };
        let rules: Vec<RoutingRuleRow> = map_at(rows, &at, copy, Ghost(|r: RoutingRuleRowModel| r));
        proof {
            lemma_positions(all, p);
            assert(picked(all, ints(at@)).map_values(|r: RoutingRuleRowModel| r) =~= picked(
                all,
                ints(at@),
            ));
        }
        let row: RuleGroup = RuleGroup { harness: h.clone(), rules };
        assert(texts(once@)[i as int] == h@);
        assert(row@ =~= (RuleGroupModel { harness: h@, rules: all.filter(p) }));
        assert(want[i as int] == row@);
        r.push(row);
        assert(models(r@) =~= want.take(i + 1));
        i += 1;
    }
    assert(want.len() == once@.len()) by {
        assert(texts(once@).len() == once@.len());
    }
    assert(models(r@) =~= want);
    r
}

// ---- the author -----------------------------------------------------------

/// How things stand with the author name.
#[derive(Debug)]
pub struct AuthorState {
    pub name: String,
    pub registered_at: i64,
    pub updated_at: i64,
    pub can_change: bool,
    pub next_change_at: i64,
}

/// How things stand with the author name, where there is one.
pub fn author_state(store: &Store, now: i64) -> (r: Option<AuthorState>)
    ensures
        match store@.author {
            None => r is None,
            Some(a) => r matches Some(x) && {
                &&& x.name@ == a.name
                &&& x.registered_at == a.registered_at
                &&& x.updated_at == a.updated_at
                &&& x.next_change_at == next_change(a.updated_at, AUTHOR_COOLDOWN_SECS)
                &&& x.can_change == (now >= x.next_change_at)
            },
        },
{
    match store.get_author() {
        Some(a) => {
            let next: i64 = change_allowed_from(a.2, AUTHOR_COOLDOWN_SECS);
            Some(
                AuthorState {
                    name: a.0,
                    registered_at: a.1,
                    updated_at: a.2,
                    can_change: now >= next,
                    next_change_at: next,
                },
            )
        },
        None => None,
    }
}

/// The longest author name, in characters.
pub const MAX_AUTHOR_NAME: usize = 60;

/// Registers or changes the author name. White space around it is dropped; refused where
/// nothing is left, or too much.
pub fn set_author_name(store: &mut Store, name: &str, now: i64) -> (r: Result<
    (String, AuthorSetOutcome),
    String,
>)
    ensures
        ({
            let n = trim(name@);
            if n.len() == 0 {
                &&& final(store)@ == old(store)@
                &&& r matches Err(e) && e@ == "name cannot be empty"@
            } else if n.len() > 60 {
                &&& final(store)@ == old(store)@
                &&& r matches Err(e) && e@ == "name too long (max 60 characters)"@
            } else {
                &&& final(store)@ == (StoreModel {
                    author: author_after(old(store)@, n, AUTHOR_COOLDOWN_SECS, now),
                    ..old(store)@
                })
                &&& r matches Ok(x) && x.0@ == n && x.1 == author_outcome(
                    old(store)@,
                    AUTHOR_COOLDOWN_SECS,
                    now,
                )
            }
        }),
{
    let n: String = trimmed(name);
    let len: usize = chars(n.as_str()).len();
    if len == 0 {
        return Err("name cannot be empty".to_owned());
    }
    if len > MAX_AUTHOR_NAME {
        return Err("name too long (max 60 characters)".to_owned());
    }
    let outcome: AuthorSetOutcome = store.set_author(n.as_str(), AUTHOR_COOLDOWN_SECS, now);
    Ok((n, outcome))
}

/// A text that occurs in a list is in its tally, and with the times that it occurs.
pub proof fn a_tally_counts_what_occurs(all: Seq<Seq<char>>, t: Seq<char>)
    ensures
        all.contains(t) <==> tallied(all).contains((t, occurrences(all, t))),
{
    lemma_distinct_members(all);
    let f = |t: Seq<char>| (t, occurrences(all, t));
    if all.contains(t) {
        assert(distinct(all).contains(t));
        let i = distinct(all).index_of(t);
        assert(tallied(all)[i] == f(t));
    }
    if tallied(all).contains((t, occurrences(all, t))) {
        let i = tallied(all).index_of((t, occurrences(all, t)));
        assert(distinct(all)[i] == t);
        assert(distinct(all).contains(t));
    }
}

/// The tokens of some days together, given the tokens and the days of the steps.
spec fn tokens_over(tokens: Seq<int>, days: Seq<Seq<char>>, over: Seq<Seq<char>>) -> int {
    total(over.map_values(|d: Seq<char>| usage_on(tokens, days, d).tokens_used))
}

proof fn lemma_one_more_step(
    tokens: Seq<int>,
    days: Seq<Seq<char>>,
    over: Seq<Seq<char>>,
)
    requires
        tokens.len() == days.len(),
        days.len() > 0,
        over.no_duplicates(),
    ensures
        tokens_over(tokens, days, over) == tokens_over(tokens.drop_last(), days.drop_last(), over) + (
        if over.contains(days.last()) {
            tokens.last()
        } else {
            0
        }),
    decreases over.len(),
{
    let f = |d: Seq<char>| usage_on(tokens, days, d).tokens_used;
    let g = |d: Seq<char>| usage_on(tokens.drop_last(), days.drop_last(), d).tokens_used;
    if over.len() > 0 {
        let rest = over.drop_last();
        let d = over.last();
        assert(over.map_values(f).drop_last() =~= rest.map_values(f));
        assert(over.map_values(g).drop_last() =~= rest.map_values(g));
        lemma_one_more_step(tokens, days, rest);
        let is = is_day(d);
        let before = positions(days.drop_last(), is);
        lemma_positions(days.drop_last(), is);
        assert(picked(tokens, before) =~= picked(tokens.drop_last(), before));
        assert(g(d) == total(picked(tokens, before)));
        assert(f(d) == g(d) + if days.last() == d { tokens.last() } else { 0 }) by {
            if days.last() == d {
                let now = positions(days, is);
                assert(now == before.push(days.len() - 1));
                assert(picked(tokens, now).drop_last() =~= picked(tokens, before));
                assert(picked(tokens, now).last() == tokens.last());
            } else {
                assert(positions(days, is) == before);
            }
        }
        assert(tokens_over(tokens, days, over) == tokens_over(tokens, days, rest) + f(d));
        if days.last() == d {
            assert(!rest.contains(d));
            assert(over[over.len() - 1] == d);
        } else {
            assert(rest.contains(days.last()) == over.contains(days.last())) by {
                if over.contains(days.last()) {
                    let i = over.index_of(days.last());
                    assert(rest[i] == days.last());
                }
                if rest.contains(days.last()) {
                    let i = rest.index_of(days.last());
                    assert(over[i] == days.last());
                }
            }
        }
    }
}

proof fn lemma_all_days(tokens: Seq<int>, days: Seq<Seq<char>>, over: Seq<Seq<char>>)
    requires
        tokens.len() == days.len(),
        over.no_duplicates(),
        forall|i: int| 0 <= i < days.len() ==> over.contains(#[trigger] days[i]),
    ensures
        tokens_over(tokens, days, over) == total(tokens),
    decreases days.len(),
{
    if days.len() > 0 {
        lemma_one_more_step(tokens, days, over);
        assert(over.contains(days[days.len() - 1]));
        assert forall|i: int| 0 <= i < days.drop_last().len() implies over.contains(
            #[trigger] days.drop_last()[i],
        ) by {
            assert(over.contains(days[i]));
        }
        lemma_all_days(tokens.drop_last(), days.drop_last(), over);
    } else {
        lemma_no_steps(tokens, days, over);
    }
}

proof fn lemma_no_steps(tokens: Seq<int>, days: Seq<Seq<char>>, over: Seq<Seq<char>>)
    requires
        tokens.len() == 0,
        days.len() == 0,
    ensures
        tokens_over(tokens, days, over) == 0,
    decreases over.len(),
{
    let f = |d: Seq<char>| usage_on(tokens, days, d).tokens_used;
    if over.len() > 0 {
        lemma_no_steps(tokens, days, over.drop_last());
        assert(over.map_values(f).drop_last() =~= over.drop_last().map_values(f));
        assert(usage_on(tokens, days, over.last()).tokens_used == 0);
    }
}

/// The usage by day adds up: each day stands once, and the tokens of the days are those of
/// the steps together.
pub proof fn daily_usage_adds_up(tokens: Seq<int>, days: Seq<Seq<char>>)
    requires
        tokens.len() == days.len(),
    ensures
        daily_usage(tokens, days).map_values(|d: DailyUsageModel| d.day).no_duplicates(),
        total(daily_usage(tokens, days).map_values(|d: DailyUsageModel| d.tokens_used)) == total(
            tokens,
        ),
{
    lemma_distinct_once(days);
    lemma_distinct_members(days);
    assert forall|i: int| 0 <= i < days.len() implies distinct(days).contains(
        #[trigger] days[i],
    ) by {
        assert(days.contains(days[i]));
    }
    lemma_all_days(tokens, days, distinct(days));
    let daily = daily_usage(tokens, days);
    assert(daily.map_values(|d: DailyUsageModel| d.day) =~= distinct(days));
    assert(daily.map_values(|d: DailyUsageModel| d.tokens_used) =~= distinct(days).map_values(
        |d: Seq<char>| usage_on(tokens, days, d).tokens_used,
    ));
}

} // verus!
