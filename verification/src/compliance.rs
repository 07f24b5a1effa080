//! The compliance report: what every run did, which knowledge it used, and where it
//! passed over the recall that an enforced domain demands.
use vstd::prelude::*;

use crate::order::{ints, lemma_sort_members, pair_desc, picked, stable_sort};
use crate::store::acl::is_enforced;
use crate::store::episodes::episode_list;
use crate::store::knowledge::with_source;
use crate::store::{Store, StoreModel};
use crate::table::{deduped, distinct, distinct_texts, list, listed, map_at, reversed_key};
use crate::table::{lemma_distinct_members, lemma_listed_len, lemma_positions, positions};
use crate::text::{copy_opt, is_text, opt, opt_str, own, same, texts, lemma_texts_push};
use crate::types::{models, lemma_models_push, EpisodeRow, EpisodeRowModel};
use crate::types::{KnowledgeItemWithSource, KnowledgeItemWithSourceModel};

verus! {

/// Why a step is a gap in the compliance of its run.
#[derive(Debug, Clone, Copy, PartialEq, Eq, Structural)]
pub enum GapReason {
    /// The step passed by an explicit override.
    Override,
    /// The step acted on an enforced domain that the run had not recalled.
    NoPriorRecall,
}

/// The name of a reason.
pub open spec fn reason_name(r: GapReason) -> Seq<char> {
    match r {
        GapReason::Override => "override"@,
        GapReason::NoPriorRecall => "no_prior_recall"@,
    }
}

impl GapReason {
    /// The name of the reason.
    pub fn as_str(&self) -> (r: &'static str)
        ensures
            r@ == reason_name(*self),
    {
        match self {
            GapReason::Override => "override",
            GapReason::NoPriorRecall => "no_prior_recall",
        }
    }
}

/// A knowledge item that a run used.
#[derive(Debug)]
pub struct ComplianceKnowledgeItem {
    pub id: i64,
    pub title: String,
    pub trust: String,
    pub source: Option<String>,
    pub approver: Option<String>,
    pub created_at: i64,
    pub updated_at: i64,
}

/// What a [`ComplianceKnowledgeItem`] holds, as mathematical values.
#[verifier::ext_equal]
pub struct ComplianceKnowledgeItemModel {
    pub id: i64,
    pub title: Seq<char>,
    pub trust: Seq<char>,
    pub source: Option<Seq<char>>,
    pub approver: Option<Seq<char>>,
    pub created_at: i64,
    pub updated_at: i64,
}

impl View for ComplianceKnowledgeItem {
    type V = ComplianceKnowledgeItemModel;

    open spec fn view(&self) -> ComplianceKnowledgeItemModel {
        ComplianceKnowledgeItemModel {
            id: self.id,
            title: self.title@,
            trust: self.trust@,
            source: opt(self.source),
            approver: opt(self.approver),
            created_at: self.created_at,
            updated_at: self.updated_at,
        }
    }
}

impl Clone for ComplianceKnowledgeItem {
    fn clone(&self) -> (r: Self)
        ensures
            r@ == self@,
    {
        ComplianceKnowledgeItem {
            id: self.id,
            title: self.title.clone(),
            trust: self.trust.clone(),
            source: copy_opt(&self.source),
            approver: copy_opt(&self.approver),
            created_at: self.created_at,
            updated_at: self.updated_at,
        }
    }
}

/// A step that passed over the recall that its domain demands.
#[derive(Debug)]
pub struct ComplianceGap {
    pub run_id: String,
    pub episode_id: i64,
    pub step: i64,
    pub domain: String,
    pub stage: Option<String>,
    pub action: Option<String>,
    pub reason: GapReason,
    pub ts: i64,
}

/// What a [`ComplianceGap`] holds, as mathematical values.
#[verifier::ext_equal]
pub struct ComplianceGapModel {
    pub run_id: Seq<char>,
    pub episode_id: i64,
    pub step: i64,
    pub domain: Seq<char>,
    pub stage: Option<Seq<char>>,
    pub action: Option<Seq<char>>,
    pub reason: GapReason,
    pub ts: i64,
}

impl View for ComplianceGap {
    type V = ComplianceGapModel;

    open spec fn view(&self) -> ComplianceGapModel {
        ComplianceGapModel {
            run_id: self.run_id@,
            episode_id: self.episode_id,
            step: self.step,
            domain: self.domain@,
            stage: opt(self.stage),
            action: opt(self.action),
            reason: self.reason,
            ts: self.ts,
        }
    }
}

impl Clone for ComplianceGap {
    fn clone(&self) -> (r: Self)
        ensures
            r@ == self@,
    {
        ComplianceGap {
            run_id: self.run_id.clone(),
            episode_id: self.episode_id,
            step: self.step,
            domain: self.domain.clone(),
            stage: copy_opt(&self.stage),
            action: copy_opt(&self.action),
            reason: self.reason,
            ts: self.ts,
        }
    }
}

/// What one run did.
#[derive(Debug)]
pub struct ComplianceRunSection {
    pub run_id: String,
    pub step_count: usize,
    pub first_ts: i64,
    pub last_ts: i64,
    pub steps: Vec<EpisodeRow>,
    pub knowledge_used: Vec<ComplianceKnowledgeItem>,
}

/// What a [`ComplianceRunSection`] holds, as mathematical values.
#[verifier::ext_equal]
pub struct ComplianceRunSectionModel {
    pub run_id: Seq<char>,
    pub step_count: usize,
    pub first_ts: i64,
    pub last_ts: i64,
    pub steps: Seq<EpisodeRowModel>,
    pub knowledge_used: Seq<ComplianceKnowledgeItemModel>,
}

impl View for ComplianceRunSection {
    type V = ComplianceRunSectionModel;

    open spec fn view(&self) -> ComplianceRunSectionModel {
        ComplianceRunSectionModel {
            run_id: self.run_id@,
            step_count: self.step_count,
            first_ts: self.first_ts,
            last_ts: self.last_ts,
            steps: models(self.steps@),
            knowledge_used: models(self.knowledge_used@),
        }
    }
}


/// What the runs did, and the gaps in their compliance.
#[derive(Debug)]
pub struct ComplianceReport {
    pub format: String,
    pub run_id: Option<String>,
    pub runs: Vec<ComplianceRunSection>,
    pub gaps: Vec<ComplianceGap>,
}

/// What a [`ComplianceReport`] holds, as mathematical values.
#[verifier::ext_equal]
pub struct ComplianceReportModel {
    pub format: Seq<char>,
    pub run_id: Option<Seq<char>>,
    pub runs: Seq<ComplianceRunSectionModel>,
    pub gaps: Seq<ComplianceGapModel>,
}

impl View for ComplianceReport {
    type V = ComplianceReportModel;

    open spec fn view(&self) -> ComplianceReportModel {
        ComplianceReportModel {
            format: self.format@,
            run_id: opt(self.run_id),
            runs: models(self.runs@),
            gaps: models(self.gaps@),
        }
    }
}


// ---- what a run did -------------------------------------------------------

/// Who stands behind knowledge of a tier, as far as the tier tells.
pub open spec fn approver(trust: Seq<char>) -> Option<Seq<char>> {
    if trust == "user"@ {
        Some("user (direct entry)"@)
    } else if trust == "reviewed"@ {
        Some("reviewed (admin promotion)"@)
    } else {
        None
    }
}

/// Who stands behind knowledge of a tier. No identity is on record, so this names the
/// way of approval that the tier stands for.
pub fn approver_for_trust(trust: &str) -> (r: Option<String>)
    ensures
        opt(r) == approver(trust@),
{
    if same(trust, "user") {
        Some("user (direct entry)".to_owned())
    } else if same(trust, "reviewed") {
        Some("reviewed (admin promotion)".to_owned())
    } else {
        None
    }
}

/// A knowledge item as the report shows it.
pub open spec fn used_item(k: KnowledgeItemWithSourceModel) -> ComplianceKnowledgeItemModel {
    ComplianceKnowledgeItemModel {
        id: k.row.id,
        title: k.row.title,
        trust: k.row.trust,
        source: match k.source_title {
            Some(t) => Some(t),
            None => k.source_uri,
        },
        approver: approver(k.row.trust),
        created_at: k.row.created_at,
        updated_at: k.row.updated_at,
    }
}

fn item_used(k: KnowledgeItemWithSource) -> (r: ComplianceKnowledgeItem)
    ensures
        r@ == used_item(k@),
{
    let approver: Option<String> = approver_for_trust(k.row.trust.as_str());
    ComplianceKnowledgeItem {
        id: k.row.id,
        title: k.row.title,
        trust: k.row.trust,
        source: match k.source_title {
            Some(t) => Some(t),
            None => k.source_uri,
        },
        approver,
        created_at: k.row.created_at,
        updated_at: k.row.updated_at,
    }
}

/// Whether a step is a recall.
pub open spec fn is_recall_step(e: EpisodeRowModel) -> bool {
    e.stage == Some("recall"@)
}

/// Whether one of some steps recalled a domain.
pub open spec fn recalled_before(steps: Seq<EpisodeRowModel>, domain: Seq<char>) -> bool {
    exists|i: int|
        0 <= i < steps.len() && is_recall_step(#[trigger] steps[i]) && steps[i].domain == Some(
            domain,
        )
}

/// Why a step is a gap, given the steps before it: it passed by an override, or acted on
/// an enforced domain that none of them had recalled. A recall is no gap, nor is a step
/// without a domain.
pub open spec fn gap_reason(
    s: StoreModel,
    before: Seq<EpisodeRowModel>,
    e: EpisodeRowModel,
) -> Option<GapReason> {
    match e.domain {
        Some(d) => if is_recall_step(e) {
            None
        } else if e.outcome == Some("override"@) {
            Some(GapReason::Override)
        } else if !recalled_before(before, d) && is_enforced(s, d) {
            Some(GapReason::NoPriorRecall)
        } else {
            None
        },
        None => None,
    }
}

/// The gap that a step is.
pub open spec fn gap_of(run_id: Seq<char>, e: EpisodeRowModel, reason: GapReason) -> ComplianceGapModel {
    ComplianceGapModel {
        run_id,
        episode_id: e.id,
        step: e.step,
        domain: e.domain->0,
        stage: e.stage,
        action: e.action,
        reason,
        ts: e.ts,
    }
}

/// The gaps of a run, in the order of its steps.
pub open spec fn run_gaps(s: StoreModel, run_id: Seq<char>, steps: Seq<EpisodeRowModel>) -> Seq<
    ComplianceGapModel,
>
    decreases steps.len(),
{
    if steps.len() == 0 {
        seq![]
    } else {
        let before = run_gaps(s, run_id, steps.drop_last());
        match gap_reason(s, steps.drop_last(), steps.last()) {
            Some(r) => before.push(gap_of(run_id, steps.last(), r)),
            None => before,
        }
    }
}

/// The least time of some steps.
pub open spec fn first_time(steps: Seq<EpisodeRowModel>) -> i64
    decreases steps.len(),
{
    if steps.len() == 0 {
        0
    } else if steps.len() == 1 || steps.last().ts < first_time(steps.drop_last()) {
        steps.last().ts
    } else {
        first_time(steps.drop_last())
    }
}

/// The largest time of some steps.
pub open spec fn last_time(steps: Seq<EpisodeRowModel>) -> i64
    decreases steps.len(),
{
    if steps.len() == 0 {
        0
    } else if steps.len() == 1 || steps.last().ts > last_time(steps.drop_last()) {
        steps.last().ts
    } else {
        last_time(steps.drop_last())
    }
}

/// The numbers of the knowledge items that some steps used, as they used them.
pub open spec fn ids_used(steps: Seq<EpisodeRowModel>) -> Seq<i64>
    decreases steps.len(),
{
    if steps.len() == 0 {
        seq![]
    } else {
        ids_used(steps.drop_last()) + steps.last().knowledge_ids_used
    }
}

/// The same numbers, each once, in order.
pub open spec fn ids_in_order(ids: Seq<i64>) -> Seq<i64> {
    deduped(stable_sort(ids, |a: i64, b: i64| a <= b))
}

/// The items of some numbers that are still there.
pub open spec fn items_used(s: StoreModel, ids: Seq<i64>) -> Seq<ComplianceKnowledgeItemModel>
    decreases ids.len(),
{
    if ids.len() == 0 {
        seq![]
    } else {
        let before = items_used(s, ids.drop_last());
        match with_source(s, ids.last()) {
            Some(k) => before.push(used_item(k)),
            None => before,
        }
    }
}

/// The steps of a run, in the order of their numbers.
pub open spec fn run_steps(episodes: Seq<EpisodeRowModel>, run_id: Seq<char>) -> Seq<
    EpisodeRowModel,
> {
    listed(
        episodes,
        |e: EpisodeRowModel| e.run_id == run_id,
        |e: EpisodeRowModel| (reversed_key(e.step), 0i64),
    )
}

/// What a run did.
pub open spec fn section(s: StoreModel, run_id: Seq<char>, steps: Seq<EpisodeRowModel>) -> ComplianceRunSectionModel {
    ComplianceRunSectionModel {
        run_id,
        step_count: steps.len() as usize,
        first_ts: first_time(steps),
        last_ts: last_time(steps),
        steps,
        knowledge_used: items_used(s, ids_in_order(ids_used(steps))),
    }
}

/// The runs of some episodes, by name.
pub open spec fn run_names(episodes: Seq<EpisodeRowModel>) -> Seq<Seq<char>> {
    distinct(episodes.map_values(|e: EpisodeRowModel| e.run_id))
}

/// What some runs did.
pub open spec fn sections(
    s: StoreModel,
    episodes: Seq<EpisodeRowModel>,
    runs: Seq<Seq<char>>,
) -> Seq<ComplianceRunSectionModel> {
    runs.map_values(|r: Seq<char>| section(s, r, run_steps(episodes, r)))
}

/// The gaps of some runs, run by run.
pub open spec fn all_gaps(
    s: StoreModel,
    episodes: Seq<EpisodeRowModel>,
    runs: Seq<Seq<char>>,
) -> Seq<ComplianceGapModel>
    decreases runs.len(),
{
    if runs.len() == 0 {
        seq![]
    } else {
        all_gaps(s, episodes, runs.drop_last()) + run_gaps(
            s,
            runs.last(),
            run_steps(episodes, runs.last()),
        )
    }
}

/// The report on the episodes that a listing gives: of all runs, or of one.
pub open spec fn report(s: StoreModel, run_id: Option<Seq<char>>) -> ComplianceReportModel {
    let episodes = episode_list(s, run_id);
    ComplianceReportModel {
        format: "reverse-explainability-compliance-v1"@,
        run_id,
        runs: sections(s, episodes, run_names(episodes)),
        gaps: all_gaps(s, episodes, run_names(episodes)),
    }
}

// ---- building it ----------------------------------------------------------

fn recalls(steps: &Vec<EpisodeRow>, n: usize, domain: &str) -> (r: bool)
    requires
        n <= steps@.len(),
    ensures
        r == recalled_before(models(steps@).take(n as int), domain@),
{
    let ghost before = models(steps@).take(n as int);
    let mut i: usize = 0;
    while i < n
        invariant
            i <= n <= steps@.len(),
            before == models(steps@).take(n as int),
            forall|j: int|
                0 <= j < i ==> !(is_recall_step(#[trigger] before[j]) && before[j].domain == Some(
                    domain@,
                )),
        decreases n - i,
    {
        assert(before[i as int] == steps@[i as int]@);
        if is_text(&steps[i].stage, "recall") && is_text(&steps[i].domain, domain) {
            return true;
        }
        i += 1;
    }
    false
}

fn reason_for(store: &Store, steps: &Vec<EpisodeRow>, i: usize) -> (r: Option<GapReason>)
    requires
        i < steps@.len(),
    ensures
        r == gap_reason(store@, models(steps@).take(i as int), steps@[i as int]@),
{
    match &steps[i].domain {
        Some(d) => {
            if is_text(&steps[i].stage, "recall") {
                None
            } else if is_text(&steps[i].outcome, "override") {
                Some(GapReason::Override)
            } else if !recalls(steps, i, d.as_str()) && store.domain_enforced(d.as_str()) {
                Some(GapReason::NoPriorRecall)
            } else {
                None
            }
        },
        None => None,
    }
}

fn push_gaps(store: &Store, run_id: &str, steps: &Vec<EpisodeRow>, gaps: &mut Vec<ComplianceGap>)
    ensures
        models(final(gaps)@) == models(old(gaps)@) + run_gaps(store@, run_id@, models(steps@)),
{
    let ghost all = models(steps@);
    let ghost start = models(gaps@);
    let mut i: usize = 0;
    assert(start =~= start + run_gaps(store@, run_id@, all.take(0)));
    while i < steps.len()
        invariant
            i <= steps@.len(),
            all == models(steps@),
            models(gaps@) == start + run_gaps(store@, run_id@, all.take(i as int)),
        decreases steps.len() - i,
    {
        broadcast use lemma_models_push;

        assert(all.take(i + 1).drop_last() =~= all.take(i as int));
        let e: &EpisodeRow = &steps[i];
        match reason_for(store, steps, i) {
            Some(reason) => {
                let domain: String = match &e.domain {
                    Some(d) => d.clone(),
                    None => String::new(),
                };
                let gap: ComplianceGap = ComplianceGap {
                    run_id: run_id.to_owned(),
                    episode_id: e.id,
                    step: e.step,
                    domain,
                    stage: copy_opt(&e.stage),
                    action: copy_opt(&e.action),
                    reason,
                    ts: e.ts,
                };
                assert(gap@ == gap_of(run_id@, e@, reason));
                let ghost before = models(gaps@);
                gaps.push(gap);
                assert(models(gaps@) =~= start + run_gaps(store@, run_id@, all.take(i + 1)));
            },
            None => {},
        }
        i += 1;
    }
    assert(all.take(i as int) =~= all);
}

fn time_span(steps: &Vec<EpisodeRow>) -> (r: (i64, i64))
    ensures
        r.0 == first_time(models(steps@)),
        r.1 == last_time(models(steps@)),
{
    let ghost all = models(steps@);
    if steps.len() == 0 {
        return (0, 0);
    }
    let mut first: i64 = steps[0].ts;
    let mut last: i64 = steps[0].ts;
    let mut i: usize = 1;
    assert(all.take(1).last() == all[0]);
    while i < steps.len()
        invariant
            1 <= i <= steps@.len(),
            all == models(steps@),
            first == first_time(all.take(i as int)),
            last == last_time(all.take(i as int)),
        decreases steps.len() - i,
    {
        assert(all.take(i + 1).drop_last() =~= all.take(i as int));
        assert(all.take(i + 1).last() == steps@[i as int]@);
        if steps[i].ts < first {
            first = steps[i].ts;
        }
        if steps[i].ts > last {
            last = steps[i].ts;
        }
        i += 1;
    }
    assert(all.take(i as int) =~= all);
    (first, last)
}

fn collect_ids(steps: &Vec<EpisodeRow>) -> (r: Vec<i64>)
    ensures
        r@ == ids_used(models(steps@)),
{
    let ghost all = models(steps@);
    let mut out: Vec<i64> = Vec::new();
    let mut i: usize = 0;
    assert(out@ =~= ids_used(all.take(0)));
    while i < steps.len()
        invariant
            i <= steps@.len(),
            all == models(steps@),
            out@ == ids_used(all.take(i as int)),
        decreases steps.len() - i,
    {
        assert(all.take(i + 1).drop_last() =~= all.take(i as int));
        let ids: &Vec<i64> = &steps[i].knowledge_ids_used;
        let ghost before = out@;
        let mut j: usize = 0;
        assert(before + ids@.take(0) =~= before);
        while j < ids.len()
            invariant
                j <= ids@.len(),
                out@ == before + ids@.take(j as int),
            decreases ids.len() - j,
        {
            out.push(ids[j]);
            assert(out@ =~= before + ids@.take(j + 1));
            j += 1;
        }
        assert(ids@.take(j as int) =~= ids@);
        i += 1;
    }
    assert(all.take(i as int) =~= all);
    out
}

/// The numbers of a list, each once, in order.
fn order_ids(ids: &Vec<i64>) -> (r: Vec<i64>)
    ensures
        r@ == ids_in_order(ids@),
{
    let mut keys: Vec<(i64, i64)> = Vec::new();
    let mut i: usize = 0;
    while i < ids.len()
        invariant
            i <= ids@.len(),
            keys@.len() == i,
            forall|j: int| 0 <= j < i ==> #[trigger] keys@[j] == (reversed_key(ids@[j]), 0i64),
        decreases ids.len() - i,
    {
        keys.push((-1 - ids[i], 0));
        i += 1;
    }
    let at: Vec<usize> = crate::order::order_desc(&keys);
    let ghost sorted = picked(ids@, ints(at@));
    proof {
        let a = |i: int, j: int| crate::order::pair_desc(keys@[i], keys@[j]);
        let le = |a: i64, b: i64| a <= b;
        assert forall|i: int, j: int|
            0 <= i < ids@.len() && 0 <= j < ids@.len() implies #[trigger] a(i, j) == le(
            ids@[i],
            ids@[j],
        ) by {
            assert(keys@[i] == (reversed_key(ids@[i]), 0i64));
            assert(keys@[j] == (reversed_key(ids@[j]), 0i64));
        }
        crate::order::lemma_sort_positions(ids@, a, le);
    }
    let mut out: Vec<i64> = Vec::new();
    let mut m: usize = 0;
    assert(out@ =~= deduped(sorted.take(0)));
    while m < at.len()
        invariant
            m <= at@.len(),
            sorted == picked(ids@, ints(at@)),
            forall|i: int| 0 <= i < at@.len() ==> #[trigger] at@[i] < ids@.len(),
            out@ == deduped(sorted.take(m as int)),
        decreases at.len() - m,
    {
        assert(at@[m as int] < ids@.len());
        assert(sorted.take(m + 1).drop_last() =~= sorted.take(m as int));
        let repeated: bool = if m > 0 {
            assert(at@[m - 1] < ids@.len());
            ids[at[m - 1]] == ids[at[m]]
        } else {
            false
        };
        if !repeated {
            out.push(ids[at[m]]);
        }
        m += 1;
    }
    assert(sorted.take(m as int) =~= sorted);
    out
}

fn find_items(store: &Store, ids: &Vec<i64>) -> (r: Vec<ComplianceKnowledgeItem>)
    ensures
        models(r@) == items_used(store@, ids@),
{
    let mut out: Vec<ComplianceKnowledgeItem> = Vec::new();
    let mut i: usize = 0;
    assert(models(out@) =~= items_used(store@, ids@.take(0)));
    while i < ids.len()
        invariant
            i <= ids@.len(),
            models(out@) == items_used(store@, ids@.take(i as int)),
        decreases ids.len() - i,
    {
        broadcast use lemma_models_push;

        assert(ids@.take(i + 1).drop_last() =~= ids@.take(i as int));
        match store.get_knowledge_by_id(ids[i]) {
            Some(k) => {
                out.push(item_used(k));
            },
            None => {},
        }
        i += 1;
    }
    assert(ids@.take(i as int) =~= ids@);
    out
}

fn steps_of(episodes: &Vec<EpisodeRow>, run_id: &str) -> (r: Vec<EpisodeRow>)
    ensures
        models(r@) == run_steps(models(episodes@), run_id@),
{
    let is = |e: &EpisodeRow| -> (b: bool)
        ensures
            b == (e@.run_id == run_id@),
        { same(e.run_id.as_str(), run_id) };
    let key = |e: &EpisodeRow| -> (k: (i64, i64))
        ensures
            k == (reversed_key(e@.step), 0i64),
        { (-1 - e.step, 0) };
    let ghost p = |e: EpisodeRowModel| e.run_id == run_id@;
    let ghost k = |e: EpisodeRowModel| (reversed_key(e.step), 0i64);
    let at: Vec<usize> = list(episodes, is, key, usize::MAX, Ghost(p), Ghost(k));
    proof {
        lemma_listed_len(models(episodes@), p, k);
        assert(episodes@.len() == episodes.len());
    }
    let f = |e: &EpisodeRow| -> (q: EpisodeRow)
        ensures
            q@ == e@,
        { e.clone() };
    let out: Vec<EpisodeRow> = map_at(episodes, &at, f, Ghost(|e: EpisodeRowModel| e));
    assert(models(out@) =~= picked(models(episodes@), ints(at@)));
    out
}

fn names_of(episodes: &Vec<EpisodeRow>) -> (r: Vec<String>)
    ensures
        texts(r@) == run_names(models(episodes@)),
{
    let mut all: Vec<String> = Vec::new();
    let ghost names = models(episodes@).map_values(|e: EpisodeRowModel| e.run_id);
    let mut i: usize = 0;
    assert(texts(all@) =~= names.take(0));
    while i < episodes.len()
        invariant
            i <= episodes@.len(),
            names == models(episodes@).map_values(|e: EpisodeRowModel| e.run_id),
            texts(all@) == names.take(i as int),
        decreases episodes.len() - i,
    {
        broadcast use lemma_texts_push;

        all.push(episodes[i].run_id.clone());
        assert(texts(all@) =~= names.take(i + 1));
        i += 1;
    }
    assert(names.take(i as int) =~= names);
    distinct_texts(&all)
}

/// Builds the report on the two hundred newest episodes: of all runs, or of one.
pub fn build_compliance_report(store: &Store, run_id: Option<&str>) -> (r: ComplianceReport)
    ensures
        r@ == report(store@, opt_str(run_id)),
{
    let episodes: Vec<EpisodeRow> = store.list_episodes(run_id);
    let names: Vec<String> = names_of(&episodes);
    let ghost eps = models(episodes@);
    let ghost all = texts(names@);
    let mut runs: Vec<ComplianceRunSection> = Vec::new();
    let mut gaps: Vec<ComplianceGap> = Vec::new();
    let mut i: usize = 0;
    assert(models(runs@) =~= sections(store@, eps, all.take(0)));
    assert(models(gaps@) =~= all_gaps(store@, eps, all.take(0)));
    while i < names.len()
        invariant
            i <= names@.len(),
            eps == models(episodes@),
            all == texts(names@),
            models(runs@) == sections(store@, eps, all.take(i as int)),
            models(gaps@) == all_gaps(store@, eps, all.take(i as int)),
        decreases names.len() - i,
    {
        broadcast use lemma_models_push;

        assert(all.take(i + 1).drop_last() =~= all.take(i as int));
        assert(all.take(i + 1).last() == names@[i as int]@);
        let steps: Vec<EpisodeRow> = steps_of(&episodes, names[i].as_str());
        push_gaps(store, names[i].as_str(), &steps, &mut gaps);
        let span: (i64, i64) = time_span(&steps);
        let ids: Vec<i64> = order_ids(&collect_ids(&steps));
        let run: ComplianceRunSection = ComplianceRunSection {
            run_id: names[i].clone(),
            step_count: steps.len(),
            first_ts: span.0,
            last_ts: span.1,
            knowledge_used: find_items(store, &ids),
            steps,
        };
        assert(run@ =~= section(store@, names@[i as int]@, run_steps(eps, names@[i as int]@)));
        runs.push(run);
        assert(models(runs@) =~= sections(store@, eps, all.take(i + 1)));
        i += 1;
    }
    assert(all.take(i as int) =~= all);
    ComplianceReport {
        format: "reverse-explainability-compliance-v1".to_owned(),
        run_id: own(run_id),
        runs,
        gaps,
    }
}

// ---- what the report shows ------------------------------------------------

proof fn lemma_gap_shown(s: StoreModel, run_id: Seq<char>, steps: Seq<EpisodeRowModel>, i: int)
    requires
        0 <= i < steps.len(),
        gap_reason(s, steps.take(i), steps[i]) is Some,
    ensures
        run_gaps(s, run_id, steps).contains(
            gap_of(run_id, steps[i], gap_reason(s, steps.take(i), steps[i])->0),
        ),
    decreases steps.len(),
{
    let d = steps.drop_last();
    let g = gap_of(run_id, steps[i], gap_reason(s, steps.take(i), steps[i])->0);
    let all = run_gaps(s, run_id, steps);
    if i == steps.len() - 1 {
        assert(steps.take(i) =~= d);
        assert(all.last() == g);
        assert(all[all.len() - 1] == g);
    } else {
        assert(d.take(i) =~= steps.take(i));
        lemma_gap_shown(s, run_id, d, i);
        let before = run_gaps(s, run_id, d);
        let j = before.index_of(g);
        assert(all[j] == g);
    }
}

proof fn lemma_gap_of_run_shown(
    s: StoreModel,
    episodes: Seq<EpisodeRowModel>,
    runs: Seq<Seq<char>>,
    r: int,
    g: ComplianceGapModel,
)
    requires
        0 <= r < runs.len(),
        run_gaps(s, runs[r], run_steps(episodes, runs[r])).contains(g),
    ensures
        all_gaps(s, episodes, runs).contains(g),
    decreases runs.len(),
{
    let d = runs.drop_last();
    let all = all_gaps(s, episodes, runs);
    let before = all_gaps(s, episodes, d);
    let own = run_gaps(s, runs.last(), run_steps(episodes, runs.last()));
    if r == runs.len() - 1 {
        let j = own.index_of(g);
        assert(all[before.len() + j] == g);
    } else {
        lemma_gap_of_run_shown(s, episodes, d, r, g);
        let j = before.index_of(g);
        assert(all[j] == g);
    }
}

/// Every step that the report covers and that passed by an override, or acted on an
/// enforced domain without a recall before it, is among the gaps of the report.
pub proof fn gaps_are_reported(s: StoreModel, run_id: Option<Seq<char>>, run: Seq<char>, i: int)
    requires
        ({
            let steps = run_steps(episode_list(s, run_id), run);
            0 <= i < steps.len() && gap_reason(s, steps.take(i), steps[i]) is Some
        }),
    ensures
        ({
            let steps = run_steps(episode_list(s, run_id), run);
            report(s, run_id).gaps.contains(
                gap_of(run, steps[i], gap_reason(s, steps.take(i), steps[i])->0),
            )
        }),
{
    let episodes = episode_list(s, run_id);
    let steps = run_steps(episodes, run);
    let p = |e: EpisodeRowModel| e.run_id == run;
    let key = |e: EpisodeRowModel| (reversed_key(e.step), 0i64);
    lemma_gap_shown(s, run, steps, i);
    lemma_sort_members(
        episodes.filter(p),
        |a: EpisodeRowModel, b: EpisodeRowModel| pair_desc(key(a), key(b)),
    );
    assert(steps.contains(steps[i]));
    assert(episodes.filter(p).contains(steps[i]));
    lemma_positions(episodes, p);
    let j = episodes.filter(p).index_of(steps[i]);
    let at = positions(episodes, p);
    assert(picked(episodes, at)[j] == episodes[at[j]]);
    let names = episodes.map_values(|e: EpisodeRowModel| e.run_id);
    assert(names[at[j]] == run);
    lemma_distinct_members(names);
    assert(names.contains(run));
    let runs = run_names(episodes);
    assert(runs.contains(run));
    let r = runs.index_of(run);
    lemma_gap_of_run_shown(
        s,
        episodes,
        runs,
        r,
        gap_of(run, steps[i], gap_reason(s, steps.take(i), steps[i])->0),
    );
}

/// An override is a gap whatever was recalled before it.
pub proof fn overrides_are_gaps(s: StoreModel, before: Seq<EpisodeRowModel>, e: EpisodeRowModel)
    requires
        e.domain is Some,
        e.outcome == Some("override"@),
        !is_recall_step(e),
    ensures
        gap_reason(s, before, e) == Some(GapReason::Override),
{
}

} // verus!
