//! The retention sweep: removes the knowledge whose time is over.
//!
//! An item is kept for as long as it says itself, else for as long as its domain says,
//! else forever. A domain that came from a marketplace template is spared unless it has
//! a retention of its own: applying a template starts no countdown that nobody asked
//! for.
use vstd::prelude::*;

use crate::store::domains::{domain_list, domain_row, either_opt};
use crate::store::episodes::{logged, next_episode_id, next_step, StepNote};
use crate::store::knowledge::{forgotten, known};
use crate::store::{DomainRecordModel, KnowledgeItem, KnowledgeItemModel, Store, StoreModel};
use crate::order::{lemma_sort_members, texts_le};
use crate::table::{lemma_filter_all, lemma_filter_ext, lemma_filter_filter};
use crate::table::{lemma_filter_none_dropped, lemma_positions, map_at, select, some_match};
use crate::table::sorted_by;
use crate::text::{decimal, number, same};
use crate::types::{models, DomainRow, DomainRowModel, EpisodeRowModel};

verus! {

/// The number of seconds in a day.
pub const DAY_SECS: i64 = 86400;

/// Whether the time of an item is over that is kept for `days`.
pub open spec fn is_over(k: KnowledgeItemModel, days: Option<i64>, now: i64) -> bool {
    days matches Some(n) && now >= k.created_at + n * DAY_SECS
}

/// Whether the time of an item of a domain is over.
pub open spec fn is_due(k: KnowledgeItemModel, d: DomainRowModel, now: i64) -> bool {
    is_over(k, either_opt(k.retention_days, d.retention_days), now)
}

/// Whether the sweep passes over a domain.
pub open spec fn is_spared(d: DomainRowModel) -> bool {
    d.is_marketplace_template && d.retention_days is None
}

/// What is logged of the removal of an item.
pub open spec fn purge_note(run_id: Seq<char>, k: KnowledgeItemModel, d: DomainRowModel) -> StepNote {
    StepNote {
        run_id,
        stage: Some("retention_sweep"@),
        action: Some(
            "purge knowledge id="@ + decimal(k.id as int) + " domain="@ + k.domain
                + " retention_days="@ + decimal(
                either_opt(k.retention_days, d.retention_days)->0 as int,
            ),
        ),
        observation: None,
        outcome: Some("success"@),
        domain: Some(k.domain),
        model: None,
        tokens_used: None,
        cost: None,
    }
}

/// The store, and the number of items removed, after an item was looked at.
pub open spec fn purged(
    st: (StoreModel, int),
    k: KnowledgeItemModel,
    d: DomainRowModel,
    run_id: Seq<char>,
    now: i64,
) -> (StoreModel, int) {
    if is_due(k, d, now) && known(st.0, k.id) {
        let t = forgotten(st.0, k.id);
        (logged(t, purge_note(run_id, k, d), next_step(t, run_id), now), st.1 + 1)
    } else {
        st
    }
}

/// The same after a list of items of a domain was looked at.
pub open spec fn purged_all(
    st: (StoreModel, int),
    items: Seq<KnowledgeItemModel>,
    d: DomainRowModel,
    run_id: Seq<char>,
    now: i64,
) -> (StoreModel, int)
    decreases items.len(),
{
    if items.len() == 0 {
        st
    } else {
        purged(purged_all(st, items.drop_last(), d, run_id, now), items.last(), d, run_id, now)
    }
}

/// The same after a domain was swept.
pub open spec fn swept_domain(
    st: (StoreModel, int),
    d: DomainRowModel,
    run_id: Seq<char>,
    now: i64,
) -> (StoreModel, int) {
    if is_spared(d) {
        st
    } else {
        purged_all(
            st,
            st.0.knowledge.filter(|k: KnowledgeItemModel| k.domain == d.name),
            d,
            run_id,
            now,
        )
    }
}

/// The same after a list of domains was swept.
pub open spec fn swept_domains(
    st: (StoreModel, int),
    domains: Seq<DomainRowModel>,
    run_id: Seq<char>,
    now: i64,
) -> (StoreModel, int)
    decreases domains.len(),
{
    if domains.len() == 0 {
        st
    } else {
        swept_domain(
            swept_domains(st, domains.drop_last(), run_id, now),
            domains.last(),
            run_id,
            now,
        )
    }
}

/// The store after a sweep, and the number of items removed.
pub open spec fn swept(s: StoreModel, run_id: Seq<char>, now: i64) -> (StoreModel, int) {
    swept_domains((s, 0), domain_list(s), run_id, now)
}

proof fn lemma_forgotten_len(s: StoreModel, id: i64)
    ensures
        forgotten(s, id).knowledge.len() <= s.knowledge.len(),
        known(s, id) ==> forgotten(s, id).knowledge.len() < s.knowledge.len(),
{
    let p = |r: KnowledgeItemModel| r.id != id;
    s.knowledge.lemma_filter_len(p);
    if known(s, id) && s.knowledge.filter(p).len() == s.knowledge.len() {
        lemma_positions(s.knowledge, p);
        lemma_filter_all(s.knowledge, p);
        let q = |r: KnowledgeItemModel| r.id == id;
        let i = choose|i: int| 0 <= i < s.knowledge.len() && q(#[trigger] s.knowledge[i]);
        assert(p(s.knowledge[i]));
    }
}

impl Store {
    /// Removes the knowledge whose time is over, and logs each removal as a step of the
    /// run. Gives the number of items removed.
    pub fn retention_sweep(&mut self, run_id: &str, now: i64) -> (n: usize)
        ensures
            (final(self)@, n as int) == swept(old(self)@, run_id@, now),
    {
        let domains: Vec<DomainRow> = self.list_domains();
        let ghost rows = models(domains@);
        let total: usize = self.knowledge.len();
        let mut gone: usize = 0;
        let mut i: usize = 0;
        while i < domains.len()
            invariant
                i <= domains@.len(),
                rows == models(domains@),
                gone + self.knowledge@.len() <= total,
                (self@, gone as int) == swept_domains(
                    (old(self)@, 0),
                    rows.take(i as int),
                    run_id@,
                    now,
                ),
            decreases domains.len() - i,
        {
            assert(rows.take(i + 1).drop_last() =~= rows.take(i as int));
            assert(rows.take(i + 1).last() == domains@[i as int]@);
            let n: usize = self.sweep_domain(&domains[i], run_id, now, gone);
            gone = n;
            i += 1;
        }
        assert(rows.take(i as int) =~= rows);
        gone
    }

    fn sweep_domain(&mut self, d: &DomainRow, run_id: &str, now: i64, before: usize) -> (n: usize)
        requires
            before + old(self)@.knowledge.len() <= usize::MAX,
        ensures
            (final(self)@, n as int) == swept_domain((old(self)@, before as int), d@, run_id@, now),
            n + final(self)@.knowledge.len() <= before + old(self)@.knowledge.len(),
    {
        if d.is_marketplace_template && d.retention_days.is_none() {
            return before;
        }
        let ghost p = |k: KnowledgeItemModel| k.domain == d@.name;
        let is = |k: &KnowledgeItem| -> (b: bool)
            ensures
                b == (k@.domain == d@.name),
            { same(k.domain.as_str(), d.name.as_str()) };
        let at: Vec<usize> = select(&self.knowledge, is, Ghost(p));
        proof {
            lemma_positions(self@.knowledge, p);
        }
        let f = |k: &KnowledgeItem| -> (q: KnowledgeItem)
            ensures
                q@ == k@,
            { k.clone() };
        let items: Vec<KnowledgeItem> = map_at(
            &self.knowledge,
            &at,
            f,
            Ghost(|k: KnowledgeItemModel| k),
        );
        let ghost rows = models(items@);
        assert(rows =~= self@.knowledge.filter(p));
        let mut gone: usize = before;
        let mut i: usize = 0;
        while i < items.len()
            invariant
                i <= items@.len(),
                rows == models(items@),
                before + old(self)@.knowledge.len() <= usize::MAX,
                gone + self@.knowledge.len() <= before + old(self)@.knowledge.len(),
                (self@, gone as int) == purged_all(
                    (old(self)@, before as int),
                    rows.take(i as int),
                    d@,
                    run_id@,
                    now,
                ),
            decreases items.len() - i,
        {
            assert(rows.take(i + 1).drop_last() =~= rows.take(i as int));
            assert(rows.take(i + 1).last() == items@[i as int]@);
            let n: usize = self.purge(&items[i], d, run_id, now, gone);
            gone = n;
            i += 1;
        }
        assert(rows.take(i as int) =~= rows);
        gone
    }

    fn purge(
        &mut self,
        item: &KnowledgeItem,
        d: &DomainRow,
        run_id: &str,
        now: i64,
        before: usize,
    ) -> (n: usize)
        requires
            before + old(self)@.knowledge.len() <= usize::MAX,
        ensures
            (final(self)@, n as int) == purged(
                (old(self)@, before as int),
                item@,
                d@,
                run_id@,
                now,
            ),
            n + final(self)@.knowledge.len() <= before + old(self)@.knowledge.len(),
    {
        let days: i64 = match item.retention_days {
            Some(n) => n,
            None => match d.retention_days {
                Some(n) => n,
                None => {
                    return before;
                },
            },
        };
        assert(DAY_SECS == 86400);
        let cutoff: i128 = item.created_at as i128 + days as i128 * DAY_SECS as i128;
        if (now as i128) < cutoff {
            return before;
        }
        proof {
            lemma_forgotten_len(old(self)@, item@.id);
        }
        if !self.forget(item.id) {
            assert(self@ =~= old(self)@) by {
                let p = |r: KnowledgeItemModel| r.id != item@.id;
                assert forall|i: int| 0 <= i < old(self)@.knowledge.len() implies p(
                    #[trigger] old(self)@.knowledge[i],
                ) by {
                    let q = |r: KnowledgeItemModel| r.id == item@.id;
                    assert(!q(old(self)@.knowledge[i]));
                }
                lemma_filter_none_dropped(old(self)@.knowledge, p);
            }
            return before;
        }
        let mut action: String = "purge knowledge id=".to_owned();
        action.append(number(item.id as i128).as_str());
        action.append(" domain=");
        action.append(item.domain.as_str());
        action.append(" retention_days=");
        action.append(number(days as i128).as_str());
        self.log_episode_auto(
            run_id,
            Some("retention_sweep"),
            Some(action.as_str()),
            None,
            Some("success"),
            Some(item.domain.as_str()),
            None,
            None,
            None,
            now,
        );
        before + 1
    }
}

// ---- what a sweep removes --------------------------------------------------

/// Whether no two items have the same number.
pub open spec fn distinct_ids(rows: Seq<KnowledgeItemModel>) -> bool {
    forall|i: int, j: int| 0 <= i < j < rows.len() ==> #[trigger] rows[i].id != #[trigger] rows[j].id
}

/// Whether a domain ends the time of an item.
pub open spec fn expires_in(d: DomainRecordModel, k: KnowledgeItemModel, now: i64) -> bool {
    d.name == k.domain && !(d.is_marketplace_template && d.retention_days is None) && is_over(
        k,
        either_opt(k.retention_days, d.retention_days),
        now,
    )
}

/// Whether the time of an item is over.
pub open spec fn is_expired(s: StoreModel, k: KnowledgeItemModel, now: i64) -> bool {
    exists|i: int| 0 <= i < s.domains.len() && #[trigger] expires_in(s.domains[i], k, now)
}

/// Whether two stores differ in their knowledge and their episodes at most.
pub open spec fn alike(s: StoreModel, t: StoreModel) -> bool {
    t == StoreModel { knowledge: t.knowledge, episodes: t.episodes, ..s }
}

pub proof fn lemma_filter_distinct(
    rows: Seq<KnowledgeItemModel>,
    p: spec_fn(KnowledgeItemModel) -> bool,
)
    requires
        distinct_ids(rows),
    ensures
        distinct_ids(rows.filter(p)),
    decreases rows.len(),
{
    reveal(Seq::filter);
    if rows.len() > 0 {
        let d = rows.drop_last();
        assert forall|i: int, j: int| 0 <= i < j < d.len() implies #[trigger] d[i].id
            != #[trigger] d[j].id by {
            assert(rows[i].id != rows[j].id);
        }
        lemma_filter_distinct(d, p);
        let f = rows.filter(p);
        let g = d.filter(p);
        assert forall|i: int, j: int| 0 <= i < j < f.len() implies #[trigger] f[i].id
            != #[trigger] f[j].id by {
            if j == g.len() {
                lemma_positions(d, p);
                let at = crate::table::positions(d, p)[i];
                assert(g[i] == d[at]);
                assert(rows[at].id != rows[rows.len() - 1].id);
            } else {
                assert(f[i] == g[i] && f[j] == g[j]);
            }
        }
    }
}

proof fn lemma_one_dropped(rows: Seq<KnowledgeItemModel>, id: i64)
    requires
        distinct_ids(rows),
        some_match(rows, |r: KnowledgeItemModel| r.id == id),
    ensures
        rows.filter(|r: KnowledgeItemModel| r.id != id).len() == rows.len() - 1,
    decreases rows.len(),
{
    reveal(Seq::filter);
    let p = |r: KnowledgeItemModel| r.id != id;
    let q = |r: KnowledgeItemModel| r.id == id;
    let d = rows.drop_last();
    assert forall|i: int, j: int| 0 <= i < j < d.len() implies #[trigger] d[i].id
        != #[trigger] d[j].id by {
        assert(rows[i].id != rows[j].id);
    }
    let m = choose|i: int| 0 <= i < rows.len() && q(#[trigger] rows[i]);
    if m == rows.len() - 1 {
        assert forall|i: int| 0 <= i < d.len() implies p(#[trigger] d[i]) by {
            assert(rows[i].id != rows[m].id);
        }
        lemma_filter_none_dropped(d, p);
    } else {
        assert(q(d[m]));
        assert(rows[m].id != rows[rows.len() - 1].id);
        lemma_one_dropped(d, id);
    }
}

proof fn lemma_purged(
    st: (StoreModel, int),
    k: KnowledgeItemModel,
    d: DomainRowModel,
    run_id: Seq<char>,
    now: i64,
)
    requires
        distinct_ids(st.0.knowledge),
    ensures
        ({
            let t = purged(st, k, d, run_id, now);
            &&& t.0.knowledge == if is_due(k, d, now) {
                st.0.knowledge.filter(|r: KnowledgeItemModel| r.id != k.id)
            } else {
                st.0.knowledge
            }
            &&& t.1 + t.0.knowledge.len() == st.1 + st.0.knowledge.len()
            &&& alike(st.0, t.0)
            &&& distinct_ids(t.0.knowledge)
        }),
{
    let p = |r: KnowledgeItemModel| r.id != k.id;
    let q = |r: KnowledgeItemModel| r.id == k.id;
    if is_due(k, d, now) {
        lemma_filter_distinct(st.0.knowledge, p);
        if known(st.0, k.id) {
            lemma_one_dropped(st.0.knowledge, k.id);
        } else {
            assert forall|i: int| 0 <= i < st.0.knowledge.len() implies p(
                #[trigger] st.0.knowledge[i],
            ) by {
                assert(!q(st.0.knowledge[i]));
            }
            lemma_filter_none_dropped(st.0.knowledge, p);
        }
    }
}

/// Whether one of some items is due and has the number of `r`.
spec fn hit(
    items: Seq<KnowledgeItemModel>,
    r: KnowledgeItemModel,
    d: DomainRowModel,
    now: i64,
) -> bool {
    exists|j: int|
        0 <= j < items.len() && #[trigger] items[j].id == r.id && is_due(items[j], d, now)
}

proof fn lemma_purged_all(
    st: (StoreModel, int),
    items: Seq<KnowledgeItemModel>,
    d: DomainRowModel,
    run_id: Seq<char>,
    now: i64,
)
    requires
        distinct_ids(st.0.knowledge),
    ensures
        ({
            let t = purged_all(st, items, d, run_id, now);
            &&& t.0.knowledge == st.0.knowledge.filter(
                |r: KnowledgeItemModel| !hit(items, r, d, now),
            )
            &&& t.1 + t.0.knowledge.len() == st.1 + st.0.knowledge.len()
            &&& alike(st.0, t.0)
            &&& distinct_ids(t.0.knowledge)
        }),
    decreases items.len(),
{
    let all = |r: KnowledgeItemModel| !hit(items, r, d, now);
    let rows = st.0.knowledge;
    if items.len() == 0 {
        assert forall|i: int| 0 <= i < rows.len() implies all(#[trigger] rows[i]) by {
        }
        lemma_filter_none_dropped(rows, all);
    } else {
        let head = items.drop_last();
        let k = items.last();
        let u = purged_all(st, head, d, run_id, now);
        lemma_purged_all(st, head, d, run_id, now);
        lemma_purged(u, k, d, run_id, now);
        let before = |r: KnowledgeItemModel| !hit(head, r, d, now);
        let one = |r: KnowledgeItemModel| r.id != k.id;
        lemma_filter_filter(rows, before, one);
        assert forall|r: KnowledgeItemModel| #[trigger] hit(items, r, d, now) == (hit(
            head,
            r,
            d,
            now,
        ) || (k.id == r.id && is_due(k, d, now))) by {
            if hit(head, r, d, now) {
                let j = choose|j: int|
                    0 <= j < head.len() && #[trigger] head[j].id == r.id && is_due(head[j], d, now);
                assert(items[j] == head[j]);
            }
            if k.id == r.id && is_due(k, d, now) {
                assert(items[items.len() - 1] == k);
            }
            if hit(items, r, d, now) {
                let j = choose|j: int|
                    0 <= j < items.len() && #[trigger] items[j].id == r.id && is_due(
                        items[j],
                        d,
                        now,
                    );
                if j < head.len() {
                    assert(head[j] == items[j]);
                }
            }
        }
        if is_due(k, d, now) {
            lemma_filter_ext(rows, |r: KnowledgeItemModel| before(r) && one(r), all);
        } else {
            lemma_filter_ext(rows, before, all);
        }
    }
}

/// Whether the sweep of a domain removes an item.
spec fn falls(r: KnowledgeItemModel, d: DomainRowModel, now: i64) -> bool {
    !is_spared(d) && r.domain == d.name && is_due(r, d, now)
}

proof fn lemma_swept_domain(
    st: (StoreModel, int),
    d: DomainRowModel,
    run_id: Seq<char>,
    now: i64,
)
    requires
        distinct_ids(st.0.knowledge),
    ensures
        ({
            let t = swept_domain(st, d, run_id, now);
            &&& t.0.knowledge == st.0.knowledge.filter(|r: KnowledgeItemModel| !falls(r, d, now))
            &&& t.1 + t.0.knowledge.len() == st.1 + st.0.knowledge.len()
            &&& alike(st.0, t.0)
            &&& distinct_ids(t.0.knowledge)
        }),
{
    let rows = st.0.knowledge;
    let stays = |r: KnowledgeItemModel| !falls(r, d, now);
    if is_spared(d) {
        lemma_filter_none_dropped(rows, stays);
    } else {
        let own = |k: KnowledgeItemModel| k.domain == d.name;
        let items = rows.filter(own);
        lemma_purged_all(st, items, d, run_id, now);
        let unhit = |r: KnowledgeItemModel| !hit(items, r, d, now);
        assert forall|i: int| 0 <= i < rows.len() implies unhit(#[trigger] rows[i]) == stays(
            rows[i],
        ) by {
            let r = rows[i];
            lemma_positions(rows, own);
            if hit(items, r, d, now) {
                let j = choose|j: int|
                    0 <= j < items.len() && #[trigger] items[j].id == r.id && is_due(
                        items[j],
                        d,
                        now,
                    );
                let at = crate::table::positions(rows, own)[j];
                assert(items[j] == rows[at] && own(rows[at]));
                if at != i {
                    if at < i {
                        assert(rows[at].id != rows[i].id);
                    } else {
                        assert(rows[i].id != rows[at].id);
                    }
                }
            }
            if falls(r, d, now) {
                rows.lemma_filter_contains(own, i);
                let j = choose|j: int| 0 <= j < items.len() && items[j] == r;
                assert(items[j].id == r.id);
            }
        }
        lemma_filter_ext(rows, unhit, stays);
    }
}

/// Whether the sweep of one of some domains removes an item.
spec fn falls_in(r: KnowledgeItemModel, domains: Seq<DomainRowModel>, now: i64) -> bool {
    exists|j: int| 0 <= j < domains.len() && #[trigger] falls(r, domains[j], now)
}

proof fn lemma_swept_domains(
    st: (StoreModel, int),
    domains: Seq<DomainRowModel>,
    run_id: Seq<char>,
    now: i64,
)
    requires
        distinct_ids(st.0.knowledge),
    ensures
        ({
            let t = swept_domains(st, domains, run_id, now);
            &&& t.0.knowledge == st.0.knowledge.filter(
                |r: KnowledgeItemModel| !falls_in(r, domains, now),
            )
            &&& t.1 + t.0.knowledge.len() == st.1 + st.0.knowledge.len()
            &&& alike(st.0, t.0)
            &&& distinct_ids(t.0.knowledge)
        }),
    decreases domains.len(),
{
    let rows = st.0.knowledge;
    let all = |r: KnowledgeItemModel| !falls_in(r, domains, now);
    if domains.len() == 0 {
        assert forall|i: int| 0 <= i < rows.len() implies all(#[trigger] rows[i]) by {
        }
        lemma_filter_none_dropped(rows, all);
    } else {
        let head = domains.drop_last();
        let d = domains.last();
        lemma_swept_domains(st, head, run_id, now);
        lemma_swept_domain(swept_domains(st, head, run_id, now), d, run_id, now);
        let before = |r: KnowledgeItemModel| !falls_in(r, head, now);
        let one = |r: KnowledgeItemModel| !falls(r, d, now);
        lemma_filter_filter(rows, before, one);
        assert forall|i: int| 0 <= i < rows.len() implies (before(#[trigger] rows[i]) && one(
            rows[i],
        )) == all(rows[i]) by {
            let r = rows[i];
            if falls_in(r, head, now) {
                let j = choose|j: int| 0 <= j < head.len() && #[trigger] falls(r, head[j], now);
                assert(domains[j] == head[j]);
            }
            if falls(r, d, now) {
                assert(domains[domains.len() - 1] == d);
            }
            if falls_in(r, domains, now) {
                let j = choose|j: int|
                    0 <= j < domains.len() && #[trigger] falls(r, domains[j], now);
                if j < head.len() {
                    assert(head[j] == domains[j]);
                }
            }
        }
        lemma_filter_ext(rows, |r: KnowledgeItemModel| before(r) && one(r), all);
    }
}

/// A sweep removes the items whose time is over and no others, counts them, and leaves
/// everything but the knowledge and the log as it is.
pub proof fn sweep_removes_exactly_the_expired(s: StoreModel, run_id: Seq<char>, now: i64)
    requires
        distinct_ids(s.knowledge),
    ensures
        ({
            let t = swept(s, run_id, now);
            &&& t.0.knowledge == s.knowledge.filter(
                |k: KnowledgeItemModel| !is_expired(s, k, now),
            )
            &&& t.1 == s.knowledge.len() - t.0.knowledge.len()
            &&& alike(s, t.0)
        }),
{
    let rows = domain_list(s);
    lemma_swept_domains((s, 0), rows, run_id, now);
    let key = |d: DomainRecordModel| seq![d.name];
    let sorted = sorted_by(s.domains, key);
    lemma_sort_members(
        s.domains,
        |a: DomainRecordModel, b: DomainRecordModel| texts_le(key(a), key(b)),
    );
    let unfallen = |r: KnowledgeItemModel| !falls_in(r, rows, now);
    let fresh = |k: KnowledgeItemModel| !is_expired(s, k, now);
    assert forall|i: int| 0 <= i < s.knowledge.len() implies unfallen(#[trigger] s.knowledge[i])
        == fresh(s.knowledge[i]) by {
        let k = s.knowledge[i];
        if falls_in(k, rows, now) {
            let j = choose|j: int| 0 <= j < rows.len() && #[trigger] falls(k, rows[j], now);
            assert(rows[j] == domain_row(s, sorted[j]));
            assert(sorted.contains(sorted[j]));
            let m = choose|m: int| 0 <= m < s.domains.len() && s.domains[m] == sorted[j];
            assert(expires_in(s.domains[m], k, now));
        }
        if is_expired(s, k, now) {
            let m = choose|m: int|
                0 <= m < s.domains.len() && #[trigger] expires_in(s.domains[m], k, now);
            assert(s.domains.contains(s.domains[m]));
            assert(sorted.contains(s.domains[m]));
            let j = choose|j: int| 0 <= j < sorted.len() && sorted[j] == s.domains[m];
            assert(rows[j] == domain_row(s, sorted[j]));
            assert(falls(k, rows[j], now));
        }
    }
    lemma_filter_ext(s.knowledge, unfallen, fresh);
}

/// A retention of its own decides for an item, whatever its domain says.
pub proof fn item_retention_wins(
    k: KnowledgeItemModel,
    d: DomainRecordModel,
    days: i64,
    now: i64,
)
    requires
        k.retention_days == Some(days),
        d.name == k.domain,
        !(d.is_marketplace_template && d.retention_days is None),
    ensures
        expires_in(d, k, now) <==> now >= k.created_at + days * DAY_SECS,
{
}

/// Knowledge of a template domain without a retention of the domain's own never expires.
pub proof fn template_without_retention_is_spared(s: StoreModel, k: KnowledgeItemModel, now: i64)
    requires
        forall|i: int|
            0 <= i < s.domains.len() && (#[trigger] s.domains[i]).name == k.domain
                ==> s.domains[i].is_marketplace_template && s.domains[i].retention_days is None,
    ensures
        !is_expired(s, k, now),
{
}

/// Whether the log of `b` is that of `a` and a step of the sweep for each of `n` items.
pub open spec fn sweep_is_told(a: StoreModel, b: StoreModel, n: int, run_id: Seq<char>, now: i64) -> bool {
    &&& b.episodes.len() == a.episodes.len() + n
    &&& forall|i: int| 0 <= i < a.episodes.len() ==> #[trigger] b.episodes[i] == a.episodes[i]
    &&& forall|i: int|
        a.episodes.len() <= i < b.episodes.len() ==> is_sweep_step(
            #[trigger] b.episodes[i],
            run_id,
            now,
        )
}

/// Whether a step is that of a sweep.
pub open spec fn is_sweep_step(e: EpisodeRowModel, run_id: Seq<char>, now: i64) -> bool {
    e.run_id == run_id && e.stage == Some("retention_sweep"@) && e.ts == now
}

proof fn lemma_purged_told(
    st: (StoreModel, int),
    k: KnowledgeItemModel,
    d: DomainRowModel,
    run_id: Seq<char>,
    now: i64,
)
    ensures
        ({
            let t = purged(st, k, d, run_id, now);
            &&& t.1 >= st.1
            &&& next_episode_id(st.0) <= next_episode_id(t.0)
            &&& next_episode_id(t.0) <= i64::MAX ==> sweep_is_told(
                st.0,
                t.0,
                t.1 - st.1,
                run_id,
                now,
            )
        }),
{
    let t = purged(st, k, d, run_id, now);
    if is_due(k, d, now) && known(st.0, k.id) {
        let f = forgotten(st.0, k.id);
        assert(next_episode_id(f) == next_episode_id(st.0));
        if next_episode_id(f) <= i64::MAX {
            assert(t.0.episodes.drop_last() =~= st.0.episodes);
        }
    }
}

proof fn lemma_told_on(
    a: StoreModel,
    b: StoreModel,
    c: StoreModel,
    n: int,
    m: int,
    run_id: Seq<char>,
    now: i64,
)
    requires
        n >= 0,
        m >= 0,
        sweep_is_told(a, b, n, run_id, now),
        sweep_is_told(b, c, m, run_id, now),
    ensures
        sweep_is_told(a, c, n + m, run_id, now),
{
    assert forall|i: int| 0 <= i < a.episodes.len() implies #[trigger] c.episodes[i]
        == a.episodes[i] by {
        assert(c.episodes[i] == b.episodes[i]);
    }
    assert forall|i: int| a.episodes.len() <= i < c.episodes.len() implies is_sweep_step(
        #[trigger] c.episodes[i],
        run_id,
        now,
    ) by {
        if i < b.episodes.len() {
            assert(c.episodes[i] == b.episodes[i]);
        }
    }
}

proof fn lemma_purged_all_told(
    st: (StoreModel, int),
    items: Seq<KnowledgeItemModel>,
    d: DomainRowModel,
    run_id: Seq<char>,
    now: i64,
)
    ensures
        ({
            let t = purged_all(st, items, d, run_id, now);
            &&& t.1 >= st.1
            &&& next_episode_id(st.0) <= next_episode_id(t.0)
            &&& next_episode_id(t.0) <= i64::MAX ==> sweep_is_told(
                st.0,
                t.0,
                t.1 - st.1,
                run_id,
                now,
            )
        }),
    decreases items.len(),
{
    if items.len() > 0 {
        let m = purged_all(st, items.drop_last(), d, run_id, now);
        lemma_purged_all_told(st, items.drop_last(), d, run_id, now);
        lemma_purged_told(m, items.last(), d, run_id, now);
        let t = purged_all(st, items, d, run_id, now);
        if next_episode_id(t.0) <= i64::MAX {
            lemma_told_on(st.0, m.0, t.0, m.1 - st.1, t.1 - m.1, run_id, now);
        }
    }
}

proof fn lemma_swept_told(
    st: (StoreModel, int),
    domains: Seq<DomainRowModel>,
    run_id: Seq<char>,
    now: i64,
)
    ensures
        ({
            let t = swept_domains(st, domains, run_id, now);
            &&& t.1 >= st.1
            &&& next_episode_id(st.0) <= next_episode_id(t.0)
            &&& next_episode_id(t.0) <= i64::MAX ==> sweep_is_told(
                st.0,
                t.0,
                t.1 - st.1,
                run_id,
                now,
            )
        }),
    decreases domains.len(),
{
    if domains.len() > 0 {
        let m = swept_domains(st, domains.drop_last(), run_id, now);
        let d = domains.last();
        lemma_swept_told(st, domains.drop_last(), run_id, now);
        if !is_spared(d) {
            lemma_purged_all_told(
                m,
                m.0.knowledge.filter(|k: KnowledgeItemModel| k.domain == d.name),
                d,
                run_id,
                now,
            );
            let t = swept_domains(st, domains, run_id, now);
            if next_episode_id(t.0) <= i64::MAX {
                lemma_told_on(st.0, m.0, t.0, m.1 - st.1, t.1 - m.1, run_id, now);
            }
        }
    }
}

/// Every removal is told in the log, where the log has room: a sweep adds as many steps as
/// it removes items, and leaves the steps before them as they are.
pub proof fn purges_are_logged(s: StoreModel, run_id: Seq<char>, now: i64)
    ensures
        ({
            let t = swept(s, run_id, now);
            next_episode_id(t.0) <= i64::MAX ==> sweep_is_told(s, t.0, t.1, run_id, now)
        }),
{
    lemma_swept_told((s, 0), domain_list(s), run_id, now);
}

} // verus!
