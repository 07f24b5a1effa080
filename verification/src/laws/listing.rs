//! What a listing of rows comes to.
use vstd::prelude::*;

use crate::order::{lemma_sort_in_order, lemma_sort_members, pair_desc, stable_sort};
use crate::session::{journal_list, replayed};
use crate::store::{fresh_id, fresh_id_is_fresh, StoreModel, SubmissionRecordModel};
use crate::store::domains::submission_list;
use crate::store::episodes::episode_list;
use crate::table::{count_of, listed, top};
use crate::types::{EpisodeRowModel, JournalRowModel};

verus! {

/// Whether `shown` lists the rows of `s` that meet `p`, those of the larger key first, and
/// leaves out none unless `n` are shown.
pub open spec fn lists<V>(
    shown: Seq<V>,
    s: Seq<V>,
    p: spec_fn(V) -> bool,
    key: spec_fn(V) -> int,
    n: int,
) -> bool {
    &&& shown.len() <= n
    &&& forall|i: int| 0 <= i < shown.len() ==> s.contains(#[trigger] shown[i]) && p(shown[i])
    &&& forall|i: int, j: int|
        0 <= i < j < shown.len() ==> key(#[trigger] shown[i]) >= key(#[trigger] shown[j])
    &&& forall|x: V| #[trigger]
        s.contains(x) && p(x) && !shown.contains(x) ==> shown.len() == n && forall|i: int|
            0 <= i < shown.len() ==> key(#[trigger] shown[i]) >= key(x)
}

/// A listing by a key lists the rows that are asked for.
pub proof fn lemma_lists<V>(
    s: Seq<V>,
    p: spec_fn(V) -> bool,
    rank: spec_fn(V) -> (i64, i64),
    key: spec_fn(V) -> int,
    n: int,
)
    requires
        n >= 0,
        forall|x: V| #[trigger] rank(x).0 == key(x),
    ensures
        lists(top(listed(s, p, rank), n), s, p, key, n),
        top(listed(s, p, rank), n).len() == if s.filter(p).len() < n {
            s.filter(p).len() as int
        } else {
            n
        },
{
    broadcast use vstd::seq_lib::group_filter_ensures;

    let le = |a: V, b: V| pair_desc(rank(a), rank(b));
    let f = s.filter(p);
    let all = listed(s, p, rank);
    let shown = top(all, n);
    lemma_sort_members(f, le);
    lemma_sort_in_order(f, le);
    assert(all == stable_sort(f, le));
    assert forall|i: int| 0 <= i < shown.len() implies s.contains(#[trigger] shown[i]) && p(
        shown[i],
    ) by {
        assert(all.contains(all[i]));
        s.lemma_filter_contains_rev(p, all[i]);
        let m = f.index_of(all[i]);
        assert(p(f[m]));
    }
    assert forall|i: int, j: int| 0 <= i < j < all.len() implies key(#[trigger] all[i]) >= key(
        #[trigger] all[j],
    ) by {
        assert(le(all[i], all[j]));
        assert(rank(all[i]).0 == key(all[i]) && rank(all[j]).0 == key(all[j]));
    }
    assert forall|x: V| #[trigger] s.contains(x) && p(x) && !shown.contains(x) implies shown.len()
        == n && forall|i: int| 0 <= i < shown.len() ==> key(#[trigger] shown[i]) >= key(x) by {
        let m = s.index_of(x);
        assert(p(s[m]));
        assert(f.contains(s[m]));
        assert(all.contains(x));
        let at = all.index_of(x);
        if at < shown.len() {
            assert(shown[at] == x);
        }
        assert forall|i: int| 0 <= i < shown.len() implies key(#[trigger] shown[i]) >= key(x) by {
            assert(key(all[i]) >= key(all[at]));
        }
    }
}

/// The next number of a table is one past the largest, and one where there is none.
pub proof fn numbers_follow_the_largest<V>(s: Seq<V>, id: spec_fn(V) -> i64)
    ensures
        s.len() == 0 ==> fresh_id(s, id) == 1,
        s.len() > 0 ==> exists|i: int| 0 <= i < s.len() && id(#[trigger] s[i]) + 1 == fresh_id(s, id),
        forall|i: int| 0 <= i < s.len() ==> id(#[trigger] s[i]) < fresh_id(s, id),
    decreases s.len(),
{
    fresh_id_is_fresh(s, id);
    if s.len() > 0 {
        let n = s.len() - 1;
        let head = s.drop_last();
        numbers_follow_the_largest(head, id);
        if fresh_id(s, id) == id(s.last()) + 1 {
            assert(id(s[n]) + 1 == fresh_id(s, id));
        } else {
            let i = choose|i: int|
                0 <= i < head.len() && id(#[trigger] head[i]) + 1 == fresh_id(head, id);
            assert(s[i] == head[i]);
        }
    }
}

/// A count is the number itself, as far as it goes.
pub proof fn counts_are_numbers(n: nat)
    ensures
        n <= i64::MAX ==> count_of(n as int) == n,
        n > i64::MAX ==> count_of(n as int) == i64::MAX,
{
}

/// A listing goes by both of its keys: rows that are equal in the first go by the second.
pub proof fn lemma_ties<V>(s: Seq<V>, p: spec_fn(V) -> bool, rank: spec_fn(V) -> (i64, i64), n: int)
    requires
        n >= 0,
    ensures
        forall|i: int, j: int|
            0 <= i < j < top(listed(s, p, rank), n).len() ==> {
                let a = rank(#[trigger] top(listed(s, p, rank), n)[i]);
                let b = rank(#[trigger] top(listed(s, p, rank), n)[j]);
                a.0 > b.0 || (a.0 == b.0 && a.1 >= b.1)
            },
{
    let le = |a: V, b: V| pair_desc(rank(a), rank(b));
    let all = listed(s, p, rank);
    lemma_sort_in_order(s.filter(p), le);
    assert(all == stable_sort(s.filter(p), le));
    let shown = top(all, n);
    assert forall|i: int, j: int| 0 <= i < j < shown.len() implies {
        let a = rank(#[trigger] shown[i]);
        let b = rank(#[trigger] shown[j]);
        a.0 > b.0 || (a.0 == b.0 && a.1 >= b.1)
    } by {
        assert(le(all[i], all[j]));
    }
}

/// Entries and steps of one second are listed by their number, the later first; so are
/// submissions.
pub proof fn ties_are_listed_by_number(
    journal: Seq<JournalRowModel>,
    repo: Seq<char>,
    kind: Option<Seq<char>>,
    limit: nat,
    only: bool,
    s: StoreModel,
    run: Option<Seq<char>>,
    i: int,
    j: int,
)
    requires
        0 <= i < j,
    ensures
        ({
            let r = replayed(journal, repo, kind, limit as int, only);
            j < r.len() && r[i].ts == r[j].ts ==> r[i].id >= r[j].id
        }),
        ({
            let r = journal_list(journal, Some(repo));
            j < r.len() && r[i].ts == r[j].ts ==> r[i].id >= r[j].id
        }),
        ({
            let r = episode_list(s, run);
            j < r.len() && r[i].ts == r[j].ts ==> r[i].step >= r[j].step
        }),
        ({
            let r = submission_list(s, kind);
            j < r.len() && r[i].submitted_at == r[j].submitted_at ==> r[i].id >= r[j].id
        }),
{
    let by_id = |r: JournalRowModel| (r.ts, r.id);
    lemma_ties(
        journal,
        |r: JournalRowModel| crate::session::is_asked_for(r, repo, kind, only),
        by_id,
        limit as int,
    );
    lemma_ties(
        journal,
        |r: JournalRowModel| crate::session::is_entry_of(r, Some(repo)),
        by_id,
        300,
    );
    lemma_ties(
        s.episodes,
        |e: EpisodeRowModel| crate::store::episodes::is_of_run(e, run),
        |e: EpisodeRowModel| (e.ts, e.step),
        200,
    );
    lemma_ties(
        s.submissions,
        |r: SubmissionRecordModel| crate::store::domains::has_status(r, kind),
        |r: SubmissionRecordModel| (r.submitted_at, r.id),
        200,
    );
}

} // verus!
