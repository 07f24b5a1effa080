//! Session memory: a journal by repository of what was done, what failed and what must
//! not be repeated.
use vstd::prelude::*;

use crate::order::{lemma_sort_in_order, lemma_sort_members, pair_desc, stable_sort};
use crate::redact::{redact, redacted};
use crate::store::{fresh_id, next_id};
use crate::store::retention::DAY_SECS;
use crate::table::{list, listed, map_at, retain, top};
use crate::text::{opt_str, same};
use crate::types::{lemma_models_push, models, JournalRow, JournalRowModel};

verus! {

/// The journals of all repositories.
#[derive(Debug)]
pub struct SessionStore {
    pub journal: Vec<JournalRow>,
}

impl View for SessionStore {
    type V = Seq<JournalRowModel>;

    open spec fn view(&self) -> Seq<JournalRowModel> {
        models(self.journal@)
    }
}

/// The number that the next entry gets.
pub open spec fn next_entry_id(s: Seq<JournalRowModel>) -> int {
    fresh_id(s, |r: JournalRowModel| r.id)
}

/// An entry as it is stored: personal data is taken out of its texts.
pub open spec fn entry_of(
    id: int,
    repo: Seq<char>,
    kind: Seq<char>,
    title: Seq<char>,
    body: Option<Seq<char>>,
    now: i64,
    is_checkpoint: bool,
) -> JournalRowModel {
    JournalRowModel {
        id: id as i64,
        repo,
        kind,
        title: redacted(title),
        body: match body {
            Some(b) => Some(redacted(b)),
            None => None,
        },
        ts: now,
        is_checkpoint,
    }
}

/// Whether an entry is one that is asked for.
pub open spec fn is_asked_for(
    r: JournalRowModel,
    repo: Seq<char>,
    kind: Option<Seq<char>>,
    checkpoints_only: bool,
) -> bool {
    &&& r.repo == repo
    &&& (match kind {
        Some(k) => r.kind == k,
        None => true,
    })
    &&& (checkpoints_only ==> r.is_checkpoint)
}

/// What is replayed of the journal of a repository: the newest entries first.
pub open spec fn replayed(
    s: Seq<JournalRowModel>,
    repo: Seq<char>,
    kind: Option<Seq<char>>,
    limit: int,
    checkpoints_only: bool,
) -> Seq<JournalRowModel> {
    top(
        listed(
            s,
            |r: JournalRowModel| is_asked_for(r, repo, kind, checkpoints_only),
            |r: JournalRowModel| (r.ts, r.id),
        ),
        limit,
    )
}

/// Whether an entry belongs to a repository, where one is given.
pub open spec fn is_entry_of(r: JournalRowModel, repo: Option<Seq<char>>) -> bool {
    match repo {
        Some(p) => r.repo == p,
        None => true,
    }
}

/// The entries of one repository or of all, the newest first, three hundred at most.
pub open spec fn journal_list(s: Seq<JournalRowModel>, repo: Option<Seq<char>>) -> Seq<
    JournalRowModel,
> {
    top(
        listed(
            s,
            |r: JournalRowModel| is_entry_of(r, repo),
            |r: JournalRowModel| (r.ts, r.id),
        ),
        300,
    )
}

/// Whether an entry was kept for its time.
pub open spec fn is_outdated(r: JournalRowModel, days: i64, now: i64) -> bool {
    now >= r.ts + days * DAY_SECS
}

impl SessionStore {
    /// A store without an entry.
    pub fn new() -> (r: Self)
        ensures
            r@ == Seq::<JournalRowModel>::empty(),
    {
        let r: SessionStore = SessionStore { journal: Vec::new() };
        assert(r@ =~= Seq::<JournalRowModel>::empty());
        r
    }

    /// Writes an entry into the journal of a repository. Personal data is always taken
    /// out. Gives its number; `None`, and nothing written, where no number is left.
    pub fn log_work(
        &mut self,
        repo: &str,
        kind: &str,
        title: &str,
        body: Option<&str>,
        is_checkpoint: bool,
        now: i64,
    ) -> (r: Option<i64>)
        ensures
            match r {
                Some(id) => id == next_entry_id(old(self)@) && final(self)@ == old(self)@.push(
                    entry_of(
                        id as int,
                        repo@,
                        kind@,
                        title@,
                        opt_str(body),
                        now,
                        is_checkpoint,
                    ),
                ),
                None => next_entry_id(old(self)@) > i64::MAX && final(self)@ == old(self)@,
            },
    {
        broadcast use lemma_models_push;

        let number_of = |r: &JournalRow| -> (n: i64)
            ensures
                n == r@.id,
            { r.id };
        let id: i64 = match next_id(&self.journal, number_of, Ghost(|r: JournalRowModel| r.id)) {
            Some(n) => n,
            None => {
                return None;
            },
        };
        let row: JournalRow = JournalRow {
            id,
            repo: repo.to_owned(),
            kind: kind.to_owned(),
            title: redact(title),
            body: match body {
                Some(b) => Some(redact(b)),
                None => None,
            },
            ts: now,
            is_checkpoint,
        };
        assert(row@ =~= entry_of(
            id as int,
            repo@,
            kind@,
            title@,
            opt_str(body),
            now,
            is_checkpoint,
        ));
        self.journal.push(row);
        Some(id)
    }

    /// Replays the journal of a repository, the newest entries first, `limit` of them at
    /// most: of one kind, or checkpoints only, where that is asked for.
    pub fn recall_session(
        &self,
        repo: &str,
        kind: Option<&str>,
        limit: usize,
        checkpoints_only: bool,
    ) -> (r: Vec<JournalRow>)
        ensures
            models(r@) == replayed(self@, repo@, opt_str(kind), limit as int, checkpoints_only),
    {
        let keep = |r: &JournalRow| -> (b: bool)
            ensures
                b == is_asked_for(r@, repo@, opt_str(kind), checkpoints_only),
            {
                same(r.repo.as_str(), repo) && (match kind {
                    Some(k) => same(r.kind.as_str(), k),
                    None => true,
                }) && (!checkpoints_only || r.is_checkpoint)
            };
        let key = |r: &JournalRow| -> (k: (i64, i64))
            ensures
                k == (r@.ts, r@.id),
            { (r.ts, r.id) };
        let at: Vec<usize> = list(
            &self.journal,
            keep,
            key,
            limit,
            Ghost(
                |r: JournalRowModel| is_asked_for(r, repo@, opt_str(kind), checkpoints_only),
            ),
            Ghost(|r: JournalRowModel| (r.ts, r.id)),
        );
        self.rows_at(&at)
    }

    fn rows_at(&self, at: &Vec<usize>) -> (r: Vec<JournalRow>)
        requires
            forall|i: int| 0 <= i < at@.len() ==> #[trigger] at@[i] < self.journal@.len(),
        ensures
            models(r@) == crate::order::picked(self@, crate::order::ints(at@)),
    {
        let copy = |r: &JournalRow| -> (q: JournalRow)
            ensures
                q@ == r@,
            { r.clone() };
        let r: Vec<JournalRow> = map_at(&self.journal, at, copy, Ghost(|r: JournalRowModel| r));
        assert(models(r@) =~= crate::order::picked(self@, crate::order::ints(at@)));
        r
    }

    /// Lists the entries of one repository or of all, the newest first, three hundred at
    /// most.
    pub fn list_journal(&self, repo: Option<&str>) -> (r: Vec<JournalRow>)
        ensures
            models(r@) == journal_list(self@, opt_str(repo)),
    {
        let keep = |r: &JournalRow| -> (b: bool)
            ensures
                b == is_entry_of(r@, opt_str(repo)),
            {
                match repo {
                    Some(p) => same(r.repo.as_str(), p),
                    None => true,
                }
            };
        let key = |r: &JournalRow| -> (k: (i64, i64))
            ensures
                k == (r@.ts, r@.id),
            { (r.ts, r.id) };
        let at: Vec<usize> = list(
            &self.journal,
            keep,
            key,
            300,
            Ghost(|r: JournalRowModel| is_entry_of(r, opt_str(repo))),
            Ghost(|r: JournalRowModel| (r.ts, r.id)),
        );
        self.rows_at(&at)
    }

    /// Clears the journal of one repository or of all, and says how many entries it held.
    pub fn clear_journal(&mut self, repo: Option<&str>) -> (r: usize)
        ensures
            final(self)@ == old(self)@.filter(|e: JournalRowModel| !is_entry_of(e, opt_str(repo))),
            r == old(self)@.len() - final(self)@.len(),
    {
        let keep = |e: &JournalRow| -> (b: bool)
            ensures
                b == !is_entry_of(e@, opt_str(repo)),
            {
                match repo {
                    Some(p) => !same(e.repo.as_str(), p),
                    None => false,
                }
            };
        retain(
            &mut self.journal,
            keep,
            Ghost(|e: JournalRowModel| !is_entry_of(e, opt_str(repo))),
        )
    }

    /// Removes the entries that were kept for `days`, and says how many they were.
    pub fn purge_older_than(&mut self, days: i64, now: i64) -> (r: usize)
        ensures
            final(self)@ == old(self)@.filter(|e: JournalRowModel| !is_outdated(e, days, now)),
            r == old(self)@.len() - final(self)@.len(),
    {
        let span: i128 = days as i128 * 86400;
        let keep = |e: &JournalRow| -> (b: bool)
            ensures
                b == !is_outdated(e@, days, now),
            {
                assert(span == days * DAY_SECS) by {
                    assert(DAY_SECS == 86400);
                }
                (now as i128) < e.ts as i128 + span
            };
        retain(
            &mut self.journal,
            keep,
            Ghost(|e: JournalRowModel| !is_outdated(e, days, now)),
        )
    }
}

/// An entry that was written is replayed, where enough entries are asked for.
pub proof fn written_work_is_replayed(s: Seq<JournalRowModel>, e: JournalRowModel, limit: int)
    requires
        limit > s.len(),
    ensures
        replayed(s.push(e), e.repo, None, limit, false).contains(e),
        replayed(s.push(e), e.repo, Some(e.kind), limit, false).contains(e),
        e.is_checkpoint ==> replayed(s.push(e), e.repo, None, limit, true).contains(e),
{
    lemma_replayed(s, e, None, limit, false);
    lemma_replayed(s, e, Some(e.kind), limit, false);
    if e.is_checkpoint {
        lemma_replayed(s, e, None, limit, true);
    }
}

proof fn lemma_replayed(
    s: Seq<JournalRowModel>,
    e: JournalRowModel,
    kind: Option<Seq<char>>,
    limit: int,
    checkpoints_only: bool,
)
    requires
        limit > s.len(),
        is_asked_for(e, e.repo, kind, checkpoints_only),
    ensures
        replayed(s.push(e), e.repo, kind, limit, checkpoints_only).contains(e),
{
    reveal(Seq::filter);
    let p = |r: JournalRowModel| is_asked_for(r, e.repo, kind, checkpoints_only);
    let key = |r: JournalRowModel| (r.ts, r.id);
    let all = s.push(e);
    assert(all.drop_last() =~= s);
    let f = all.filter(p);
    assert(f == s.filter(p).push(e));
    assert(f[f.len() - 1] == e);
    assert(f.contains(e));
    all.lemma_filter_len(p);
    lemma_sort_members(f, |a: JournalRowModel, b: JournalRowModel| pair_desc(key(a), key(b)));
    assert(listed(all, p, key).contains(e));
}

/// What is replayed of a repository belongs to it, and is no more than what was asked
/// for.
pub proof fn replay_keeps_to_the_repository(
    s: Seq<JournalRowModel>,
    repo: Seq<char>,
    kind: Option<Seq<char>>,
    limit: int,
    checkpoints_only: bool,
)
    requires
        limit >= 0,
    ensures
        replayed(s, repo, kind, limit, checkpoints_only).len() <= limit,
        forall|i: int|
            0 <= i < replayed(s, repo, kind, limit, checkpoints_only).len() ==> (
            #[trigger] replayed(s, repo, kind, limit, checkpoints_only)[i]).repo == repo,
{
    broadcast use vstd::seq_lib::group_filter_ensures;

    let p = |r: JournalRowModel| is_asked_for(r, repo, kind, checkpoints_only);
    let key = |r: JournalRowModel| (r.ts, r.id);
    let f = s.filter(p);
    let all = listed(s, p, key);
    let out = replayed(s, repo, kind, limit, checkpoints_only);
    lemma_sort_members(f, |a: JournalRowModel, b: JournalRowModel| pair_desc(key(a), key(b)));
    assert forall|i: int| 0 <= i < out.len() implies (#[trigger] out[i]).repo == repo by {
        assert(out[i] == all[i]);
        assert(all.contains(all[i]));
        assert(f.contains(all[i]));
        let k = choose|k: int| 0 <= k < f.len() && f[k] == all[i];
        assert(p(f[k]));
    }
}

/// A replay gives the newest entries first, and as many as are asked for at most.
pub proof fn replay_is_newest_first(
    s: Seq<JournalRowModel>,
    repo: Seq<char>,
    kind: Option<Seq<char>>,
    limit: nat,
    checkpoints_only: bool,
)
    ensures
        ({
            let r = replayed(s, repo, kind, limit as int, checkpoints_only);
            &&& r.len() <= limit
            &&& forall|i: int, j: int|
                0 <= i < j < r.len() ==> (#[trigger] r[i]).ts >= (#[trigger] r[j]).ts
        }),
{
    let asked = s.filter(|e: JournalRowModel| is_asked_for(e, repo, kind, checkpoints_only));
    let key = |e: JournalRowModel| (e.ts, e.id);
    let le = |a: JournalRowModel, b: JournalRowModel| pair_desc(key(a), key(b));
    lemma_sort_in_order(asked, le);
    let sorted = stable_sort(asked, le);
    let r = replayed(s, repo, kind, limit as int, checkpoints_only);
    assert(r =~= top(sorted, limit as int));
    assert forall|i: int, j: int| 0 <= i < j < r.len() implies (#[trigger] r[i]).ts >= (
    #[trigger] r[j]).ts by {
        assert(le(sorted[i], sorted[j]));
    }
}

} // verus!
