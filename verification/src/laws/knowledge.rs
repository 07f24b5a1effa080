//! What becomes of knowledge: how it is stored, contested, promoted, listed and kept.
use vstd::prelude::*;

use crate::laws::listing::{lemma_lists, lists};
use crate::order::{lemma_sort_in_order, lemma_sort_members, pair_desc};
use crate::redact::redacted;
use crate::store::{fresh_id, fresh_id_is_fresh, Conflict, DomainRecordModel, KnowledgeItemModel};
use crate::store::StoreModel;
use crate::store::episodes::{episode_list, is_of_run, logged, next_step, StepNote};
use crate::store::knowledge::{at_odds, conflict_list, contradicts, inserted, is_contested};
use crate::store::knowledge::{is_wanted, item_of, knowledge_list, next_knowledge_id, promoted_item};
use crate::store::knowledge::{resolved, rival, row_of, user_fact, Draft};
use crate::store::lifecycle::lemma_inserted;
use crate::store::media::{is_media_of, media_list};
use crate::store::retention::{expires_in, is_due, is_spared, purge_note};
use crate::store::sources::{is_source_of, source_list};
use crate::table::{first_match, listed, top};
use crate::text::{decimal, lower};
use crate::types::{DomainRowModel, EpisodeRowModel, Kind, MediaRowModel, SourceRowModel, Trust};

verus! {

/// What is stored says what was proposed: redacted, unless the domain is registered and
/// set not to redact. It is numbered apart from all others, in force only where its author
/// is the user, and of the time it was stored at.
pub proof fn what_is_stored_is_what_was_said(s: StoreModel, d: Draft, now: i64)
    requires
        next_knowledge_id(s) <= i64::MAX,
    ensures
        ({
            let t = inserted(s, d, now);
            let new = t.knowledge.last();
            let off = exists|i: int|
                0 <= i < s.domains.len() && (#[trigger] s.domains[i]).name == d.domain
                    && !s.domains[i].redact_enabled && forall|j: int|
                    0 <= j < i ==> (#[trigger] s.domains[j]).name != d.domain;
            &&& t.knowledge.len() == s.knowledge.len() + 1
            &&& forall|i: int| 0 <= i < s.knowledge.len() ==> (#[trigger] s.knowledge[i]).id < new.id
            &&& new.domain == d.domain && new.kind == d.kind && new.trust == d.trust && new.stage
                == d.stage && new.trigger == d.trigger && new.severity == d.severity
                && new.remediation == d.remediation && new.source_id == d.source_id
            &&& new.created_at == now && new.updated_at == now && new.retention_days is None
            &&& off ==> new.title == d.title && new.body == d.body
            &&& !off ==> new.title == redacted(d.title) && new.body == redacted(d.body)
            &&& t.domains == s.domains && t.sources == s.sources && t.chunks == s.chunks
                && t.episodes == s.episodes
        }),
{
    let g = lemma_inserted(s, d, now);
    let x = item_of(s, d, now);
    fresh_id_is_fresh(s.knowledge, |k: KnowledgeItemModel| k.id);
    let rows = s.knowledge.push(x);
    let t = inserted(s, d, now);
    assert(t.knowledge.last() == match rival(rows, x) {
        Some(prior) => at_odds(x, prior, x.id, now),
        None => x,
    }) by {
        assert(rows[s.knowledge.len() as int] == x);
    }
    let own = |r: DomainRecordModel| r.name == d.domain;
    lemma_first_place(s.domains, d.domain);
}

proof fn lemma_first_place(rows: Seq<DomainRecordModel>, name: Seq<char>)
    ensures
        match first_match(rows, |d: DomainRecordModel| d.name == name) {
            Some(d) => exists|i: int|
                0 <= i < rows.len() && #[trigger] rows[i] == d && d.name == name && forall|j: int|
                    0 <= j < i ==> (#[trigger] rows[j]).name != name,
            None => forall|j: int| 0 <= j < rows.len() ==> (#[trigger] rows[j]).name != name,
        },
    decreases rows.len(),
{
    let p = |d: DomainRecordModel| d.name == name;
    if rows.len() > 0 && rows[0].name != name {
        let rest = rows.skip(1);
        lemma_first_place(rest, name);
        match first_match(rest, p) {
            Some(d) => {
                let i = choose|i: int|
                    0 <= i < rest.len() && #[trigger] rest[i] == d && d.name == name && forall|j: int|
                        0 <= j < i ==> (#[trigger] rest[j]).name != name;
                assert forall|j: int| 0 <= j < i + 1 implies (#[trigger] rows[j]).name != name by {
                    if j > 0 {
                        assert(rest[j - 1] == rows[j]);
                    }
                }
                assert(rows[i + 1] == d);
            },
            None => {
                assert forall|j: int| 0 <= j < rows.len() implies (#[trigger] rows[j]).name != name by {
                    if j > 0 {
                        assert(rest[j - 1] == rows[j]);
                    }
                }
            },
        }
    } else if rows.len() > 0 {
        assert(rows[0].name == name);
    }
}

/// A new item is contested where the domain has an item in force of the same title,
/// capitals aside, that says something else, and only there. It names the one of these that
/// was changed last.
pub proof fn contradictions_are_found(s: StoreModel, d: Draft, now: i64)
    requires
        next_knowledge_id(s) <= i64::MAX,
    ensures
        ({
            let x = item_of(s, d, now);
            let new = inserted(s, d, now).knowledge.last();
            let against = |r: KnowledgeItemModel|
                r.domain == d.domain && lower(r.title) == lower(x.title) && (r.trust
                    == Trust::Reviewed || r.trust == Trust::User) && r.body != x.body;
            &&& new.conflict_with_id is Some <==> exists|i: int|
                0 <= i < s.knowledge.len() && against(#[trigger] s.knowledge[i])
            &&& new.conflict_status == if new.conflict_with_id is Some {
                Some(Conflict::Open)
            } else {
                None
            }
            &&& new.conflict_with_id matches Some(n) ==> exists|i: int|
                0 <= i < s.knowledge.len() && (#[trigger] s.knowledge[i]).id == n && against(
                    s.knowledge[i],
                ) && forall|j: int|
                    0 <= j < s.knowledge.len() && against(#[trigger] s.knowledge[j])
                        ==> s.knowledge[j].updated_at <= s.knowledge[i].updated_at
        }),
{
    broadcast use vstd::seq_lib::group_filter_ensures;

    let x = item_of(s, d, now);
    let rows = s.knowledge.push(x);
    let n = s.knowledge.len() as int;
    let t = inserted(s, d, now);
    fresh_id_is_fresh(s.knowledge, |k: KnowledgeItemModel| k.id);
    let p = |r: KnowledgeItemModel| contradicts(r, x);
    let against = |r: KnowledgeItemModel|
        r.domain == d.domain && lower(r.title) == lower(x.title) && (r.trust == Trust::Reviewed
            || r.trust == Trust::User) && r.body != x.body;
    let key = |r: KnowledgeItemModel| (r.updated_at, 0i64);
    let le = |a: KnowledgeItemModel, b: KnowledgeItemModel| pair_desc(key(a), key(b));
    let f = rows.filter(p);
    let found = listed(rows, p, key);
    lemma_sort_members(f, le);
    lemma_sort_in_order(f, le);
    assert(rows[n] == x);
    assert forall|i: int| 0 <= i < n implies p(#[trigger] s.knowledge[i]) == against(
        s.knowledge[i],
    ) by {
        assert(s.knowledge[i].id < x.id);
    }
    if found.len() > 0 {
        let a = found[0];
        assert(found.contains(a));
        rows.lemma_filter_contains_rev(p, a);
        assert(p(f[f.index_of(a)]));
        let i = rows.index_of(a);
        assert(i < n);
        assert(s.knowledge[i] == a && against(s.knowledge[i]));
        assert forall|j: int| 0 <= j < n && against(#[trigger] s.knowledge[j]) implies s.knowledge[j].updated_at
            <= a.updated_at by {
            assert(p(rows[j]));
            assert(f.contains(rows[j]));
            assert(found.contains(rows[j]));
            let m = found.index_of(rows[j]);
            if m > 0 {
                assert(le(found[0], found[m]));
            }
        }
        assert(t.knowledge[n] == at_odds(x, a.id, x.id, now));
    } else {
        assert(t.knowledge[n] == x);
        assert forall|i: int| 0 <= i < n implies !against(#[trigger] s.knowledge[i]) by {
            if against(s.knowledge[i]) {
                assert(p(rows[i]));
                assert(f.contains(rows[i]));
            }
        }
    }
    assert(t.knowledge.last() == t.knowledge[n]);
}

/// A promotion puts a proposal in force, and changes nothing but it.
pub proof fn only_proposals_are_promoted(k: KnowledgeItemModel, id: i64, now: i64)
    ensures
        k.id == id && k.trust == Trust::Proposed ==> promoted_item(k, id, now) == (
        KnowledgeItemModel { trust: Trust::Reviewed, updated_at: now, ..k }),
        k.id != id || k.trust != Trust::Proposed ==> promoted_item(k, id, now) == k,
{
}

/// What the user states is a fact of the user, in these words.
pub proof fn what_the_user_states_is_a_fact(domain: Seq<char>, statement: Seq<char>)
    ensures
        ({
            let d = user_fact(domain, statement);
            &&& d.kind == Kind::Fact && d.trust == Trust::User && d.domain == domain
            &&& d.title == statement && d.body == statement && d.source_id is None
        }),
{
}

/// The knowledge of a domain is listed the latest first, a hundred items at most, of the
/// tier and the kind that are asked for, and none is left out for less.
pub proof fn the_latest_knowledge_is_listed(
    s: StoreModel,
    domain: Seq<char>,
    trust: Option<Seq<char>>,
    kind: Option<Kind>,
)
    ensures
        ({
            let rows = knowledge_list(s, domain, trust, kind);
            &&& rows.len() <= 100
            &&& forall|i: int|
                0 <= i < rows.len() ==> {
                    let r = #[trigger] rows[i];
                    &&& r.domain == domain
                    &&& trust matches Some(t) ==> r.trust == t
                    &&& kind matches Some(k) ==> r.kind == match k {
                        Kind::Fact => "fact"@,
                        Kind::Rule => "rule"@,
                        Kind::Procedure => "procedure"@,
                    }
                }
            &&& forall|i: int, j: int|
                0 <= i < j < rows.len() ==> (#[trigger] rows[i]).updated_at >= (
                #[trigger] rows[j]).updated_at
            &&& forall|k: KnowledgeItemModel| #[trigger]
                s.knowledge.contains(k) && k.domain == domain && (trust matches Some(t)
                    ==> crate::types::trust_name(k.trust) == t) && (kind matches Some(x) ==> k.kind
                    == x) ==> rows.contains(row_of(k)) || (rows.len() == 100 && forall|i: int|
                    0 <= i < rows.len() ==> (#[trigger] rows[i]).updated_at >= k.updated_at)
        }),
{
    let p = |r: KnowledgeItemModel| is_wanted(r, domain, trust, kind);
    let by_time = |r: KnowledgeItemModel| (r.updated_at, 0i64);
    let key = |r: KnowledgeItemModel| r.updated_at as int;
    lemma_lists(s.knowledge, p, by_time, key, 100);
    let items = top(listed(s.knowledge, p, by_time), 100);
    let rows = knowledge_list(s, domain, trust, kind);
    assert forall|i: int| 0 <= i < rows.len() implies #[trigger] rows[i] == row_of(items[i]) && p(
        items[i],
    ) by {}
    assert forall|i: int, j: int| 0 <= i < j < rows.len() implies (#[trigger] rows[i]).updated_at
        >= (#[trigger] rows[j]).updated_at by {
        assert(key(items[i]) >= key(items[j]));
    }
    assert forall|k: KnowledgeItemModel| #[trigger]
        s.knowledge.contains(k) && k.domain == domain && (trust matches Some(t)
            ==> crate::types::trust_name(k.trust) == t) && (kind matches Some(x) ==> k.kind == x) implies rows.contains(
    row_of(k)) || (rows.len() == 100 && forall|i: int|
        0 <= i < rows.len() ==> (#[trigger] rows[i]).updated_at >= k.updated_at) by {
        assert(p(k));
        if items.contains(k) {
            assert(rows[items.index_of(k)] == row_of(k));
        } else {
            assert forall|i: int| 0 <= i < rows.len() implies (#[trigger] rows[i]).updated_at
                >= k.updated_at by {
                assert(key(items[i]) >= key(k));
            }
        }
    }
}

/// A row of a listing shows its item: its texts, its numbers, and its tier and kind by
/// their names.
pub proof fn rows_show_their_item(k: KnowledgeItemModel)
    ensures
        ({
            let r = row_of(k);
            &&& r.id == k.id && r.domain == k.domain && r.title == k.title && r.body == k.body
            &&& r.stage == k.stage && r.severity == k.severity && r.created_at == k.created_at
                && r.updated_at == k.updated_at && r.retention_days == k.retention_days
                && r.conflict_with_id == k.conflict_with_id
            &&& r.enforceable <==> r.trust == "reviewed"@ || r.trust == "user"@
            &&& match k.trust {
                Trust::User => r.trust == "user"@ && r.enforceable,
                Trust::Reviewed => r.trust == "reviewed"@ && r.enforceable,
                Trust::Proposed => r.trust == "proposed"@ && !r.enforceable,
                Trust::Untrusted => r.trust == "untrusted"@ && !r.enforceable,
            }
            &&& r.conflict_status == match k.conflict_status {
                Some(Conflict::Open) => Some("open"@),
                Some(Conflict::Resolved) => Some("resolved"@),
                None => None,
            }
        }),
{
    crate::types::trust_tiers_are_distinct(k.trust, Trust::User);
    crate::types::trust_tiers_are_distinct(k.trust, Trust::Reviewed);
}

/// The open conflicts are listed the latest first, two hundred at most.
pub proof fn open_conflicts_are_listed(s: StoreModel, domain: Option<Seq<char>>)
    ensures
        ({
            let rows = conflict_list(s, domain);
            &&& rows.len() <= 200
            &&& forall|i: int|
                0 <= i < rows.len() ==> (#[trigger] rows[i]).conflict_status == Some("open"@) && (
                domain matches Some(d) ==> rows[i].domain == d)
            &&& forall|i: int, j: int|
                0 <= i < j < rows.len() ==> (#[trigger] rows[i]).updated_at >= (
                #[trigger] rows[j]).updated_at
            &&& forall|k: KnowledgeItemModel| #[trigger]
                s.knowledge.contains(k) && k.conflict_status == Some(Conflict::Open) && (
                domain matches Some(d) ==> k.domain == d) ==> rows.contains(row_of(k)) || rows.len()
                    == 200
        }),
{
    let p = |r: KnowledgeItemModel| is_contested(r, domain);
    let by_time = |r: KnowledgeItemModel| (r.updated_at, 0i64);
    let key = |r: KnowledgeItemModel| r.updated_at as int;
    lemma_lists(s.knowledge, p, by_time, key, 200);
    let items = top(listed(s.knowledge, p, by_time), 200);
    let rows = conflict_list(s, domain);
    assert forall|i: int| 0 <= i < rows.len() implies #[trigger] rows[i] == row_of(items[i]) && p(
        items[i],
    ) by {}
    assert forall|i: int, j: int| 0 <= i < j < rows.len() implies (#[trigger] rows[i]).updated_at
        >= (#[trigger] rows[j]).updated_at by {
        assert(key(items[i]) >= key(items[j]));
    }
    assert forall|k: KnowledgeItemModel| #[trigger]
        s.knowledge.contains(k) && k.conflict_status == Some(Conflict::Open) && (
        domain matches Some(d) ==> k.domain == d) implies rows.contains(row_of(k)) || rows.len()
        == 200 by {
        assert(p(k));
        if items.contains(k) {
            assert(rows[items.index_of(k)] == row_of(k));
        }
    }
}

/// An item lives for the days that are set for it, else for those of its domain, each of
/// 86400 seconds; where neither sets any, and in a template that sets none, for ever.
pub proof fn items_live_their_days(k: KnowledgeItemModel, d: DomainRecordModel, now: i64)
    requires
        d.name == k.domain,
    ensures
        d.is_marketplace_template && d.retention_days is None ==> !expires_in(d, k, now),
        !(d.is_marketplace_template && d.retention_days is None) ==> match (
            k.retention_days,
            d.retention_days,
        ) {
            (Some(n), _) => expires_in(d, k, now) <==> now - k.created_at >= n * 86400,
            (None, Some(n)) => expires_in(d, k, now) <==> now - k.created_at >= n * 86400,
            (None, None) => !expires_in(d, k, now),
        },
{
}

/// The steps of a run are numbered on from the last, and each is logged as it is told, at
/// its time.
pub proof fn steps_are_numbered_on(s: StoreModel, note: StepNote, now: i64)
    requires
        crate::store::episodes::next_episode_id(s) <= i64::MAX,
        forall|i: int| 0 <= i < s.episodes.len() ==> (#[trigger] s.episodes[i]).step < i64::MAX,
    ensures
        ({
            let t = logged(s, note, next_step(s, note.run_id), now);
            let e = t.episodes.last();
            &&& t.episodes == s.episodes.push(e)
            &&& forall|i: int|
                0 <= i < s.episodes.len() && (#[trigger] s.episodes[i]).run_id == note.run_id
                    ==> s.episodes[i].step < e.step
            &&& (forall|i: int|
                0 <= i < s.episodes.len() ==> (#[trigger] s.episodes[i]).run_id != note.run_id)
                ==> e.step == 1
            &&& forall|i: int| 0 <= i < s.episodes.len() ==> (#[trigger] s.episodes[i]).id < e.id
            &&& e.run_id == note.run_id && e.stage == note.stage && e.action == note.action
                && e.observation == note.observation && e.outcome == note.outcome && e.domain
                == note.domain && e.ts == now && e.model == note.model && e.tokens_used
                == note.tokens_used && e.cost == note.cost && e.knowledge_ids_used.len() == 0
            &&& t.knowledge == s.knowledge && t.domains == s.domains
        }),
{
    broadcast use vstd::seq_lib::group_filter_ensures;

    let of = |e: EpisodeRowModel| e.run_id == note.run_id;
    let step = |e: EpisodeRowModel| e.step;
    let own = s.episodes.filter(of);
    fresh_id_is_fresh(own, step);
    fresh_id_is_fresh(s.episodes, |e: EpisodeRowModel| e.id);
    assert(fresh_id(own, step) <= i64::MAX) by {
        assert forall|i: int| 0 <= i < own.len() implies (#[trigger] own[i]).step < i64::MAX by {
            assert(own.contains(own[i]));
            s.episodes.lemma_filter_contains_rev(of, own[i]);
            let j = s.episodes.index_of(own[i]);
            assert(s.episodes[j].step < i64::MAX);
        }
        lemma_fresh_below(own);
    }
    assert forall|i: int|
        0 <= i < s.episodes.len() && (#[trigger] s.episodes[i]).run_id == note.run_id implies s.episodes[i].step
        < next_step(s, note.run_id) by {
        assert(of(s.episodes[i]));
        assert(own.contains(s.episodes[i]));
        let j = own.index_of(s.episodes[i]);
        assert(step(own[j]) < fresh_id(own, step));
    }
    if forall|i: int| 0 <= i < s.episodes.len() ==> (#[trigger] s.episodes[i]).run_id != note.run_id {
        if own.len() > 0 {
            assert(own.contains(own[0]));
            s.episodes.lemma_filter_contains_rev(of, own[0]);
            assert(of(own[0]));
            assert(s.episodes[s.episodes.index_of(own[0])].run_id == note.run_id);
        }
    }
}

proof fn lemma_fresh_below(own: Seq<EpisodeRowModel>)
    requires
        forall|i: int| 0 <= i < own.len() ==> (#[trigger] own[i]).step < i64::MAX,
    ensures
        fresh_id(own, |e: EpisodeRowModel| e.step) <= i64::MAX,
    decreases own.len(),
{
    if own.len() > 0 {
        assert(own[own.len() - 1].step < i64::MAX);
        assert forall|i: int| 0 <= i < own.drop_last().len() implies (
        #[trigger] own.drop_last()[i]).step < i64::MAX by {
            assert(own[i].step < i64::MAX);
        }
        lemma_fresh_below(own.drop_last());
    }
}

/// The steps are listed the latest first, two hundred at most, and of one run only where
/// one is asked for.
pub proof fn the_latest_steps_are_listed(s: StoreModel, run: Option<Seq<char>>)
    ensures
        lists(
            episode_list(s, run),
            s.episodes,
            |e: EpisodeRowModel| run matches Some(r) ==> e.run_id == r,
            |e: EpisodeRowModel| e.ts as int,
            200,
        ),
{
    let p = |e: EpisodeRowModel| is_of_run(e, run);
    let q = |e: EpisodeRowModel| run matches Some(r) ==> e.run_id == r;
    assert(p =~= q);
    lemma_lists(
        s.episodes,
        p,
        |e: EpisodeRowModel| (e.ts, e.step),
        |e: EpisodeRowModel| e.ts as int,
        200,
    );
}

/// The sources are listed the latest first, a hundred at most, and of one domain only
/// where one is asked for.
pub proof fn the_latest_sources_are_listed(s: StoreModel, domain: Option<Seq<char>>)
    ensures
        lists(
            source_list(s, domain),
            s.sources,
            |r: SourceRowModel| domain matches Some(d) ==> r.domain == d,
            |r: SourceRowModel| r.fetched_at as int,
            100,
        ),
{
    let p = |r: SourceRowModel| is_source_of(r, domain);
    let q = |r: SourceRowModel| domain matches Some(d) ==> r.domain == d;
    assert(p =~= q);
    lemma_lists(
        s.sources,
        p,
        |r: SourceRowModel| (r.fetched_at, 0i64),
        |r: SourceRowModel| r.fetched_at as int,
        100,
    );
}

/// The media are listed the latest first, a hundred at most, of the domain and the item
/// that are asked for.
pub proof fn the_latest_media_are_listed(
    s: StoreModel,
    domain: Option<Seq<char>>,
    item: Option<i64>,
)
    ensures
        lists(
            media_list(s, domain, item),
            s.media,
            |m: MediaRowModel|
                (domain matches Some(d) ==> m.domain == Some(d)) && (item matches Some(n)
                    ==> m.knowledge_id == Some(n)),
            |m: MediaRowModel| m.created_at as int,
            100,
        ),
{
    let p = |m: MediaRowModel| is_media_of(m, domain, item);
    let q = |m: MediaRowModel|
        (domain matches Some(d) ==> m.domain == Some(d)) && (item matches Some(n)
            ==> m.knowledge_id == Some(n));
    assert(p =~= q);
    lemma_lists(
        s.media,
        p,
        |m: MediaRowModel| (m.created_at, 0i64),
        |m: MediaRowModel| m.created_at as int,
        100,
    );
}

/// An item that is purged is noted with its number, its domain and its days.
pub proof fn purges_are_noted(run: Seq<char>, k: KnowledgeItemModel, d: DomainRowModel)
    requires
        k.retention_days is Some || d.retention_days is Some,
    ensures
        ({
            let days = match k.retention_days {
                Some(n) => n,
                None => d.retention_days->0,
            };
            let n = purge_note(run, k, d);
            &&& n.run_id == run && n.stage == Some("retention_sweep"@) && n.domain == Some(k.domain)
            &&& n.outcome == Some("success"@) && n.observation is None
            &&& n.action == Some(
                "purge knowledge id="@ + decimal(k.id as int) + " domain="@ + k.domain
                    + " retention_days="@ + decimal(days as int),
            )
        }),
{
}

/// Days are counted from when the item was made, and those of the item come before those of
/// its domain; a template without days is spared.
pub proof fn days_of_the_item_come_first(k: KnowledgeItemModel, d: DomainRowModel, now: i64)
    ensures
        k.retention_days matches Some(n) ==> (is_due(k, d, now) <==> now >= k.created_at + n * 86400),
        k.retention_days is None && d.retention_days is Some ==> (is_due(k, d, now) <==> now
            >= k.created_at + d.retention_days->0 * 86400),
        k.retention_days is None && d.retention_days is None ==> !is_due(k, d, now),
        is_spared(d) <==> d.is_marketplace_template && d.retention_days is None,
{
}

} // verus!
