//! What holds of knowledge on its way from a proposal to a rule in force.
use vstd::prelude::*;

use crate::like::like;
use crate::order::{lemma_sort_map, lemma_sort_members, pair_desc, stable_sort};
use crate::redact::redacted;
use crate::store::acl::redacts;
use crate::store::domains::{exported_items, market_item};
use crate::store::knowledge::{at_odds, contradicts, forgotten, inserted, item_of, next_knowledge_id};
use crate::store::knowledge::{is_contested, kept_item, known, merge_note, promoted, promoted_item};
use crate::store::knowledge::{resolved, rival, settled_item, stored_text, Draft};
use crate::store::recall::{fits_any, hit_of, is_eligible, items_that_fit_are_candidates, like_matches};
use crate::store::recall::{like_patterns, ranked_rows_are_recalled, recalled_hits, CHUNK_TAG};
use crate::store::retention::{distinct_ids, lemma_filter_distinct};
use crate::store::{fresh_id, fresh_id_is_fresh, Conflict, KnowledgeItemModel, StoreModel};
use crate::table::{first_match, lemma_first_match, lemma_positions, listed, positions, reversed_key};
use crate::types::{enforceable, MarketplaceItemModel, Trust};

verus! {

/// The enforceable items of a domain among some rows, by number.
pub open spec fn in_force(rows: Seq<KnowledgeItemModel>, domain: Seq<char>) -> Seq<
    MarketplaceItemModel,
> {
    listed(
        rows,
        |k: KnowledgeItemModel| k.domain == domain && enforceable(k.trust),
        |k: KnowledgeItemModel| (reversed_key(k.id), 0i64),
    ).map_values(|k: KnowledgeItemModel| market_item(k))
}

proof fn lemma_filter_map<V>(rows: Seq<V>, g: spec_fn(V) -> V, p: spec_fn(V) -> bool)
    requires
        forall|r: V| #[trigger] p(g(r)) == p(r),
    ensures
        rows.map_values(g).filter(p) == rows.filter(p).map_values(g),
    decreases rows.len(),
{
    reveal(Seq::filter);
    if rows.len() > 0 {
        lemma_filter_map(rows.drop_last(), g, p);
        assert(rows.map_values(g).drop_last() =~= rows.drop_last().map_values(g));
        assert(p(g(rows.last())) == p(rows.last()));
    }
    assert(rows.map_values(g).filter(p) =~= rows.filter(p).map_values(g));
}

/// A change that keeps numbers, domains, force and what is published changes nothing of
/// what is in force.
proof fn lemma_in_force_map(
    rows: Seq<KnowledgeItemModel>,
    g: spec_fn(KnowledgeItemModel) -> KnowledgeItemModel,
    domain: Seq<char>,
)
    requires
        forall|r: KnowledgeItemModel|
            {
                let q = #[trigger] g(r);
                q.id == r.id && q.domain == r.domain && enforceable(q.trust) == enforceable(r.trust)
                    && market_item(q) == market_item(r)
            },
    ensures
        in_force(rows.map_values(g), domain) == in_force(rows, domain),
{
    let p = |k: KnowledgeItemModel| k.domain == domain && enforceable(k.trust);
    let key = |k: KnowledgeItemModel| (reversed_key(k.id), 0i64);
    let le = |a: KnowledgeItemModel, b: KnowledgeItemModel| pair_desc(key(a), key(b));
    let m = |k: KnowledgeItemModel| market_item(k);
    lemma_filter_map(rows, g, p);
    lemma_sort_map(rows.filter(p), g, le, le);
    assert(stable_sort(rows.filter(p), le).map_values(g).map_values(m) =~= stable_sort(
        rows.filter(p),
        le,
    ).map_values(m));
}

proof fn lemma_in_force_push(
    rows: Seq<KnowledgeItemModel>,
    x: KnowledgeItemModel,
    domain: Seq<char>,
)
    requires
        forall|i: int| 0 <= i < rows.len() ==> (#[trigger] rows[i]).id < x.id,
    ensures
        in_force(rows.push(x), domain) == (if x.domain == domain && enforceable(x.trust) {
            in_force(rows, domain).push(market_item(x))
        } else {
            in_force(rows, domain)
        }),
{
    broadcast use vstd::seq_lib::group_filter_ensures;

    let p = |k: KnowledgeItemModel| k.domain == domain && enforceable(k.trust);
    let key = |k: KnowledgeItemModel| (reversed_key(k.id), 0i64);
    let le = |a: KnowledgeItemModel, b: KnowledgeItemModel| pair_desc(key(a), key(b));
    let m = |k: KnowledgeItemModel| market_item(k);
    let f = rows.filter(p);
    assert(rows.push(x).drop_last() =~= rows);
    assert(rows.push(x).filter(p) =~= (if p(x) {
        f.push(x)
    } else {
        f
    })) by {
        reveal(Seq::filter);
    }
    if p(x) {
        let sorted = stable_sort(f, le);
        lemma_sort_members(f, le);
        assert(f.push(x).drop_last() =~= f);
        if sorted.len() > 0 {
            assert(sorted.contains(sorted.last()));
            assert(f.contains(sorted.last()));
            crate::table::lemma_positions(rows, p);
            let j = f.index_of(sorted.last());
            let at = crate::table::positions(rows, p);
            assert(crate::order::picked(rows, at)[j] == rows[at[j]]);
            assert(le(sorted.last(), x));
        }
        assert(stable_sort(f.push(x), le) == sorted.push(x));
        assert(sorted.push(x).map_values(m) =~= sorted.map_values(m).push(m(x)));
    }
}

/// The rows after a draft was stored: those before it, marked where they are at odds with
/// it, and the new item.
pub proof fn lemma_inserted(s: StoreModel, d: Draft, now: i64) -> (g: spec_fn(
    KnowledgeItemModel,
) -> KnowledgeItemModel)
    ensures
        inserted(s, d, now).knowledge == s.knowledge.map_values(g).push(g(item_of(s, d, now))),
        forall|r: KnowledgeItemModel|
            {
                let q = #[trigger] g(r);
                q.id == r.id && q.domain == r.domain && q.trust == r.trust && market_item(q)
                    == market_item(r)
            },
{
    let new = item_of(s, d, now);
    let rows = s.knowledge.push(new);
    match rival(rows, new) {
        Some(prior) => {
            let g = |r: KnowledgeItemModel| at_odds(r, prior, new.id, now);
            assert(rows.map_values(g) =~= s.knowledge.map_values(g).push(g(new)));
            g
        },
        None => {
            let g = |r: KnowledgeItemModel| r;
            assert(rows =~= s.knowledge.map_values(g).push(g(new)));
            g
        },
    }
}

proof fn lemma_ids_below(
    s: StoreModel,
    g: spec_fn(KnowledgeItemModel) -> KnowledgeItemModel,
    x: KnowledgeItemModel,
)
    requires
        forall|r: KnowledgeItemModel| (#[trigger] g(r)).id == r.id,
        x.id == next_knowledge_id(s),
    ensures
        forall|i: int|
            0 <= i < s.knowledge.len() ==> (#[trigger] s.knowledge.map_values(g)[i]).id < x.id,
{
    fresh_id_is_fresh(s.knowledge, |k: KnowledgeItemModel| k.id);
    assert forall|i: int| 0 <= i < s.knowledge.len() implies (#[trigger] s.knowledge.map_values(
        g,
    )[i]).id < x.id by {
        assert(g(s.knowledge[i]).id == s.knowledge[i].id);
    }
}

/// What is stored as a proposal is not in force: what a domain publishes stays as it was.
pub proof fn proposals_are_not_in_force(s: StoreModel, d: Draft, now: i64, domain: Seq<char>)
    requires
        d.trust == Trust::Proposed,
        next_knowledge_id(s) <= i64::MAX,
    ensures
        exported_items(inserted(s, d, now), domain) == exported_items(s, domain),
{
    let g = lemma_inserted(s, d, now);
    let x = g(item_of(s, d, now));
    lemma_ids_below(s, g, x);
    lemma_in_force_push(s.knowledge.map_values(g), x, domain);
    lemma_in_force_map(s.knowledge, g, domain);
}

/// What the user states is in force at once: the domain publishes it after what it
/// published before.
pub proof fn stated_facts_are_in_force(s: StoreModel, d: Draft, now: i64)
    requires
        enforceable(d.trust),
        next_knowledge_id(s) <= i64::MAX,
    ensures
        exported_items(inserted(s, d, now), d.domain) == exported_items(s, d.domain).push(
            market_item(item_of(s, d, now)),
        ),
{
    let g = lemma_inserted(s, d, now);
    let x = g(item_of(s, d, now));
    lemma_ids_below(s, g, x);
    lemma_in_force_push(s.knowledge.map_values(g), x, d.domain);
    lemma_in_force_map(s.knowledge, g, d.domain);
}

/// A proposal that is promoted comes into force: the domain publishes it after what it
/// published before.
pub proof fn promotion_puts_in_force(s: StoreModel, d: Draft, now: i64, later: i64)
    requires
        d.trust == Trust::Proposed,
        next_knowledge_id(s) <= i64::MAX,
    ensures
        exported_items(
            promoted(inserted(s, d, now), next_knowledge_id(s) as i64, later),
            d.domain,
        ) == exported_items(s, d.domain).push(market_item(item_of(s, d, now))),
{
    let id = next_knowledge_id(s) as i64;
    let g = lemma_inserted(s, d, now);
    let x = g(item_of(s, d, now));
    let up = |r: KnowledgeItemModel| promoted_item(r, id, later);
    lemma_ids_below(s, g, x);
    let rows = s.knowledge.map_values(g);
    assert(rows.push(x).map_values(up) =~= rows.push(up(x))) by {
        assert forall|i: int| 0 <= i < rows.len() implies up(#[trigger] rows[i]) == rows[i] by {
            assert(rows[i].id < x.id);
        }
    }
    lemma_in_force_push(rows, up(x), d.domain);
    lemma_in_force_map(s.knowledge, g, d.domain);
}

proof fn lemma_map_distinct(
    rows: Seq<KnowledgeItemModel>,
    g: spec_fn(KnowledgeItemModel) -> KnowledgeItemModel,
)
    requires
        distinct_ids(rows),
        forall|r: KnowledgeItemModel| (#[trigger] g(r)).id == r.id,
    ensures
        distinct_ids(rows.map_values(g)),
{
    let m = rows.map_values(g);
    assert forall|i: int, j: int| 0 <= i < j < m.len() implies #[trigger] m[i].id
        != #[trigger] m[j].id by {
        assert(g(rows[i]).id == rows[i].id);
        assert(g(rows[j]).id == rows[j].id);
    }
}

/// No two items get the same number: storing, promoting and removing items keep the
/// numbers apart.
pub proof fn numbers_stay_apart(s: StoreModel, d: Draft, id: i64, now: i64)
    requires
        distinct_ids(s.knowledge),
        next_knowledge_id(s) <= i64::MAX,
    ensures
        distinct_ids(inserted(s, d, now).knowledge),
        distinct_ids(promoted(s, id, now).knowledge),
        distinct_ids(forgotten(s, id).knowledge),
{
    let g = lemma_inserted(s, d, now);
    let x = g(item_of(s, d, now));
    lemma_ids_below(s, g, x);
    lemma_map_distinct(s.knowledge, g);
    let rows = s.knowledge.map_values(g);
    assert(distinct_ids(rows.push(x))) by {
        assert forall|i: int, j: int| 0 <= i < j < rows.push(x).len() implies #[trigger] rows.push(
            x,
        )[i].id != #[trigger] rows.push(x)[j].id by {
            assert(rows[i].id < x.id);
        }
    }
    lemma_map_distinct(s.knowledge, |r: KnowledgeItemModel| promoted_item(r, id, now));
    lemma_filter_distinct(s.knowledge, |r: KnowledgeItemModel| r.id != id);
}

/// A conflict is mutual: where a new item is marked as in conflict, the item that it names
/// is there, names the new one in turn, and both conflicts are open.
pub proof fn conflicts_are_mutual(s: StoreModel, d: Draft, now: i64)
    requires
        next_knowledge_id(s) <= i64::MAX,
    ensures
        ({
            let rows = inserted(s, d, now).knowledge;
            let new = rows.last();
            new.conflict_with_id matches Some(p) ==> {
                &&& new.conflict_status == Some(Conflict::Open)
                &&& exists|i: int|
                    0 <= i < rows.len() && (#[trigger] rows[i]).id == p && rows[i].conflict_with_id
                        == Some(new.id) && rows[i].conflict_status == Some(Conflict::Open)
            }
        }),
{
    let new = item_of(s, d, now);
    let rows = s.knowledge.push(new);
    let all = inserted(s, d, now).knowledge;
    if let Some(prior) = rival(rows, new) {
        let p = |r: KnowledgeItemModel| contradicts(r, new);
        let key = |r: KnowledgeItemModel| (r.updated_at, 0i64);
        let le = |a: KnowledgeItemModel, b: KnowledgeItemModel| pair_desc(key(a), key(b));
        let found = listed(rows, p, key);
        lemma_sort_members(rows.filter(p), le);
        assert(found.contains(found[0]));
        assert(rows.filter(p).contains(found[0]));
        crate::table::lemma_positions(rows, p);
        let j = rows.filter(p).index_of(found[0]);
        let at = crate::table::positions(rows, p);
        assert(crate::order::picked(rows, at)[j] == rows[at[j]]);
        assert(contradicts(rows[at[j]], new));
        assert(all[at[j]] == at_odds(rows[at[j]], prior, new.id, now));
    }
}

/// The number of the next item, once an item was stored and promoted.
pub proof fn lemma_next_after(s: StoreModel, d: Draft, now: i64)
    requires
        next_knowledge_id(s) <= i64::MAX,
    ensures
        next_knowledge_id(promoted(inserted(s, d, now), next_knowledge_id(s) as i64, now))
            == next_knowledge_id(s) + 1,
{
    let id = next_knowledge_id(s) as i64;
    let g = lemma_inserted(s, d, now);
    let x = g(item_of(s, d, now));
    let up = |r: KnowledgeItemModel| promoted_item(r, id, now);
    let h = |r: KnowledgeItemModel| up(g(r));
    let rows = s.knowledge.map_values(g).push(x);
    assert(rows.map_values(up) =~= s.knowledge.map_values(h).push(up(x)));
    let n = |k: KnowledgeItemModel| k.id;
    assert forall|r: KnowledgeItemModel| (#[trigger] h(r)).id == r.id by {
        assert(g(r).id == r.id);
    }
    lemma_fresh_map(s.knowledge, h);
    let t = s.knowledge.map_values(h).push(up(x));
    assert(t.drop_last() =~= s.knowledge.map_values(h));
    assert(fresh_id(t, n) == id + 1);
}

proof fn lemma_fresh_map(
    rows: Seq<KnowledgeItemModel>,
    g: spec_fn(KnowledgeItemModel) -> KnowledgeItemModel,
)
    requires
        forall|r: KnowledgeItemModel| (#[trigger] g(r)).id == r.id,
    ensures
        fresh_id(rows.map_values(g), |k: KnowledgeItemModel| k.id) == fresh_id(
            rows,
            |k: KnowledgeItemModel| k.id,
        ),
    decreases rows.len(),
{
    if rows.len() > 0 {
        lemma_fresh_map(rows.drop_last(), g);
        assert(rows.map_values(g).drop_last() =~= rows.drop_last().map_values(g));
        assert(g(rows.last()).id == rows.last().id);
    }
}

/// What a redacting domain stores is redacted: neither the title nor the body of a new
/// item is kept as it came.
pub proof fn what_is_stored_is_redacted(s: StoreModel, d: Draft, now: i64)
    requires
        redacts(s, d.domain),
    ensures
        ({
            let rows = inserted(s, d, now).knowledge;
            &&& rows.len() == s.knowledge.len() + 1
            &&& rows.last().title == redacted(d.title)
            &&& rows.last().body == redacted(d.body)
        }),
{
    let g = lemma_inserted(s, d, now);
    assert(inserted(s, d, now).knowledge.last() == g(item_of(s, d, now)));
}

/// A forgotten item is gone, and the others stay as they are.
pub proof fn forgetting_removes_one_item(s: StoreModel, id: i64)
    ensures
        !known(forgotten(s, id), id),
        forall|i: int|
            0 <= i < s.knowledge.len() && s.knowledge[i].id != id ==> forgotten(
                s,
                id,
            ).knowledge.contains(#[trigger] s.knowledge[i]),
{
    broadcast use vstd::seq_lib::group_filter_ensures;

    let other = |r: KnowledgeItemModel| r.id != id;
    let rest = s.knowledge.filter(other);
    assert forall|i: int| 0 <= i < rest.len() implies (#[trigger] rest[i]).id != id by {
        assert(rest.contains(rest[i]));
        assert(other(rest[i]));
    }
    assert forall|i: int| 0 <= i < s.knowledge.len() && s.knowledge[i].id != id implies rest.contains(
        #[trigger] s.knowledge[i],
    ) by {
        assert(other(s.knowledge[i]));
    }
}

/// However a conflict is resolved, neither of the two items is in open conflict after it.
pub proof fn resolving_ends_the_conflict(s: StoreModel, id: i64, other: i64, action: Seq<char>)
    requires
        id != other,
    ensures
        ({
            let rows = resolved(s, id, other, action).knowledge;
            forall|i: int|
                0 <= i < rows.len() && (rows[i].id == id || rows[i].id == other) ==> !is_contested(
                    #[trigger] rows[i],
                    None,
                )
        }),
{
    broadcast use vstd::seq_lib::group_filter_ensures;

    let rows = resolved(s, id, other, action).knowledge;
    let apart = |r: KnowledgeItemModel| r.id != other;
    assert forall|i: int|
        0 <= i < rows.len() && (rows[i].id == id || rows[i].id == other) implies !is_contested(
        #[trigger] rows[i],
        None,
    ) by {
        if action == "keep"@ {
            assert(rows[i] == kept_item(s.knowledge[i], id, other));
        } else if action == "accept"@ {
            let left = s.knowledge.filter(apart);
            assert(rows[i] == settled_item(left[i], id, seq![]));
            assert(left.contains(left[i]));
            assert(apart(left[i]));
        } else {
            let told = s.knowledge.map_values(
                |r: KnowledgeItemModel| settled_item(r, id, merge_note(other)),
            );
            lemma_positions(told, apart);
            let j = positions(told, apart)[i];
            assert(rows[i] == told[j]);
            assert(told[j] == settled_item(s.knowledge[j], id, merge_note(other)));
        }
    }
}

/// What was stored is found by its words: a query with a word of the title or the body of
/// a new item has the item among its candidates, where there is room for all that fit.
pub proof fn stored_knowledge_is_found(s: StoreModel, d: Draft, now: i64, query: Seq<char>)
    requires
        fits_any(item_of(s, d, now), like_patterns(query)),
        inserted(s, d, now).knowledge.filter(
            |k: KnowledgeItemModel|
                is_eligible(k, d.domain, None) && fits_any(k, like_patterns(query)),
        ).len() <= 50,
    ensures
        like_matches(inserted(s, d, now), d.domain, query, None).contains(
            next_knowledge_id(s) as i64,
        ),
{
    let g = lemma_inserted(s, d, now);
    let new = item_of(s, d, now);
    let t = inserted(s, d, now);
    let i = s.knowledge.len() as int;
    assert(t.knowledge[i] == g(new));
    assert(market_item(g(new)) == market_item(new));
    let patterns = like_patterns(query);
    let m = choose|m: int|
        0 <= m < patterns.len() && (like(new.title, #[trigger] patterns[m]) || like(
            new.body,
            patterns[m],
        ));
    assert(like(t.knowledge[i].title, patterns[m]) || like(t.knowledge[i].body, patterns[m]));
    items_that_fit_are_candidates(t, d.domain, query, None, i);
}

/// What was stored is recalled: a new item that is ranked is among the hits, with what it
/// says as the domain stores it, where as many hits are wanted as are ranked.
pub proof fn stored_knowledge_is_recalled(s: StoreModel, d: Draft, now: i64, fused: Seq<i64>, k: int)
    requires
        distinct_ids(s.knowledge),
        next_knowledge_id(s) < CHUNK_TAG,
        fused.no_duplicates(),
        fused.len() <= 1 || fused.len() <= k,
        fused.contains(next_knowledge_id(s) as i64),
    ensures
        ({
            let hits = recalled_hits(inserted(s, d, now), fused, d.domain, k);
            exists|i: int|
                0 <= i < hits.len() && (#[trigger] hits[i]).source_kind == "knowledge"@
                    && hits[i].title == stored_text(s, d.domain, d.title) && hits[i].body
                    == stored_text(s, d.domain, d.body) && hits[i].enforceable == enforceable(d.trust)
        }),
{
    let g = lemma_inserted(s, d, now);
    let new = item_of(s, d, now);
    let t = inserted(s, d, now);
    let n = next_knowledge_id(s) as i64;
    let last = s.knowledge.len() as int;
    numbers_stay_apart(s, d, 0, now);
    assert(t.knowledge[last] == g(new));
    assert(market_item(g(new)) == market_item(new));
    let is = |k: KnowledgeItemModel| k.id == n && k.domain == d.domain;
    lemma_first_match(t.knowledge, is);
    assert(is(t.knowledge[last]));
    let x = first_match(t.knowledge, is)->0;
    let m = choose|m: int| 0 <= m < t.knowledge.len() && t.knowledge[m] == x;
    assert(m == last);
    let i = fused.index_of(n);
    let h = hit_of(t, fused[i], d.domain, i as usize)->0;
    ranked_rows_are_recalled(t, fused, d.domain, k, i);
    let hits = recalled_hits(t, fused, d.domain, k);
    let j = hits.index_of(h);
    assert(hits[j].source_kind == "knowledge"@);
}

} // verus!
