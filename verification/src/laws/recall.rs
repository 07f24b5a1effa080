//! What recall gives for a ranking.
use vstd::prelude::*;

use crate::order::{lemma_sort_in_order, lemma_sort_members, pair_desc, stable_sort};
use crate::store::{ChunkRecordModel, KnowledgeItemModel, StoreModel};
use crate::store::recall::{gathered, hit_of, hit_rank, recalled_hits, wanted};
use crate::table::{first_match, lemma_first_match};
use crate::types::{trust_name, trust_named, trust_names_round_trip, trust_rank, RecallHitModel};
use crate::types::{SourceRowModel, Trust};

verus! {

/// How far a tier is trusted, by its name.
pub open spec fn tier(name: Seq<char>) -> int {
    if name == "user"@ {
        3
    } else if name == "reviewed"@ {
        2
    } else if name == "proposed"@ {
        1
    } else {
        0
    }
}

/// Whether a number of a ranking stands for a row of the domain: an item, or, from the tag
/// on, a chunk with its source.
pub open spec fn stands(s: StoreModel, n: i64, domain: Seq<char>) -> bool {
    if n < 0x1000_0000_0000_0000 {
        exists|j: int|
            0 <= j < s.knowledge.len() && (#[trigger] s.knowledge[j]).id == n && s.knowledge[j].domain
                == domain
    } else {
        (exists|j: int|
            0 <= j < s.chunks.len() && (#[trigger] s.chunks[j]).id == n - 0x1000_0000_0000_0000
                && s.chunks[j].domain == domain) && (forall|j: int|
            0 <= j < s.chunks.len() && (#[trigger] s.chunks[j]).id == n - 0x1000_0000_0000_0000
                && s.chunks[j].domain == domain ==> exists|i: int|
                0 <= i < s.sources.len() && (#[trigger] s.sources[i]).id == s.chunks[j].source_id)
    }
}

/// Whether a hit shows what stands in the domain under a number: the texts, the tier and
/// the origin of an item, or the text of a chunk with the address of its source.
pub open spec fn shows(s: StoreModel, n: i64, domain: Seq<char>, h: RecallHitModel) -> bool {
    h.domain == domain && if n < 0x1000_0000_0000_0000 {
        exists|j: int|
            {
                let k = #[trigger] s.knowledge[j];
                &&& 0 <= j < s.knowledge.len()
                &&& k.id == n && k.domain == domain
                &&& h.source_kind == "knowledge"@
                &&& h.title == k.title && h.body == k.body
                &&& h.fetched_at == Some(k.created_at)
                &&& match k.trust {
                    Trust::User => h.trust == "user"@ && h.enforceable,
                    Trust::Reviewed => h.trust == "reviewed"@ && h.enforceable,
                    Trust::Proposed => h.trust == "proposed"@ && !h.enforceable,
                    Trust::Untrusted => h.trust == "untrusted"@ && !h.enforceable,
                }
                &&& h.provenance is Some <==> k.source_id is Some
            }
    } else {
        exists|j: int, i: int|
            {
                let c = #[trigger] s.chunks[j];
                let r = #[trigger] s.sources[i];
                &&& 0 <= j < s.chunks.len() && 0 <= i < s.sources.len()
                &&& c.id == n - 0x1000_0000_0000_0000 && c.domain == domain
                &&& r.id == c.source_id
                &&& h.source_kind == "chunk"@ && h.kind is None
                &&& h.body == c.text
                &&& h.provenance == r.uri && h.fetched_at == Some(r.fetched_at)
                &&& h.trust == "untrusted"@ && !h.enforceable
            }
    }
}

/// Whether a hit is less trusted than every one of some hits, or as trusted and ranked
/// behind it.
pub open spec fn comes_behind(hits: Seq<RecallHitModel>, h: RecallHitModel) -> bool {
    forall|i: int|
        0 <= i < hits.len() ==> tier((#[trigger] hits[i]).trust) > tier(h.trust) || (tier(
            hits[i].trust,
        ) == tier(h.trust) && hits[i].rank <= h.rank)
}

pub proof fn lemma_tier(t: Trust)
    ensures
        tier(trust_name(t)) == trust_rank(trust_named(trust_name(t))),
        tier(trust_name(t)) == trust_rank(t),
        tier("untrusted"@) == 0,
{
    trust_names_round_trip(t);
    trust_names_round_trip(Trust::User);
    trust_names_round_trip(Trust::Reviewed);
    trust_names_round_trip(Trust::Proposed);
    trust_names_round_trip(Trust::Untrusted);
}

proof fn lemma_stands(s: StoreModel, n: i64, domain: Seq<char>, rank: usize)
    requires
        stands(s, n, domain),
    ensures
        hit_of(s, n, domain, rank) matches Some(h) && h.rank == rank && shows(s, n, domain, h)
            && hit_rank(h).0 == tier(h.trust),
{
    lemma_tier(Trust::User);
    lemma_tier(Trust::Reviewed);
    lemma_tier(Trust::Proposed);
    lemma_tier(Trust::Untrusted);
    if n < 0x1000_0000_0000_0000 {
        let p = |k: KnowledgeItemModel| k.id == n && k.domain == domain;
        lemma_first_match(s.knowledge, p);
        let j = choose|j: int|
            0 <= j < s.knowledge.len() && (#[trigger] s.knowledge[j]).id == n && s.knowledge[j].domain
                == domain;
        assert(p(s.knowledge[j]));
        let k = first_match(s.knowledge, p)->0;
        let m = s.knowledge.index_of(k);
        assert(s.knowledge[m] == k);
        lemma_tier(k.trust);
    } else {
        let id = (n - 0x1000_0000_0000_0000) as i64;
        let p = |c: ChunkRecordModel| c.id == id && c.domain == domain;
        lemma_first_match(s.chunks, p);
        let j = choose|j: int|
            0 <= j < s.chunks.len() && (#[trigger] s.chunks[j]).id == n - 0x1000_0000_0000_0000
                && s.chunks[j].domain == domain;
        assert(p(s.chunks[j]));
        let c = first_match(s.chunks, p)->0;
        let m = s.chunks.index_of(c);
        assert(s.chunks[m] == c);
        let q = |r: SourceRowModel| r.id == c.source_id;
        lemma_first_match(s.sources, q);
        let i = choose|i: int|
            0 <= i < s.sources.len() && (#[trigger] s.sources[i]).id == s.chunks[m].source_id;
        assert(q(s.sources[i]));
        let r = first_match(s.sources, q)->0;
        let l = s.sources.index_of(r);
        assert(s.sources[l] == r && s.chunks[m] == c);
    }
}

proof fn lemma_gathered_whole(s: StoreModel, fused: Seq<i64>, domain: Seq<char>, limit: int)
    requires
        limit >= 0,
        fused.no_duplicates(),
        fused.len() <= usize::MAX,
        forall|i: int| 0 <= i < fused.len() ==> stands(s, #[trigger] fused[i], domain),
    ensures
        ({
            let all = gathered(s, fused, domain, limit);
            &&& all.len() == if fused.len() < limit {
                fused.len() as int
            } else {
                limit
            }
            &&& forall|i: int|
                0 <= i < all.len() ==> hit_of(s, fused[i], domain, i as usize) == Some(
                    #[trigger] all[i],
                )
        }),
    decreases fused.len(),
{
    if fused.len() > 0 {
        let head = fused.drop_last();
        let n = head.len() as int;
        assert forall|i: int| 0 <= i < head.len() implies stands(s, #[trigger] head[i], domain) by {
            assert(head[i] == fused[i]);
        }
        lemma_gathered_whole(s, head, domain, limit);
        assert(!head.contains(fused.last()));
        assert(stands(s, fused[n], domain));
        lemma_stands(s, fused[n], domain, n as usize);
    }
}

/// Recall gives exactly as many hits as are asked for, and one where none is asked for,
/// or all of the ranking where it holds fewer.
pub proof fn recall_gives_as_many_as_asked_for(
    s: StoreModel,
    fused: Seq<i64>,
    domain: Seq<char>,
    k: int,
)
    requires
        fused.no_duplicates(),
        fused.len() <= usize::MAX,
        forall|i: int| 0 <= i < fused.len() ==> stands(s, #[trigger] fused[i], domain),
    ensures
        k >= 1 && fused.len() >= k ==> recalled_hits(s, fused, domain, k).len() == k,
        k >= 1 && fused.len() < k ==> recalled_hits(s, fused, domain, k).len() == fused.len(),
        k < 1 && fused.len() >= 1 ==> recalled_hits(s, fused, domain, k).len() == 1,
        fused.len() == 0 ==> recalled_hits(s, fused, domain, k).len() == 0,
{
    let all = gathered(s, fused, domain, 2 * wanted(k));
    lemma_gathered_whole(s, fused, domain, 2 * wanted(k));
    lemma_sort_members(
        all,
        |a: RecallHitModel, b: RecallHitModel| pair_desc(hit_rank(a), hit_rank(b)),
    );
}

/// However much is asked for, recall gives no more than that, and no more than one where
/// nothing is asked for.
pub proof fn recall_gives_no_more_than_asked_for(
    s: StoreModel,
    fused: Seq<i64>,
    domain: Seq<char>,
    k: int,
)
    ensures
        recalled_hits(s, fused, domain, k).len() <= if k < 1 {
            1
        } else {
            k
        },
{
}

/// Each hit shows what stands at its place of the ranking. The more trusted come first,
/// and of equal trust those that are ranked before the others. Of the first of the ranking,
/// twice as many as are asked for, whatever is left out is less trusted than what is given,
/// or is as trusted and ranked behind it.
pub proof fn recall_prefers_trust_then_rank(
    s: StoreModel,
    fused: Seq<i64>,
    domain: Seq<char>,
    k: int,
)
    requires
        k >= 1,
        fused.no_duplicates(),
        fused.len() <= usize::MAX,
        forall|i: int| 0 <= i < fused.len() ==> stands(s, #[trigger] fused[i], domain),
    ensures
        ({
            let hits = recalled_hits(s, fused, domain, k);
            &&& forall|i: int|
                0 <= i < hits.len() ==> (#[trigger] hits[i]).rank < fused.len() && hits[i].rank < 2
                    * k && shows(s, fused[hits[i].rank as int], domain, hits[i])
            &&& forall|i: int, j: int|
                0 <= i < j < hits.len() ==> tier((#[trigger] hits[i]).trust) > tier(
                    (#[trigger] hits[j]).trust,
                ) || (tier(hits[i].trust) == tier(hits[j].trust) && hits[i].rank <= hits[j].rank)
            &&& forall|m: int|
                0 <= m < fused.len() && m < 2 * k ==> {
                    let h = hit_of(s, #[trigger] fused[m], domain, m as usize)->0;
                    hits.contains(h) || comes_behind(hits, h)
                }
        }),
{
    let all = gathered(s, fused, domain, 2 * wanted(k));
    lemma_gathered_whole(s, fused, domain, 2 * wanted(k));
    let le = |a: RecallHitModel, b: RecallHitModel| pair_desc(hit_rank(a), hit_rank(b));
    assert forall|i: int| 0 <= i < all.len() implies (#[trigger] all[i]).rank == i && shows(
        s,
        fused[i],
        domain,
        all[i],
    ) && hit_rank(all[i]).0 == tier(all[i].trust) by {
        lemma_stands(s, fused[i], domain, i as usize);
    }
    lemma_sort_by_rank(all, le);
    lemma_sort_members(all, le);
    let sorted = stable_sort(all, le);
    let hits = recalled_hits(s, fused, domain, k);
    assert forall|i: int| 0 <= i < hits.len() implies (#[trigger] hits[i]).rank < fused.len()
        && hits[i].rank < 2 * k && shows(s, fused[hits[i].rank as int], domain, hits[i]) && hit_rank(
        hits[i],
    ).0 == tier(hits[i].trust) by {
        assert(sorted.contains(sorted[i]));
        let j = all.index_of(sorted[i]);
        assert(all[j] == hits[i]);
    }
    assert forall|m: int| 0 <= m < fused.len() && m < 2 * k implies {
        let h = hit_of(s, #[trigger] fused[m], domain, m as usize)->0;
        hits.contains(h) || comes_behind(hits, h)
    } by {
        let h = hit_of(s, fused[m], domain, m as usize)->0;
        assert(all[m] == h);
        assert(all.contains(h));
        assert(sorted.contains(h));
        let at = sorted.index_of(h);
        assert(sorted[at] == h);
        if at < hits.len() {
            assert(hits[at] == h);
        } else {
            assert forall|i: int| 0 <= i < hits.len() implies tier((#[trigger] hits[i]).trust)
                > tier(h.trust) || (tier(hits[i].trust) == tier(h.trust) && hits[i].rank <= h.rank) by {
                assert(by_rank(sorted[i], sorted[at]));
                assert(hits[i] == sorted[i]);
            }
        }
    }
    assert forall|i: int, j: int| 0 <= i < j < hits.len() implies tier((#[trigger] hits[i]).trust)
        > tier((#[trigger] hits[j]).trust) || (tier(hits[i].trust) == tier(hits[j].trust)
        && hits[i].rank <= hits[j].rank) by {
        assert(by_rank(sorted[i], sorted[j]));
        assert(hits[i] == sorted[i] && hits[j] == sorted[j]);
    }
}

spec fn by_rank(a: RecallHitModel, b: RecallHitModel) -> bool {
    hit_rank(a).0 > hit_rank(b).0 || (hit_rank(a).0 == hit_rank(b).0 && a.rank <= b.rank)
}

proof fn lemma_sort_by_rank(
    all: Seq<RecallHitModel>,
    le: spec_fn(RecallHitModel, RecallHitModel) -> bool,
)
    requires
        le == (|a: RecallHitModel, b: RecallHitModel| pair_desc(hit_rank(a), hit_rank(b))),
        forall|i: int| 0 <= i < all.len() ==> (#[trigger] all[i]).rank == i,
    ensures
        forall|i: int, j: int|
            0 <= i < j < all.len() ==> #[trigger] by_rank(
                stable_sort(all, le)[i],
                stable_sort(all, le)[j],
            ),
{
    let le2 = |a: RecallHitModel, b: RecallHitModel| by_rank(a, b);
    lemma_sort_agrees(all, le, le2);
    lemma_sort_in_order(all, le2);
    lemma_sort_members(all, le);
    let sorted = stable_sort(all, le);
    assert forall|i: int, j: int| 0 <= i < j < all.len() implies #[trigger] by_rank(
        sorted[i],
        sorted[j],
    ) by {
        assert(le2(stable_sort(all, le2)[i], stable_sort(all, le2)[j]));
    }
}

proof fn lemma_sort_agrees<T>(s: Seq<T>, p: spec_fn(T, T) -> bool, q: spec_fn(T, T) -> bool)
    requires
        forall|i: int, j: int| 0 <= i < j < s.len() ==> #[trigger] p(s[i], s[j]) == q(s[i], s[j]),
    ensures
        stable_sort(s, p) == stable_sort(s, q),
    decreases s.len(),
{
    if s.len() > 0 {
        let d = s.drop_last();
        assert forall|i: int, j: int| 0 <= i < j < d.len() implies #[trigger] p(d[i], d[j]) == q(
            d[i],
            d[j],
        ) by {
            assert(p(s[i], s[j]) == q(s[i], s[j]));
        }
        lemma_sort_agrees(d, p, q);
        let t = stable_sort(d, p);
        lemma_sort_members(d, p);
        assert forall|i: int| 0 <= i < t.len() implies #[trigger] p(t[i], s.last()) == q(
            t[i],
            s.last(),
        ) by {
            assert(t.contains(t[i]));
            let m = d.index_of(t[i]);
            assert(p(s[m], s[s.len() - 1]) == q(s[m], s[s.len() - 1]));
        }
        lemma_placed_agrees(t, s.last(), p, q);
    }
}

proof fn lemma_placed_agrees<T>(
    t: Seq<T>,
    x: T,
    p: spec_fn(T, T) -> bool,
    q: spec_fn(T, T) -> bool,
)
    requires
        forall|i: int| 0 <= i < t.len() ==> #[trigger] p(t[i], x) == q(t[i], x),
    ensures
        crate::order::placed(t, x, p) == crate::order::placed(t, x, q),
    decreases t.len(),
{
    if t.len() > 0 {
        assert(p(t[t.len() - 1], x) == q(t[t.len() - 1], x));
        let d = t.drop_last();
        assert forall|i: int| 0 <= i < d.len() implies #[trigger] p(d[i], x) == q(d[i], x) by {
            assert(p(t[i], x) == q(t[i], x));
        }
        lemma_placed_agrees(d, x, p, q);
    }
}

} // verus!
