//! Which rows a question brings up.
use vstd::prelude::*;

use crate::laws::recall::tier;
use crate::like::like;
use crate::order::{lemma_sort_in_order, lemma_sort_members, pair_desc};
use crate::store::{ChunkRecordModel, KnowledgeItemModel, StoreModel};
use crate::store::recall::{anywhere, clean_words, eligible_ids, fits_any, fts_query, gathered};
use crate::store::recall::{is_eligible, like_matches, like_patterns, like_rank, neighbour_count};
use crate::store::recall::{quoted, recalled_hits, tagged, tagged_chunks, unwild, wanted};
use crate::table::{listed, top};
use crate::text::{joined, without, words};
use crate::types::{trust_name, Kind};

verus! {

/// Three times as many neighbours are looked at as are asked for, and eight at least.
pub proof fn neighbours_are_three_times_as_many(k: int)
    requires
        3 * k <= usize::MAX,
    ensures
        k <= 2 ==> neighbour_count(k) == 8,
        k >= 3 ==> neighbour_count(k) == 3 * k,
{
}

/// A number that comes again is passed over.
pub proof fn repeated_numbers_are_passed_over(
    s: StoreModel,
    fused: Seq<i64>,
    n: i64,
    domain: Seq<char>,
    k: int,
)
    requires
        fused.contains(n),
    ensures
        recalled_hits(s, fused.push(n), domain, k) == recalled_hits(s, fused, domain, k),
{
    assert(fused.push(n).drop_last() =~= fused);
}

/// A number that no row of the domain has is passed over.
pub proof fn foreign_numbers_are_passed_over(
    s: StoreModel,
    fused: Seq<i64>,
    n: i64,
    domain: Seq<char>,
    k: int,
)
    requires
        forall|i: int|
            0 <= i < s.knowledge.len() ==> (#[trigger] s.knowledge[i]).id != n
                || s.knowledge[i].domain != domain,
        forall|i: int|
            0 <= i < s.chunks.len() ==> (#[trigger] s.chunks[i]).id != n - 0x1000_0000_0000_0000
                || s.chunks[i].domain != domain,
    ensures
        recalled_hits(s, fused.push(n), domain, k) == recalled_hits(s, fused, domain, k),
{
    assert(fused.push(n).drop_last() =~= fused);
    crate::table::lemma_first_match(
        s.knowledge,
        |k: KnowledgeItemModel| k.id == n && k.domain == domain,
    );
    let m = (n - crate::store::recall::CHUNK_TAG) as i64;
    crate::table::lemma_first_match(
        s.chunks,
        |c: ChunkRecordModel| c.id == m && c.domain == domain,
    );
    if let Some(x) = crate::table::first_match(
        s.knowledge,
        |k: KnowledgeItemModel| k.id == n && k.domain == domain,
    ) {
        assert(s.knowledge[s.knowledge.index_of(x)] == x);
    }
    if let Some(x) = crate::table::first_match(
        s.chunks,
        |c: ChunkRecordModel| c.id == m && c.domain == domain,
    ) {
        assert(s.chunks[s.chunks.index_of(x)] == x);
    }
    assert(gathered(s, fused.push(n), domain, 2 * wanted(k)) == gathered(
        s,
        fused,
        domain,
        2 * wanted(k),
    ));
}

/// The number under which a chunk is ranked is out of the reach of the items.
pub proof fn chunks_are_ranked_apart(id: i64)
    requires
        0 <= id < 0x1000_0000_0000_0000,
    ensures
        tagged(id) == id + 0x1000_0000_0000_0000,
{
}

/// The rows that stand near are kept where they are of the domain and, for an item, of the
/// kind that is asked for; they keep their order.
pub proof fn neighbours_of_the_domain_are_kept(
    s: StoreModel,
    ids: Seq<i64>,
    domain: Seq<char>,
    kind: Option<Kind>,
    id: i64,
)
    ensures
        eligible_ids(s, ids, domain, kind).contains(id) <==> ids.contains(id) && exists|i: int|
            0 <= i < s.knowledge.len() && (#[trigger] s.knowledge[i]).id == id
                && s.knowledge[i].domain == domain && (kind matches Some(x) ==> s.knowledge[i].kind
                == x),
        tagged_chunks(s, seq![], domain).len() == 0,
        ({
            let known = exists|i: int|
                0 <= i < s.chunks.len() && (#[trigger] s.chunks[i]).id == id && s.chunks[i].domain
                    == domain;
            &&& known ==> tagged_chunks(s, ids.push(id), domain) == tagged_chunks(
                s,
                ids,
                domain,
            ).push(tagged(id))
            &&& !known ==> tagged_chunks(s, ids.push(id), domain) == tagged_chunks(s, ids, domain)
        }),
{
    let p = |id: i64| crate::store::recall::has_item(s, id, domain, kind);
    crate::laws::domains::lemma_kept(ids, p);
    let own = |k: KnowledgeItemModel| k.id == id && is_eligible(k, domain, kind);
    if exists|i: int|
        0 <= i < s.knowledge.len() && (#[trigger] s.knowledge[i]).id == id && s.knowledge[i].domain
            == domain && (kind matches Some(x) ==> s.knowledge[i].kind == x) {
        let i = choose|i: int|
            0 <= i < s.knowledge.len() && (#[trigger] s.knowledge[i]).id == id
                && s.knowledge[i].domain == domain && (kind matches Some(x) ==> s.knowledge[i].kind
                == x);
        assert(own(s.knowledge[i]));
    }
    if crate::store::recall::has_item(s, id, domain, kind) {
        let i = choose|i: int| 0 <= i < s.knowledge.len() && own(#[trigger] s.knowledge[i]);
        assert(s.knowledge[i].id == id);
    }
    reveal(Seq::filter);
    assert(ids.push(id).drop_last() =~= ids);
    let q = |id: i64| crate::store::recall::has_chunk(s, id, domain);
    let its = |c: ChunkRecordModel| c.id == id && c.domain == domain;
    if exists|i: int|
        0 <= i < s.chunks.len() && (#[trigger] s.chunks[i]).id == id && s.chunks[i].domain
            == domain {
        let i = choose|i: int|
            0 <= i < s.chunks.len() && (#[trigger] s.chunks[i]).id == id && s.chunks[i].domain
                == domain;
        assert(its(s.chunks[i]));
        assert(q(id));
        assert(tagged_chunks(s, ids.push(id), domain) =~= tagged_chunks(s, ids, domain).push(
            tagged(id),
        ));
    } else {
        if q(id) {
            let i = choose|i: int| 0 <= i < s.chunks.len() && its(#[trigger] s.chunks[i]);
            assert(s.chunks[i].id == id);
        }
    }
    assert(Seq::<i64>::empty().filter(q) =~= seq![]);
}

/// Taking a character out of a text leaves the others in their order.
pub proof fn characters_are_taken_out(s: Seq<char>, c: char, x: char)
    ensures
        without(seq![], c).len() == 0,
        without(s.push(c), c) == without(s, c),
        x != c ==> without(s.push(x), c) == without(s, c).push(x),
{
    assert(s.push(c).drop_last() =~= s);
    assert(s.push(x).drop_last() =~= s);
}

/// A question is looked for by its words: each, without wildcards, anywhere in a text. One
/// without such words is looked for whole.
pub proof fn questions_are_looked_for_by_words(query: Seq<char>, p: Seq<char>)
    ensures
        like_patterns(query).contains(p) ==> (exists|w: Seq<char>| #[trigger]
            words(query).contains(w) && p == "%"@ + without(without(w, '%'), '_') + "%"@ && without(
                without(w, '%'),
                '_',
            ).len() > 0) || p == "%"@ + without(without(query, '%'), '_') + "%"@,
        forall|w: Seq<char>| #[trigger]
            words(query).contains(w) && without(without(w, '%'), '_').len() > 0 ==> like_patterns(
                query,
            ).contains("%"@ + without(without(w, '%'), '_') + "%"@),
        (forall|w: Seq<char>| #[trigger]
            words(query).contains(w) ==> without(without(w, '%'), '_').len() == 0)
            ==> like_patterns(query) == seq!["%"@ + without(without(query, '%'), '_') + "%"@],
{
    let f = |w: Seq<char>| unwild(w);
    let terms = clean_words(words(query), f);
    lemma_clean_words(words(query), f);
    let all = like_patterns(query);
    if all.contains(p) && terms.len() > 0 {
        let m = all.index_of(p);
        assert(p == anywhere(terms[m]));
        assert(terms.contains(terms[m]));
        let w = choose|w: Seq<char>| #[trigger]
            words(query).contains(w) && f(w) == terms[m] && f(w).len() > 0;
        assert(p == "%"@ + without(without(w, '%'), '_') + "%"@);
    }
    if all.contains(p) && terms.len() == 0 {
        assert(p == all[all.index_of(p)]);
    }
    assert forall|w: Seq<char>| #[trigger] words(query).contains(w) && without(
        without(w, '%'),
        '_',
    ).len() > 0 implies all.contains("%"@ + without(without(w, '%'), '_') + "%"@) by {
        assert(f(w).len() > 0);
        assert(terms.contains(f(w)));
        let m = terms.index_of(f(w));
        assert(all[m] == anywhere(terms[m]));
    }
    if forall|w: Seq<char>| #[trigger]
        words(query).contains(w) ==> without(without(w, '%'), '_').len() == 0 {
        if terms.len() > 0 {
            assert(terms.contains(terms[0]));
        }
    }
}

proof fn lemma_clean_words(all: Seq<Seq<char>>, f: spec_fn(Seq<char>) -> Seq<char>)
    ensures
        forall|t: Seq<char>| #[trigger]
            clean_words(all, f).contains(t) <==> exists|w: Seq<char>| #[trigger]
                all.contains(w) && f(w) == t && f(w).len() > 0,
    decreases all.len(),
{
    if all.len() > 0 {
        let head = all.drop_last();
        lemma_clean_words(head, f);
        let c = clean_words(all, f);
        let h = clean_words(head, f);
        assert forall|t: Seq<char>| #[trigger] c.contains(t) <==> exists|w: Seq<char>| #[trigger]
            all.contains(w) && f(w) == t && f(w).len() > 0 by {
            if c.contains(t) {
                let m = c.index_of(t);
                if m < h.len() {
                    assert(h[m] == t);
                    assert(h.contains(t));
                    let w = choose|w: Seq<char>| #[trigger]
                        head.contains(w) && f(w) == t && f(w).len() > 0;
                    let i = head.index_of(w);
                    assert(all[i] == w);
                    assert(all.contains(w));
                } else {
                    assert(all.contains(all.last()));
                }
            }
            if exists|w: Seq<char>| #[trigger] all.contains(w) && f(w) == t && f(w).len() > 0 {
                let w = choose|w: Seq<char>| #[trigger]
                    all.contains(w) && f(w) == t && f(w).len() > 0;
                let i = all.index_of(w);
                if i < head.len() {
                    assert(head[i] == w);
                    assert(head.contains(w));
                    assert(h.contains(t));
                    let m = h.index_of(t);
                    assert(c[m] == t);
                } else {
                    assert(c.last() == t);
                }
            }
        }
    }
}

/// A full-text question asks for any of the words, each in quotes and without its own.
pub proof fn any_word_is_asked_for(query: Seq<char>)
    ensures
        exists|terms: Seq<Seq<char>>|
            {
                &&& fts_query(query) == #[trigger] joined(terms, " OR "@)
                &&& forall|t: Seq<char>| #[trigger]
                    terms.contains(t) <==> exists|w: Seq<char>| #[trigger]
                        words(query).contains(w) && without(w, '"').len() > 0 && t == seq!['"']
                            + without(w, '"') + seq!['"']
            },
{
    let f = |w: Seq<char>| without(w, '"');
    let bare = clean_words(words(query), f);
    lemma_clean_words(words(query), f);
    let terms = bare.map_values(|w: Seq<char>| quoted(w));
    assert forall|t: Seq<char>| #[trigger] terms.contains(t) <==> exists|w: Seq<char>| #[trigger]
        words(query).contains(w) && without(w, '"').len() > 0 && t == seq!['"'] + without(w, '"')
            + seq!['"'] by {
        if terms.contains(t) {
            let m = terms.index_of(t);
            assert(bare.contains(bare[m]));
            let w = choose|w: Seq<char>| #[trigger]
                words(query).contains(w) && f(w) == bare[m] && f(w).len() > 0;
            assert(t == seq!['"'] + without(w, '"') + seq!['"']);
        }
        if exists|w: Seq<char>| #[trigger]
            words(query).contains(w) && without(w, '"').len() > 0 && t == seq!['"'] + without(
                w,
                '"',
            ) + seq!['"'] {
            let w = choose|w: Seq<char>| #[trigger]
                words(query).contains(w) && without(w, '"').len() > 0 && t == seq!['"'] + without(
                    w,
                    '"',
                ) + seq!['"'];
            assert(bare.contains(f(w)));
            let m = bare.index_of(f(w));
            assert(terms[m] == t);
        }
    }
    assert(fts_query(query) == joined(terms, " OR "@));
}

/// Whether an item fits a question: it is of the domain and of the kind, and one of the
/// patterns is in its title or its body.
pub open spec fn is_asked_for(
    k: KnowledgeItemModel,
    domain: Seq<char>,
    kind: Option<Kind>,
    patterns: Seq<Seq<char>>,
) -> bool {
    k.domain == domain && (kind matches Some(x) ==> k.kind == x) && exists|i: int|
        0 <= i < patterns.len() && (like(k.title, #[trigger] patterns[i]) || like(
            k.body,
            patterns[i],
        ))
}

/// The more trusted come first, and of equal trust those that changed later.
pub open spec fn goes_before(a: KnowledgeItemModel, b: KnowledgeItemModel) -> bool {
    tier(trust_name(a.trust)) > tier(trust_name(b.trust)) || (a.trust == b.trust && a.updated_at
        >= b.updated_at)
}

/// The items that fit a question are brought up by trust and time, fifty at most, and none
/// is left out unless fifty go before it.
pub proof fn items_are_brought_up_by_trust(
    s: StoreModel,
    domain: Seq<char>,
    query: Seq<char>,
    kind: Option<Kind>,
)
    ensures
        exists|from: Seq<KnowledgeItemModel>|
            {
                let p = like_patterns(query);
                &&& #[trigger] from.len() == like_matches(s, domain, query, kind).len()
                &&& from.len() <= 50
                &&& forall|i: int|
                    0 <= i < from.len() ==> s.knowledge.contains(#[trigger] from[i]) && is_asked_for(
                        from[i],
                        domain,
                        kind,
                        p,
                    ) && like_matches(s, domain, query, kind)[i] == from[i].id
                &&& forall|i: int, j: int|
                    0 <= i < j < from.len() ==> goes_before(#[trigger] from[i], #[trigger] from[j])
                &&& forall|k: KnowledgeItemModel| #[trigger]
                    s.knowledge.contains(k) && is_asked_for(k, domain, kind, p) && !from.contains(k)
                        ==> from.len() == 50 && forall|i: int|
                        0 <= i < from.len() ==> goes_before(#[trigger] from[i], k)
            },
{
    let pats = like_patterns(query);
    let p = |k: KnowledgeItemModel| is_eligible(k, domain, kind) && fits_any(k, pats);
    let key = |k: KnowledgeItemModel| like_rank(k);
    let le = |a: KnowledgeItemModel, b: KnowledgeItemModel| pair_desc(key(a), key(b));
    let f = s.knowledge.filter(p);
    let all = listed(s.knowledge, p, key);
    crate::laws::domains::lemma_kept(s.knowledge, p);
    lemma_sort_members(f, le);
    lemma_sort_in_order(f, le);
    let from = top(all, 50);
    assert forall|k: KnowledgeItemModel| p(k) == #[trigger] is_asked_for(k, domain, kind, pats) by {}
    assert forall|a: KnowledgeItemModel, b: KnowledgeItemModel| #[trigger] le(a, b) implies goes_before(
        a,
        b,
    ) by {
        crate::laws::recall::lemma_tier(a.trust);
        crate::laws::recall::lemma_tier(b.trust);
    }
    assert forall|i: int| 0 <= i < from.len() implies s.knowledge.contains(#[trigger] from[i])
        && is_asked_for(from[i], domain, kind, pats) && like_matches(s, domain, query, kind)[i]
        == from[i].id by {
        assert(all.contains(all[i]));
        assert(f.contains(all[i]));
    }
    assert forall|i: int, j: int| 0 <= i < j < from.len() implies goes_before(
        #[trigger] from[i],
        #[trigger] from[j],
    ) by {
        assert(le(all[i], all[j]));
    }
    assert forall|k: KnowledgeItemModel| #[trigger] s.knowledge.contains(k) && is_asked_for(
        k,
        domain,
        kind,
        pats,
    ) && !from.contains(k) implies from.len() == 50 && forall|i: int|
        0 <= i < from.len() ==> goes_before(#[trigger] from[i], k) by {
        assert(f.contains(k));
        assert(all.contains(k));
        let at = all.index_of(k);
        if at < from.len() {
            assert(from[at] == k);
        }
        assert forall|i: int| 0 <= i < from.len() implies goes_before(#[trigger] from[i], k) by {
            assert(le(all[i], all[at]));
        }
    }
    assert(from.len() == like_matches(s, domain, query, kind).len());
}

} // verus!
