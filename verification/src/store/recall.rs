//! Recall: full-text, pattern and vector matches, fused into one ranking, trust first.
//!
//! The full-text and vector matches come from indexes outside; this module says what
//! they are asked, which of their answers count, and what becomes of the fused ranking.
use vstd::prelude::*;

use crate::like::{is_like, like};
use crate::order::{ints, lemma_sort_in_order, lemma_sort_members, pair_desc, picked, stable_sort};
use crate::store::knowledge::stored_text;
use crate::store::retention::distinct_ids;
use crate::store::sources::{new_chunks, next_chunk_id, with_chunks};
use crate::store::{fresh_id_is_fresh, ChunkRecord, ChunkRecordModel, KnowledgeItem};
use crate::store::{KnowledgeItemModel, Store, StoreModel};
use crate::table::{any, find_row, first_match, lemma_first_match, list, listed, some_match, top};
use crate::text::{decimal, join, joined, number, remove_char, same, split_words, texts};
use crate::text::{copy_opt, lemma_texts_push, opt, without, words};
use crate::types::{enforceable, kind_name, models, trust_name, trust_named, trust_rank};
use crate::types::{lemma_models_push, Kind, RecallHit, RecallHitModel, SourceRow, SourceRowModel};
use crate::types::{trust_tiers_are_distinct, Trust};

verus! {

/// What is added to the number of a chunk, so that it does not meet that of a knowledge
/// item in the fused ranking.
pub const CHUNK_TAG: i64 = 0x1000_0000_0000_0000;

// ---- what is asked --------------------------------------------------------

/// The words of a query without a character, and without those that held nothing else.
pub open spec fn clean_words(words: Seq<Seq<char>>, quote: spec_fn(Seq<char>) -> Seq<char>) -> Seq<
    Seq<char>,
>
    decreases words.len(),
{
    if words.len() == 0 {
        seq![]
    } else {
        let before = clean_words(words.drop_last(), quote);
        let w = quote(words.last());
        if w.len() == 0 {
            before
        } else {
            before.push(w)
        }
    }
}

/// A word as a quoted term of a full-text query.
pub open spec fn quoted(w: Seq<char>) -> Seq<char> {
    seq!['"'] + w + seq!['"']
}

/// The full-text query for a text: its words, without the quotes in them, each quoted,
/// any of which may match.
pub open spec fn fts_query(query: Seq<char>) -> Seq<char> {
    joined(
        clean_words(words(query), |w: Seq<char>| without(w, '"')).map_values(
            |w: Seq<char>| quoted(w),
        ),
        " OR "@,
    )
}

/// A full-text query that is safe to run for any text: each word quoted, any of which
/// may match.
pub fn fts_match(query: &str) -> (r: String)
    ensures
        r@ == fts_query(query@),
{
    let words: Vec<String> = split_words(query);
    let ghost strip = |w: Seq<char>| without(w, '"');
    let ghost all = texts(words@);
    let mut terms: Vec<String> = Vec::new();
    let mut i: usize = 0;
    assert(clean_words(all.take(0), strip) =~= seq![]);
    assert(texts(terms@) =~= clean_words(all.take(0), strip).map_values(|w: Seq<char>| quoted(w)));
    while i < words.len()
        invariant
            i <= words@.len(),
            all == texts(words@),
            strip == (|w: Seq<char>| without(w, '"')),
            texts(terms@) == clean_words(all.take(i as int), strip).map_values(
                |w: Seq<char>| quoted(w),
            ),
        decreases words.len() - i,
    {
        broadcast use lemma_texts_push;

        assert(all.take(i + 1).drop_last() =~= all.take(i as int));
        let w: String = remove_char(words[i].as_str(), '"');
        assert(w@ == strip(all[i as int]));
        let ghost before = clean_words(all.take(i as int), strip);
        if !w.as_str().is_empty() {
            let mut t: String = String::new();
            t.push('"');
            t.append(w.as_str());
            t.push('"');
            assert(t@ =~= quoted(w@));
            terms.push(t);
            assert(before.push(w@).map_values(|w: Seq<char>| quoted(w)) =~= before.map_values(
                |w: Seq<char>| quoted(w),
            ).push(quoted(w@)));
        }
        i += 1;
    }
    assert(all.take(i as int) =~= all);
    join(&terms, " OR ")
}

/// What the full-text index is asked for a text: nothing, where no word is left of it.
pub fn text_query(query: &str) -> (r: Option<String>)
    ensures
        opt(r) == if fts_query(query@).len() == 0 {
            None
        } else {
            Some(fts_query(query@))
        },
{
    let t: String = fts_match(query);
    if t.as_str().is_empty() {
        None
    } else {
        Some(t)
    }
}

/// A text without the wild cards of a pattern.
pub open spec fn unwild(w: Seq<char>) -> Seq<char> {
    without(without(w, '%'), '_')
}

/// The pattern for a text that may stand anywhere.
pub open spec fn anywhere(w: Seq<char>) -> Seq<char> {
    "%"@ + w + "%"@
}

/// The patterns for a query: one for each of its words, or one for all of it where no
/// word is left without wild cards.
pub open spec fn like_patterns(query: Seq<char>) -> Seq<Seq<char>> {
    let terms = clean_words(words(query), |w: Seq<char>| unwild(w));
    if terms.len() == 0 {
        seq![anywhere(unwild(query))]
    } else {
        terms.map_values(|w: Seq<char>| anywhere(w))
    }
}

fn pattern_for(w: &str) -> (r: String)
    ensures
        r@ == anywhere(w@),
{
    let mut t: String = "%".to_owned();
    t.append(w);
    t.append("%");
    t
}

fn strip_wild(w: &str) -> (r: String)
    ensures
        r@ == unwild(w@),
{
    remove_char(remove_char(w, '%').as_str(), '_')
}

/// The patterns for a query.
pub fn like_terms(query: &str) -> (r: Vec<String>)
    ensures
        texts(r@) == like_patterns(query@),
{
    let words: Vec<String> = split_words(query);
    let ghost strip = |w: Seq<char>| unwild(w);
    let ghost all = texts(words@);
    let mut terms: Vec<String> = Vec::new();
    let mut i: usize = 0;
    assert(clean_words(all.take(0), strip) =~= seq![]);
    assert(texts(terms@) =~= clean_words(all.take(0), strip).map_values(
        |w: Seq<char>| anywhere(w),
    ));
    while i < words.len()
        invariant
            i <= words@.len(),
            all == texts(words@),
            strip == (|w: Seq<char>| unwild(w)),
            texts(terms@) == clean_words(all.take(i as int), strip).map_values(
                |w: Seq<char>| anywhere(w),
            ),
        decreases words.len() - i,
    {
        broadcast use lemma_texts_push;

        assert(all.take(i + 1).drop_last() =~= all.take(i as int));
        let w: String = strip_wild(words[i].as_str());
        assert(w@ == strip(all[i as int]));
        let ghost before = clean_words(all.take(i as int), strip);
        if !w.as_str().is_empty() {
            terms.push(pattern_for(w.as_str()));
            assert(before.push(w@).map_values(|w: Seq<char>| anywhere(w)) =~= before.map_values(
                |w: Seq<char>| anywhere(w),
            ).push(anywhere(w@)));
        }
        i += 1;
    }
    assert(all.take(i as int) =~= all);
    if terms.len() == 0 {
        assert(texts(terms@).len() == 0);
        terms.push(pattern_for(strip_wild(query).as_str()));
        assert(texts(terms@) =~= like_patterns(query@));
    }
    terms
}

/// How many neighbours the vector indexes are asked for when `k` hits are wanted.
pub open spec fn neighbour_count(k: int) -> int {
    let m = 3 * (if k < 1 {
        1
    } else {
        k
    });
    if m > usize::MAX {
        usize::MAX as int
    } else if m < 8 {
        8
    } else {
        m
    }
}

/// How many neighbours the vector indexes are asked for when `k` hits are wanted.
pub fn neighbour_limit(k: usize) -> (n: usize)
    ensures
        n == neighbour_count(k as int),
{
    let k: usize = if k < 1 { 1 } else { k };
    if k > usize::MAX / 3 {
        usize::MAX
    } else if k * 3 < 8 {
        8
    } else {
        k * 3
    }
}

// ---- which answers count --------------------------------------------------

/// Whether an item belongs to a domain and has the kind that is asked for.
pub open spec fn is_eligible(k: KnowledgeItemModel, domain: Seq<char>, kind: Option<Kind>) -> bool {
    k.domain == domain && (match kind {
        Some(x) => k.kind == x,
        None => true,
    })
}

/// Whether one of some patterns fits the title or the body of an item.
pub open spec fn fits_any(k: KnowledgeItemModel, patterns: Seq<Seq<char>>) -> bool {
    exists|i: int|
        0 <= i < patterns.len() && (like(k.title, #[trigger] patterns[i]) || like(
            k.body,
            patterns[i],
        ))
}

/// What an item is ranked by among those that fit a pattern: trust, then time.
pub open spec fn like_rank(k: KnowledgeItemModel) -> (i64, i64) {
    (trust_rank(k.trust) as i64, k.updated_at)
}

/// The items that fit a query: the most trusted first, then the newest, fifty at most.
pub open spec fn like_matches(
    s: StoreModel,
    domain: Seq<char>,
    query: Seq<char>,
    kind: Option<Kind>,
) -> Seq<i64> {
    top(
        listed(
            s.knowledge,
            |k: KnowledgeItemModel|
                is_eligible(k, domain, kind) && fits_any(k, like_patterns(query)),
            |k: KnowledgeItemModel| like_rank(k),
        ),
        50,
    ).map_values(|k: KnowledgeItemModel| k.id)
}

fn fits(k: &KnowledgeItem, patterns: &Vec<String>) -> (r: bool)
    ensures
        r == fits_any(k@, texts(patterns@)),
{
    let mut i: usize = 0;
    while i < patterns.len()
        invariant
            i <= patterns@.len(),
            forall|j: int|
                0 <= j < i ==> !like(k@.title, #[trigger] texts(patterns@)[j]) && !like(
                    k@.body,
                    texts(patterns@)[j],
                ),
        decreases patterns.len() - i,
    {
        assert(texts(patterns@)[i as int] == patterns@[i as int]@);
        if is_like(k.title.as_str(), patterns[i].as_str()) || is_like(
            k.body.as_str(),
            patterns[i].as_str(),
        ) {
            return true;
        }
        i += 1;
    }
    false
}

/// Whether there is a chunk of a number in a domain.
pub open spec fn has_chunk(s: StoreModel, id: i64, domain: Seq<char>) -> bool {
    some_match(s.chunks, |c: ChunkRecordModel| c.id == id && c.domain == domain)
}

/// Whether there is an eligible item of a number.
pub open spec fn has_item(s: StoreModel, id: i64, domain: Seq<char>, kind: Option<Kind>) -> bool {
    some_match(
        s.knowledge,
        |k: KnowledgeItemModel| k.id == id && is_eligible(k, domain, kind),
    )
}

/// The number of a chunk in the fused ranking.
pub open spec fn tagged(id: i64) -> i64 {
    vstd::wrapping::i64_specs::wrapping_add(id, CHUNK_TAG)
}

/// The numbers in a list that are those of chunks of a domain, tagged as chunks.
pub open spec fn tagged_chunks(s: StoreModel, ids: Seq<i64>, domain: Seq<char>) -> Seq<i64> {
    ids.filter(|id: i64| has_chunk(s, id, domain)).map_values(|id: i64| tagged(id))
}

/// The numbers in a list that are those of eligible items.
pub open spec fn eligible_ids(
    s: StoreModel,
    ids: Seq<i64>,
    domain: Seq<char>,
    kind: Option<Kind>,
) -> Seq<i64> {
    ids.filter(|id: i64| has_item(s, id, domain, kind))
}

impl Store {
    /// The numbers of the items that fit a query: the most trusted first, then the
    /// newest, fifty at most.
    pub fn like_candidates(&self, domain: &str, query: &str, kind: Option<Kind>) -> (r: Vec<i64>)
        ensures
            r@ == like_matches(self@, domain@, query@, kind),
    {
        let patterns: Vec<String> = like_terms(query);
        let is = |k: &KnowledgeItem| -> (b: bool)
            ensures
                b == (is_eligible(k@, domain@, kind) && fits_any(k@, texts(patterns@))),
            {
                same(k.domain.as_str(), domain) && (match kind {
                    Some(x) => k.kind == x,
                    None => true,
                }) && fits(k, &patterns)
            };
        let rank = |k: &KnowledgeItem| -> (q: (i64, i64))
            ensures
                q == like_rank(k@),
            { (k.trust.rank(), k.updated_at) };
        let at: Vec<usize> = list(
            &self.knowledge,
            is,
            rank,
            50,
            Ghost(
                |k: KnowledgeItemModel|
                    is_eligible(k, domain@, kind) && fits_any(k, like_patterns(query@)),
            ),
            Ghost(|k: KnowledgeItemModel| like_rank(k)),
        );
        let ghost p = picked(self@.knowledge, ints(at@));
        let mut out: Vec<i64> = Vec::new();
        let mut i: usize = 0;
        while i < at.len()
            invariant
                i <= at@.len(),
                p == picked(self@.knowledge, ints(at@)),
                forall|j: int| 0 <= j < at@.len() ==> #[trigger] at@[j] < self.knowledge@.len(),
                out@.len() == i,
                forall|j: int| 0 <= j < i ==> #[trigger] out@[j] == p[j].id,
            decreases at.len() - i,
        {
            assert(at@[i as int] < self.knowledge@.len());
            out.push(self.knowledge[at[i]].id);
            i += 1;
        }
        assert(out@ =~= like_matches(self@, domain@, query@, kind));
        out
    }

    /// The numbers in a list that are those of chunks of a domain, tagged as chunks.
    pub fn chunk_candidates(&self, ids: &Vec<i64>, domain: &str) -> (r: Vec<i64>)
        ensures
            r@ == tagged_chunks(self@, ids@, domain@),
    {
        let ghost p = |id: i64| has_chunk(self@, id, domain@);
        let mut out: Vec<i64> = Vec::new();
        let mut i: usize = 0;
        proof {
            reveal(Seq::filter);
            assert(ids@.take(0).filter(p) =~= seq![]);
        }
        assert(out@ =~= ids@.take(0).filter(p).map_values(|id: i64| tagged(id)));
        while i < ids.len()
            invariant
                i <= ids@.len(),
                p == (|id: i64| has_chunk(self@, id, domain@)),
                out@ == ids@.take(i as int).filter(p).map_values(|id: i64| tagged(id)),
            decreases ids.len() - i,
        {
            proof {
                reveal(Seq::filter);
                assert(ids@.take(i + 1).drop_last() =~= ids@.take(i as int));
            }
            let ghost before = ids@.take(i as int).filter(p);
            let id: i64 = ids[i];
            let is = |c: &ChunkRecord| -> (b: bool)
                ensures
                    b == (c@.id == id && c@.domain == domain@),
                { c.id == id && same(c.domain.as_str(), domain) };
            if any(
                &self.chunks,
                is,
                Ghost(|c: ChunkRecordModel| c.id == id && c.domain == domain@),
            ) {
                out.push(id.wrapping_add(CHUNK_TAG));
                assert(out@ =~= before.push(id).map_values(|id: i64| tagged(id)));
            }
            i += 1;
        }
        assert(ids@.take(i as int) =~= ids@);
        out
    }

    /// The numbers in a list that are those of eligible items.
    pub fn knowledge_candidates(&self, ids: &Vec<i64>, domain: &str, kind: Option<Kind>) -> (r: Vec<
        i64,
    >)
        ensures
            r@ == eligible_ids(self@, ids@, domain@, kind),
    {
        let ghost p = |id: i64| has_item(self@, id, domain@, kind);
        let mut out: Vec<i64> = Vec::new();
        let mut i: usize = 0;
        proof {
            reveal(Seq::filter);
            assert(ids@.take(0).filter(p) =~= seq![]);
        }
        while i < ids.len()
            invariant
                i <= ids@.len(),
                p == (|id: i64| has_item(self@, id, domain@, kind)),
                out@ == ids@.take(i as int).filter(p),
            decreases ids.len() - i,
        {
            proof {
                reveal(Seq::filter);
                assert(ids@.take(i + 1).drop_last() =~= ids@.take(i as int));
            }
            let id: i64 = ids[i];
            let is = |k: &KnowledgeItem| -> (b: bool)
                ensures
                    b == (k@.id == id && is_eligible(k@, domain@, kind)),
                {
                    k.id == id && same(k.domain.as_str(), domain) && (match kind {
                        Some(x) => k.kind == x,
                        None => true,
                    })
                };
            if any(
                &self.knowledge,
                is,
                Ghost(|k: KnowledgeItemModel| k.id == id && is_eligible(k, domain@, kind)),
            ) {
                out.push(id);
            }
            i += 1;
        }
        assert(ids@.take(i as int) =~= ids@);
        out
    }

    /// The four lists that are fused, given what the indexes outside found: the chunks
    /// that match the text, the items that fit the query, and the chunks and the items
    /// near to it. Only chunks of the domain count, and only eligible items.
    pub fn ranked_lists(
        &self,
        domain: &str,
        query: &str,
        kind: Option<Kind>,
        by_text: &Vec<i64>,
        near_chunks: &Vec<i64>,
        near_knowledge: &Vec<i64>,
    ) -> (r: (Vec<i64>, Vec<i64>, Vec<i64>, Vec<i64>))
        ensures
            r.0@ == tagged_chunks(self@, by_text@, domain@),
            r.1@ == like_matches(self@, domain@, query@, kind),
            r.2@ == tagged_chunks(self@, near_chunks@, domain@),
            r.3@ == eligible_ids(self@, near_knowledge@, domain@, kind),
    {
        (
            self.chunk_candidates(by_text, domain),
            self.like_candidates(domain, query, kind),
            self.chunk_candidates(near_chunks, domain),
            self.knowledge_candidates(near_knowledge, domain, kind),
        )
    }
}

// ---- what becomes of the ranking ------------------------------------------

/// The hit that a chunk gives: untrusted, with the address of its source.
pub open spec fn chunk_hit(s: StoreModel, id: i64, domain: Seq<char>, rank: usize) -> Option<
    RecallHitModel,
> {
    match first_match(s.chunks, |c: ChunkRecordModel| c.id == id && c.domain == domain) {
        Some(c) => match first_match(s.sources, |r: SourceRowModel| r.id == c.source_id) {
            Some(r) => Some(
                RecallHitModel {
                    source_kind: "chunk"@,
                    kind: None,
                    title: seq![],
                    body: c.text,
                    domain,
                    trust: "untrusted"@,
                    enforceable: false,
                    provenance: r.uri,
                    fetched_at: Some(r.fetched_at),
                    rank,
                },
            ),
            None => None,
        },
        None => None,
    }
}

/// The hit that a knowledge item gives.
pub open spec fn knowledge_hit(s: StoreModel, id: i64, domain: Seq<char>, rank: usize) -> Option<
    RecallHitModel,
> {
    match first_match(s.knowledge, |k: KnowledgeItemModel| k.id == id && k.domain == domain) {
        Some(k) => Some(
            RecallHitModel {
                source_kind: "knowledge"@,
                kind: Some(kind_name(k.kind)),
                title: k.title,
                body: k.body,
                domain,
                trust: trust_name(k.trust),
                enforceable: enforceable(k.trust),
                provenance: match k.source_id {
                    Some(n) => Some("knowledge:source#"@ + decimal(n as int)),
                    None => None,
                },
                fetched_at: Some(k.created_at),
                rank,
            },
        ),
        None => None,
    }
}

/// The hit at a place of the fused ranking.
pub open spec fn hit_of(s: StoreModel, n: i64, domain: Seq<char>, rank: usize) -> Option<
    RecallHitModel,
> {
    if n >= CHUNK_TAG {
        chunk_hit(s, (n - CHUNK_TAG) as i64, domain, rank)
    } else {
        knowledge_hit(s, n, domain, rank)
    }
}

/// The hits of the fused ranking, each once, in its order, `limit` at most.
pub open spec fn gathered(s: StoreModel, fused: Seq<i64>, domain: Seq<char>, limit: int) -> Seq<
    RecallHitModel,
>
    decreases fused.len(),
{
    if fused.len() == 0 {
        seq![]
    } else {
        let before = gathered(s, fused.drop_last(), domain, limit);
        if before.len() >= limit || fused.drop_last().contains(fused.last()) {
            before
        } else {
            match hit_of(s, fused.last(), domain, (fused.len() - 1) as usize) {
                Some(h) => before.push(h),
                None => before,
            }
        }
    }
}

/// The rank of the trust tier of a hit.
pub open spec fn hit_rank(h: RecallHitModel) -> (i64, i64) {
    (trust_rank(trust_named(h.trust)) as i64, 0i64)
}

/// The number of hits that are given when `k` are wanted: one at least.
pub open spec fn wanted(k: int) -> int {
    if k < 1 {
        1
    } else {
        k
    }
}

/// What is recalled, given the fused ranking: of the best hits, twice as many as are
/// wanted, the most trusted first and otherwise in the order of the ranking.
pub open spec fn recalled_hits(s: StoreModel, fused: Seq<i64>, domain: Seq<char>, k: int) -> Seq<
    RecallHitModel,
> {
    top(
        stable_sort(
            gathered(s, fused, domain, 2 * wanted(k)),
            |a: RecallHitModel, b: RecallHitModel| pair_desc(hit_rank(a), hit_rank(b)),
        ),
        wanted(k),
    )
}

impl Store {
    fn hit(&self, n: i64, domain: &str, rank: usize) -> (r: Option<RecallHit>)
        ensures
            match r {
                Some(h) => hit_of(self@, n, domain@, rank) == Some(h@),
                None => hit_of(self@, n, domain@, rank) is None,
            },
    {
        if n >= CHUNK_TAG {
            let id: i64 = n - CHUNK_TAG;
            let is = |c: &ChunkRecord| -> (b: bool)
                ensures
                    b == (c@.id == id && c@.domain == domain@),
                { c.id == id && same(c.domain.as_str(), domain) };
            let i: usize = match find_row(
                &self.chunks,
                is,
                Ghost(|c: ChunkRecordModel| c.id == id && c.domain == domain@),
            ) {
                Some(i) => i,
                None => {
                    return None;
                },
            };
            let source: i64 = self.chunks[i].source_id;
            let from = |r: &SourceRow| -> (b: bool)
                ensures
                    b == (r@.id == source),
                { r.id == source };
            match find_row(&self.sources, from, Ghost(|r: SourceRowModel| r.id == source)) {
                Some(j) => {
                    let h: RecallHit = RecallHit {
                        source_kind: "chunk".to_owned(),
                        kind: None,
                        title: String::new(),
                        body: self.chunks[i].text.clone(),
                        domain: domain.to_owned(),
                        trust: "untrusted".to_owned(),
                        enforceable: false,
                        provenance: copy_opt(&self.sources[j].uri),
                        fetched_at: Some(self.sources[j].fetched_at),
                        rank,
                    };
                    assert(h@.title =~= seq![]);
                    Some(h)
                },
                None => None,
            }
        } else {
            let is = |k: &KnowledgeItem| -> (b: bool)
                ensures
                    b == (k@.id == n && k@.domain == domain@),
                { k.id == n && same(k.domain.as_str(), domain) };
            match find_row(
                &self.knowledge,
                is,
                Ghost(|k: KnowledgeItemModel| k.id == n && k.domain == domain@),
            ) {
                Some(i) => {
                    let k: &KnowledgeItem = &self.knowledge[i];
                    let provenance: Option<String> = match k.source_id {
                        Some(m) => {
                            let mut t: String = "knowledge:source#".to_owned();
                            t.append(number(m as i128).as_str());
                            Some(t)
                        },
                        None => None,
                    };
                    Some(
                        RecallHit {
                            source_kind: "knowledge".to_owned(),
                            kind: Some(k.kind.as_str().to_owned()),
                            title: k.title.clone(),
                            body: k.body.clone(),
                            domain: domain.to_owned(),
                            trust: k.trust.as_str().to_owned(),
                            enforceable: k.trust.is_enforceable(),
                            provenance,
                            fetched_at: Some(k.created_at),
                            rank,
                        },
                    )
                },
                None => None,
            }
        }
    }

    /// What is recalled of a domain, given the fused ranking of the matches: the most
    /// trusted hits first, otherwise in the order of the ranking, `k` at most and one at
    /// least, where there is one.
    pub fn recall(&self, domain: &str, fused: &Vec<i64>, k: usize) -> (r: Vec<RecallHit>)
        ensures
            models(r@) == recalled_hits(self@, fused@, domain@, k as int),
    {
        let k: usize = if k < 1 { 1 } else { k };
        let ghost limit = 2 * k;
        let mut hits: Vec<RecallHit> = Vec::new();
        let mut i: usize = 0;
        assert(models(hits@) =~= gathered(self@, fused@.take(0), domain@, limit));
        while i < fused.len()
            invariant
                i <= fused@.len(),
                k >= 1,
                limit == 2 * k,
                models(hits@) == gathered(self@, fused@.take(i as int), domain@, limit),
            decreases fused.len() - i,
        {
            broadcast use lemma_models_push;

            assert(fused@.take(i + 1).drop_last() =~= fused@.take(i as int));
            let mut seen: bool = false;
            let mut j: usize = 0;
            while j < i
                invariant
                    j <= i < fused@.len(),
                    seen == fused@.take(j as int).contains(fused@[i as int]),
                decreases i - j,
            {
                if fused[j] == fused[i] {
                    seen = true;
                }
                proof {
                    let a = fused@.take(j as int);
                    let b = fused@.take(j + 1);
                    assert(b =~= a.push(fused@[j as int]));
                    if a.contains(fused@[i as int]) {
                        let m = choose|m: int| 0 <= m < a.len() && a[m] == fused@[i as int];
                        assert(b[m] == fused@[i as int]);
                    }
                    if fused@[j as int] == fused@[i as int] {
                        assert(b[j as int] == fused@[i as int]);
                    }
                }
                j += 1;
            }
            if !seen && (hits.len() as u128) < 2 * (k as u128) {
                match self.hit(fused[i], domain, i) {
                    Some(h) => {
                        hits.push(h);
                    },
                    None => {},
                }
            }
            i += 1;
        }
        assert(fused@.take(i as int) =~= fused@);
        let all = |h: &RecallHit| -> (b: bool)
            ensures
                b,
            { true };
        let rank = |h: &RecallHit| -> (q: (i64, i64))
            ensures
                q == hit_rank(h@),
            { (Trust::parse(h.trust.as_str()).rank(), 0) };
        let at: Vec<usize> = list(
            &hits,
            all,
            rank,
            k,
            Ghost(|h: RecallHitModel| true),
            Ghost(|h: RecallHitModel| hit_rank(h)),
        );
        proof {
            crate::table::lemma_filter_none_dropped(models(hits@), |h: RecallHitModel| true);
            crate::table::lemma_sort_ext(
                models(hits@),
                |a: RecallHitModel, b: RecallHitModel|
                    pair_desc((|h: RecallHitModel| hit_rank(h))(a), (|h: RecallHitModel| hit_rank(h))(b)),
                |a: RecallHitModel, b: RecallHitModel| pair_desc(hit_rank(a), hit_rank(b)),
            );
        }
        let f = |h: &RecallHit| -> (q: RecallHit)
            ensures
                q@ == h@,
            { h.clone() };
        let out: Vec<RecallHit> = crate::table::map_at(
            &hits,
            &at,
            f,
            Ghost(|h: RecallHitModel| h),
        );
        assert(models(out@) =~= picked(models(hits@), ints(at@)));
        out
    }
}

// ---- what recall gives ----------------------------------------------------

proof fn lemma_gathered(s: StoreModel, fused: Seq<i64>, domain: Seq<char>, limit: int)
    requires
        limit >= 0,
    ensures
        gathered(s, fused, domain, limit).len() <= limit,
        forall|i: int|
            0 <= i < gathered(s, fused, domain, limit).len() ==> is_sound(
                #[trigger] gathered(s, fused, domain, limit)[i],
                domain,
            ),
    decreases fused.len(),
{
    reveal_strlit("chunk");
    reveal_strlit("knowledge");
    assert("chunk"@.len() == 5 && "knowledge"@.len() == 9);
    assert forall|t: Trust| enforceable(t) <==> #[trigger] trust_name(t) == "reviewed"@
        || trust_name(t) == "user"@ by {
        trust_tiers_are_distinct(t, Trust::Reviewed);
        trust_tiers_are_distinct(t, Trust::User);
    }
    if fused.len() > 0 {
        lemma_gathered(s, fused.drop_last(), domain, limit);
    }
}

/// Whether a hit is of a domain, and is what its origin allows: reference material has no
/// kind, is untrusted and is never enforceable, and knowledge has a kind and is enforceable
/// where it is of a tier that is enforced.
pub open spec fn is_sound(h: RecallHitModel, domain: Seq<char>) -> bool {
    h.domain == domain && (if h.source_kind == "chunk"@ {
        h.kind is None && h.trust == "untrusted"@ && !h.enforceable
    } else {
        h.source_kind == "knowledge"@ && h.kind is Some && (h.enforceable <==> h.trust == "reviewed"@ || h.trust
            == "user"@)
    })
}

/// Recall gives as many hits as are wanted at most, the most trusted first, all of the
/// domain that was asked about, and reference material never as enforceable.
pub proof fn recall_is_bounded_and_trust_comes_first(
    s: StoreModel,
    fused: Seq<i64>,
    domain: Seq<char>,
    k: int,
)
    ensures
        ({
            let hits = recalled_hits(s, fused, domain, k);
            &&& hits.len() <= if k < 1 {
                1
            } else {
                k
            }
            &&& forall|i: int| 0 <= i < hits.len() ==> is_sound(#[trigger] hits[i], domain)
            &&& forall|i: int, j: int|
                0 <= i < j < hits.len() ==> hit_rank(#[trigger] hits[i]).0 >= hit_rank(
                    #[trigger] hits[j],
                ).0
        }),
{
    let all = gathered(s, fused, domain, 2 * wanted(k));
    let le = |a: RecallHitModel, b: RecallHitModel| pair_desc(hit_rank(a), hit_rank(b));
    let sorted = stable_sort(all, le);
    lemma_gathered(s, fused, domain, 2 * wanted(k));
    lemma_sort_members(all, le);
    lemma_sort_in_order(all, le);
    let hits = recalled_hits(s, fused, domain, k);
    assert forall|i: int| 0 <= i < hits.len() implies is_sound(#[trigger] hits[i], domain) by {
        assert(hits[i] == sorted[i]);
        assert(sorted.contains(sorted[i]));
        let j = all.index_of(sorted[i]);
        assert(is_sound(all[j], domain));
    }
    assert forall|i: int, j: int| 0 <= i < j < hits.len() implies hit_rank(#[trigger] hits[i]).0
        >= hit_rank(#[trigger] hits[j]).0 by {
        assert(le(sorted[i], sorted[j]));
    }
}

proof fn lemma_gathered_from(
    s: StoreModel,
    fused: Seq<i64>,
    domain: Seq<char>,
    limit: int,
    h: RecallHitModel,
)
    requires
        gathered(s, fused, domain, limit).contains(h),
    ensures
        exists|j: int|
            0 <= j < fused.len() && hit_of(s, #[trigger] fused[j], domain, j as usize) == Some(h),
    decreases fused.len(),
{
    let before = gathered(s, fused.drop_last(), domain, limit);
    let all = gathered(s, fused, domain, limit);
    let i = all.index_of(h);
    if i < before.len() {
        assert(before[i] == h);
        lemma_gathered_from(s, fused.drop_last(), domain, limit, h);
        let j = choose|j: int|
            0 <= j < fused.drop_last().len() && hit_of(
                s,
                #[trigger] fused.drop_last()[j],
                domain,
                j as usize,
            ) == Some(h);
        assert(fused[j] == fused.drop_last()[j]);
    } else {
        let j = fused.len() - 1;
        assert(hit_of(s, fused[j], domain, j as usize) == Some(h));
    }
}

proof fn lemma_like_matches_fit(
    s: StoreModel,
    domain: Seq<char>,
    query: Seq<char>,
    kind: Option<Kind>,
    n: i64,
)
    requires
        like_matches(s, domain, query, kind).contains(n),
    ensures
        has_item(s, n, domain, kind),
{
    broadcast use vstd::seq_lib::group_filter_ensures;

    let p = |k: KnowledgeItemModel|
        is_eligible(k, domain, kind) && fits_any(k, like_patterns(query));
    let f = s.knowledge.filter(p);
    let key = |k: KnowledgeItemModel| like_rank(k);
    let le = |a: KnowledgeItemModel, b: KnowledgeItemModel| pair_desc(key(a), key(b));
    lemma_sort_members(f, le);
    let sorted = stable_sort(f, le);
    let i = like_matches(s, domain, query, kind).index_of(n);
    let k = sorted[i];
    assert(k.id == n);
    assert(sorted.contains(k));
    assert(f.contains(k));
    let m = f.index_of(k);
    assert(p(f[m]));
    s.knowledge.lemma_filter_contains_rev(p, k);
    let at = s.knowledge.index_of(k);
    let is = |k: KnowledgeItemModel| k.id == n && is_eligible(k, domain, kind);
    assert(is(s.knowledge[at]));
}

/// Where a kind is asked for, every hit that is knowledge is of that kind, however the four
/// lists are fused. The numbers of the items are apart, and those of the chunks leave room
/// for the tag.
pub proof fn recall_keeps_to_the_kind(
    s: StoreModel,
    domain: Seq<char>,
    query: Seq<char>,
    kind: Kind,
    by_text: Seq<i64>,
    near_chunks: Seq<i64>,
    near_knowledge: Seq<i64>,
    fused: Seq<i64>,
    k: int,
)
    requires
        distinct_ids(s.knowledge),
        forall|i: int|
            0 <= i < s.chunks.len() ==> 0 <= (#[trigger] s.chunks[i]).id <= i64::MAX - CHUNK_TAG,
        forall|i: int|
            0 <= i < fused.len() ==> tagged_chunks(s, by_text, domain).contains(#[trigger] fused[i])
                || like_matches(s, domain, query, Some(kind)).contains(fused[i]) || tagged_chunks(
                s,
                near_chunks,
                domain,
            ).contains(fused[i]) || eligible_ids(s, near_knowledge, domain, Some(kind)).contains(
                fused[i],
            ),
    ensures
        ({
            let hits = recalled_hits(s, fused, domain, k);
            forall|i: int|
                0 <= i < hits.len() ==> (#[trigger] hits[i]).source_kind == "knowledge"@
                    ==> hits[i].kind == Some(kind_name(kind))
        }),
{
    broadcast use vstd::seq_lib::group_filter_ensures;

    reveal_strlit("chunk");
    reveal_strlit("knowledge");
    assert("chunk"@.len() == 5 && "knowledge"@.len() == 9);
    let all = gathered(s, fused, domain, 2 * wanted(k));
    let le = |a: RecallHitModel, b: RecallHitModel| pair_desc(hit_rank(a), hit_rank(b));
    lemma_sort_members(all, le);
    let sorted = stable_sort(all, le);
    let hits = recalled_hits(s, fused, domain, k);
    assert forall|i: int|
        0 <= i < hits.len() && (#[trigger] hits[i]).source_kind == "knowledge"@ implies hits[i].kind
        == Some(kind_name(kind)) by {
        assert(hits[i] == sorted[i]);
        assert(sorted.contains(sorted[i]));
        lemma_gathered_from(s, fused, domain, 2 * wanted(k), hits[i]);
        let j = choose|j: int|
            0 <= j < fused.len() && hit_of(s, #[trigger] fused[j], domain, j as usize) == Some(
                hits[i],
            );
        let n = fused[j];
        assert(n < CHUNK_TAG);
        lemma_tagged(s, by_text, domain, n);
        lemma_tagged(s, near_chunks, domain, n);
        if like_matches(s, domain, query, Some(kind)).contains(n) {
            lemma_like_matches_fit(s, domain, query, Some(kind), n);
        } else {
            let e = eligible_ids(s, near_knowledge, domain, Some(kind));
            let m = e.index_of(n);
            assert(has_item(s, e[m], domain, Some(kind)));
        }
        let is = |x: KnowledgeItemModel| x.id == n && is_eligible(x, domain, Some(kind));
        let a = choose|a: int| 0 <= a < s.knowledge.len() && is(#[trigger] s.knowledge[a]);
        let of = |x: KnowledgeItemModel| x.id == n && x.domain == domain;
        lemma_first_match(s.knowledge, of);
        let x = first_match(s.knowledge, of)->0;
        let b = s.knowledge.index_of(x);
        assert(s.knowledge[a].id == s.knowledge[b].id);
        assert(a == b);
    }
}

proof fn lemma_tagged(s: StoreModel, ids: Seq<i64>, domain: Seq<char>, n: i64)
    requires
        forall|i: int|
            0 <= i < s.chunks.len() ==> 0 <= (#[trigger] s.chunks[i]).id <= i64::MAX - CHUNK_TAG,
    ensures
        tagged_chunks(s, ids, domain).contains(n) ==> n >= CHUNK_TAG,
{
    broadcast use vstd::seq_lib::group_filter_ensures;

    let all = tagged_chunks(s, ids, domain);
    if all.contains(n) {
        let i = all.index_of(n);
        let own = ids.filter(|id: i64| has_chunk(s, id, domain));
        let id = own[i];
        assert(own.contains(id));
        assert(has_chunk(s, id, domain));
        let is = |c: ChunkRecordModel| c.id == id && c.domain == domain;
        let a = choose|a: int| 0 <= a < s.chunks.len() && is(#[trigger] s.chunks[a]);
        assert(s.chunks[a].id == id);
        assert(n == id + CHUNK_TAG);
    }
}

/// An item of the domain and the kind that are asked for, which a word of the query fits,
/// is among the candidates, where there is room for all that fit.
pub proof fn items_that_fit_are_candidates(
    s: StoreModel,
    domain: Seq<char>,
    query: Seq<char>,
    kind: Option<Kind>,
    i: int,
)
    requires
        0 <= i < s.knowledge.len(),
        is_eligible(s.knowledge[i], domain, kind),
        fits_any(s.knowledge[i], like_patterns(query)),
        s.knowledge.filter(
            |k: KnowledgeItemModel|
                is_eligible(k, domain, kind) && fits_any(k, like_patterns(query)),
        ).len() <= 50,
    ensures
        like_matches(s, domain, query, kind).contains(s.knowledge[i].id),
{
    broadcast use vstd::seq_lib::group_filter_ensures;

    let p = |k: KnowledgeItemModel|
        is_eligible(k, domain, kind) && fits_any(k, like_patterns(query));
    let f = s.knowledge.filter(p);
    let key = |k: KnowledgeItemModel| like_rank(k);
    let le = |a: KnowledgeItemModel, b: KnowledgeItemModel| pair_desc(key(a), key(b));
    lemma_sort_members(f, le);
    let sorted = stable_sort(f, le);
    assert(p(s.knowledge[i]));
    assert(f.contains(s.knowledge[i]));
    assert(sorted.contains(s.knowledge[i]));
    let j = sorted.index_of(s.knowledge[i]);
    let all = like_matches(s, domain, query, kind);
    assert(all =~= sorted.map_values(|k: KnowledgeItemModel| k.id));
    assert(all[j] == s.knowledge[i].id);
}

proof fn lemma_gathered_all(s: StoreModel, fused: Seq<i64>, domain: Seq<char>, limit: int, i: int)
    requires
        fused.no_duplicates(),
        fused.len() <= limit,
        0 <= i < fused.len(),
        hit_of(s, fused[i], domain, i as usize) is Some,
    ensures
        gathered(s, fused, domain, limit).len() <= fused.len(),
        gathered(s, fused, domain, limit).contains(hit_of(s, fused[i], domain, i as usize)->0),
    decreases fused.len(),
{
    let d = fused.drop_last();
    let h = hit_of(s, fused[i], domain, i as usize)->0;
    let before = gathered(s, d, domain, limit);
    let all = gathered(s, fused, domain, limit);
    lemma_gathered_len(s, d, domain, limit);
    assert(!d.contains(fused.last()));
    if i == fused.len() - 1 {
        assert(all == before.push(h));
        assert(all.last() == h);
    } else {
        lemma_gathered_all(s, d, domain, limit, i);
        let j = before.index_of(h);
        assert(all[j] == h);
    }
}

proof fn lemma_gathered_len(s: StoreModel, fused: Seq<i64>, domain: Seq<char>, limit: int)
    ensures
        gathered(s, fused, domain, limit).len() <= fused.len(),
    decreases fused.len(),
{
    if fused.len() > 0 {
        lemma_gathered_len(s, fused.drop_last(), domain, limit);
    }
}

/// A row that is ranked and stands in the domain is recalled, where as many hits are
/// wanted as are ranked.
pub proof fn ranked_rows_are_recalled(
    s: StoreModel,
    fused: Seq<i64>,
    domain: Seq<char>,
    k: int,
    i: int,
)
    requires
        fused.no_duplicates(),
        fused.len() <= 1 || fused.len() <= k,
        0 <= i < fused.len(),
        hit_of(s, fused[i], domain, i as usize) is Some,
    ensures
        recalled_hits(s, fused, domain, k).contains(hit_of(s, fused[i], domain, i as usize)->0),
{
    let all = gathered(s, fused, domain, 2 * wanted(k));
    let le = |a: RecallHitModel, b: RecallHitModel| pair_desc(hit_rank(a), hit_rank(b));
    lemma_gathered_all(s, fused, domain, 2 * wanted(k), i);
    lemma_sort_members(all, le);
    assert(recalled_hits(s, fused, domain, k) =~= stable_sort(all, le));
}

/// What was ingested is recalled with where it came from: a chunk that was added to a
/// source, once ranked, gives a hit with its text as the domain stores it, the address of
/// the source, and no trust.
pub proof fn ingested_text_has_provenance(
    s: StoreModel,
    source: SourceRowModel,
    domain: Seq<char>,
    texts: Seq<Seq<char>>,
    now: i64,
    i: int,
    rank: usize,
)
    requires
        first_match(s.sources, |r: SourceRowModel| r.id == source.id) == Some(source),
        0 <= next_chunk_id(s),
        next_chunk_id(s) + texts.len() <= CHUNK_TAG,
        0 <= i < texts.len(),
    ensures
        ({
            let t = with_chunks(s, source.id, domain, texts, now);
            let n = tagged((next_chunk_id(s) + i) as i64);
            &&& hit_of(t, n, domain, rank) matches Some(h)
            &&& h.source_kind == "chunk"@
            &&& h.body == stored_text(s, domain, texts[i])
            &&& h.provenance == source.uri
            &&& h.trust == "untrusted"@
            &&& !h.enforceable
        }),
{
    let t = with_chunks(s, source.id, domain, texts, now);
    let new = new_chunks(s, source.id, domain, texts);
    let id = (next_chunk_id(s) + i) as i64;
    let number = |c: ChunkRecordModel| c.id;
    fresh_id_is_fresh(s.chunks, number);
    let is = |c: ChunkRecordModel| c.id == id && c.domain == domain;
    lemma_first_match(t.chunks, is);
    let at = s.chunks.len() + i;
    assert(t.chunks[at] == new[i]);
    assert(is(t.chunks[at]));
    let c = first_match(t.chunks, is)->0;
    let m = choose|m: int| 0 <= m < t.chunks.len() && t.chunks[m] == c;
    if m < s.chunks.len() {
        assert(t.chunks[m] == s.chunks[m]);
        assert(number(s.chunks[m]) < next_chunk_id(s));
    } else {
        assert(t.chunks[m] == new[m - s.chunks.len()]);
    }
}

} // verus!
