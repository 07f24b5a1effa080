//! Reference material: ingested sources and the chunks they were cut into.
use vstd::prelude::*;

use crate::redact::redact;
use crate::store::domains::registered;
use crate::store::knowledge::stored_text;
use crate::store::{ChunkRecord, ChunkRecordModel, DomainRecord, DomainRecordModel, KnowledgeItem};
use crate::store::{KnowledgeItemModel, Store, StoreModel, fresh_id, next_id};
use crate::table::{as_count, count_of, find_row, first_match, list, listed, map_at, retain};
use crate::table::{rewrite, top};
use crate::text::{opt_str, own, same, texts};
use crate::types::{lemma_models_push, models, SourceRow, SourceRowModel};

verus! {

/// The number that the next source gets.
pub open spec fn next_source_id(s: StoreModel) -> int {
    fresh_id(s.sources, |r: SourceRowModel| r.id)
}

/// The number that the next chunk gets.
pub open spec fn next_chunk_id(s: StoreModel) -> int {
    fresh_id(s.chunks, |c: ChunkRecordModel| c.id)
}

/// The chunks that some texts of a source are stored as: numbered on from the largest
/// number in use, redacted unless the domain does without.
pub open spec fn new_chunks(
    s: StoreModel,
    source_id: i64,
    domain: Seq<char>,
    texts: Seq<Seq<char>>,
) -> Seq<ChunkRecordModel> {
    Seq::new(
        texts.len(),
        |i: int|
            ChunkRecordModel {
                id: (next_chunk_id(s) + i) as i64,
                source_id,
                domain,
                ord: count_of(i),
                text: stored_text(s, domain, texts[i]),
            },
    )
}

/// A domain after a document was added to it.
pub open spec fn grown_domain(d: DomainRecordModel, name: Seq<char>, now: i64) -> DomainRecordModel {
    if d.name == name {
        DomainRecordModel {
            doc_count: count_of(d.doc_count + 1),
            last_updated: Some(now),
            ..d
        }
    } else {
        d
    }
}

/// A domain that came to be by its first document.
pub open spec fn found_domain(name: Seq<char>, now: i64) -> DomainRecordModel {
    DomainRecordModel {
        name,
        description: None,
        query_hint: None,
        doc_count: 1,
        enforced: false,
        redact_enabled: true,
        retention_days: None,
        is_marketplace_template: false,
        last_updated: Some(now),
    }
}

/// The store after the chunks of a source were added.
pub open spec fn with_chunks(
    s: StoreModel,
    source_id: i64,
    domain: Seq<char>,
    texts: Seq<Seq<char>>,
    now: i64,
) -> StoreModel {
    StoreModel {
        chunks: s.chunks + new_chunks(s, source_id, domain, texts),
        domains: if registered(s, domain) {
            s.domains.map_values(|d: DomainRecordModel| grown_domain(d, domain, now))
        } else {
            s.domains.push(found_domain(domain, now))
        },
        ..s
    }
}

/// An item without the source `id`.
pub open spec fn cut_off(k: KnowledgeItemModel, id: i64) -> KnowledgeItemModel {
    if k.source_id == Some(id) {
        KnowledgeItemModel { source_id: None, ..k }
    } else {
        k
    }
}

/// A domain after a document was taken from it.
pub open spec fn shrunk_domain(d: DomainRecordModel, name: Seq<char>, now: i64) -> DomainRecordModel {
    if d.name == name {
        DomainRecordModel {
            doc_count: if d.doc_count > 0 {
                (d.doc_count - 1) as i64
            } else {
                0
            },
            last_updated: Some(now),
            ..d
        }
    } else {
        d
    }
}

/// The store without the source `id` of a domain: its chunks are gone, and the knowledge
/// that came from it stays without it.
pub open spec fn without_source(s: StoreModel, id: i64, domain: Seq<char>, now: i64) -> StoreModel {
    StoreModel {
        chunks: s.chunks.filter(|c: ChunkRecordModel| c.source_id != id),
        knowledge: s.knowledge.map_values(|k: KnowledgeItemModel| cut_off(k, id)),
        sources: s.sources.filter(|r: SourceRowModel| r.id != id),
        domains: s.domains.map_values(|d: DomainRecordModel| shrunk_domain(d, domain, now)),
        ..s
    }
}

/// The store without any source.
pub open spec fn without_sources(s: StoreModel) -> StoreModel {
    StoreModel {
        chunks: seq![],
        knowledge: s.knowledge.map_values(
            |k: KnowledgeItemModel| KnowledgeItemModel { source_id: None, ..k },
        ),
        sources: seq![],
        domains: s.domains.map_values(
            |d: DomainRecordModel| DomainRecordModel { doc_count: 0, ..d },
        ),
        ..s
    }
}

/// Whether a source belongs to the domain that is asked for.
pub open spec fn is_source_of(r: SourceRowModel, domain: Option<Seq<char>>) -> bool {
    match domain {
        Some(d) => r.domain == d,
        None => true,
    }
}

/// The sources, newest first, a hundred at most; of one domain only, where one is given.
pub open spec fn source_list(s: StoreModel, domain: Option<Seq<char>>) -> Seq<SourceRowModel> {
    top(
        listed(
            s.sources,
            |r: SourceRowModel| is_source_of(r, domain),
            |r: SourceRowModel| (r.fetched_at, 0i64),
        ),
        100,
    )
}

impl Store {
    /// Stores a source. What comes from it is untrusted. Gives its number; `None`, and
    /// nothing stored, where no number is left.
    pub fn add_source(
        &mut self,
        kind: &str,
        uri: Option<&str>,
        title: Option<&str>,
        domain: &str,
        now: i64,
    ) -> (r: Option<i64>)
        ensures
            match r {
                Some(id) => id == next_source_id(old(self)@) && final(self)@ == (StoreModel {
                    sources: old(self)@.sources.push(
                        SourceRowModel {
                            id,
                            kind: kind@,
                            uri: opt_str(uri),
                            title: opt_str(title),
                            domain: domain@,
                            fetched_at: now,
                            trust: "untrusted"@,
                        },
                    ),
                    ..old(self)@
                }),
                None => next_source_id(old(self)@) > i64::MAX && final(self)@ == old(self)@,
            },
    {
        broadcast use lemma_models_push;

        let number_of = |r: &SourceRow| -> (n: i64)
            ensures
                n == r@.id,
            { r.id };
        let id: i64 = match next_id(&self.sources, number_of, Ghost(|r: SourceRowModel| r.id)) {
            Some(n) => n,
            None => {
                return None;
            },
        };
        let row: SourceRow = SourceRow {
            id,
            kind: kind.to_owned(),
            uri: own(uri),
            title: own(title),
            domain: domain.to_owned(),
            fetched_at: now,
            trust: "untrusted".to_owned(),
        };
        let ghost model = row@;
        self.sources.push(row);
        assert(self@ =~= (StoreModel { sources: old(self)@.sources.push(model), ..old(self)@ }));
        Some(id)
    }

    /// Stores the chunks of a source, and counts a document for the domain. Gives the
    /// number of chunks; `None`, and nothing stored, where too few numbers are left.
    pub fn add_chunks(
        &mut self,
        source_id: i64,
        domain: &str,
        chunks: &Vec<String>,
        now: i64,
    ) -> (r: Option<usize>)
        ensures
            match r {
                Some(n) => n == chunks@.len() && (n > 0 ==> next_chunk_id(old(self)@) + n <= i64::MAX + 1)
                    && final(self)@ == with_chunks(
                    old(self)@,
                    source_id,
                    domain@,
                    texts(chunks@),
                    now,
                ),
                None => next_chunk_id(old(self)@) + chunks@.len() > i64::MAX + 1 && final(self)@
                    == old(self)@,
            },
    {
        broadcast use lemma_models_push;

        let ghost s = old(self)@;
        let number_of = |c: &ChunkRecord| -> (n: i64)
            ensures
                n == c@.id,
            { c.id };
        let base: i64 = match next_id(
            &self.chunks,
            number_of,
            Ghost(|c: ChunkRecordModel| c.id),
        ) {
            Some(n) => n,
            None => {
                if chunks.len() > 0 {
                    return None;
                }
                0
            },
        };
        if base as i128 + chunks.len() as i128 > i64::MAX as i128 + 1 {
            return None;
        }
        let hide: bool = self.domain_redact_enabled(domain);
        let ghost new = new_chunks(s, source_id, domain@, texts(chunks@));
        let mut i: usize = 0;
        assert(new.take(0) =~= seq![]);
        assert(models(self.chunks@) =~= s.chunks + new.take(0));
        while i < chunks.len()
            invariant
                i <= chunks@.len(),
                s == old(self)@,
                hide == crate::store::acl::redacts(s, domain@),
                new == new_chunks(s, source_id, domain@, texts(chunks@)),
                chunks@.len() > 0 ==> base == next_chunk_id(s),
                base + chunks@.len() <= i64::MAX + 1,
                models(self.chunks@) == s.chunks + new.take(i as int),
                self@ == (StoreModel { chunks: models(self.chunks@), ..s }),
            decreases chunks.len() - i,
        {
            broadcast use lemma_models_push;

            let text: String = if hide { redact(chunks[i].as_str()) } else { chunks[i].clone() };
            let id: i64 = (base as i128 + i as i128) as i64;
            let row: ChunkRecord = ChunkRecord {
                id,
                source_id,
                domain: domain.to_owned(),
                ord: as_count(i),
                text,
            };
            assert(row@ =~= new[i as int]);
            self.chunks.push(row);
            assert(models(self.chunks@) =~= s.chunks + new.take(i + 1));
            assert(self@ =~= (StoreModel { chunks: models(self.chunks@), ..s }));
            i += 1;
        }
        assert(new.take(i as int) =~= new);
        if self.domain_exists(domain) {
            let grow = |d: DomainRecord| -> (q: DomainRecord)
                ensures
                    q@ == grown_domain(d@, domain@, now),
                {
                    let mut q: DomainRecord = d;
                    if same(q.name.as_str(), domain) {
                        if q.doc_count < i64::MAX {
                            q.doc_count = q.doc_count + 1;
                        }
                        q.last_updated = Some(now);
                    }
                    q
                };
            rewrite(
                &mut self.domains,
                grow,
                Ghost(|d: DomainRecordModel| grown_domain(d, domain@, now)),
            );
        } else {
            let row: DomainRecord = DomainRecord {
                name: domain.to_owned(),
                description: None,
                query_hint: None,
                doc_count: 1,
                enforced: false,
                redact_enabled: true,
                retention_days: None,
                is_marketplace_template: false,
                last_updated: Some(now),
            };
            assert(row@ =~= found_domain(domain@, now));
            self.domains.push(row);
        }
        assert(self@ =~= with_chunks(s, source_id, domain@, texts(chunks@), now));
        Some(chunks.len())
    }

    /// Removes a source and its chunks. Says whether there was one.
    pub fn delete_source(&mut self, id: i64, now: i64) -> (r: bool)
        ensures
            match first_match(old(self)@.sources, |r: SourceRowModel| r.id == id) {
                Some(x) => r && final(self)@ == without_source(old(self)@, id, x.domain, now),
                None => !r && final(self)@ == old(self)@,
            },
    {
        let is = |r: &SourceRow| -> (b: bool)
            ensures
                b == (r@.id == id),
            { r.id == id };
        let domain: String = match find_row(&self.sources, is, Ghost(|r: SourceRowModel| r.id == id)) {
            Some(i) => self.sources[i].domain.clone(),
            None => {
                return false;
            },
        };
        let other_chunk = |c: &ChunkRecord| -> (b: bool)
            ensures
                b == (c@.source_id != id),
            { c.source_id != id };
        retain(&mut self.chunks, other_chunk, Ghost(|c: ChunkRecordModel| c.source_id != id));
        let cut = |k: KnowledgeItem| -> (q: KnowledgeItem)
            ensures
                q@ == cut_off(k@, id),
            {
                let mut q: KnowledgeItem = k;
                if let Some(n) = q.source_id {
                    if n == id {
                        q.source_id = None;
                    }
                }
                q
            };
        rewrite(&mut self.knowledge, cut, Ghost(|k: KnowledgeItemModel| cut_off(k, id)));
        let other = |r: &SourceRow| -> (b: bool)
            ensures
                b == (r@.id != id),
            { r.id != id };
        retain(&mut self.sources, other, Ghost(|r: SourceRowModel| r.id != id));
        let shrink = |d: DomainRecord| -> (q: DomainRecord)
            ensures
                q@ == shrunk_domain(d@, domain@, now),
            {
                let mut q: DomainRecord = d;
                if same(q.name.as_str(), domain.as_str()) {
                    q.doc_count = if q.doc_count > 0 { q.doc_count - 1 } else { 0 };
                    q.last_updated = Some(now);
                }
                q
            };
        rewrite(
            &mut self.domains,
            shrink,
            Ghost(|d: DomainRecordModel| shrunk_domain(d, domain@, now)),
        );
        assert(self@ =~= without_source(old(self)@, id, domain@, now));
        true
    }

    /// The sources, newest first, a hundred at most; of one domain only, where one is
    /// given.
    pub fn list_sources(&self, domain: Option<&str>) -> (r: Vec<SourceRow>)
        ensures
            models(r@) == source_list(self@, opt_str(domain)),
    {
        let is = |r: &SourceRow| -> (b: bool)
            ensures
                b == is_source_of(r@, opt_str(domain)),
            {
                match domain {
                    Some(d) => same(r.domain.as_str(), d),
                    None => true,
                }
            };
        let when = |r: &SourceRow| -> (k: (i64, i64))
            ensures
                k == (r@.fetched_at, 0i64),
            { (r.fetched_at, 0) };
        let at: Vec<usize> = list(
            &self.sources,
            is,
            when,
            100,
            Ghost(|r: SourceRowModel| is_source_of(r, opt_str(domain))),
            Ghost(|r: SourceRowModel| (r.fetched_at, 0i64)),
        );
        let f = |r: &SourceRow| -> (q: SourceRow)
            ensures
                q@ == r@,
            { r.clone() };
        let out: Vec<SourceRow> = map_at(&self.sources, &at, f, Ghost(|r: SourceRowModel| r));
        assert(models(out@) =~= source_list(self@, opt_str(domain)));
        out
    }

    /// Removes every source and every chunk. Gives the number of sources removed.
    pub fn clear_all_sources(&mut self) -> (n: usize)
        ensures
            final(self)@ == without_sources(old(self)@),
            n == old(self)@.sources.len(),
    {
        let n: usize = self.sources.len();
        let cut = |k: KnowledgeItem| -> (q: KnowledgeItem)
            ensures
                q@ == (KnowledgeItemModel { source_id: None, ..k@ }),
            {
                let mut q: KnowledgeItem = k;
                q.source_id = None;
                q
            };
        rewrite(
            &mut self.knowledge,
            cut,
            Ghost(|k: KnowledgeItemModel| KnowledgeItemModel { source_id: None, ..k }),
        );
        self.chunks = Vec::new();
        self.sources = Vec::new();
        let reset = |d: DomainRecord| -> (q: DomainRecord)
            ensures
                q@ == (DomainRecordModel { doc_count: 0, ..d@ }),
            {
                let mut q: DomainRecord = d;
                q.doc_count = 0;
                q
            };
        rewrite(
            &mut self.domains,
            reset,
            Ghost(|d: DomainRecordModel| DomainRecordModel { doc_count: 0, ..d }),
        );
        assert(self@ =~= without_sources(old(self)@));
        n
    }
}

} // verus!
