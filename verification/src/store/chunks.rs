//! Editing reference material by hand: a source, and the chunks it was cut into.
use vstd::prelude::*;

use crate::redact::redact;
use crate::store::knowledge::stored_text;
use crate::store::sources::next_chunk_id;
use crate::store::{next_id, ChunkRecord, ChunkRecordModel, Store, StoreModel};
use crate::table::{as_count, count_of, find_row, first_match, lemma_positions, map_at, retain};
use crate::table::{rewrite, select, some_match};
use crate::text::{opt_str, own};
use crate::types::{lemma_models_push, models, SourceRow, SourceRowModel};

verus! {

/// Why a chunk was not added.
#[derive(Debug, PartialEq, Eq, Structural)]
pub enum ChunkRefusal {
    /// There is no such source.
    NoSource,
    /// No number is left.
    Full,
}

/// A source after its title and its address were edited.
pub open spec fn edited_source(
    r: SourceRowModel,
    id: i64,
    title: Option<Seq<char>>,
    uri: Option<Seq<char>>,
) -> SourceRowModel {
    if r.id == id {
        SourceRowModel { title, uri, ..r }
    } else {
        r
    }
}

/// The chunks of a source, in the order in which they were stored.
pub open spec fn chunks_of(s: StoreModel, source_id: i64) -> Seq<ChunkRecordModel> {
    s.chunks.filter(|c: ChunkRecordModel| c.source_id == source_id)
}

/// The chunk that a text is added to a source as: behind the others, redacted unless the
/// domain does without.
pub open spec fn added_chunk(s: StoreModel, source: SourceRowModel, text: Seq<char>) -> ChunkRecordModel {
    ChunkRecordModel {
        id: next_chunk_id(s) as i64,
        source_id: source.id,
        domain: source.domain,
        ord: count_of(chunks_of(s, source.id).len() as int),
        text: stored_text(s, source.domain, text),
    }
}

/// A chunk after its text was edited.
pub open spec fn edited_chunk(c: ChunkRecordModel, id: i64, text: Seq<char>) -> ChunkRecordModel {
    if c.id == id {
        ChunkRecordModel { text, ..c }
    } else {
        c
    }
}

impl Store {
    /// Edits the title and the address of a source. Says whether there is one.
    pub fn update_source(&mut self, id: i64, title: Option<&str>, uri: Option<&str>) -> (r: bool)
        ensures
            r == some_match(old(self)@.sources, |r: SourceRowModel| r.id == id),
            final(self)@ == (StoreModel {
                sources: old(self)@.sources.map_values(
                    |r: SourceRowModel| edited_source(r, id, opt_str(title), opt_str(uri)),
                ),
                ..old(self)@
            }),
    {
        let is = |r: &SourceRow| -> (b: bool)
            ensures
                b == (r@.id == id),
            { r.id == id };
        let there: bool = find_row(&self.sources, is, Ghost(|r: SourceRowModel| r.id == id)).is_some();
        let edit = |r: SourceRow| -> (q: SourceRow)
            ensures
                q@ == edited_source(r@, id, opt_str(title), opt_str(uri)),
            {
                let mut q: SourceRow = r;
                if q.id == id {
                    q.title = own(title);
                    q.uri = own(uri);
                }
                q
            };
        rewrite(
            &mut self.sources,
            edit,
            Ghost(|r: SourceRowModel| edited_source(r, id, opt_str(title), opt_str(uri))),
        );
        assert(self@ =~= (StoreModel {
            sources: old(self)@.sources.map_values(
                |r: SourceRowModel| edited_source(r, id, opt_str(title), opt_str(uri)),
            ),
            ..old(self)@
        }));
        there
    }

    /// The chunks of a source, in the order in which they were stored.
    pub fn list_chunks(&self, source_id: i64) -> (r: Vec<ChunkRecord>)
        ensures
            models(r@) == chunks_of(self@, source_id),
    {
        let ghost p = |c: ChunkRecordModel| c.source_id == source_id;
        let is = |c: &ChunkRecord| -> (b: bool)
            ensures
                b == (c@.source_id == source_id),
            { c.source_id == source_id };
        let at: Vec<usize> = select(&self.chunks, is, Ghost(p));
        proof {
            lemma_positions(self@.chunks, p);
        }
        let same_row = |c: &ChunkRecord| -> (q: ChunkRecord)
            ensures
                q@ == c@,
            { c.clone() };
        let out: Vec<ChunkRecord> = map_at(&self.chunks, &at, same_row, Ghost(|c: ChunkRecordModel| c));
        assert(models(out@) =~= chunks_of(self@, source_id));
        out
    }

    /// Adds a chunk to a source, behind its others. Gives its number.
    pub fn add_chunk(&mut self, source_id: i64, text: &str) -> (r: Result<i64, ChunkRefusal>)
        ensures
            match first_match(old(self)@.sources, |r: SourceRowModel| r.id == source_id) {
                None => r == Err::<i64, ChunkRefusal>(ChunkRefusal::NoSource) && final(self)@ == old(
                    self,
                )@,
                Some(x) => if next_chunk_id(old(self)@) > i64::MAX {
                    r == Err::<i64, ChunkRefusal>(ChunkRefusal::Full) && final(self)@ == old(self)@
                } else {
                    r == Ok::<i64, ChunkRefusal>(next_chunk_id(old(self)@) as i64) && final(self)@
                        == (StoreModel {
                        chunks: old(self)@.chunks.push(added_chunk(old(self)@, x, text@)),
                        ..old(self)@
                    })
                },
            },
    {
        broadcast use lemma_models_push;

        let is = |r: &SourceRow| -> (b: bool)
            ensures
                b == (r@.id == source_id),
            { r.id == source_id };
        let domain: String = match find_row(
            &self.sources,
            is,
            Ghost(|r: SourceRowModel| r.id == source_id),
        ) {
            Some(i) => self.sources[i].domain.clone(),
            None => {
                return Err(ChunkRefusal::NoSource);
            },
        };
        let number_of = |c: &ChunkRecord| -> (n: i64)
            ensures
                n == c@.id,
            { c.id };
        let id: i64 = match next_id(&self.chunks, number_of, Ghost(|c: ChunkRecordModel| c.id)) {
            Some(n) => n,
            None => {
                return Err(ChunkRefusal::Full);
            },
        };
        let others: Vec<ChunkRecord> = self.list_chunks(source_id);
        assert(models(others@).len() == others@.len());
        let stored: String = if self.domain_redact_enabled(domain.as_str()) {
            redact(text)
        } else {
            text.to_owned()
        };
        let row: ChunkRecord = ChunkRecord {
            id,
            source_id,
            domain,
            ord: as_count(others.len()),
            text: stored,
        };
        let ghost model = row@;
        self.chunks.push(row);
        assert(self@ =~= (StoreModel { chunks: old(self)@.chunks.push(model), ..old(self)@ }));
        Ok(id)
    }

    /// Edits the text of a chunk, redacted unless its domain does without. Says whether
    /// there is one.
    pub fn update_chunk(&mut self, id: i64, text: &str) -> (r: bool)
        ensures
            match first_match(old(self)@.chunks, |c: ChunkRecordModel| c.id == id) {
                Some(x) => r && final(self)@ == (StoreModel {
                    chunks: old(self)@.chunks.map_values(
                        |c: ChunkRecordModel|
                            edited_chunk(c, id, stored_text(old(self)@, x.domain, text@)),
                    ),
                    ..old(self)@
                }),
                None => !r && final(self)@ == old(self)@,
            },
    {
        let is = |c: &ChunkRecord| -> (b: bool)
            ensures
                b == (c@.id == id),
            { c.id == id };
        let domain: String = match find_row(&self.chunks, is, Ghost(|c: ChunkRecordModel| c.id == id)) {
            Some(i) => self.chunks[i].domain.clone(),
            None => {
                return false;
            },
        };
        let stored: String = if self.domain_redact_enabled(domain.as_str()) {
            redact(text)
        } else {
            text.to_owned()
        };
        let edit = |c: ChunkRecord| -> (q: ChunkRecord)
            ensures
                q@ == edited_chunk(c@, id, stored@),
            {
                let mut q: ChunkRecord = c;
                if q.id == id {
                    q.text = stored.clone();
                }
                q
            };
        rewrite(
            &mut self.chunks,
            edit,
            Ghost(|c: ChunkRecordModel| edited_chunk(c, id, stored@)),
        );
        assert(self@ =~= (StoreModel {
            chunks: old(self)@.chunks.map_values(
                |c: ChunkRecordModel| edited_chunk(c, id, stored@),
            ),
            ..old(self)@
        }));
        true
    }

    /// Removes a chunk. Says whether there was one.
    pub fn delete_chunk(&mut self, id: i64) -> (r: bool)
        ensures
            r == some_match(old(self)@.chunks, |c: ChunkRecordModel| c.id == id),
            final(self)@ == (StoreModel {
                chunks: old(self)@.chunks.filter(|c: ChunkRecordModel| c.id != id),
                ..old(self)@
            }),
    {
        let is = |c: &ChunkRecord| -> (b: bool)
            ensures
                b == (c@.id == id),
            { c.id == id };
        let there: bool = find_row(&self.chunks, is, Ghost(|c: ChunkRecordModel| c.id == id)).is_some();
        let other = |c: &ChunkRecord| -> (b: bool)
            ensures
                b == (c@.id != id),
            { c.id != id };
        retain(&mut self.chunks, other, Ghost(|c: ChunkRecordModel| c.id != id));
        assert(self@ =~= (StoreModel {
            chunks: old(self)@.chunks.filter(|c: ChunkRecordModel| c.id != id),
            ..old(self)@
        }));
        there
    }
}

} // verus!
