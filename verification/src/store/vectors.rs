//! Embeddings of knowledge and of chunks: what they are made of, and which are missing.
use vstd::prelude::*;

use crate::embed::{embedding, features, tokens, HashingEmbedder, EMBED_DIMS};
use crate::store::{ChunkRecord, ChunkRecordModel, KnowledgeItem, KnowledgeItemModel, Store};
use crate::store::StoreModel;
use crate::order::picked;
use crate::table::{lemma_filter_ext, lemma_positions, map_at, positions, select};
use crate::text::{chars, decimal, number};
use crate::types::models;

verus! {

/// The text that the embedding of a knowledge item is made of.
pub open spec fn vector_text(title: Seq<char>, body: Seq<char>) -> Seq<char> {
    if title.len() == 0 {
        body
    } else {
        title + "\n"@ + body
    }
}

/// The text that the embedding of a knowledge item is made of.
pub fn embedded_text(title: &str, body: &str) -> (r: String)
    ensures
        r@ == vector_text(title@, body@),
{
    if chars(title).len() == 0 {
        body.to_owned()
    } else {
        let mut r: String = title.to_owned();
        r.append("\n");
        r.append(body);
        r
    }
}

/// An embedding of a row, before it is scaled to unit length.
#[derive(Debug)]
pub struct RowVector {
    pub id: i64,
    pub vector: Vec<i64>,
}

/// What a [`RowVector`] holds, as mathematical values.
#[verifier::ext_equal]
pub struct RowVectorModel {
    pub id: i64,
    pub vector: Seq<i64>,
}

impl View for RowVector {
    type V = RowVectorModel;

    open spec fn view(&self) -> RowVectorModel {
        RowVectorModel { id: self.id, vector: self.vector@ }
    }
}

/// The embedding of a text, under the number of a row.
pub open spec fn vector_of(id: i64, text: Seq<char>) -> RowVectorModel {
    RowVectorModel { id, vector: embedding(features(tokens(text))) }
}

/// The knowledge items without an embedding, given the numbers of those that have one.
pub open spec fn bare_knowledge(s: StoreModel, have: Seq<i64>) -> Seq<KnowledgeItemModel> {
    s.knowledge.filter(|k: KnowledgeItemModel| !have.contains(k.id))
}

/// The chunks without an embedding, given the numbers of those that have one.
pub open spec fn bare_chunks(s: StoreModel, have: Seq<i64>) -> Seq<ChunkRecordModel> {
    s.chunks.filter(|c: ChunkRecordModel| !have.contains(c.id))
}

fn is_in(ids: &Vec<i64>, id: i64) -> (r: bool)
    ensures
        r == ids@.contains(id),
{
    let mut i: usize = 0;
    while i < ids.len()
        invariant
            i <= ids@.len(),
            forall|j: int| 0 <= j < i ==> #[trigger] ids@[j] != id,
        decreases ids.len() - i,
    {
        if ids[i] == id {
            return true;
        }
        i += 1;
    }
    false
}

impl Store {
    /// The embeddings that are missing, of knowledge and of chunks, given the numbers of
    /// the rows that have one.
    pub fn backfill_embeddings(&self, knowledge: &Vec<i64>, chunks: &Vec<i64>) -> (r: (
        Vec<RowVector>,
        Vec<RowVector>,
    ))
        ensures
            models(r.0@) == bare_knowledge(self@, knowledge@).map_values(
                |k: KnowledgeItemModel| vector_of(k.id, vector_text(k.title, k.body)),
            ),
            models(r.1@) == bare_chunks(self@, chunks@).map_values(
                |c: ChunkRecordModel| vector_of(c.id, c.text),
            ),
    {
        let e: HashingEmbedder = HashingEmbedder::new();
        let no_k = |k: &KnowledgeItem| -> (b: bool)
            ensures
                b == !knowledge@.contains(k@.id),
            { !is_in(knowledge, k.id) };
        let ghost pk = |k: KnowledgeItemModel| !knowledge@.contains(k.id);
        let at_k: Vec<usize> = select(&self.knowledge, no_k, Ghost(pk));
        let vec_k = |k: &KnowledgeItem| -> (v: RowVector)
            ensures
                v@ == vector_of(k@.id, vector_text(k@.title, k@.body)),
            {
                let t: String = embedded_text(k.title.as_str(), k.body.as_str());
                let v: RowVector = RowVector { id: k.id, vector: e.embed(t.as_str()) };
                assert(v@ =~= vector_of(k@.id, t@));
                v
            };
        let rk: Vec<RowVector> = map_at(
            &self.knowledge,
            &at_k,
            vec_k,
            Ghost(|k: KnowledgeItemModel| vector_of(k.id, vector_text(k.title, k.body))),
        );
        let no_c = |c: &ChunkRecord| -> (b: bool)
            ensures
                b == !chunks@.contains(c@.id),
            { !is_in(chunks, c.id) };
        let ghost pc = |c: ChunkRecordModel| !chunks@.contains(c.id);
        let at_c: Vec<usize> = select(&self.chunks, no_c, Ghost(pc));
        let vec_c = |c: &ChunkRecord| -> (v: RowVector)
            ensures
                v@ == vector_of(c@.id, c@.text),
            {
                let v: RowVector = RowVector { id: c.id, vector: e.embed(c.text.as_str()) };
                assert(v@ =~= vector_of(c@.id, c@.text));
                v
            };
        let rc: Vec<RowVector> = map_at(
            &self.chunks,
            &at_c,
            vec_c,
            Ghost(|c: ChunkRecordModel| vector_of(c.id, c.text)),
        );
        proof {
            lemma_positions(self@.knowledge, pk);
            lemma_positions(self@.chunks, pc);
        }
        (rk, rc)
    }
}

/// The numbers of some embeddings.
pub open spec fn ids_of(v: Seq<RowVectorModel>) -> Seq<i64> {
    v.map_values(|r: RowVectorModel| r.id)
}

/// Once the missing embeddings are stored, none is missing.
pub proof fn backfilling_leaves_none_bare(s: StoreModel, knowledge: Seq<i64>, chunks: Seq<i64>)
    ensures
        ({
            let k = bare_knowledge(s, knowledge).map_values(
                |k: KnowledgeItemModel| vector_of(k.id, vector_text(k.title, k.body)),
            );
            let c = bare_chunks(s, chunks).map_values(
                |c: ChunkRecordModel| vector_of(c.id, c.text),
            );
            &&& bare_knowledge(s, knowledge + ids_of(k)).len() == 0
            &&& bare_chunks(s, chunks + ids_of(c)).len() == 0
        }),
{
    let ik = |k: KnowledgeItemModel| k.id;
    let ic = |c: ChunkRecordModel| c.id;
    lemma_none_bare(s.knowledge, ik, knowledge);
    lemma_none_bare(s.chunks, ic, chunks);
    let k = bare_knowledge(s, knowledge).map_values(
        |k: KnowledgeItemModel| vector_of(k.id, vector_text(k.title, k.body)),
    );
    let c = bare_chunks(s, chunks).map_values(|c: ChunkRecordModel| vector_of(c.id, c.text));
    let pk = |x: KnowledgeItemModel| !knowledge.contains(x.id);
    let pc = |x: ChunkRecordModel| !chunks.contains(x.id);
    lemma_filter_ext(s.knowledge, pk, |x: KnowledgeItemModel| !knowledge.contains(ik(x)));
    lemma_filter_ext(s.chunks, pc, |x: ChunkRecordModel| !chunks.contains(ic(x)));
    assert(ids_of(k) =~= s.knowledge.filter(pk).map_values(ik));
    assert(ids_of(c) =~= s.chunks.filter(pc).map_values(ic));
    let more_k = knowledge + ids_of(k);
    let more_c = chunks + ids_of(c);
    lemma_filter_ext(
        s.knowledge,
        |x: KnowledgeItemModel| !more_k.contains(x.id),
        |x: KnowledgeItemModel| !more_k.contains(ik(x)),
    );
    lemma_filter_ext(
        s.chunks,
        |x: ChunkRecordModel| !more_c.contains(x.id),
        |x: ChunkRecordModel| !more_c.contains(ic(x)),
    );
}

proof fn lemma_none_bare<V>(rows: Seq<V>, id: spec_fn(V) -> i64, have: Seq<i64>)
    ensures
        ({
            let more = have + rows.filter(|x: V| !have.contains(id(x))).map_values(id);
            rows.filter(|x: V| !more.contains(id(x))).len() == 0
        }),
{
    broadcast use vstd::seq_lib::group_filter_ensures;

    let p = |x: V| !have.contains(id(x));
    let more = have + rows.filter(p).map_values(id);
    let q = |x: V| !more.contains(id(x));
    lemma_positions(rows, q);
    if rows.filter(q).len() > 0 {
        let at = positions(rows, q);
        assert(picked(rows, at).len() == at.len());
        let x = rows[at[0]];
        assert(q(x));
        if have.contains(id(x)) {
            assert(more[have.index_of(id(x))] == id(x));
        } else {
            assert(p(x));
            assert(rows.contains(x));
            assert(rows.filter(p).contains(x));
            let i = rows.filter(p).index_of(x);
            assert(more[have.len() + i] == id(x));
        }
    }
}

/// Refuses an embedding that has not the right number of buckets.
pub fn check_dims(what: &str, len: usize) -> (r: Result<(), String>)
    ensures
        match r {
            Ok(()) => len == EMBED_DIMS,
            Err(e) => len != EMBED_DIMS && e@ == what@ + " embedding must be 384-d, got "@
                + decimal(len as int),
        },
{
    if len == EMBED_DIMS {
        Ok(())
    } else {
        let mut e: String = what.to_owned();
        e.append(" embedding must be 384-d, got ");
        e.append(number(len as i128).as_str());
        Err(e)
    }
}

} // verus!
