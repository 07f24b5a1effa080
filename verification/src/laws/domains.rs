//! Domains, and what is kept in them.
use vstd::prelude::*;

use crate::health::{remote_of, snapshot_of, SyncHealth};
use crate::laws::listing::{lemma_lists, lists};
use crate::order::{lemma_lex, lemma_single_text, lemma_sort_in_order, lemma_sort_members};
use crate::order::{pair_desc, texts_le};
use crate::store::{ChunkRecordModel, DomainRecordModel, KnowledgeItemModel, PreferenceModel};
use crate::store::{StoreModel, SubmissionRecordModel};
use crate::store::chunks::{added_chunk, chunks_of, edited_chunk, edited_source};
use crate::store::domains::{changed_domain, domain_list, domain_row, edited_domain, exported_items};
use crate::store::domains::{has_status, is_active_rule, new_domain, reviewed_submission};
use crate::store::domains::{stage_list, submission_list, without_domain, DomainChange};
use crate::store::knowledge::{clamped, stored_text};
use crate::store::media::{attached, inherited};
use crate::store::profile::preference_list;
use crate::store::sources::{found_domain, grown_domain, new_chunks, shrunk_domain, with_chunks};
use crate::store::sources::{without_source, without_sources};
use crate::store::vectors::{bare_chunks, bare_knowledge, vector_of, vector_text};
use crate::table::{listed, reversed_key, sorted_by, top};
use crate::types::{Kind, MarketplaceItemModel, MediaRowModel, SourceRowModel, StageRowModel, Trust};

verus! {

/// A new domain is not enforced and has its texts redacted, unless told otherwise; it has
/// no documents.
pub proof fn new_domains_are_redacted(name: Seq<char>, c: DomainChange, now: i64)
    ensures
        ({
            let d = new_domain(name, c, now);
            &&& d.name == name && d.doc_count == 0 && d.last_updated == Some(now)
            &&& d.description == c.description && d.query_hint == c.query_hint
            &&& d.enforced <==> c.enforced == Some(true)
            &&& d.redact_enabled <==> c.redact_enabled != Some(false)
            &&& d.is_marketplace_template <==> c.is_marketplace_template == Some(true)
            &&& c.retention_days is None ==> d.retention_days is None
        }),
{
}

/// A change to a domain takes what it names.
pub proof fn told_changes_are_taken(d: DomainRecordModel, c: DomainChange, now: i64)
    ensures
        ({
            let e = changed_domain(d, d.name, c, now);
            &&& e.name == d.name && e.last_updated == Some(now)
            &&& c.description is Some ==> e.description == c.description
            &&& c.query_hint is Some ==> e.query_hint == c.query_hint
            &&& c.enforced matches Some(v) ==> e.enforced == v
            &&& c.redact_enabled matches Some(v) ==> e.redact_enabled == v
            &&& c.is_marketplace_template matches Some(v) ==> e.is_marketplace_template == v
        }),
{
}

/// A retention is held to its ceiling: it is the smaller of the two, and none stays none.
pub proof fn retention_is_held_to_its_ceiling(value: Option<i64>, max: Option<i64>)
    ensures
        value is None ==> clamped(value, max) is None,
        max is None ==> clamped(value, max) == value,
        value matches Some(n) ==> max matches Some(m) ==> (clamped(value, max) matches Some(r) && r
            <= m && r <= n && (r == m || r == n)),
{
}

/// The domains are listed by their names, each with what its record says and with the
/// number of its rules that are in force.
pub proof fn domains_are_listed_by_name(s: StoreModel)
    ensures
        domain_list(s).len() == s.domains.len(),
        forall|i: int, j: int|
            0 <= i < j < domain_list(s).len() ==> crate::text::lex_le(
                (#[trigger] domain_list(s)[i]).name,
                (#[trigger] domain_list(s)[j]).name,
            ),
        forall|i: int|
            0 <= i < s.domains.len() ==> domain_list(s).contains(
                domain_row(s, #[trigger] s.domains[i]),
            ),
{
    let key = |d: DomainRecordModel| seq![d.name];
    let le = |a: DomainRecordModel, b: DomainRecordModel| texts_le(key(a), key(b));
    let all = sorted_by(s.domains, key);
    lemma_sort_members(s.domains, le);
    assert forall|a: DomainRecordModel, b: DomainRecordModel| #[trigger] le(a, b) || le(b, a) by {
        lemma_single_text(a.name, b.name);
        lemma_single_text(b.name, a.name);
        lemma_lex(a.name, b.name, a.name);
    }
    assert forall|a: DomainRecordModel, b: DomainRecordModel, c: DomainRecordModel| #[trigger]
        le(a, b) && #[trigger] le(b, c) implies le(a, c) by {
        lemma_single_text(a.name, b.name);
        lemma_single_text(b.name, c.name);
        lemma_single_text(a.name, c.name);
        lemma_lex(a.name, b.name, c.name);
    }
    lemma_sort_in_order(s.domains, le);
    let shown = domain_list(s);
    assert forall|i: int, j: int| 0 <= i < j < shown.len() implies crate::text::lex_le(
        (#[trigger] shown[i]).name,
        (#[trigger] shown[j]).name,
    ) by {
        assert(le(all[i], all[j]));
        lemma_single_text(all[i].name, all[j].name);
    }
    assert forall|i: int| 0 <= i < s.domains.len() implies shown.contains(
        domain_row(s, #[trigger] s.domains[i]),
    ) by {
        assert(s.domains.contains(s.domains[i]));
        assert(all.contains(s.domains[i]));
        let m = all.index_of(s.domains[i]);
        assert(shown[m] == domain_row(s, s.domains[i]));
    }
}

/// A row of the list shows the record, and counts the rules that a user stated or that were
/// reviewed.
pub proof fn rows_show_their_domain(s: StoreModel, d: DomainRecordModel)
    requires
        s.knowledge.len() <= i64::MAX,
    ensures
        ({
            let r = domain_row(s, d);
            &&& r.name == d.name && r.description == d.description && r.query_hint == d.query_hint
            &&& r.doc_count == d.doc_count && r.last_updated == d.last_updated
            &&& r.enforced == d.enforced && r.retention_days == d.retention_days
            &&& r.is_marketplace_template == d.is_marketplace_template
            &&& r.rule_count == s.knowledge.filter(
                |k: KnowledgeItemModel|
                    k.domain == d.name && k.kind == Kind::Rule && (k.trust == Trust::Reviewed
                        || k.trust == Trust::User),
            ).len()
        }),
{
    let p = |k: KnowledgeItemModel| is_active_rule(k, d.name);
    let q = |k: KnowledgeItemModel|
        k.domain == d.name && k.kind == Kind::Rule && (k.trust == Trust::Reviewed || k.trust
            == Trust::User);
    assert(p =~= q);
    s.knowledge.lemma_filter_len(p);
}

/// The stages of a taxonomy come in their order, all of them.
pub proof fn stages_come_in_order(s: StoreModel, taxonomy: Seq<char>)
    ensures
        forall|i: int, j: int|
            0 <= i < j < stage_list(s, taxonomy).len() ==> (
            #[trigger] stage_list(s, taxonomy)[i]).ordinal <= (
            #[trigger] stage_list(s, taxonomy)[j]).ordinal,
        forall|r: StageRowModel| #[trigger]
            stage_list(s, taxonomy).contains(r) <==> s.stages.contains(r) && r.taxonomy == taxonomy,
{
    let p = |r: StageRowModel| r.taxonomy == taxonomy;
    let key = |r: StageRowModel| (reversed_key(r.ordinal), 0i64);
    lemma_listed(s.stages, p, key);
    let le = |a: StageRowModel, b: StageRowModel| pair_desc(key(a), key(b));
    let all = stage_list(s, taxonomy);
    assert forall|i: int, j: int| 0 <= i < j < all.len() implies (#[trigger] all[i]).ordinal <= (
    #[trigger] all[j]).ordinal by {
        assert(le(all[i], all[j]));
    }
}

/// A listing holds the rows that meet its test, and no others, in its order.
proof fn lemma_listed<V>(s: Seq<V>, p: spec_fn(V) -> bool, key: spec_fn(V) -> (i64, i64))
    ensures
        forall|x: V| #[trigger] listed(s, p, key).contains(x) <==> s.contains(x) && p(x),
        forall|i: int, j: int|
            0 <= i < j < listed(s, p, key).len() ==> pair_desc(
                key(#[trigger] listed(s, p, key)[i]),
                key(#[trigger] listed(s, p, key)[j]),
            ),
{
    broadcast use vstd::seq_lib::group_filter_ensures;

    let le = |a: V, b: V| pair_desc(key(a), key(b));
    let f = s.filter(p);
    let all = listed(s, p, key);
    lemma_sort_members(f, le);
    lemma_sort_in_order(f, le);
    assert forall|x: V| #[trigger] all.contains(x) <==> s.contains(x) && p(x) by {
        if all.contains(x) {
            s.lemma_filter_contains_rev(p, x);
            assert(p(f[f.index_of(x)]));
        }
        if s.contains(x) && p(x) {
            assert(p(s[s.index_of(x)]));
            assert(f.contains(x));
        }
    }
    assert forall|i: int, j: int| 0 <= i < j < all.len() implies pair_desc(
        key(#[trigger] all[i]),
        key(#[trigger] all[j]),
    ) by {
        assert(le(all[i], all[j]));
    }
}

/// Clearing a domain takes all that is in it, and nothing else.
pub proof fn clearing_takes_the_domain_alone(s: StoreModel, domain: Seq<char>)
    ensures
        ({
            let t = without_domain(s, domain, false);
            &&& forall|k: KnowledgeItemModel| #[trigger]
                t.knowledge.contains(k) <==> s.knowledge.contains(k) && k.domain != domain
            &&& forall|c: ChunkRecordModel| #[trigger]
                t.chunks.contains(c) <==> s.chunks.contains(c) && c.domain != domain
            &&& forall|r: SourceRowModel| #[trigger]
                t.sources.contains(r) <==> s.sources.contains(r) && r.domain != domain
            &&& forall|d: DomainRecordModel| #[trigger]
                t.domains.contains(d) <==> s.domains.contains(d) && d.name != domain
            &&& t.episodes == s.episodes && t.permissions == s.permissions && t.models == s.models
            &&& t.rules == s.rules && t.media == s.media && t.preferences == s.preferences
        }),
{
    lemma_kept(s.knowledge, |k: KnowledgeItemModel| k.domain != domain);
    lemma_kept(s.chunks, |c: ChunkRecordModel| c.domain != domain);
    lemma_kept(s.sources, |r: SourceRowModel| r.domain != domain);
    lemma_kept(s.domains, |d: DomainRecordModel| d.name != domain);
}

/// A filter keeps what meets its test, and nothing else.
pub proof fn lemma_kept<V>(s: Seq<V>, p: spec_fn(V) -> bool)
    ensures
        forall|x: V| #[trigger] s.filter(p).contains(x) <==> s.contains(x) && p(x),
{
    broadcast use vstd::seq_lib::group_filter_ensures;

    let f = s.filter(p);
    assert forall|x: V| #[trigger] f.contains(x) <==> s.contains(x) && p(x) by {
        if f.contains(x) {
            s.lemma_filter_contains_rev(p, x);
            assert(p(f[f.index_of(x)]));
        }
        if s.contains(x) && p(x) {
            assert(p(s[s.index_of(x)]));
        }
    }
}

/// An edit of a domain sets its description and hint, and whether it is enforced where that
/// is told; other domains stay.
pub proof fn edits_change_one_domain(
    d: DomainRecordModel,
    name: Seq<char>,
    description: Option<Seq<char>>,
    query_hint: Option<Seq<char>>,
    enforced: Option<bool>,
    now: i64,
)
    ensures
        ({
            let e = edited_domain(d, name, description, query_hint, enforced, now);
            &&& d.name != name ==> e == d
            &&& d.name == name ==> {
                &&& e.description == description && e.query_hint == query_hint
                &&& e.last_updated == Some(now)
                &&& e.enforced <==> (enforced == Some(true) || (enforced is None && d.enforced))
                &&& e.doc_count == d.doc_count && e.retention_days == d.retention_days
                &&& e.redact_enabled == d.redact_enabled
                &&& e.is_marketplace_template == d.is_marketplace_template && e.name == d.name
            }
        }),
{
}

/// The submissions are listed the latest first, two hundred at most, and of one status only
/// where one is asked for; each is shown with its status and author.
pub proof fn the_latest_submissions_are_listed(s: StoreModel, status: Option<Seq<char>>)
    ensures
        exists|shown: Seq<SubmissionRecordModel>|
            {
                &&& lists(
                    shown,
                    s.submissions,
                    |r: SubmissionRecordModel| status matches Some(t) ==> r.status == t,
                    |r: SubmissionRecordModel| r.submitted_at as int,
                    200,
                )
                &&& submission_list(s, status).len() == #[trigger] shown.len()
                &&& forall|i: int|
                    0 <= i < shown.len() ==> {
                        let x = #[trigger] submission_list(s, status)[i];
                        &&& x.id == shown[i].id && x.slug == shown[i].slug
                        &&& x.description == shown[i].description
                        &&& x.query_hint == shown[i].query_hint
                        &&& x.status == shown[i].status && x.note == shown[i].note
                        &&& x.submitted_at == shown[i].submitted_at
                        &&& x.reviewed_at == shown[i].reviewed_at
                        &&& x.author == shown[i].author
                    }
            },
{
    let p = |r: SubmissionRecordModel| has_status(r, status);
    let q = |r: SubmissionRecordModel| status matches Some(t) ==> r.status == t;
    assert(p =~= q);
    let rank = |r: SubmissionRecordModel| (r.submitted_at, r.id);
    let key = |r: SubmissionRecordModel| r.submitted_at as int;
    lemma_lists(s.submissions, p, rank, key, 200);
    let shown = top(listed(s.submissions, p, rank), 200);
    assert(lists(shown, s.submissions, q, key, 200));
    assert(submission_list(s, status).len() == shown.len());
}

/// A review sets the status and the note of one submission, and when that was.
pub proof fn reviews_settle_one_submission(
    r: SubmissionRecordModel,
    id: i64,
    status: Seq<char>,
    note: Option<Seq<char>>,
    now: i64,
)
    ensures
        r.id != id ==> reviewed_submission(r, id, status, note, now) == r,
        r.id == id ==> {
            let e = reviewed_submission(r, id, status, note, now);
            &&& e.status == status && e.note == note && e.reviewed_at == Some(now)
            &&& e.slug == r.slug && e.items_json == r.items_json && e.author == r.author
            &&& e.submitted_at == r.submitted_at && e.description == r.description
        },
{
}

/// What is exported of a domain is what a user stated or what was reviewed, in the order of
/// the numbers.
pub proof fn exports_hold_what_is_in_force(s: StoreModel, domain: Seq<char>)
    ensures
        exists|from: Seq<KnowledgeItemModel>|
            {
                &&& #[trigger] from.len() == exported_items(s, domain).len()
                &&& forall|k: KnowledgeItemModel| #[trigger]
                    from.contains(k) <==> s.knowledge.contains(k) && k.domain == domain && (k.trust
                        == Trust::Reviewed || k.trust == Trust::User)
                &&& forall|i: int, j: int|
                    0 <= i < j < from.len() ==> (#[trigger] from[i]).id <= (#[trigger] from[j]).id
                &&& forall|i: int|
                    0 <= i < from.len() ==> #[trigger] exported_items(s, domain)[i] == (
                    MarketplaceItemModel {
                        kind: from[i].kind,
                        stage: from[i].stage,
                        title: from[i].title,
                        body: from[i].body,
                        trigger: from[i].trigger,
                        severity: from[i].severity,
                        remediation: from[i].remediation,
                    })
            },
{
    let p = |k: KnowledgeItemModel| k.domain == domain && crate::types::enforceable(k.trust);
    let key = |k: KnowledgeItemModel| (reversed_key(k.id), 0i64);
    lemma_listed(s.knowledge, p, key);
    let from = listed(s.knowledge, p, key);
    assert forall|k: KnowledgeItemModel| #[trigger] from.contains(k) <==> s.knowledge.contains(k)
        && k.domain == domain && (k.trust == Trust::Reviewed || k.trust == Trust::User) by {}
    assert forall|i: int, j: int| 0 <= i < j < from.len() implies (#[trigger] from[i]).id <= (
    #[trigger] from[j]).id by {
        assert(pair_desc(key(from[i]), key(from[j])));
    }
    assert(from.len() == exported_items(s, domain).len());
}

// ---- sources --------------------------------------------------------------

/// The chunks of a document are stored in order, each with its source, its domain and its
/// place, and the domain counts one document more.
pub proof fn documents_are_stored_in_order(
    s: StoreModel,
    source_id: i64,
    domain: Seq<char>,
    texts: Seq<Seq<char>>,
    now: i64,
)
    requires
        texts.len() <= i64::MAX,
    ensures
        ({
            let t = with_chunks(s, source_id, domain, texts, now);
            let n = s.chunks.len();
            &&& t.chunks.len() == n + texts.len()
            &&& forall|i: int| 0 <= i < n ==> #[trigger] t.chunks[i] == s.chunks[i]
            &&& forall|i: int|
                n <= i < n + texts.len() ==> {
                    let c = #[trigger] t.chunks[i];
                    &&& c.source_id == source_id && c.domain == domain && c.ord == i - n
                    &&& c.text == stored_text(s, domain, texts[i - n])
                }
            &&& t.knowledge == s.knowledge && t.sources == s.sources
        }),
{
    let t = with_chunks(s, source_id, domain, texts, now);
    let n = s.chunks.len();
    assert forall|i: int| n <= i < n + texts.len() implies {
        let c = #[trigger] t.chunks[i];
        &&& c.source_id == source_id && c.domain == domain && c.ord == i - n
        &&& c.text == stored_text(s, domain, texts[i - n])
    } by {
        assert(t.chunks[i] == new_chunks(s, source_id, domain, texts)[i - n]);
    }
}

/// A document counts one in its domain, and no longer when it is gone.
pub proof fn domains_count_their_documents(
    d: DomainRecordModel,
    name: Seq<char>,
    now: i64,
    later: i64,
)
    requires
        0 <= d.doc_count < i64::MAX,
    ensures
        d.name == name ==> {
            let e = grown_domain(d, name, now);
            &&& e.doc_count == d.doc_count + 1 && e.last_updated == Some(now)
            &&& shrunk_domain(e, name, later).doc_count == d.doc_count
            &&& e == (DomainRecordModel { doc_count: e.doc_count, last_updated: Some(now), ..d })
        },
        d.name != name ==> grown_domain(d, name, now) == d && shrunk_domain(d, name, now) == d,
        d.name == name && d.doc_count == 0 ==> shrunk_domain(d, name, now).doc_count == 0,
        found_domain(name, now).doc_count == 1,
        found_domain(name, now).redact_enabled,
        !found_domain(name, now).enforced,
{
}

/// With a source its chunks go, and what was learnt from it stays without it.
pub proof fn sources_go_with_their_chunks(s: StoreModel, id: i64, domain: Seq<char>, now: i64)
    ensures
        ({
            let t = without_source(s, id, domain, now);
            &&& forall|c: ChunkRecordModel| #[trigger]
                t.chunks.contains(c) <==> s.chunks.contains(c) && c.source_id != id
            &&& forall|r: SourceRowModel| #[trigger]
                t.sources.contains(r) <==> s.sources.contains(r) && r.id != id
            &&& t.knowledge.len() == s.knowledge.len()
            &&& forall|i: int|
                0 <= i < s.knowledge.len() ==> #[trigger] t.knowledge[i] == (KnowledgeItemModel {
                    source_id: if s.knowledge[i].source_id == Some(id) {
                        None
                    } else {
                        s.knowledge[i].source_id
                    },
                    ..s.knowledge[i]
                })
        }),
{
    lemma_kept(s.chunks, |c: ChunkRecordModel| c.source_id != id);
    lemma_kept(s.sources, |r: SourceRowModel| r.id != id);
}

/// With all sources all chunks go, and no domain counts a document.
pub proof fn no_source_leaves_no_chunk(s: StoreModel)
    ensures
        ({
            let t = without_sources(s);
            &&& t.chunks.len() == 0 && t.sources.len() == 0
            &&& t.knowledge.len() == s.knowledge.len() && t.domains.len() == s.domains.len()
            &&& forall|i: int|
                0 <= i < s.knowledge.len() ==> #[trigger] t.knowledge[i] == (KnowledgeItemModel {
                    source_id: None,
                    ..s.knowledge[i]
                })
            &&& forall|i: int|
                0 <= i < s.domains.len() ==> #[trigger] t.domains[i] == (DomainRecordModel {
                    doc_count: 0,
                    ..s.domains[i]
                })
            &&& t.episodes == s.episodes && t.permissions == s.permissions
        }),
{
}

/// A chunk that is added stands behind those of its source, in the domain of the source.
pub proof fn added_chunks_come_last(s: StoreModel, source: SourceRowModel, text: Seq<char>)
    requires
        s.chunks.len() <= i64::MAX,
    ensures
        ({
            let c = added_chunk(s, source, text);
            &&& c.source_id == source.id && c.domain == source.domain
            &&& c.ord == s.chunks.filter(|x: ChunkRecordModel| x.source_id == source.id).len()
            &&& c.text == stored_text(s, source.domain, text)
        }),
{
    let p = |x: ChunkRecordModel| x.source_id == source.id;
    s.chunks.lemma_filter_len(p);
    assert(chunks_of(s, source.id) == s.chunks.filter(p));
}

/// An edit changes the chunk or the source that it names, and of that no more than it says.
pub proof fn edits_change_one_row(
    c: ChunkRecordModel,
    r: SourceRowModel,
    id: i64,
    text: Seq<char>,
    title: Option<Seq<char>>,
    uri: Option<Seq<char>>,
)
    ensures
        edited_chunk(c, id, text) == if c.id == id {
            ChunkRecordModel { text, ..c }
        } else {
            c
        },
        edited_source(r, id, title, uri) == if r.id == id {
            SourceRowModel { title, uri, ..r }
        } else {
            r
        },
{
}

// ---- other rows -----------------------------------------------------------

/// A picture has the trust of the item that it is attached to.
pub proof fn pictures_inherit_trust(
    s: StoreModel,
    m: MediaRowModel,
    at: int,
    trust: Trust,
    other: i64,
)
    requires
        0 <= at < s.knowledge.len(),
        s.knowledge[at].trust == trust,
        forall|j: int| 0 <= j < at ==> (#[trigger] s.knowledge[j]).id != s.knowledge[at].id,
        other != m.media_id,
    ensures
        inherited(s, Some(s.knowledge[at].id)) == Some(crate::types::trust_name(trust)),
        inherited(s, None) is None,
        attached(m, m.media_id, s.knowledge[at].id, trust).knowledge_id == Some(s.knowledge[at].id),
        attached(m, m.media_id, s.knowledge[at].id, trust).trust == Some(
            crate::types::trust_name(trust),
        ),
        attached(m, other, s.knowledge[at].id, trust) == m,
{
    lemma_first_item(s.knowledge, at, s.knowledge[at].id);
}

proof fn lemma_first_item(rows: Seq<KnowledgeItemModel>, at: int, id: i64)
    requires
        0 <= at < rows.len(),
        rows[at].id == id,
        forall|j: int| 0 <= j < at ==> (#[trigger] rows[j]).id != id,
    ensures
        crate::table::first_match(rows, |r: KnowledgeItemModel| r.id == id) == Some(rows[at]),
    decreases at,
{
    if at > 0 {
        assert(rows[0].id != id);
        let rest = rows.skip(1);
        assert forall|j: int| 0 <= j < at - 1 implies (#[trigger] rest[j]).id != id by {
            assert(rest[j] == rows[j + 1]);
        }
        lemma_first_item(rest, at - 1, id);
    }
}

/// Preferences are listed in the order in which they were stated, all of them.
pub proof fn preferences_are_listed_in_order(s: StoreModel)
    ensures
        exists|from: Seq<PreferenceModel>|
            {
                &&& #[trigger] from.len() == preference_list(s).len()
                &&& forall|p: PreferenceModel| #[trigger]
                    from.contains(p) <==> s.preferences.contains(p)
                &&& forall|i: int, j: int|
                    0 <= i < j < from.len() ==> (#[trigger] from[i]).created_at <= (
                    #[trigger] from[j]).created_at
                &&& forall|i: int|
                    0 <= i < from.len() ==> #[trigger] preference_list(s)[i] == from[i].statement
            },
{
    let p = |p: PreferenceModel| true;
    let key = |p: PreferenceModel| (reversed_key(p.created_at), 0i64);
    lemma_listed(s.preferences, p, key);
    let from = listed(s.preferences, p, key);
    assert forall|x: PreferenceModel| #[trigger] from.contains(x) <==> s.preferences.contains(
        x,
    ) by {
        assert(p(x));
    }
    assert forall|i: int, j: int| 0 <= i < j < from.len() implies (#[trigger] from[i]).created_at
        <= (#[trigger] from[j]).created_at by {
        assert(pair_desc(key(from[i]), key(from[j])));
    }
    assert(from.len() == preference_list(s).len());
}

/// A vector is made of the title and the body, on two lines, or of the body alone.
pub proof fn vectors_are_made_of_title_and_body(id: i64, title: Seq<char>, body: Seq<char>)
    ensures
        title.len() == 0 ==> vector_text(title, body) == body,
        title.len() > 0 ==> vector_text(title, body) == title + seq!['\n'] + body,
        vector_of(id, body).id == id,
{
    reveal_strlit("\n");
    assert("\n"@ =~= seq!['\n']);
}

/// Health is shown as it was counted; no success yet is none.
pub proof fn health_is_shown_as_counted(h: SyncHealth, remote: bool)
    ensures
        ({
            let s = snapshot_of(h, remote);
            &&& s.remote_configured == remote
            &&& s.last_success_at is None <==> h.last_success_at == 0
            &&& s.last_success_at matches Some(t) ==> t == h.last_success_at
            &&& s.consecutive_failures == h.consecutive_failures
            &&& s.fallback_events == h.fallback_events
        }),
{
}

/// A remote store needs an address and a token.
pub proof fn remotes_need_an_address_and_a_token(url: Option<Seq<char>>, token: Option<Seq<char>>)
    ensures
        remote_of(url, token) is Some <==> (url matches Some(u) && u.len() > 0) && (
        token matches Some(t) && t.len() > 0),
        remote_of(url, token) matches Some(r) ==> url == Some(r.0) && token == Some(r.1),
{
}

/// Rows without a vector are those whose number has none.
pub proof fn rows_without_a_vector_are_bare(
    s: StoreModel,
    have: Seq<i64>,
    k: KnowledgeItemModel,
    c: ChunkRecordModel,
)
    ensures
        bare_knowledge(s, have).contains(k) <==> s.knowledge.contains(k) && !have.contains(k.id),
        bare_chunks(s, have).contains(c) <==> s.chunks.contains(c) && !have.contains(c.id),
{
    lemma_kept(s.knowledge, |k: KnowledgeItemModel| !have.contains(k.id));
    lemma_kept(s.chunks, |c: ChunkRecordModel| !have.contains(c.id));
}

} // verus!
