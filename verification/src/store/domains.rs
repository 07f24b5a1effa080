//! The domain registry, the stages of a taxonomy, and the marketplace publish queue.
use vstd::prelude::*;

use crate::json::{array_len, json_array_len};
use crate::order::{ints, picked};
use crate::store::acl::domain_named;
use crate::store::knowledge::{clamp_retention, clamped};
use crate::store::{ChunkRecord, ChunkRecordModel, DomainRecord, DomainRecordModel, KnowledgeItem};
use crate::store::{KnowledgeItemModel, Store, StoreModel, SubmissionRecord, SubmissionRecordModel};
use crate::store::{fresh_id, next_id};
use crate::table::{any, as_count, count_of, count_rows, find_row, first_match, list, listed};
use crate::table::{map_at, retain, reversed_key, rewrite, some_match, sort_by, sorted_by, top};
use crate::text::{copy_opt, opt_str, own, same, texts};
use crate::types::{enforceable, lemma_models_push, models};
use crate::types::{DomainRow, DomainRowModel, Kind, MarketplaceItem, MarketplaceItemModel};
use crate::types::{SourceRow, SourceRowModel, StageRow, StageRowModel, SubmissionRow};
use crate::types::SubmissionRowModel;

verus! {

// ---- registering ----------------------------------------------------------

/// What a registration asks of a domain. What is `None` stays as it is; a retention may
/// also be cleared.
pub struct DomainChange {
    pub description: Option<Seq<char>>,
    pub query_hint: Option<Seq<char>>,
    pub enforced: Option<bool>,
    pub redact_enabled: Option<bool>,
    pub retention_days: Option<Option<i64>>,
    pub is_marketplace_template: Option<bool>,
    pub max_retention_days: Option<i64>,
}

/// `a` where it is there, else `b`.
pub open spec fn either<T>(a: Option<T>, b: T) -> T {
    match a {
        Some(x) => x,
        None => b,
    }
}

/// `a` where it is there, else `b`, which may be there or not.
pub open spec fn either_opt<T>(a: Option<T>, b: Option<T>) -> Option<T> {
    match a {
        Some(x) => Some(x),
        None => b,
    }
}

/// The record of a domain that is registered for the first time: not enforced, redacting
/// and no template, unless the registration says otherwise.
pub open spec fn new_domain(name: Seq<char>, c: DomainChange, now: i64) -> DomainRecordModel {
    DomainRecordModel {
        name,
        description: c.description,
        query_hint: c.query_hint,
        doc_count: 0,
        enforced: either(c.enforced, false),
        redact_enabled: either(c.redact_enabled, true),
        retention_days: match c.retention_days {
            Some(v) => clamped(v, c.max_retention_days),
            None => None,
        },
        is_marketplace_template: either(c.is_marketplace_template, false),
        last_updated: Some(now),
    }
}

/// The record of a domain that is registered again.
pub open spec fn changed_domain(
    d: DomainRecordModel,
    name: Seq<char>,
    c: DomainChange,
    now: i64,
) -> DomainRecordModel {
    if d.name == name {
        DomainRecordModel {
            description: either_opt(c.description, d.description),
            query_hint: either_opt(c.query_hint, d.query_hint),
            enforced: either(c.enforced, d.enforced),
            redact_enabled: either(c.redact_enabled, d.redact_enabled),
            retention_days: match c.retention_days {
                Some(v) => clamped(v, c.max_retention_days),
                None => d.retention_days,
            },
            is_marketplace_template: either(c.is_marketplace_template, d.is_marketplace_template),
            last_updated: Some(now),
            ..d
        }
    } else {
        d
    }
}

/// Whether a domain is registered.
pub open spec fn registered(s: StoreModel, name: Seq<char>) -> bool {
    some_match(s.domains, |d: DomainRecordModel| d.name == name)
}

/// The store after a domain was registered or changed.
pub open spec fn with_domain(s: StoreModel, name: Seq<char>, c: DomainChange, now: i64) -> StoreModel {
    StoreModel {
        domains: if registered(s, name) {
            s.domains.map_values(|d: DomainRecordModel| changed_domain(d, name, c, now))
        } else {
            s.domains.push(new_domain(name, c, now))
        },
        ..s
    }
}

/// A domain as the router lists it: with the number of its enforceable rules.
pub open spec fn domain_row(s: StoreModel, d: DomainRecordModel) -> DomainRowModel {
    DomainRowModel {
        name: d.name,
        description: d.description,
        query_hint: d.query_hint,
        doc_count: d.doc_count,
        rule_count: count_of(
            s.knowledge.filter(|k: KnowledgeItemModel| is_active_rule(k, d.name)).len() as int,
        ),
        last_updated: d.last_updated,
        enforced: d.enforced,
        retention_days: d.retention_days,
        is_marketplace_template: d.is_marketplace_template,
    }
}

/// Whether an item is an enforceable rule of a domain.
pub open spec fn is_active_rule(k: KnowledgeItemModel, domain: Seq<char>) -> bool {
    k.domain == domain && k.kind == Kind::Rule && enforceable(k.trust)
}

/// The registered domains, by name.
pub open spec fn domain_list(s: StoreModel) -> Seq<DomainRowModel> {
    sorted_by(s.domains, |d: DomainRecordModel| seq![d.name]).map_values(
        |d: DomainRecordModel| domain_row(s, d),
    )
}

impl Store {
    /// Whether a domain is registered.
    pub fn domain_exists(&self, name: &str) -> (r: bool)
        ensures
            r == registered(self@, name@),
    {
        let is = |d: &DomainRecord| -> (b: bool)
            ensures
                b == (d@.name == name@),
            { same(d.name.as_str(), name) };
        any(&self.domains, is, Ghost(|d: DomainRecordModel| d.name == name@))
    }

    /// Registers a domain, or changes one that is registered. What is `None` is left
    /// alone; `retention_days` of `Some(None)` clears the retention, and `Some(Some(n))`
    /// sets it to `n` days, held to the ceiling.
    pub fn register_domain(
        &mut self,
        name: &str,
        description: Option<&str>,
        query_hint: Option<&str>,
        enforced: Option<bool>,
        redact_enabled: Option<bool>,
        retention_days: Option<Option<i64>>,
        is_marketplace_template: Option<bool>,
        max_retention_days: Option<i64>,
        now: i64,
    )
        ensures
            final(self)@ == with_domain(
                old(self)@,
                name@,
                (DomainChange {
                    description: opt_str(description),
                    query_hint: opt_str(query_hint),
                    enforced,
                    redact_enabled,
                    retention_days,
                    is_marketplace_template,
                    max_retention_days,
                }),
                now,
            ),
    {
        broadcast use lemma_models_push;

        let ghost c = DomainChange {
            description: opt_str(description),
            query_hint: opt_str(query_hint),
            enforced,
            redact_enabled,
            retention_days,
            is_marketplace_template,
            max_retention_days,
        };
        if self.domain_exists(name) {
            let set = |d: DomainRecord| -> (q: DomainRecord)
                ensures
                    q@ == changed_domain(
                        d@,
                        name@,
                        (DomainChange {
                            description: opt_str(description),
                            query_hint: opt_str(query_hint),
                            enforced,
                            redact_enabled,
                            retention_days,
                            is_marketplace_template,
                            max_retention_days,
                        }),
                        now,
                    ),
                {
                    let mut q: DomainRecord = d;
                    if same(q.name.as_str(), name) {
                        if let Some(t) = description {
                            q.description = Some(t.to_owned());
                        }
                        if let Some(t) = query_hint {
                            q.query_hint = Some(t.to_owned());
                        }
                        if let Some(b) = enforced {
                            q.enforced = b;
                        }
                        if let Some(b) = redact_enabled {
                            q.redact_enabled = b;
                        }
                        if let Some(v) = retention_days {
                            q.retention_days = clamp_retention(v, max_retention_days);
                        }
                        if let Some(b) = is_marketplace_template {
                            q.is_marketplace_template = b;
                        }
                        q.last_updated = Some(now);
                    }
                    q
                };
            rewrite(
                &mut self.domains,
                set,
                Ghost(|d: DomainRecordModel| changed_domain(d, name@, c, now)),
            );
        } else {
            let row: DomainRecord = DomainRecord {
                name: name.to_owned(),
                description: own(description),
                query_hint: own(query_hint),
                doc_count: 0,
                enforced: enforced.unwrap_or(false),
                redact_enabled: redact_enabled.unwrap_or(true),
                retention_days: match retention_days {
                    Some(v) => clamp_retention(v, max_retention_days),
                    None => None,
                },
                is_marketplace_template: is_marketplace_template.unwrap_or(false),
                last_updated: Some(now),
            };
            assert(row@ =~= new_domain(name@, c, now));
            self.domains.push(row);
        }
        assert(self@ =~= with_domain(old(self)@, name@, c, now));
    }

    /// The registered domains, by name, each with the number of its enforceable rules.
    pub fn list_domains(&self) -> (r: Vec<DomainRow>)
        ensures
            models(r@) == domain_list(self@),
    {
        let name = |d: &DomainRecord| -> (k: Vec<String>)
            ensures
                texts(k@) == seq![d@.name],
            {
                let mut k: Vec<String> = Vec::new();
                k.push(d.name.clone());
                assert(texts(k@) =~= seq![d@.name]);
                k
            };
        let at: Vec<usize> = sort_by(
            &self.domains,
            name,
            Ghost(|d: DomainRecordModel| seq![d.name]),
        );
        let f = |d: &DomainRecord| -> (r: DomainRow)
            ensures
                r@ == domain_row(self@, d@),
            { self.row_of_domain(d) };
        map_at(&self.domains, &at, f, Ghost(|d: DomainRecordModel| domain_row(self@, d)))
    }

    fn row_of_domain(&self, d: &DomainRecord) -> (r: DomainRow)
        ensures
            r@ == domain_row(self@, d@),
    {
        let is = |k: &KnowledgeItem| -> (b: bool)
            ensures
                b == is_active_rule(k@, d@.name),
            {
                same(k.domain.as_str(), d.name.as_str()) && k.kind == Kind::Rule
                    && k.trust.is_enforceable()
            };
        let n: usize = count_rows(
            &self.knowledge,
            is,
            Ghost(|k: KnowledgeItemModel| is_active_rule(k, d@.name)),
        );
        DomainRow {
            name: d.name.clone(),
            description: copy_opt(&d.description),
            query_hint: copy_opt(&d.query_hint),
            doc_count: d.doc_count,
            rule_count: as_count(n),
            last_updated: d.last_updated,
            enforced: d.enforced,
            retention_days: d.retention_days,
            is_marketplace_template: d.is_marketplace_template,
        }
    }
}

// ---- stages ---------------------------------------------------------------

/// The stages of a taxonomy, in the order of their ordinals.
pub open spec fn stage_list(s: StoreModel, taxonomy: Seq<char>) -> Seq<StageRowModel> {
    listed(
        s.stages,
        |r: StageRowModel| r.taxonomy == taxonomy,
        |r: StageRowModel| (reversed_key(r.ordinal), 0i64),
    )
}

impl Store {
    /// The stages of a taxonomy, in the order of their ordinals.
    pub fn list_stages(&self, taxonomy: &str) -> (r: Vec<StageRow>)
        ensures
            models(r@) == stage_list(self@, taxonomy@),
    {
        let is = |r: &StageRow| -> (b: bool)
            ensures
                b == (r@.taxonomy == taxonomy@),
            { same(r.taxonomy.as_str(), taxonomy) };
        let ord = |r: &StageRow| -> (k: (i64, i64))
            ensures
                k == (reversed_key(r@.ordinal), 0i64),
            { (-1 - r.ordinal, 0) };
        let at: Vec<usize> = list(
            &self.stages,
            is,
            ord,
            usize::MAX,
            Ghost(|r: StageRowModel| r.taxonomy == taxonomy@),
            Ghost(|r: StageRowModel| (reversed_key(r.ordinal), 0i64)),
        );
        let f = |r: &StageRow| -> (q: StageRow)
            ensures
                q@ == r@,
            { r.clone() };
        let out: Vec<StageRow> = map_at(&self.stages, &at, f, Ghost(|r: StageRowModel| r));
        assert(models(out@) =~= picked(models(self.stages@), ints(at@)));
        proof {
            crate::table::lemma_listed_len(
                models(self.stages@),
                |r: StageRowModel| r.taxonomy == taxonomy@,
                |r: StageRowModel| (reversed_key(r.ordinal), 0i64),
            );
            assert(self.stages@.len() == self.stages.len());
        }
        out
    }
}

// ---- clearing and editing -------------------------------------------------

/// An item without its source, where that belonged to the domain.
pub open spec fn unsourced(
    k: KnowledgeItemModel,
    sources: Seq<SourceRowModel>,
    domain: Seq<char>,
) -> KnowledgeItemModel {
    match k.source_id {
        Some(n) => if some_match(sources, |r: SourceRowModel| r.id == n && r.domain == domain) {
            KnowledgeItemModel { source_id: None, ..k }
        } else {
            k
        },
        None => k,
    }
}

/// A domain without its documents.
pub open spec fn undocumented(d: DomainRecordModel, domain: Seq<char>) -> DomainRecordModel {
    if d.name == domain {
        DomainRecordModel { doc_count: 0, ..d }
    } else {
        d
    }
}

/// The store without the chunks and the sources of a domain. Its knowledge and its record
/// are gone too, unless only the chunks are cleared; then the knowledge that came from its
/// sources stays, without them, and the domain stays as it was registered, without
/// documents.
pub open spec fn without_domain(s: StoreModel, domain: Seq<char>, chunks_only: bool) -> StoreModel {
    StoreModel {
        knowledge: if chunks_only {
            s.knowledge.map_values(|k: KnowledgeItemModel| unsourced(k, s.sources, domain))
        } else {
            s.knowledge.filter(|k: KnowledgeItemModel| k.domain != domain)
        },
        chunks: s.chunks.filter(|c: ChunkRecordModel| c.domain != domain),
        sources: s.sources.filter(|r: SourceRowModel| r.domain != domain),
        domains: if chunks_only {
            s.domains.map_values(|d: DomainRecordModel| undocumented(d, domain))
        } else {
            s.domains.filter(|d: DomainRecordModel| d.name != domain)
        },
        ..s
    }
}

/// A domain after an edit of its texts, and of whether it is enforced.
pub open spec fn edited_domain(
    d: DomainRecordModel,
    name: Seq<char>,
    description: Option<Seq<char>>,
    query_hint: Option<Seq<char>>,
    enforced: Option<bool>,
    now: i64,
) -> DomainRecordModel {
    if d.name == name {
        DomainRecordModel {
            description,
            query_hint,
            enforced: either(enforced, d.enforced),
            last_updated: Some(now),
            ..d
        }
    } else {
        d
    }
}

impl Store {
    /// Removes the chunks and the sources of a domain and, unless `chunks_only`, its
    /// knowledge and the domain itself. Gives the number of chunks and of knowledge items
    /// removed.
    pub fn clear_domain(&mut self, domain: &str, chunks_only: bool) -> (r: (usize, usize))
        ensures
            final(self)@ == without_domain(old(self)@, domain@, chunks_only),
            r.0 == old(self)@.chunks.len() - final(self)@.chunks.len(),
            r.1 == old(self)@.knowledge.len() - final(self)@.knowledge.len(),
    {
        let ghost s = old(self)@;
        let mut gone: usize = 0;
        if chunks_only {
            let sources: &Vec<SourceRow> = &self.sources;
            let cut = |k: KnowledgeItem| -> (q: KnowledgeItem)
                ensures
                    q@ == unsourced(k@, models(sources@), domain@),
                {
                    let mut q: KnowledgeItem = k;
                    if let Some(n) = q.source_id {
                        let is = |r: &SourceRow| -> (b: bool)
                            ensures
                                b == (r@.id == n && r@.domain == domain@),
                            { r.id == n && same(r.domain.as_str(), domain) };
                        if any(
                            sources,
                            is,
                            Ghost(|r: SourceRowModel| r.id == n && r.domain == domain@),
                        ) {
                            q.source_id = None;
                        }
                    }
                    q
                };
            rewrite(
                &mut self.knowledge,
                cut,
                Ghost(|k: KnowledgeItemModel| unsourced(k, s.sources, domain@)),
            );
        } else {
            let other = |k: &KnowledgeItem| -> (b: bool)
                ensures
                    b == (k@.domain != domain@),
                { !same(k.domain.as_str(), domain) };
            gone = retain(
                &mut self.knowledge,
                other,
                Ghost(|k: KnowledgeItemModel| k.domain != domain@),
            );
        }
        let other_chunk = |c: &ChunkRecord| -> (b: bool)
            ensures
                b == (c@.domain != domain@),
            { !same(c.domain.as_str(), domain) };
        let chunks: usize = retain(
            &mut self.chunks,
            other_chunk,
            Ghost(|c: ChunkRecordModel| c.domain != domain@),
        );
        let other_source = |r: &SourceRow| -> (b: bool)
            ensures
                b == (r@.domain != domain@),
            { !same(r.domain.as_str(), domain) };
        retain(&mut self.sources, other_source, Ghost(|r: SourceRowModel| r.domain != domain@));
        if chunks_only {
            let emptied = |d: DomainRecord| -> (q: DomainRecord)
                ensures
                    q@ == undocumented(d@, domain@),
                {
                    let mut q: DomainRecord = d;
                    if same(q.name.as_str(), domain) {
                        q.doc_count = 0;
                    }
                    q
                };
            rewrite(
                &mut self.domains,
                emptied,
                Ghost(|d: DomainRecordModel| undocumented(d, domain@)),
            );
        } else {
            let other_domain = |d: &DomainRecord| -> (b: bool)
                ensures
                    b == (d@.name != domain@),
                { !same(d.name.as_str(), domain) };
            retain(
                &mut self.domains,
                other_domain,
                Ghost(|d: DomainRecordModel| d.name != domain@),
            );
        }
        assert(self@ =~= without_domain(s, domain@, chunks_only));
        (chunks, gone)
    }

    /// Removes every domain, with all knowledge, chunks and sources. Gives the number of
    /// domains removed.
    pub fn clear_all_domains(&mut self) -> (n: usize)
        ensures
            final(self)@ == (StoreModel {
                knowledge: seq![],
                chunks: seq![],
                sources: seq![],
                domains: seq![],
                ..old(self)@
            }),
            n == old(self)@.domains.len(),
    {
        let n: usize = self.domains.len();
        self.knowledge = Vec::new();
        self.chunks = Vec::new();
        self.sources = Vec::new();
        self.domains = Vec::new();
        assert(self@ =~= (StoreModel {
            knowledge: seq![],
            chunks: seq![],
            sources: seq![],
            domains: seq![],
            ..old(self)@
        }));
        n
    }

    /// Puts the description and the query hint of a domain in place as they are given,
    /// and whether it is enforced where that is given. Says whether there is such a
    /// domain.
    pub fn update_domain(
        &mut self,
        name: &str,
        description: Option<&str>,
        query_hint: Option<&str>,
        enforced: Option<bool>,
        now: i64,
    ) -> (r: bool)
        ensures
            r == registered(old(self)@, name@),
            final(self)@ == (StoreModel {
                domains: old(self)@.domains.map_values(
                    |d: DomainRecordModel|
                        edited_domain(
                            d,
                            name@,
                            opt_str(description),
                            opt_str(query_hint),
                            enforced,
                            now,
                        ),
                ),
                ..old(self)@
            }),
    {
        let done: bool = self.domain_exists(name);
        let set = |d: DomainRecord| -> (q: DomainRecord)
            ensures
                q@ == edited_domain(
                    d@,
                    name@,
                    opt_str(description),
                    opt_str(query_hint),
                    enforced,
                    now,
                ),
            {
                let mut q: DomainRecord = d;
                if same(q.name.as_str(), name) {
                    q.description = own(description);
                    q.query_hint = own(query_hint);
                    if let Some(b) = enforced {
                        q.enforced = b;
                    }
                    q.last_updated = Some(now);
                }
                q
            };
        let ghost g = |d: DomainRecordModel|
            edited_domain(d, name@, opt_str(description), opt_str(query_hint), enforced, now);
        rewrite(&mut self.domains, set, Ghost(g));
        assert(self@ =~= (StoreModel { domains: old(self)@.domains.map_values(g), ..old(self)@ }));
        done
    }
}

// ---- the marketplace ------------------------------------------------------

/// The number that the next submission gets.
pub open spec fn next_submission_id(s: StoreModel) -> int {
    fresh_id(s.submissions, |r: SubmissionRecordModel| r.id)
}

/// A submission as listings give it: with the number of its items, which is nought
/// where they are no JSON array.
pub open spec fn submission_row(r: SubmissionRecordModel) -> SubmissionRowModel {
    SubmissionRowModel {
        id: r.id,
        slug: r.slug,
        description: r.description,
        query_hint: r.query_hint,
        item_count: match json_array_len(r.items_json) {
            Some(n) => count_of(n as int),
            None => 0,
        },
        status: r.status,
        note: r.note,
        submitted_at: r.submitted_at,
        reviewed_at: r.reviewed_at,
        author: r.author,
    }
}

/// A submission as listings give it, given how many items it holds.
pub fn submission_with(r: &SubmissionRecord, items: Option<usize>) -> (q: SubmissionRow)
    ensures
        q@ == (SubmissionRowModel {
            id: r@.id,
            slug: r@.slug,
            description: r@.description,
            query_hint: r@.query_hint,
            item_count: match items {
                Some(n) => count_of(n as int),
                None => 0,
            },
            status: r@.status,
            note: r@.note,
            submitted_at: r@.submitted_at,
            reviewed_at: r@.reviewed_at,
            author: r@.author,
        }),
{
    SubmissionRow {
        id: r.id,
        slug: r.slug.clone(),
        description: copy_opt(&r.description),
        query_hint: copy_opt(&r.query_hint),
        item_count: match items {
            Some(n) => as_count(n),
            None => 0,
        },
        status: r.status.clone(),
        note: copy_opt(&r.note),
        submitted_at: r.submitted_at,
        reviewed_at: r.reviewed_at,
        author: copy_opt(&r.author),
    }
}

/// A submission as listings give it.
pub fn submission(r: &SubmissionRecord) -> (q: SubmissionRow)
    ensures
        q@ == submission_row(r@),
{
    submission_with(r, array_len(r.items_json.as_str()))
}

/// The submissions, newest first, two hundred at most; of one status only, where one is
/// given.
pub open spec fn submission_list(s: StoreModel, status: Option<Seq<char>>) -> Seq<
    SubmissionRowModel,
> {
    top(
        listed(
            s.submissions,
            |r: SubmissionRecordModel| has_status(r, status),
            |r: SubmissionRecordModel| (r.submitted_at, r.id),
        ),
        200,
    ).map_values(|r: SubmissionRecordModel| submission_row(r))
}

/// Whether a submission has the status that is asked for.
pub open spec fn has_status(r: SubmissionRecordModel, status: Option<Seq<char>>) -> bool {
    match status {
        Some(t) => r.status == t,
        None => true,
    }
}

/// A submission after its review.
pub open spec fn reviewed_submission(
    r: SubmissionRecordModel,
    id: i64,
    status: Seq<char>,
    note: Option<Seq<char>>,
    now: i64,
) -> SubmissionRecordModel {
    if r.id == id {
        SubmissionRecordModel { status, note, reviewed_at: Some(now), ..r }
    } else {
        r
    }
}

/// A knowledge item as the marketplace takes it.
pub open spec fn market_item(k: KnowledgeItemModel) -> MarketplaceItemModel {
    MarketplaceItemModel {
        kind: k.kind,
        stage: k.stage,
        title: k.title,
        body: k.body,
        trigger: k.trigger,
        severity: k.severity,
        remediation: k.remediation,
    }
}

/// The enforceable knowledge of a domain, by number.
pub open spec fn exported_items(s: StoreModel, domain: Seq<char>) -> Seq<MarketplaceItemModel> {
    listed(
        s.knowledge,
        |k: KnowledgeItemModel| k.domain == domain && enforceable(k.trust),
        |k: KnowledgeItemModel| (reversed_key(k.id), 0i64),
    ).map_values(|k: KnowledgeItemModel| market_item(k))
}

impl Store {
    fn submission_at(&self, id: i64) -> (r: Option<usize>)
        ensures
            match r {
                Some(i) => i < self.submissions@.len() && first_match(
                    self@.submissions,
                    |r: SubmissionRecordModel| r.id == id,
                ) == Some(self.submissions@[i as int]@) && some_match(
                    self@.submissions,
                    |r: SubmissionRecordModel| r.id == id,
                ),
                None => first_match(self@.submissions, |r: SubmissionRecordModel| r.id == id)
                    is None && !some_match(
                    self@.submissions,
                    |r: SubmissionRecordModel| r.id == id,
                ),
            },
    {
        let is = |r: &SubmissionRecord| -> (b: bool)
            ensures
                b == (r@.id == id),
            { r.id == id };
        find_row(&self.submissions, is, Ghost(|r: SubmissionRecordModel| r.id == id))
    }

    /// Files a request to publish a domain; it is pending. Gives its number; `None`, and
    /// nothing filed, where no number is left.
    pub fn create_submission(
        &mut self,
        slug: &str,
        description: Option<&str>,
        query_hint: Option<&str>,
        items_json: &str,
        author: Option<&str>,
        now: i64,
    ) -> (r: Option<i64>)
        ensures
            match r {
                Some(id) => id == next_submission_id(old(self)@) && final(self)@ == (StoreModel {
                    submissions: old(self)@.submissions.push(
                        SubmissionRecordModel {
                            id,
                            slug: slug@,
                            description: opt_str(description),
                            query_hint: opt_str(query_hint),
                            items_json: items_json@,
                            status: "pending"@,
                            note: None,
                            submitted_at: now,
                            reviewed_at: None,
                            author: opt_str(author),
                        },
                    ),
                    ..old(self)@
                }),
                None => next_submission_id(old(self)@) > i64::MAX && final(self)@ == old(self)@,
            },
    {
        broadcast use lemma_models_push;

        let number_of = |r: &SubmissionRecord| -> (n: i64)
            ensures
                n == r@.id,
            { r.id };
        let id: i64 = match next_id(
            &self.submissions,
            number_of,
            Ghost(|r: SubmissionRecordModel| r.id),
        ) {
            Some(n) => n,
            None => {
                return None;
            },
        };
        let row: SubmissionRecord = SubmissionRecord {
            id,
            slug: slug.to_owned(),
            description: own(description),
            query_hint: own(query_hint),
            items_json: items_json.to_owned(),
            status: "pending".to_owned(),
            note: None,
            submitted_at: now,
            reviewed_at: None,
            author: own(author),
        };
        let ghost model = row@;
        self.submissions.push(row);
        assert(self@ =~= (StoreModel {
            submissions: old(self)@.submissions.push(model),
            ..old(self)@
        }));
        Some(id)
    }

    /// The submissions, newest first, two hundred at most; of one status only, where one
    /// is given.
    pub fn list_submissions(&self, status: Option<&str>) -> (r: Vec<SubmissionRow>)
        ensures
            models(r@) == submission_list(self@, opt_str(status)),
    {
        let has = |r: &SubmissionRecord| -> (b: bool)
            ensures
                b == has_status(r@, opt_str(status)),
            {
                match status {
                    Some(t) => same(r.status.as_str(), t),
                    None => true,
                }
            };
        let when = |r: &SubmissionRecord| -> (k: (i64, i64))
            ensures
                k == (r@.submitted_at, r@.id),
            { (r.submitted_at, r.id) };
        let at: Vec<usize> = list(
            &self.submissions,
            has,
            when,
            200,
            Ghost(|r: SubmissionRecordModel| has_status(r, opt_str(status))),
            Ghost(|r: SubmissionRecordModel| (r.submitted_at, r.id)),
        );
        let f = |r: &SubmissionRecord| -> (q: SubmissionRow)
            ensures
                q@ == submission_row(r@),
            { submission(r) };
        map_at(
            &self.submissions,
            &at,
            f,
            Ghost(|r: SubmissionRecordModel| submission_row(r)),
        )
    }

    /// A submission with its items, as they were filed.
    pub fn get_submission(&self, id: i64) -> (r: Option<(SubmissionRow, String)>)
        ensures
            match first_match(self@.submissions, |r: SubmissionRecordModel| r.id == id) {
                Some(x) => r matches Some(q) && q.0@ == submission_row(x) && q.1@ == x.items_json,
                None => r is None,
            },
    {
        match self.submission_at(id) {
            Some(i) => Some(
                (submission(&self.submissions[i]), self.submissions[i].items_json.clone()),
            ),
            None => None,
        }
    }

    /// Withdraws a submission. Says whether there was one.
    pub fn delete_submission(&mut self, id: i64) -> (r: bool)
        ensures
            r == some_match(old(self)@.submissions, |r: SubmissionRecordModel| r.id == id),
            final(self)@ == (StoreModel {
                submissions: old(self)@.submissions.filter(
                    |r: SubmissionRecordModel| r.id != id,
                ),
                ..old(self)@
            }),
    {
        let done: bool = self.submission_at(id).is_some();
        let other = |r: &SubmissionRecord| -> (b: bool)
            ensures
                b == (r@.id != id),
            { r.id != id };
        retain(&mut self.submissions, other, Ghost(|r: SubmissionRecordModel| r.id != id));
        assert(self@ =~= (StoreModel {
            submissions: old(self)@.submissions.filter(|r: SubmissionRecordModel| r.id != id),
            ..old(self)@
        }));
        done
    }

    /// Records the review of a submission. Says whether there is one.
    pub fn set_submission_status(
        &mut self,
        id: i64,
        status: &str,
        note: Option<&str>,
        now: i64,
    ) -> (r: bool)
        ensures
            r == some_match(old(self)@.submissions, |r: SubmissionRecordModel| r.id == id),
            final(self)@ == (StoreModel {
                submissions: old(self)@.submissions.map_values(
                    |r: SubmissionRecordModel|
                        reviewed_submission(r, id, status@, opt_str(note), now),
                ),
                ..old(self)@
            }),
    {
        let done: bool = self.submission_at(id).is_some();
        let set = |r: SubmissionRecord| -> (q: SubmissionRecord)
            ensures
                q@ == reviewed_submission(r@, id, status@, opt_str(note), now),
            {
                let mut q: SubmissionRecord = r;
                if q.id == id {
                    q.status = status.to_owned();
                    q.note = own(note);
                    q.reviewed_at = Some(now);
                }
                q
            };
        let ghost g = |r: SubmissionRecordModel|
            reviewed_submission(r, id, status@, opt_str(note), now);
        rewrite(&mut self.submissions, set, Ghost(g));
        assert(self@ =~= (StoreModel {
            submissions: old(self)@.submissions.map_values(g),
            ..old(self)@
        }));
        done
    }

    /// The enforceable knowledge of a domain as marketplace items, by number.
    pub fn export_domain_items(&self, domain: &str) -> (r: Vec<MarketplaceItem>)
        ensures
            models(r@) == exported_items(self@, domain@),
    {
        let is = |k: &KnowledgeItem| -> (b: bool)
            ensures
                b == (k@.domain == domain@ && enforceable(k@.trust)),
            { same(k.domain.as_str(), domain) && k.trust.is_enforceable() };
        let key = |k: &KnowledgeItem| -> (q: (i64, i64))
            ensures
                q == (reversed_key(k@.id), 0i64),
            { (-1 - k.id, 0) };
        let ghost p = |k: KnowledgeItemModel| k.domain == domain@ && enforceable(k.trust);
        let ghost kk = |k: KnowledgeItemModel| (reversed_key(k.id), 0i64);
        let at: Vec<usize> = list(&self.knowledge, is, key, usize::MAX, Ghost(p), Ghost(kk));
        proof {
            crate::table::lemma_listed_len(models(self.knowledge@), p, kk);
            assert(self.knowledge@.len() == self.knowledge.len());
        }
        let f = |k: &KnowledgeItem| -> (q: MarketplaceItem)
            ensures
                q@ == market_item(k@),
            {
                MarketplaceItem {
                    kind: k.kind,
                    stage: copy_opt(&k.stage),
                    title: k.title.clone(),
                    body: k.body.clone(),
                    trigger: copy_opt(&k.trigger),
                    severity: copy_opt(&k.severity),
                    remediation: copy_opt(&k.remediation),
                }
            };
        map_at(&self.knowledge, &at, f, Ghost(|k: KnowledgeItemModel| market_item(k)))
    }
}

// ---- what registering keeps -----------------------------------------------

/// What a registration says nothing of stays as it was; a retention may be cleared or set
/// as well.
pub proof fn registering_changes_what_it_names(d: DomainRecordModel, c: DomainChange, now: i64)
    ensures
        ({
            let e = changed_domain(d, d.name, c, now);
            &&& e.doc_count == d.doc_count
            &&& c.description is None ==> e.description == d.description
            &&& c.query_hint is None ==> e.query_hint == d.query_hint
            &&& c.enforced is None ==> e.enforced == d.enforced
            &&& c.redact_enabled is None ==> e.redact_enabled == d.redact_enabled
            &&& c.is_marketplace_template is None ==> e.is_marketplace_template
                == d.is_marketplace_template
            &&& c.retention_days is None ==> e.retention_days == d.retention_days
            &&& c.retention_days == Some(None::<i64>) ==> e.retention_days is None
            &&& c.retention_days matches Some(Some(n)) ==> e.retention_days == clamped(
                Some(n),
                c.max_retention_days,
            )
        }),
{
}

/// A domain that was registered is there, and other domains are what they were.
pub proof fn registering_leaves_other_domains(
    s: StoreModel,
    name: Seq<char>,
    c: DomainChange,
    now: i64,
    other: Seq<char>,
)
    ensures
        registered(with_domain(s, name, c, now), name),
        other != name ==> domain_named(with_domain(s, name, c, now), other) == domain_named(
            s,
            other,
        ),
{
    let t = with_domain(s, name, c, now);
    let is = |d: DomainRecordModel| d.name == name;
    if registered(s, name) {
        let i = choose|i: int| 0 <= i < s.domains.len() && is(#[trigger] s.domains[i]);
        assert(is(t.domains[i]));
        if other != name {
            lemma_other_domain(s.domains, name, c, now, other);
        }
    } else {
        assert(is(t.domains[s.domains.len() as int]));
        if other != name {
            lemma_other_pushed(s.domains, new_domain(name, c, now), other);
        }
    }
}

proof fn lemma_other_domain(
    rows: Seq<DomainRecordModel>,
    name: Seq<char>,
    c: DomainChange,
    now: i64,
    other: Seq<char>,
)
    requires
        other != name,
    ensures
        first_match(
            rows.map_values(|d: DomainRecordModel| changed_domain(d, name, c, now)),
            |d: DomainRecordModel| d.name == other,
        ) == first_match(rows, |d: DomainRecordModel| d.name == other),
    decreases rows.len(),
{
    let g = |d: DomainRecordModel| changed_domain(d, name, c, now);
    if rows.len() > 0 {
        lemma_other_domain(rows.skip(1), name, c, now, other);
        assert(rows.map_values(g).skip(1) =~= rows.skip(1).map_values(g));
    } else {
        assert(rows.map_values(g) =~= rows);
    }
}

proof fn lemma_other_pushed(rows: Seq<DomainRecordModel>, d: DomainRecordModel, other: Seq<char>)
    requires
        d.name != other,
    ensures
        first_match(rows.push(d), |d: DomainRecordModel| d.name == other) == first_match(
            rows,
            |d: DomainRecordModel| d.name == other,
        ),
    decreases rows.len(),
{
    if rows.len() > 0 {
        lemma_other_pushed(rows.skip(1), d, other);
        assert(rows.push(d).skip(1) =~= rows.skip(1).push(d));
    } else {
        reveal_with_fuel(first_match, 2);
        assert(rows.push(d).skip(1) =~= rows);
    }
}

/// Clearing the reference material of a domain keeps every item of knowledge, with all
/// that it says; only where it came from may be lost.
pub proof fn clearing_chunks_keeps_the_knowledge(s: StoreModel, domain: Seq<char>)
    ensures
        ({
            let t = without_domain(s, domain, true);
            &&& t.knowledge.len() == s.knowledge.len()
            &&& forall|i: int|
                0 <= i < s.knowledge.len() ==> (#[trigger] t.knowledge[i]) == (KnowledgeItemModel {
                    source_id: t.knowledge[i].source_id,
                    ..s.knowledge[i]
                })
        }),
{
}

/// Clearing the reference material of a domain leaves no chunk and no source of it, and
/// leaves every domain registered as it was: only the count of its documents is nought.
pub proof fn clearing_chunks_keeps_the_domain(s: StoreModel, domain: Seq<char>)
    ensures
        ({
            let t = without_domain(s, domain, true);
            &&& forall|i: int| 0 <= i < t.chunks.len() ==> (#[trigger] t.chunks[i]).domain != domain
            &&& forall|i: int|
                0 <= i < t.sources.len() ==> (#[trigger] t.sources[i]).domain != domain
            &&& t.domains.len() == s.domains.len()
            &&& forall|i: int|
                0 <= i < s.domains.len() ==> (#[trigger] t.domains[i]) == if s.domains[i].name
                    == domain {
                    DomainRecordModel { doc_count: 0, ..s.domains[i] }
                } else {
                    s.domains[i]
                }
            &&& forall|name: Seq<char>| #[trigger] registered(t, name) == registered(s, name)
        }),
{
    broadcast use vstd::seq_lib::group_filter_ensures;

    let t = without_domain(s, domain, true);
    assert forall|name: Seq<char>| #[trigger] registered(t, name) == registered(s, name) by {
        if registered(s, name) {
            let i = choose|i: int| 0 <= i < s.domains.len() && (#[trigger] s.domains[i]).name == name;
            assert(t.domains[i].name == name);
        }
        if registered(t, name) {
            let i = choose|i: int| 0 <= i < t.domains.len() && (#[trigger] t.domains[i]).name == name;
            assert(s.domains[i].name == name);
        }
    }
}

} // verus!
