//! The marketplace: templates of domains, how they are published, reviewed and applied.
use vstd::prelude::*;

use crate::order::{lemma_sort_members, pair_desc, picked};
use crate::store::domains::{domain_list, exported_items, next_submission_id, with_domain};
use crate::store::domains::{market_item, registered, DomainChange};
use crate::store::knowledge::{inserted, is_wanted, item_of, knowledge_list, next_knowledge_id};
use crate::store::knowledge::{promoted, stored_text, Draft};
use crate::store::lifecycle::{lemma_inserted, lemma_next_after, promotion_puts_in_force};
use crate::store::sources::{is_source_of, next_chunk_id, next_source_id, source_list, with_chunks};
use crate::store::{lemma_fresh_id_bound, ChunkRecordModel, DomainRecordModel, KnowledgeItemModel};
use crate::store::{Store, StoreModel, SubmissionRecordModel};
use crate::table::{any, find_row, first_match, lemma_filter_none_dropped, lemma_first_match};
use crate::table::{lemma_listed_len, lemma_positions, listed, map_rows, positions, reversed_key};
use crate::table::some_match;
use crate::text::{begins, copy_opt, holds, opt, opt_str, same, starts_with, texts};
use crate::tools::{full, full_text};
use crate::types::{enforceable, models, DomainRow, DomainRowModel, KnowledgeRow, KnowledgeRowModel};
use crate::types::{lemma_models_push, MarketplaceItem, MarketplaceItemModel, MarketplaceTemplate};
use crate::types::{MarketplaceTemplateModel, SourceRow, SourceRowModel, SubmissionRow, Trust};

verus! {

// ---- applying -------------------------------------------------------------

/// What became of a template that was applied.
#[derive(Debug, Clone, Copy, PartialEq, Eq, Structural)]
pub struct MarketplaceApplyOutcome {
    pub inserted: usize,
    pub skipped: usize,
    pub source_created: bool,
}

/// Under what a template is on record as a source.
pub open spec fn template_uri(slug: Seq<char>) -> Seq<char> {
    "marketplace://"@ + slug
}

/// The store with the domain of a template.
pub open spec fn with_template_domain(s: StoreModel, t: MarketplaceTemplateModel, now: i64) -> StoreModel {
    with_domain(
        s,
        t.slug,
        DomainChange {
            description: Some(t.description),
            query_hint: Some(t.query_hint),
            enforced: None,
            redact_enabled: None,
            retention_days: None,
            is_marketplace_template: Some(true),
            max_retention_days: None,
        },
        now,
    )
}

/// The source that a template is on record as.
pub open spec fn template_source(s: StoreModel, slug: Seq<char>) -> Option<SourceRowModel> {
    first_match(
        source_list(s, Some(slug)),
        |r: SourceRowModel| r.uri == Some(template_uri(slug)),
    )
}

/// The store with a new source for a template.
pub open spec fn with_template_source(s: StoreModel, slug: Seq<char>, now: i64) -> StoreModel {
    StoreModel {
        sources: s.sources.push(
            SourceRowModel {
                id: next_source_id(s) as i64,
                kind: "marketplace-template"@,
                uri: Some(template_uri(slug)),
                title: Some(slug + " Marketplace Template"@),
                domain: slug,
                fetched_at: now,
                trust: "untrusted"@,
            },
        ),
        ..s
    }
}

/// The items of a template as chunks of its source.
pub open spec fn item_texts(items: Seq<MarketplaceItemModel>) -> Seq<Seq<char>> {
    items.map_values(|i: MarketplaceItemModel| i.title + ": "@ + i.body)
}

/// The titles of the knowledge of a domain.
pub open spec fn titles_in(s: StoreModel, domain: Seq<char>) -> Seq<Seq<char>> {
    knowledge_list(s, domain, None, None).map_values(|k: KnowledgeRowModel| k.title)
}

/// The draft that an item of a template is stored from.
pub open spec fn draft_of(i: MarketplaceItemModel, slug: Seq<char>, source: i64) -> Draft {
    Draft {
        kind: i.kind,
        domain: slug,
        stage: i.stage,
        title: i.title,
        body: i.body,
        trigger: i.trigger,
        severity: i.severity,
        remediation: i.remediation,
        source_id: Some(source),
        trust: Trust::Proposed,
    }
}

/// The store after an item of a template was stored and promoted.
pub open spec fn adopted(
    s: StoreModel,
    i: MarketplaceItemModel,
    slug: Seq<char>,
    source: i64,
    now: i64,
) -> StoreModel {
    promoted(inserted(s, draft_of(i, slug, source), now), next_knowledge_id(s) as i64, now)
}

/// The store after the items of a template were stored and promoted, but for those whose
/// title is known.
pub open spec fn adopted_all(
    s: StoreModel,
    items: Seq<MarketplaceItemModel>,
    titles: Seq<Seq<char>>,
    slug: Seq<char>,
    source: i64,
    now: i64,
) -> StoreModel
    decreases items.len(),
{
    if items.len() == 0 {
        s
    } else {
        let before = adopted_all(s, items.drop_last(), titles, slug, source, now);
        if titles.contains(items.last().title) {
            before
        } else {
            adopted(before, items.last(), slug, source, now)
        }
    }
}

/// The items of a template whose title is not known.
pub open spec fn new_items(items: Seq<MarketplaceItemModel>, titles: Seq<Seq<char>>) -> Seq<
    MarketplaceItemModel,
> {
    items.filter(|i: MarketplaceItemModel| !titles.contains(i.title))
}

/// The store with the domain and the source of a template, and the number of the source.
pub open spec fn prepared(s: StoreModel, t: MarketplaceTemplateModel, now: i64) -> (StoreModel, int) {
    let d = with_template_domain(s, t, now);
    match template_source(d, t.slug) {
        Some(r) => (d, r.id as int),
        None => (
            with_chunks(
                with_template_source(d, t.slug, now),
                next_source_id(d) as i64,
                t.slug,
                item_texts(t.items),
                now,
            ),
            next_source_id(d),
        ),
    }
}

/// The store after a template was applied.
pub open spec fn applied(s: StoreModel, t: MarketplaceTemplateModel, now: i64) -> StoreModel {
    let (p, source) = prepared(s, t, now);
    adopted_all(p, t.items, titles_in(p, t.slug), t.slug, source as i64, now)
}

/// Whether a number is left for every row that applying a template makes.
pub open spec fn has_room(s: StoreModel, t: MarketplaceTemplateModel, now: i64) -> bool {
    let d = with_template_domain(s, t, now);
    let p = prepared(s, t, now).0;
    &&& template_source(d, t.slug) is Some || (next_source_id(d) <= i64::MAX && next_chunk_id(d)
        + t.items.len() <= i64::MAX + 1)
    &&& next_knowledge_id(s) + new_items(t.items, titles_in(p, t.slug)).len() <= i64::MAX + 1
}

/// How far applying a template came where it was refused: the domain is registered, and
/// then the source, its chunks, or some of the items are missing for want of a number.
pub open spec fn half_applied(s: StoreModel, t: MarketplaceTemplateModel, now: i64, r: StoreModel) -> bool {
    let d = with_template_domain(s, t, now);
    let (p, source) = prepared(s, t, now);
    ||| template_source(d, t.slug) is None && next_source_id(d) > i64::MAX && r == d
    ||| template_source(d, t.slug) is None && next_chunk_id(d) + t.items.len() > i64::MAX + 1 && r
        == with_template_source(d, t.slug, now)
    ||| exists|k: int|
        0 <= k < t.items.len() && r == #[trigger] adopted_all(
            p,
            t.items.take(k),
            titles_in(p, t.slug),
            t.slug,
            source as i64,
            now,
        ) && next_knowledge_id(r) > i64::MAX && !titles_in(p, t.slug).contains(t.items[k].title)
}

fn uri_of(slug: &str) -> (r: String)
    ensures
        r@ == template_uri(slug@),
{
    let mut r: String = "marketplace://".to_owned();
    r.append(slug);
    r
}

fn source_of(store: &Store, slug: &str) -> (r: Option<i64>)
    ensures
        r == (match template_source(store@, slug@) {
            Some(x) => Some(x.id),
            None => None,
        }),
{
    let uri: String = uri_of(slug);
    let sources: Vec<SourceRow> = store.list_sources(Some(slug));
    let is = |r: &SourceRow| -> (b: bool)
        ensures
            b == (r@.uri == Some(template_uri(slug@))),
        { crate::text::is_text(&r.uri, uri.as_str()) };
    let ghost p = |r: SourceRowModel| r.uri == Some(template_uri(slug@));
    match find_row(&sources, is, Ghost(p)) {
        Some(i) => Some(sources[i].id),
        None => None,
    }
}

fn chunks_of(items: &Vec<MarketplaceItem>) -> (r: Vec<String>)
    ensures
        texts(r@) == item_texts(models(items@)),
{
    let f = |i: &MarketplaceItem| -> (t: String)
        ensures
            t@ == i@.title + ": "@ + i@.body,
        {
            let mut t: String = i.title.clone();
            t.append(": ");
            t.append(i.body.as_str());
            t
        };
    let r: Vec<String> = map_rows(
        items,
        f,
        Ghost(|i: MarketplaceItemModel| i.title + ": "@ + i.body),
    );
    assert(texts(r@) =~= models(r@));
    r
}

fn titles(store: &Store, domain: &str) -> (r: Vec<String>)
    ensures
        texts(r@) == titles_in(store@, domain@),
{
    let rows: Vec<KnowledgeRow> = store.list_knowledge(domain, None, None);
    let f = |k: &KnowledgeRow| -> (t: String)
        ensures
            t@ == k@.title,
        { k.title.clone() };
    let r: Vec<String> = map_rows(&rows, f, Ghost(|k: KnowledgeRowModel| k.title));
    assert(texts(r@) =~= models(r@));
    r
}

fn borrowed(t: &Option<String>) -> (r: Option<&str>)
    ensures
        opt_str(r) == opt(*t),
{
    match t {
        Some(s) => Some(s.as_str()),
        None => None,
    }
}

proof fn lemma_new_items_grow(
    items: Seq<MarketplaceItemModel>,
    q: spec_fn(MarketplaceItemModel) -> bool,
    k: int,
)
    requires
        0 <= k < items.len(),
        q(items[k]),
    ensures
        items.take(k).filter(q).len() < items.filter(q).len(),
{
    let one = items.take(k + 1);
    assert(one.drop_last() =~= items.take(k));
    assert(one.filter(q) == items.take(k).filter(q).push(items[k])) by {
        reveal(Seq::filter);
    }
    assert(items =~= one + items.skip(k + 1));
    Seq::filter_distributes_over_add(one, items.skip(k + 1), q);
}

/// Applies a template: its domain is registered, it is put on record as a source of the
/// domain, and its items are stored and promoted, but for those whose title the domain
/// has. Refused where no number is left for a row, and only there.
pub fn apply_marketplace_template(store: &mut Store, template: &MarketplaceTemplate, now: i64) -> (r:
    Result<MarketplaceApplyOutcome, String>)
    ensures
        r is Ok <==> has_room(old(store)@, template@, now),
        match r {
            Ok(o) => {
                let d = with_template_domain(old(store)@, template@, now);
                let p = prepared(old(store)@, template@, now).0;
                let fresh = new_items(template@.items, titles_in(p, template@.slug)).len();
                &&& final(store)@ == applied(old(store)@, template@, now)
                &&& o.source_created == (template_source(d, template@.slug) is None)
                &&& o.inserted == fresh
                &&& o.skipped == template@.items.len() - fresh
            },
            Err(e) => e@ == full() && half_applied(old(store)@, template@, now, final(store)@),
        },
{
    let slug: &str = template.slug.as_str();
    let ghost s = store@;
    let ghost t = template@;
    store.register_domain(
        slug,
        Some(template.description.as_str()),
        Some(template.query_hint.as_str()),
        None,
        None,
        None,
        Some(true),
        None,
        now,
    );
    let ghost d = with_template_domain(s, t, now);
    let mut source_created: bool = false;
    let source: i64 = match source_of(store, slug) {
        Some(id) => id,
        None => {
            source_created = true;
            let uri: String = uri_of(slug);
            let mut title: String = slug.to_owned();
            title.append(" Marketplace Template");
            let added: Option<i64> = store.add_source(
                "marketplace-template",
                Some(uri.as_str()),
                Some(title.as_str()),
                slug,
                now,
            );
            let id: i64 = match added {
                Some(n) => n,
                None => {
                    return Err(full_text());
                },
            };
            assert(store@ =~= with_template_source(d, slug@, now));
            let parts: Vec<String> = chunks_of(&template.items);
            assert(texts(parts@).len() == parts@.len());
            if store.add_chunks(id, slug, &parts, now).is_none() {
                return Err(full_text());
            }
            id
        },
    };
    let ghost p = prepared(s, t, now).0;
    assert(store@ == p && source == prepared(s, t, now).1);
    proof {
        lemma_prepared(s, t, now);
        lemma_fresh_id_bound(d.chunks, |c: ChunkRecordModel| c.id);
        lemma_fresh_id_bound(s.knowledge, |k: KnowledgeItemModel| k.id);
    }
    let ghost room = template_source(d, t.slug) is Some || (next_source_id(d) <= i64::MAX
        && next_chunk_id(d) + t.items.len() <= i64::MAX + 1);
    assert(room);
    let known: Vec<String> = titles(store, slug);
    let ghost all = t.items;
    let ghost have = titles_in(p, t.slug);
    let ghost q = |i: MarketplaceItemModel| !have.contains(i.title);
    let mut inserted: usize = 0;
    let mut skipped: usize = 0;
    let mut i: usize = 0;
    proof {
        reveal(Seq::filter);
    }
    assert(all.take(0) =~= seq![]);
    while i < template.items.len()
        invariant
            i <= template.items@.len(),
            t == template@,
            slug@ == t.slug,
            all == t.items,
            all == models(template.items@),
            s == old(store)@,
            p == prepared(s, t, now).0,
            source == prepared(s, t, now).1,
            have == titles_in(p, t.slug),
            texts(known@) == have,
            q == (|i: MarketplaceItemModel| !have.contains(i.title)),
            store@ == adopted_all(p, all.take(i as int), have, t.slug, source, now),
            inserted == all.take(i as int).filter(q).len(),
            inserted + skipped == i,
            p.knowledge == s.knowledge,
            next_knowledge_id(store@) == next_knowledge_id(s) + inserted,
            next_knowledge_id(store@) <= i64::MAX + 1,
        decreases template.items.len() - i,
    {
        reveal(Seq::filter);
        assert(all.take(i + 1).drop_last() =~= all.take(i as int));
        let item: &MarketplaceItem = &template.items[i];
        assert(all.take(i + 1).last() == item@);
        if holds(&known, item.title.as_str()) {
            skipped += 1;
        } else {
            let ghost before = store@;
            let stored: Option<i64> = store.propose(
                item.kind,
                slug,
                borrowed(&item.stage),
                item.title.as_str(),
                item.body.as_str(),
                borrowed(&item.trigger),
                borrowed(&item.severity),
                borrowed(&item.remediation),
                Some(source),
                now,
            );
            let id: i64 = match stored {
                Some(n) => n,
                None => {
                    proof {
                        lemma_new_items_grow(all, q, i as int);
                    }
                    return Err(full_text());
                },
            };
            store.promote(id, now);
            assert(store@ == adopted(before, item@, slug@, source, now));
            proof {
                lemma_next_after(before, draft_of(item@, slug@, source), now);
            }
            inserted += 1;
        }
        i += 1;
    }
    assert(all.take(i as int) =~= all);
    Ok(MarketplaceApplyOutcome { inserted, skipped, source_created })
}

// ---- the list of templates ------------------------------------------------

/// The template of a name.
pub open spec fn template_named(all: Seq<MarketplaceTemplateModel>, slug: Seq<char>) -> Option<
    MarketplaceTemplateModel,
> {
    first_match(all, |t: MarketplaceTemplateModel| t.slug == slug)
}

fn template_at(all: &Vec<MarketplaceTemplate>, slug: &str) -> (r: Option<usize>)
    ensures
        match r {
            Some(i) => i < all@.len() && all@[i as int]@.slug == slug@ && forall|j: int|
                0 <= j < i ==> (#[trigger] all@[j])@.slug != slug@,
            None => forall|j: int| 0 <= j < all@.len() ==> (#[trigger] all@[j])@.slug != slug@,
        },
{
    let mut i: usize = 0;
    while i < all.len()
        invariant
            i <= all@.len(),
            forall|j: int| 0 <= j < i ==> (#[trigger] all@[j])@.slug != slug@,
        decreases all.len() - i,
    {
        if same(all[i].slug.as_str(), slug) {
            return Some(i);
        }
        i += 1;
    }
    None
}

proof fn lemma_first(all: Seq<MarketplaceTemplateModel>, slug: Seq<char>, i: int)
    requires
        0 <= i <= all.len(),
        forall|j: int| 0 <= j < i ==> (#[trigger] all[j]).slug != slug,
        i < all.len() ==> all[i].slug == slug,
    ensures
        template_named(all, slug) == (if i < all.len() {
            Some(all[i])
        } else {
            None
        }),
    decreases all.len(),
{
    if all.len() > 0 && i > 0 {
        let rest = all.skip(1);
        assert forall|j: int| 0 <= j < i - 1 implies (#[trigger] rest[j]).slug != slug by {
            assert(rest[j] == all[j + 1]);
        }
        lemma_first(rest, slug, i - 1);
    }
}

/// The template of a name, where there is one.
pub fn marketplace_template(all: &Vec<MarketplaceTemplate>, slug: &str) -> (r: Option<
    MarketplaceTemplate,
>)
    ensures
        match template_named(models(all@), slug@) {
            Some(t) => r matches Some(x) && x@ == t,
            None => r is None,
        },
{
    let at: Option<usize> = template_at(all, slug);
    proof {
        let m = models(all@);
        let i: int = match at {
            Some(i) => i as int,
            None => m.len() as int,
        };
        assert forall|j: int| 0 <= j < i implies (#[trigger] m[j]).slug != slug@ by {
            assert(m[j] == all@[j]@);
        }
        lemma_first(m, slug@, i);
    }
    match at {
        Some(i) => Some(all[i].clone()),
        None => None,
    }
}

/// The templates with one more, in the place of the one of its name where there is one.
pub open spec fn with_template(all: Seq<MarketplaceTemplateModel>, t: MarketplaceTemplateModel) -> Seq<
    MarketplaceTemplateModel,
>
    decreases all.len(),
{
    if all.len() == 0 {
        seq![t]
    } else if all[0].slug == t.slug {
        seq![t] + all.skip(1)
    } else {
        seq![all[0]] + with_template(all.skip(1), t)
    }
}

proof fn lemma_with(all: Seq<MarketplaceTemplateModel>, t: MarketplaceTemplateModel, i: int)
    requires
        0 <= i <= all.len(),
        forall|j: int| 0 <= j < i ==> (#[trigger] all[j]).slug != t.slug,
        i < all.len() ==> all[i].slug == t.slug,
    ensures
        with_template(all, t) == (if i < all.len() {
            all.update(i, t)
        } else {
            all.push(t)
        }),
    decreases all.len(),
{
    if all.len() == 0 {
        assert(with_template(all, t) =~= all.push(t));
    } else if i == 0 {
        assert(with_template(all, t) =~= all.update(0, t));
    } else {
        let rest = all.skip(1);
        assert forall|j: int| 0 <= j < i - 1 implies (#[trigger] rest[j]).slug != t.slug by {
            assert(rest[j] == all[j + 1]);
        }
        lemma_with(rest, t, i - 1);
        if i < all.len() {
            assert(with_template(all, t) =~= all.update(i, t));
        } else {
            assert(with_template(all, t) =~= all.push(t));
        }
    }
}

/// Adds a template to a list, in the place of the one of its name where there is one.
pub fn append_marketplace_template(all: &mut Vec<MarketplaceTemplate>, template: MarketplaceTemplate)
    ensures
        models(final(all)@) == with_template(models(old(all)@), template@),
{
    broadcast use lemma_models_push;

    let ghost before = models(all@);
    let ghost t = template@;
    let at: Option<usize> = template_at(all, template.slug.as_str());
    proof {
        let i: int = match at {
            Some(i) => i as int,
            None => before.len() as int,
        };
        assert forall|j: int| 0 <= j < i implies (#[trigger] before[j]).slug != t.slug by {
            assert(before[j] == all@[j]@);
        }
        lemma_with(before, t, i);
    }
    match at {
        Some(i) => {
            all.set(i, template);
            assert(models(all@) =~= before.update(i as int, t));
        },
        None => {
            all.push(template);
            assert(models(all@) =~= before.push(t));
        },
    }
}

/// A template that was added is the one of its name, the others are what they were, and
/// to add it again changes nothing.
pub proof fn adding_keeps_the_rest(
    all: Seq<MarketplaceTemplateModel>,
    t: MarketplaceTemplateModel,
    other: Seq<char>,
)
    ensures
        template_named(with_template(all, t), t.slug) == Some(t),
        other != t.slug ==> template_named(with_template(all, t), other) == template_named(
            all,
            other,
        ),
        with_template(with_template(all, t), t) == with_template(all, t),
    decreases all.len(),
{
    let w = with_template(all, t);
    reveal_with_fuel(first_match, 2);
    reveal_with_fuel(with_template, 2);
    if all.len() == 0 {
        assert(w.skip(1) =~= seq![]);
        assert(with_template(w, t) =~= w);
    } else if all[0].slug == t.slug {
        assert(w.skip(1) =~= all.skip(1));
        assert(with_template(w, t) =~= w);
    } else {
        adding_keeps_the_rest(all.skip(1), t, other);
        assert(w.skip(1) =~= with_template(all.skip(1), t));
        assert(with_template(w, t) =~= w);
    }
}

// ---- publishing -----------------------------------------------------------

/// Why a domain cannot be published.
#[derive(Debug, Clone, Copy, PartialEq, Eq, Structural)]
pub enum PublishRefusal {
    /// It has no enforceable knowledge.
    NoItems,
    /// It was applied from the marketplace.
    FromMarketplace,
    /// There is no author name.
    NeedsAuthor,
}

impl PublishRefusal {
    /// The reason in words.
    pub fn reason(&self) -> (r: &'static str)
        ensures
            r@ == refusal_text(*self),
    {
        match self {
            PublishRefusal::NoItems => "domain has no enforceable (reviewed/user) knowledge to publish",
            PublishRefusal::FromMarketplace => "this domain was applied from the marketplace and cannot be re-published",
            PublishRefusal::NeedsAuthor => "register your author name before publishing",
        }
    }
}

/// The reason in words.
pub open spec fn refusal_text(r: PublishRefusal) -> Seq<char> {
    match r {
        PublishRefusal::NoItems => "domain has no enforceable (reviewed/user) knowledge to publish"@,
        PublishRefusal::FromMarketplace => "this domain was applied from the marketplace and cannot be re-published"@,
        PublishRefusal::NeedsAuthor => "register your author name before publishing"@,
    }
}

/// A domain that is to be published.
#[derive(Debug)]
pub struct Publication {
    pub slug: String,
    pub description: Option<String>,
    pub query_hint: Option<String>,
    pub author: String,
    pub items: Vec<MarketplaceItem>,
}

/// Whether a source is that of a template.
pub open spec fn is_template_source(r: SourceRowModel) -> bool {
    r.kind == "marketplace-template"@ || (r.uri matches Some(u) && begins(u, "marketplace://"@))
}

/// Whether a domain was applied from the marketplace.
pub open spec fn from_marketplace(s: StoreModel, domain: Seq<char>) -> bool {
    some_match(source_list(s, Some(domain)), |r: SourceRowModel| is_template_source(r))
}

/// Why a domain cannot be published, where it cannot.
pub open spec fn publish_refusal(s: StoreModel, domain: Seq<char>) -> Option<PublishRefusal> {
    if exported_items(s, domain).len() == 0 {
        Some(PublishRefusal::NoItems)
    } else if from_marketplace(s, domain) {
        Some(PublishRefusal::FromMarketplace)
    } else if s.author is None {
        Some(PublishRefusal::NeedsAuthor)
    } else {
        None
    }
}

/// A domain as the list of domains has it.
pub open spec fn listed_domain(s: StoreModel, domain: Seq<char>) -> Option<DomainRowModel> {
    first_match(domain_list(s), |d: DomainRowModel| d.name == domain)
}

fn is_from_marketplace(store: &Store, domain: &str) -> (r: bool)
    ensures
        r == from_marketplace(store@, domain@),
{
    let sources: Vec<SourceRow> = store.list_sources(Some(domain));
    let is = |r: &SourceRow| -> (b: bool)
        ensures
            b == is_template_source(r@),
        {
            same(r.kind.as_str(), "marketplace-template") || (match &r.uri {
                Some(u) => starts_with(u.as_str(), "marketplace://"),
                None => false,
            })
        };
    any(&sources, is, Ghost(|r: SourceRowModel| is_template_source(r)))
}

/// Gathers what of a domain is published: its enforceable knowledge, under the name of
/// the author. Refused where there is none, where the domain is someone else's template,
/// and where there is no author.
pub fn publication(store: &Store, domain: &str) -> (r: Result<Publication, PublishRefusal>)
    ensures
        match publish_refusal(store@, domain@) {
            Some(why) => r == Err::<Publication, PublishRefusal>(why),
            None => r matches Ok(p) && {
                &&& p.slug@ == domain@
                &&& models(p.items@) == exported_items(store@, domain@)
                &&& store@.author matches Some(a) && p.author@ == a.name
                &&& opt(p.description) == (match listed_domain(store@, domain@) {
                    Some(d) => d.description,
                    None => None,
                })
                &&& opt(p.query_hint) == (match listed_domain(store@, domain@) {
                    Some(d) => d.query_hint,
                    None => None,
                })
            },
        },
{
    let items: Vec<MarketplaceItem> = store.export_domain_items(domain);
    assert(models(items@).len() == items@.len());
    if items.len() == 0 {
        return Err(PublishRefusal::NoItems);
    }
    if is_from_marketplace(store, domain) {
        return Err(PublishRefusal::FromMarketplace);
    }
    let author: String = match store.get_author() {
        Some(a) => a.0,
        None => {
            return Err(PublishRefusal::NeedsAuthor);
        },
    };
    let domains: Vec<DomainRow> = store.list_domains();
    let is = |d: &DomainRow| -> (b: bool)
        ensures
            b == (d@.name == domain@),
        { same(d.name.as_str(), domain) };
    let at: Option<usize> = find_row(&domains, is, Ghost(|d: DomainRowModel| d.name == domain@));
    let (description, query_hint): (Option<String>, Option<String>) = match at {
        Some(i) => (copy_opt(&domains[i].description), copy_opt(&domains[i].query_hint)),
        None => (None, None),
    };
    Ok(Publication { slug: domain.to_owned(), description, query_hint, author, items })
}

/// The submission that a template is filed as.
pub open spec fn filed(
    s: StoreModel,
    slug: Seq<char>,
    description: Option<Seq<char>>,
    query_hint: Option<Seq<char>>,
    items_json: Seq<char>,
    author: Option<Seq<char>>,
    now: i64,
) -> StoreModel {
    StoreModel {
        submissions: s.submissions.push(
            SubmissionRecordModel {
                id: next_submission_id(s) as i64,
                slug,
                description,
                query_hint,
                items_json,
                status: "pending"@,
                note: None,
                submitted_at: now,
                reviewed_at: None,
                author,
            },
        ),
        ..s
    }
}

/// Files a publication for review; `items_json` is the JSON of its items. Refused where no
/// number is left.
pub fn file_publication(store: &mut Store, p: &Publication, items_json: &str, now: i64) -> (r: Result<
    i64,
    String,
>)
    ensures
        if next_submission_id(old(store)@) > i64::MAX {
            &&& final(store)@ == old(store)@
            &&& r matches Err(e) && e@ == full()
        } else {
            &&& r == Ok::<i64, String>(next_submission_id(old(store)@) as i64)
            &&& final(store)@ == filed(
                old(store)@,
                p.slug@,
                opt(p.description),
                opt(p.query_hint),
                items_json@,
                Some(p.author@),
                now,
            )
        },
{
    let id: Option<i64> = store.create_submission(
        p.slug.as_str(),
        borrowed(&p.description),
        borrowed(&p.query_hint),
        items_json,
        Some(p.author.as_str()),
        now,
    );
    match id {
        Some(n) => {
            assert(store@ =~= filed(
                old(store)@,
                p.slug@,
                opt(p.description),
                opt(p.query_hint),
                items_json@,
                Some(p.author@),
                now,
            ));
            Ok(n)
        },
        None => Err(full_text()),
    }
}

// ---- reviewing ------------------------------------------------------------

/// What a review decides.
#[derive(Debug, Clone, Copy, PartialEq, Eq, Structural)]
pub enum Review {
    Approve,
    Deny,
}

/// Reads what a review decides. Refused in a build that is not that of an administrator,
/// and where it is neither an approval nor a denial.
pub fn read_review(admin: bool, action: &str) -> (r: Result<Review, String>)
    ensures
        if !admin {
            r matches Err(e) && e@ == "submission review is available only in the admin build"@
        } else if action@ == "approve"@ {
            r matches Ok(Review::Approve)
        } else if action@ == "deny"@ {
            r matches Ok(Review::Deny)
        } else {
            r matches Err(e) && e@ == "unknown action '"@ + action@
                + "' (expected 'approve' or 'deny')"@
        },
{
    if !admin {
        return Err("submission review is available only in the admin build".to_owned());
    }
    if same(action, "approve") {
        return Ok(Review::Approve);
    }
    if same(action, "deny") {
        return Ok(Review::Deny);
    }
    let mut e: String = "unknown action '".to_owned();
    e.append(action);
    e.append("' (expected 'approve' or 'deny')");
    Err(e)
}

/// The template that a submission is, once it is approved; `items` are its items.
pub fn approved_template(row: &SubmissionRow, items: Vec<MarketplaceItem>) -> (r: MarketplaceTemplate)
    ensures
        r@ == (MarketplaceTemplateModel {
            slug: row@.slug,
            description: match row@.description {
                Some(t) => t,
                None => seq![],
            },
            query_hint: match row@.query_hint {
                Some(t) => t,
                None => seq![],
            },
            author: row@.author,
            items: models(items@),
        }),
{
    let r: MarketplaceTemplate = MarketplaceTemplate {
        slug: row.slug.clone(),
        description: match &row.description {
            Some(t) => t.clone(),
            None => String::new(),
        },
        query_hint: match &row.query_hint {
            Some(t) => t.clone(),
            None => String::new(),
        },
        author: copy_opt(&row.author),
        items,
    };
    r
}

/// Whether a submission of someone else may be taken in for review: only in the build of
/// an administrator.
pub fn may_import(admin: bool) -> (r: Result<(), String>)
    ensures
        if admin {
            r is Ok
        } else {
            r matches Err(e) && e@
                == "importing submissions for review is available only in the admin build"@
        },
{
    if admin {
        Ok(())
    } else {
        Err("importing submissions for review is available only in the admin build".to_owned())
    }
}

/// Takes a template of someone else in for review; `items_json` is the JSON of its items.
/// Refused where no number is left.
pub fn import_template(
    store: &mut Store,
    template: &MarketplaceTemplate,
    items_json: &str,
    now: i64,
) -> (r: Result<i64, String>)
    ensures
        if next_submission_id(old(store)@) > i64::MAX {
            &&& final(store)@ == old(store)@
            &&& r matches Err(e) && e@ == full()
        } else {
            &&& r == Ok::<i64, String>(next_submission_id(old(store)@) as i64)
            &&& final(store)@ == filed(
                old(store)@,
                template@.slug,
                Some(template@.description),
                Some(template@.query_hint),
                items_json@,
                template@.author,
                now,
            )
        },
{
    let id: Option<i64> = store.create_submission(
        template.slug.as_str(),
        Some(template.description.as_str()),
        Some(template.query_hint.as_str()),
        items_json,
        borrowed(&template.author),
        now,
    );
    match id {
        Some(n) => {
            assert(store@ =~= filed(
                old(store)@,
                template@.slug,
                Some(template@.description),
                Some(template@.query_hint),
                items_json@,
                template@.author,
                now,
            ));
            Ok(n)
        },
        None => Err(full_text()),
    }
}

// ---- publishing and applying ----------------------------------------------

/// Whether a domain stores the items of a template as they are: their texts hold nothing
/// that it would redact.
pub open spec fn stored_as_they_are(
    s: StoreModel,
    slug: Seq<char>,
    items: Seq<MarketplaceItemModel>,
) -> bool {
    forall|i: int|
        0 <= i < items.len() ==> stored_text(s, slug, (#[trigger] items[i]).title)
            == items[i].title && stored_text(s, slug, items[i].body) == items[i].body
}

proof fn lemma_adopted(
    s: StoreModel,
    items: Seq<MarketplaceItemModel>,
    slug: Seq<char>,
    source: i64,
    now: i64,
)
    requires
        exported_items(s, slug).len() == 0,
        stored_as_they_are(s, slug, items),
        next_knowledge_id(s) + items.len() <= i64::MAX + 1,
    ensures
        ({
            let t = adopted_all(s, items, seq![], slug, source, now);
            &&& exported_items(t, slug) == items
            &&& next_knowledge_id(t) == next_knowledge_id(s) + items.len()
            &&& t == (StoreModel { knowledge: t.knowledge, ..s })
        }),
    decreases items.len(),
{
    let t = adopted_all(s, items, seq![], slug, source, now);
    if items.len() == 0 {
        assert(exported_items(t, slug) =~= items);
    } else {
        let head = items.drop_last();
        assert(stored_as_they_are(s, slug, head)) by {
            assert forall|i: int| 0 <= i < head.len() implies stored_text(
                s,
                slug,
                (#[trigger] head[i]).title,
            ) == head[i].title && stored_text(s, slug, head[i].body) == head[i].body by {
                assert(head[i] == items[i]);
            }
        }
        lemma_adopted(s, head, slug, source, now);
        let before = adopted_all(s, head, seq![], slug, source, now);
        let last = items.last();
        let d = draft_of(last, slug, source);
        assert(!Seq::<Seq<char>>::empty().contains(last.title));
        assert(t == adopted(before, last, slug, source, now));
        promotion_puts_in_force(before, d, now, now);
        lemma_next_after(before, d, now);
        assert(items[items.len() - 1] == last);
        assert(stored_text(before, slug, last.title) == stored_text(s, slug, last.title));
        assert(stored_text(before, slug, last.body) == stored_text(s, slug, last.body));
        assert(market_item(item_of(before, d, now)) =~= last);
        assert(head.push(last) =~= items);
    }
}

proof fn lemma_prepared(s: StoreModel, t: MarketplaceTemplateModel, now: i64)
    ensures
        prepared(s, t, now).0.knowledge == s.knowledge,
{
}

/// Publishing undoes applying: a domain that knew nothing before a template was applied
/// publishes the items of the template, in their order, where it stores their texts as
/// they are. This holds of every template that applying does not refuse.
pub proof fn applying_then_publishing_gives_the_items(
    s: StoreModel,
    t: MarketplaceTemplateModel,
    now: i64,
)
    requires
        forall|i: int|
            0 <= i < s.knowledge.len() ==> (#[trigger] s.knowledge[i]).domain != t.slug,
        stored_as_they_are(prepared(s, t, now).0, t.slug, t.items),
        has_room(s, t, now),
    ensures
        exported_items(applied(s, t, now), t.slug) == t.items,
{
    let p = prepared(s, t, now).0;
    lemma_prepared(s, t, now);
    let is = |k: KnowledgeItemModel| k.domain == t.slug && enforceable(k.trust);
    let wanted = |k: KnowledgeItemModel| is_wanted(k, t.slug, None, None);
    lemma_positions(p.knowledge, is);
    lemma_positions(p.knowledge, wanted);
    assert(p.knowledge.filter(is).len() == 0) by {
        if p.knowledge.filter(is).len() > 0 {
            let at = positions(p.knowledge, is);
            assert(picked(p.knowledge, at).len() == at.len());
            assert(is(p.knowledge[at[0]]));
        }
    }
    assert(p.knowledge.filter(wanted).len() == 0) by {
        if p.knowledge.filter(wanted).len() > 0 {
            let at = positions(p.knowledge, wanted);
            assert(picked(p.knowledge, at).len() == at.len());
            assert(wanted(p.knowledge[at[0]]));
        }
    }
    lemma_listed_len(p.knowledge, is, |k: KnowledgeItemModel| (reversed_key(k.id), 0i64));
    lemma_listed_len(p.knowledge, wanted, |k: KnowledgeItemModel| (k.updated_at, 0i64));
    assert(titles_in(p, t.slug) =~= seq![]);
    lemma_filter_none_dropped(
        t.items,
        |i: MarketplaceItemModel| !titles_in(p, t.slug).contains(i.title),
    );
    lemma_adopted(p, t.items, t.slug, prepared(s, t, now).1 as i64, now);
}

proof fn lemma_adopted_sources(
    s: StoreModel,
    items: Seq<MarketplaceItemModel>,
    titles: Seq<Seq<char>>,
    slug: Seq<char>,
    source: i64,
    now: i64,
)
    ensures
        adopted_all(s, items, titles, slug, source, now).sources == s.sources,
    decreases items.len(),
{
    if items.len() > 0 {
        lemma_adopted_sources(s, items.drop_last(), titles, slug, source, now);
    }
}

/// A domain that was applied from the marketplace cannot be published again, as long as a
/// listing of its sources shows them all.
pub proof fn applied_templates_are_not_republished(
    s: StoreModel,
    t: MarketplaceTemplateModel,
    now: i64,
)
    requires
        s.sources.filter(|r: SourceRowModel| is_source_of(r, Some(t.slug))).len() < 100,
    ensures
        from_marketplace(applied(s, t, now), t.slug),
        publish_refusal(applied(s, t, now), t.slug) is Some,
{
    let d = with_template_domain(s, t, now);
    let (p, source) = prepared(s, t, now);
    let all = applied(s, t, now);
    lemma_adopted_sources(p, t.items, titles_in(p, t.slug), t.slug, source as i64, now);
    let uri = |r: SourceRowModel| r.uri == Some(template_uri(t.slug));
    let is = |r: SourceRowModel| is_template_source(r);
    let of = |r: SourceRowModel| is_source_of(r, Some(t.slug));
    let key = |r: SourceRowModel| (r.fetched_at, 0i64);
    let shown = source_list(all, Some(t.slug));
    lemma_first_match(source_list(d, Some(t.slug)), uri);
    match template_source(d, t.slug) {
        Some(r) => {
            let u = template_uri(t.slug);
            assert(u.subrange(0, "marketplace://"@.len() as int) =~= "marketplace://"@);
            let i = shown.index_of(r);
            assert(is(shown[i]));
        },
        None => {
            let x = with_template_source(d, t.slug, now).sources.last();
            let rows = d.sources.push(x);
            assert(p.sources == rows);
            assert(rows.drop_last() =~= d.sources);
            assert(rows.filter(of) == d.sources.filter(of).push(x)) by {
                reveal(Seq::filter);
            }
            lemma_sort_members(
                rows.filter(of),
                |a: SourceRowModel, b: SourceRowModel| pair_desc(key(a), key(b)),
            );
            assert(rows.filter(of)[rows.filter(of).len() - 1] == x);
            assert(rows.filter(of).contains(x));
            assert(listed(rows, of, key).contains(x));
            assert(shown.contains(x));
            assert(is(shown[shown.index_of(x)]));
        },
    }
}

/// Whether a domain has an item of a title.
spec fn has_title(rows: Seq<KnowledgeItemModel>, slug: Seq<char>, title: Seq<char>) -> bool {
    exists|i: int| 0 <= i < rows.len() && titled(#[trigger] rows[i], slug, title)
}

spec fn titled(k: KnowledgeItemModel, slug: Seq<char>, title: Seq<char>) -> bool {
    k.domain == slug && k.title == title
}

/// The number of items of a domain.
spec fn known_in(rows: Seq<KnowledgeItemModel>, slug: Seq<char>) -> nat {
    rows.filter(|k: KnowledgeItemModel| is_wanted(k, slug, None, None)).len()
}

proof fn lemma_known_same(a: Seq<KnowledgeItemModel>, b: Seq<KnowledgeItemModel>, slug: Seq<char>)
    requires
        a.len() == b.len(),
        forall|i: int| 0 <= i < a.len() ==> (#[trigger] a[i]).domain == b[i].domain,
    ensures
        known_in(a, slug) == known_in(b, slug),
    decreases a.len(),
{
    reveal(Seq::filter);
    if a.len() > 0 {
        assert forall|i: int| 0 <= i < a.drop_last().len() implies (#[trigger] a.drop_last()[i]).domain
            == b.drop_last()[i].domain by {
            assert(a[i].domain == b[i].domain);
        }
        lemma_known_same(a.drop_last(), b.drop_last(), slug);
        assert(a[a.len() - 1].domain == b[b.len() - 1].domain);
    }
}

proof fn lemma_adopted_one(
    s: StoreModel,
    i: MarketplaceItemModel,
    slug: Seq<char>,
    source: i64,
    now: i64,
)
    ensures
        ({
            let t = adopted(s, i, slug, source, now);
            let n = s.knowledge.len() as int;
            &&& t == (StoreModel { knowledge: t.knowledge, ..s })
            &&& known_in(t.knowledge, slug) <= known_in(s.knowledge, slug) + 1
            &&& titled(t.knowledge[n], slug, stored_text(s, slug, i.title))
            &&& t.knowledge.len() == n + 1
            &&& forall|x: Seq<char>|
                has_title(s.knowledge, slug, x) ==> #[trigger] has_title(t.knowledge, slug, x)
        }),
{
    let d = draft_of(i, slug, source);
    let g = lemma_inserted(s, d, now);
    let new = item_of(s, d, now);
    let t = adopted(s, i, slug, source, now);
    let n = s.knowledge.len() as int;
    assert(market_item(g(new)) == market_item(new));
    assert forall|j: int| 0 <= j < n implies (#[trigger] t.knowledge[j]).domain
        == s.knowledge[j].domain && t.knowledge[j].title == s.knowledge[j].title by {
        let q = g(s.knowledge[j]);
        assert(market_item(q) == market_item(s.knowledge[j]));
    }
    let head = t.knowledge.drop_last();
    assert forall|j: int| 0 <= j < head.len() implies (#[trigger] head[j]).domain
        == s.knowledge[j].domain by {
        assert(head[j] == t.knowledge[j]);
    }
    lemma_known_same(head, s.knowledge, slug);
    assert(known_in(t.knowledge, slug) <= known_in(head, slug) + 1) by {
        reveal(Seq::filter);
    }
    assert forall|x: Seq<char>|
        has_title(s.knowledge, slug, x) implies #[trigger] has_title(t.knowledge, slug, x) by {
        let j = choose|j: int| 0 <= j < n && titled(#[trigger] s.knowledge[j], slug, x);
        assert(titled(t.knowledge[j], slug, x));
    }
}

proof fn lemma_adopted_titles(
    s: StoreModel,
    items: Seq<MarketplaceItemModel>,
    titles: Seq<Seq<char>>,
    slug: Seq<char>,
    source: i64,
    now: i64,
)
    requires
        forall|i: int|
            0 <= i < items.len() ==> stored_text(s, slug, (#[trigger] items[i]).title)
                == items[i].title,
    ensures
        ({
            let t = adopted_all(s, items, titles, slug, source, now);
            &&& t == (StoreModel { knowledge: t.knowledge, ..s })
            &&& known_in(t.knowledge, slug) <= known_in(s.knowledge, slug) + items.len()
            &&& forall|x: Seq<char>|
                has_title(s.knowledge, slug, x) ==> #[trigger] has_title(t.knowledge, slug, x)
            &&& forall|i: int|
                0 <= i < items.len() ==> titles.contains((#[trigger] items[i]).title) || has_title(
                    t.knowledge,
                    slug,
                    items[i].title,
                )
        }),
    decreases items.len(),
{
    if items.len() > 0 {
        let head = items.drop_last();
        let last = items.last();
        assert forall|i: int| 0 <= i < head.len() implies stored_text(
            s,
            slug,
            (#[trigger] head[i]).title,
        ) == head[i].title by {
            assert(head[i] == items[i]);
        }
        lemma_adopted_titles(s, head, titles, slug, source, now);
        let before = adopted_all(s, head, titles, slug, source, now);
        let t = adopted_all(s, items, titles, slug, source, now);
        assert(items[items.len() - 1] == last);
        if !titles.contains(last.title) {
            lemma_adopted_one(before, last, slug, source, now);
            assert(stored_text(before, slug, last.title) == last.title);
            assert(titled(t.knowledge[before.knowledge.len() as int], slug, last.title));
            assert(has_title(t.knowledge, slug, last.title));
        }
        assert forall|i: int| 0 <= i < items.len() implies titles.contains(
            (#[trigger] items[i]).title,
        ) || has_title(t.knowledge, slug, items[i].title) by {
            if i < head.len() {
                assert(head[i] == items[i]);
                if !titles.contains(items[i].title) {
                    assert(has_title(before.knowledge, slug, items[i].title));
                }
            }
        }
    }
}

proof fn lemma_titles_shown(s: StoreModel, slug: Seq<char>, x: Seq<char>)
    requires
        known_in(s.knowledge, slug) <= 100,
    ensures
        titles_in(s, slug).contains(x) <==> has_title(s.knowledge, slug, x),
{
    broadcast use vstd::seq_lib::group_filter_ensures;

    let wanted = |k: KnowledgeItemModel| is_wanted(k, slug, None, None);
    let key = |k: KnowledgeItemModel| (k.updated_at, 0i64);
    let le = |a: KnowledgeItemModel, b: KnowledgeItemModel| pair_desc(key(a), key(b));
    let f = s.knowledge.filter(wanted);
    lemma_sort_members(f, le);
    let sorted = listed(s.knowledge, wanted, key);
    let all = titles_in(s, slug);
    assert(all =~= sorted.map_values(|k: KnowledgeItemModel| k.title));
    if has_title(s.knowledge, slug, x) {
        let i = choose|i: int| 0 <= i < s.knowledge.len() && titled(#[trigger] s.knowledge[i], slug, x);
        let k = s.knowledge[i];
        assert(wanted(k));
        assert(f.contains(k));
        assert(sorted.contains(k));
        assert(all[sorted.index_of(k)] == x);
    }
    if all.contains(x) {
        let i = all.index_of(x);
        let k = sorted[i];
        assert(sorted.contains(k));
        assert(f.contains(k));
        assert(wanted(f[f.index_of(k)]));
        s.knowledge.lemma_filter_contains_rev(wanted, k);
        assert(titled(s.knowledge[s.knowledge.index_of(k)], slug, x));
    }
}

proof fn lemma_template_source_shown(s: StoreModel, t: MarketplaceTemplateModel, now: i64, later: i64)
    requires
        s.sources.filter(|r: SourceRowModel| is_source_of(r, Some(t.slug))).len() < 100,
    ensures
        template_source(with_template_domain(applied(s, t, now), t, later), t.slug) is Some,
{
    let d = with_template_domain(s, t, now);
    let (p, source) = prepared(s, t, now);
    let again = with_template_domain(applied(s, t, now), t, later);
    lemma_adopted_sources(p, t.items, titles_in(p, t.slug), t.slug, source as i64, now);
    let uri = |r: SourceRowModel| r.uri == Some(template_uri(t.slug));
    let of = |r: SourceRowModel| is_source_of(r, Some(t.slug));
    let key = |r: SourceRowModel| (r.fetched_at, 0i64);
    let shown = source_list(again, Some(t.slug));
    lemma_first_match(shown, uri);
    if template_source(d, t.slug) is None {
        let x = with_template_source(d, t.slug, now).sources.last();
        let rows = d.sources.push(x);
        assert(p.sources == rows);
        assert(rows.drop_last() =~= d.sources);
        assert(rows.filter(of) == d.sources.filter(of).push(x)) by {
            reveal(Seq::filter);
        }
        lemma_sort_members(
            rows.filter(of),
            |a: SourceRowModel, b: SourceRowModel| pair_desc(key(a), key(b)),
        );
        assert(rows.filter(of)[rows.filter(of).len() - 1] == x);
        assert(rows.filter(of).contains(x));
        assert(listed(rows, of, key).contains(x));
        assert(shown.contains(x));
        assert(uri(shown[shown.index_of(x)]));
    } else {
        assert(shown == source_list(d, Some(t.slug)));
    }
}

/// Applying a template again adds nothing: every item is skipped, no source is made, and it
/// is not refused. The knowledge, the sources and the chunks stay as they are; only the
/// record of the domain is written anew, and it stays that of a template. The listings show
/// the sources of the domain and its knowledge whole, and its titles are stored as they
/// are.
pub proof fn applying_again_adds_nothing(
    s: StoreModel,
    t: MarketplaceTemplateModel,
    now: i64,
    later: i64,
)
    requires
        s.knowledge.filter(|k: KnowledgeItemModel| is_wanted(k, t.slug, None, None)).len()
            + t.items.len() <= 100,
        s.sources.filter(|r: SourceRowModel| is_source_of(r, Some(t.slug))).len() < 100,
        forall|i: int|
            0 <= i < t.items.len() ==> stored_text(
                prepared(s, t, now).0,
                t.slug,
                (#[trigger] t.items[i]).title,
            ) == t.items[i].title,
    ensures
        ({
            let once = applied(s, t, now);
            let d = with_template_domain(once, t, later);
            &&& applied(once, t, later) == d
            &&& d == (StoreModel { domains: d.domains, ..once })
            &&& template_source(d, t.slug) is Some
            &&& prepared(once, t, later).0 == d
            &&& new_items(t.items, titles_in(d, t.slug)).len() == 0
            &&& has_room(once, t, later)
            &&& registered(d, t.slug)
            &&& forall|i: int|
                0 <= i < d.domains.len() && (#[trigger] d.domains[i]).name == t.slug
                    ==> d.domains[i].is_marketplace_template
        }),
{
    let (p, source) = prepared(s, t, now);
    let once = applied(s, t, now);
    let d = with_template_domain(once, t, later);
    let titles = titles_in(p, t.slug);
    lemma_prepared(s, t, now);
    lemma_adopted_titles(p, t.items, titles, t.slug, source as i64, now);
    lemma_template_source_shown(s, t, now, later);
    let have = titles_in(d, t.slug);
    assert forall|i: int| 0 <= i < t.items.len() implies have.contains(
        (#[trigger] t.items[i]).title,
    ) by {
        let x = t.items[i].title;
        lemma_titles_shown(p, t.slug, x);
        lemma_titles_shown(d, t.slug, x);
        if titles.contains(x) {
            assert(has_title(once.knowledge, t.slug, x));
        }
    }
    lemma_all_known(d, t.items, have, t.slug, prepared(once, t, later).1 as i64, later);
    lemma_fresh_id_bound(once.knowledge, |k: KnowledgeItemModel| k.id);
    let is = |r: DomainRecordModel| r.name == t.slug;
    if registered(once, t.slug) {
        let i = choose|i: int| 0 <= i < once.domains.len() && is(#[trigger] once.domains[i]);
        assert(is(d.domains[i]));
    } else {
        let i = once.domains.len() as int;
        assert(is(d.domains[i]));
    }
    assert forall|i: int|
        0 <= i < d.domains.len() && (#[trigger] d.domains[i]).name == t.slug implies d.domains[i].is_marketplace_template by {
        if !registered(once, t.slug) && i < once.domains.len() {
            assert(is(once.domains[i]));
        }
    }
}

proof fn lemma_all_known(
    s: StoreModel,
    items: Seq<MarketplaceItemModel>,
    titles: Seq<Seq<char>>,
    slug: Seq<char>,
    source: i64,
    now: i64,
)
    requires
        forall|i: int| 0 <= i < items.len() ==> titles.contains((#[trigger] items[i]).title),
    ensures
        adopted_all(s, items, titles, slug, source, now) == s,
        new_items(items, titles).len() == 0,
    decreases items.len(),
{
    reveal(Seq::filter);
    if items.len() > 0 {
        let head = items.drop_last();
        assert forall|i: int| 0 <= i < head.len() implies titles.contains(
            (#[trigger] head[i]).title,
        ) by {
            assert(head[i] == items[i]);
        }
        lemma_all_known(s, head, titles, slug, source, now);
        assert(titles.contains(items[items.len() - 1].title));
    }
}

} // verus!
