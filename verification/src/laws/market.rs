//! Templates that are taken from the marketplace, and what is published there.
use vstd::prelude::*;

use crate::marketplace::{adopted, adopted_all, draft_of, filed, from_marketplace};
use crate::marketplace::{is_template_source, item_texts, new_items, prepared, publish_refusal};
use crate::marketplace::{refusal_text, template_source, template_uri, titles_in, with_template};
use crate::marketplace::{with_template_domain, with_template_source, PublishRefusal};
use crate::store::{DomainRecordModel, StoreModel};
use crate::store::domains::exported_items;
use crate::store::knowledge::knowledge_list;
use crate::store::sources::source_list;
use crate::table::lemma_first_match;
use crate::types::{MarketplaceItemModel, MarketplaceTemplateModel, SourceRowModel, Trust};

verus! {

/// What is taken from a template keeps the kind and the texts of the item, with the source
/// of the template.
pub proof fn drafts_keep_their_item(i: MarketplaceItemModel, slug: Seq<char>, source: i64)
    ensures
        ({
            let d = draft_of(i, slug, source);
            &&& d.kind == i.kind && d.domain == slug && d.stage == i.stage
            &&& d.title == i.title && d.body == i.body && d.trigger == i.trigger
            &&& d.severity == i.severity && d.remediation == i.remediation
            &&& d.source_id == Some(source) && d.trust == Trust::Proposed
        }),
{
}

/// An item that is taken is in force at once, as one that was reviewed.
pub proof fn taken_items_are_reviewed(
    s: StoreModel,
    i: MarketplaceItemModel,
    slug: Seq<char>,
    source: i64,
    now: i64,
)
    requires
        crate::store::knowledge::next_knowledge_id(s) <= i64::MAX,
    ensures
        adopted(s, i, slug, source, now).knowledge.len() == s.knowledge.len() + 1,
        adopted(s, i, slug, source, now).knowledge.last().trust == Trust::Reviewed,
        adopted(s, i, slug, source, now).knowledge.last().kind == i.kind,
        adopted(s, i, slug, source, now).knowledge.last().domain == slug,
{
    let d = draft_of(i, slug, source);
    crate::store::lifecycle::lemma_inserted(s, d, now);
    crate::store::lifecycle::promotion_puts_in_force(s, d, now, now);
}

/// A template is known by its address, and is the domain of its name.
pub proof fn templates_have_an_address(s: StoreModel, t: MarketplaceTemplateModel, now: i64)
    ensures
        template_uri(t.slug) == "marketplace://"@ + t.slug,
        ({
            let r = with_template_source(s, t.slug, now).sources.last();
            &&& r.kind == "marketplace-template"@ && r.uri == Some("marketplace://"@ + t.slug)
            &&& r.title == Some(t.slug + " Marketplace Template"@) && r.domain == t.slug
            &&& r.fetched_at == now && r.trust == "untrusted"@
            &&& is_template_source(r)
        }),
{
}

/// The domain of a template is marked as one, and described as it says.
pub proof fn template_domains_are_marked(s: StoreModel, t: MarketplaceTemplateModel, now: i64)
    ensures
        ({
            let d = with_template_domain(s, t, now).domains;
            &&& forall|i: int|
                0 <= i < d.len() && (#[trigger] d[i]).name == t.slug ==> {
                    &&& d[i].is_marketplace_template && d[i].description == Some(t.description)
                    &&& d[i].query_hint == Some(t.query_hint) && d[i].last_updated == Some(now)
                }
            &&& exists|i: int| 0 <= i < d.len() && (#[trigger] d[i]).name == t.slug
            &&& forall|i: int|
                0 <= i < s.domains.len() && (#[trigger] s.domains[i]).name != t.slug ==> d[i]
                    == s.domains[i]
        }),
{
    let d = with_template_domain(s, t, now).domains;
    let p = |d: DomainRecordModel| d.name == t.slug;
    if crate::store::domains::registered(s, t.slug) {
        let i = choose|i: int| 0 <= i < s.domains.len() && p(#[trigger] s.domains[i]);
        assert(d[i].name == t.slug);
    } else {
        assert(d[s.domains.len() as int].name == t.slug);
        assert forall|i: int| 0 <= i < s.domains.len() implies (#[trigger] s.domains[i]).name
            != t.slug by {
            assert(!p(s.domains[i]));
        }
        assert forall|i: int| 0 <= i < d.len() && (#[trigger] d[i]).name == t.slug implies i
            == s.domains.len() by {
            if i < s.domains.len() {
                assert(d[i] == s.domains[i]);
            }
        }
    }
}

/// The texts of a template are its titles and bodies.
pub proof fn template_texts_are_titles_and_bodies(items: Seq<MarketplaceItemModel>, i: int)
    requires
        0 <= i < items.len(),
    ensures
        item_texts(items).len() == items.len(),
        item_texts(items)[i] == items[i].title + ": "@ + items[i].body,
{
}

/// Items are taken where no item of that title is there.
pub proof fn known_titles_are_passed_over(
    items: Seq<MarketplaceItemModel>,
    titles: Seq<Seq<char>>,
    i: MarketplaceItemModel,
)
    ensures
        new_items(items, titles).contains(i) <==> items.contains(i) && !titles.contains(i.title),
{
    crate::laws::domains::lemma_kept(
        items,
        |i: MarketplaceItemModel| !titles.contains(i.title),
    );
}

/// A domain is published where it has something in force, was not itself taken from the
/// marketplace, and the author is known; the first reason that is missing is told.
pub proof fn domains_are_published_with_reason(s: StoreModel, domain: Seq<char>)
    ensures
        ({
            let r = publish_refusal(s, domain);
            let empty = exported_items(s, domain).len() == 0;
            let taken = exists|i: int|
                0 <= i < source_list(s, Some(domain)).len() && ((#[trigger] source_list(
                    s,
                    Some(domain),
                )[i]).kind == "marketplace-template"@ || (source_list(s, Some(domain))[
                    i
                ].uri matches Some(u) && crate::text::begins(u, "marketplace://"@)));
            &&& r is None <==> !empty && !taken && s.author is Some
            &&& empty ==> r == Some(PublishRefusal::NoItems)
            &&& !empty && taken ==> r == Some(PublishRefusal::FromMarketplace)
            &&& !empty && !taken && s.author is None ==> r == Some(PublishRefusal::NeedsAuthor)
        }),
        refusal_text(PublishRefusal::NoItems)
            == "domain has no enforceable (reviewed/user) knowledge to publish"@,
        refusal_text(PublishRefusal::FromMarketplace)
            == "this domain was applied from the marketplace and cannot be re-published"@,
        refusal_text(PublishRefusal::NeedsAuthor) == "register your author name before publishing"@,
{
    let all = source_list(s, Some(domain));
    let p = |r: SourceRowModel| is_template_source(r);
    if from_marketplace(s, domain) {
        let i = choose|i: int| 0 <= i < all.len() && p(#[trigger] all[i]);
        assert(is_template_source(all[i]));
    }
    if exists|i: int|
        0 <= i < all.len() && ((#[trigger] all[i]).kind == "marketplace-template"@ || (
        all[i].uri matches Some(u) && crate::text::begins(u, "marketplace://"@))) {
        let i = choose|i: int|
            0 <= i < all.len() && ((#[trigger] all[i]).kind == "marketplace-template"@ || (
            all[i].uri matches Some(u) && crate::text::begins(u, "marketplace://"@)));
        assert(p(all[i]));
    }
}

/// A submission waits, with what was handed in.
pub proof fn submissions_wait_for_review(
    s: StoreModel,
    slug: Seq<char>,
    description: Option<Seq<char>>,
    query_hint: Option<Seq<char>>,
    items_json: Seq<char>,
    author: Option<Seq<char>>,
    now: i64,
)
    ensures
        ({
            let t = filed(s, slug, description, query_hint, items_json, author, now);
            let r = t.submissions.last();
            &&& t.submissions.len() == s.submissions.len() + 1
            &&& t.submissions.drop_last() == s.submissions
            &&& r.status == "pending"@ && r.note is None && r.reviewed_at is None
            &&& r.slug == slug && r.description == description && r.query_hint == query_hint
            &&& r.items_json == items_json && r.author == author && r.submitted_at == now
            &&& t.knowledge == s.knowledge && t.domains == s.domains
        }),
{
    let t = filed(s, slug, description, query_hint, items_json, author, now);
    assert(t.submissions.drop_last() =~= s.submissions);
}

/// The source of a template is found by its address.
pub proof fn template_sources_are_found(s: StoreModel, slug: Seq<char>)
    ensures
        template_source(s, slug) matches Some(r) ==> r.uri == Some("marketplace://"@ + slug)
            && source_list(s, Some(slug)).contains(r),
        template_source(s, slug) is None ==> forall|i: int|
            0 <= i < source_list(s, Some(slug)).len() ==> (#[trigger] source_list(s, Some(slug))[
                i
            ]).uri != Some("marketplace://"@ + slug),
{
    lemma_first_match(
        source_list(s, Some(slug)),
        |r: SourceRowModel| r.uri == Some(template_uri(slug)),
    );
}

/// The items of a template are gone through in order; one whose title is known is passed
/// over.
pub proof fn templates_are_gone_through_in_order(
    s: StoreModel,
    items: Seq<MarketplaceItemModel>,
    i: MarketplaceItemModel,
    titles: Seq<Seq<char>>,
    slug: Seq<char>,
    source: i64,
    now: i64,
)
    ensures
        adopted_all(s, seq![], titles, slug, source, now) == s,
        titles.contains(i.title) ==> adopted_all(s, items.push(i), titles, slug, source, now)
            == adopted_all(s, items, titles, slug, source, now),
        !titles.contains(i.title) ==> adopted_all(s, items.push(i), titles, slug, source, now)
            == adopted(adopted_all(s, items, titles, slug, source, now), i, slug, source, now),
{
    assert(items.push(i).drop_last() =~= items);
}

/// A template that is added takes the place of the one of its name, or comes last.
pub proof fn templates_take_their_place(
    all: Seq<MarketplaceTemplateModel>,
    t: MarketplaceTemplateModel,
    i: int,
)
    ensures
        0 <= i < all.len() && all[i].slug != t.slug ==> with_template(all, t)[i] == all[i],
        (exists|j: int| 0 <= j < all.len() && (#[trigger] all[j]).slug == t.slug)
            ==> with_template(all, t).len() == all.len(),
        (forall|j: int| 0 <= j < all.len() ==> (#[trigger] all[j]).slug != t.slug)
            ==> with_template(all, t) == all.push(t),
    decreases all.len(),
{
    if all.len() > 0 {
        let rest = all.skip(1);
        templates_take_their_place(rest, t, i - 1);
        if exists|j: int| 0 <= j < all.len() && (#[trigger] all[j]).slug == t.slug {
            let j = choose|j: int| 0 <= j < all.len() && (#[trigger] all[j]).slug == t.slug;
            if j > 0 {
                assert(rest[j - 1].slug == t.slug);
            }
        }
        if forall|j: int| 0 <= j < all.len() ==> (#[trigger] all[j]).slug != t.slug {
            assert(all[0].slug != t.slug);
            assert forall|j: int| 0 <= j < rest.len() implies (#[trigger] rest[j]).slug
                != t.slug by {
                assert(rest[j] == all[j + 1]);
            }
            assert(with_template(all, t) =~= all.push(t));
        }
    } else {
        assert(with_template(all, t) =~= all.push(t));
    }
}

/// A template is stored once: with its source and the chunks of its items where its source
/// is not there, and else as its domain alone.
pub proof fn templates_are_stored_once(s: StoreModel, t: MarketplaceTemplateModel, now: i64)
    ensures
        ({
            let d = with_template_domain(s, t, now);
            let p = prepared(s, t, now);
            &&& p.0.knowledge == s.knowledge
            &&& template_source(d, t.slug) matches Some(r) ==> p.0 == d && p.1 == r.id
            &&& template_source(d, t.slug) is None ==> {
                &&& p.0.sources.len() == s.sources.len() + 1
                &&& p.0.sources.last().uri == Some("marketplace://"@ + t.slug)
                &&& p.0.chunks.len() == s.chunks.len() + t.items.len()
            }
        }),
{
}

/// The titles that are known are those of the items that are listed.
pub proof fn known_titles_are_those_listed(s: StoreModel, domain: Seq<char>, i: int)
    requires
        0 <= i < knowledge_list(s, domain, None, None).len(),
    ensures
        titles_in(s, domain).len() == knowledge_list(s, domain, None, None).len(),
        titles_in(s, domain)[i] == knowledge_list(s, domain, None, None)[i].title,
{
}

} // verus!
