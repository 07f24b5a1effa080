//! The rows that the stores hold and hand out, and the trust lifecycle they follow.
//!
//! Trust is the safety spine: an item goes from untrusted over proposed to reviewed, or
//! is authored as user knowledge. Only reviewed and user knowledge is ever enforced.
use vstd::prelude::*;

use crate::text::{copy_opt, lead, lower, lowered, opt, same, trail, trim, trimmed};
use crate::text::{is_white, trim_end, trim_start};

verus! {

/// What kind of curated knowledge an item is.
#[derive(Debug, Clone, Copy, PartialEq, Eq, Structural)]
pub enum Kind {
    /// A statement the model may assert, with provenance.
    Fact,
    /// A constraint to enforce.
    Rule,
    /// An ordered playbook that an agent follows.
    Procedure,
}

/// The name of a kind.
pub open spec fn kind_name(k: Kind) -> Seq<char> {
    match k {
        Kind::Fact => "fact"@,
        Kind::Rule => "rule"@,
        Kind::Procedure => "procedure"@,
    }
}

/// The kind that a text names, white space around it and capitals aside.
pub open spec fn kind_named(s: Seq<char>) -> Option<Kind> {
    let t = lower(trim(s));
    if t == "fact"@ {
        Some(Kind::Fact)
    } else if t == "rule"@ {
        Some(Kind::Rule)
    } else if t == "procedure"@ {
        Some(Kind::Procedure)
    } else {
        None
    }
}

impl Kind {
    /// The name of the kind.
    pub fn as_str(&self) -> (r: &'static str)
        ensures
            r@ == kind_name(*self),
    {
        match self {
            Kind::Fact => "fact",
            Kind::Rule => "rule",
            Kind::Procedure => "procedure",
        }
    }

    /// The kind that a text names, white space around it and capitals aside.
    pub fn parse(s: &str) -> (r: Option<Kind>)
        ensures
            r == kind_named(s@),
    {
        let t: String = lowered(trimmed(s).as_str());
        if same(t.as_str(), "fact") {
            Some(Kind::Fact)
        } else if same(t.as_str(), "rule") {
            Some(Kind::Rule)
        } else if same(t.as_str(), "procedure") {
            Some(Kind::Procedure)
        } else {
            None
        }
    }
}

/// Trust tier of a piece of knowledge. The higher rank wins on conflict.
#[derive(Debug, Clone, Copy, PartialEq, Eq, Structural)]
pub enum Trust {
    /// Ingested text: cited data, never an instruction.
    Untrusted,
    /// A candidate that waits for promotion.
    Proposed,
    /// A promoted candidate.
    Reviewed,
    /// Authored by the user.
    User,
}

/// The name of a trust tier.
pub open spec fn trust_name(t: Trust) -> Seq<char> {
    match t {
        Trust::Untrusted => "untrusted"@,
        Trust::Proposed => "proposed"@,
        Trust::Reviewed => "reviewed"@,
        Trust::User => "user"@,
    }
}

/// The trust tier that a text names, white space around it and capitals aside. A text
/// that names none is untrusted.
pub open spec fn trust_named(s: Seq<char>) -> Trust {
    let t = lower(trim(s));
    if t == "user"@ {
        Trust::User
    } else if t == "reviewed"@ {
        Trust::Reviewed
    } else if t == "proposed"@ {
        Trust::Proposed
    } else {
        Trust::Untrusted
    }
}

/// The rank of a trust tier.
pub open spec fn trust_rank(t: Trust) -> int {
    match t {
        Trust::Untrusted => 0,
        Trust::Proposed => 1,
        Trust::Reviewed => 2,
        Trust::User => 3,
    }
}

/// Whether knowledge of a tier may be enforced.
pub open spec fn enforceable(t: Trust) -> bool {
    t == Trust::Reviewed || t == Trust::User
}

impl Trust {
    /// The name of the tier.
    pub fn as_str(&self) -> (r: &'static str)
        ensures
            r@ == trust_name(*self),
    {
        match self {
            Trust::Untrusted => "untrusted",
            Trust::Proposed => "proposed",
            Trust::Reviewed => "reviewed",
            Trust::User => "user",
        }
    }

    /// The tier that a text names; a text that names none is untrusted.
    pub fn parse(s: &str) -> (r: Trust)
        ensures
            r == trust_named(s@),
    {
        let t: String = lowered(trimmed(s).as_str());
        if same(t.as_str(), "user") {
            Trust::User
        } else if same(t.as_str(), "reviewed") {
            Trust::Reviewed
        } else if same(t.as_str(), "proposed") {
            Trust::Proposed
        } else {
            Trust::Untrusted
        }
    }

    /// The rank of the tier: the higher rank wins on conflict.
    pub fn rank(&self) -> (r: i64)
        ensures
            r == trust_rank(*self),
    {
        match self {
            Trust::Untrusted => 0,
            Trust::Proposed => 1,
            Trust::Reviewed => 2,
            Trust::User => 3,
        }
    }

    /// Whether knowledge of this tier may be enforced: only reviewed and user
    /// knowledge may.
    pub fn is_enforceable(&self) -> (r: bool)
        ensures
            r == enforceable(*self),
    {
        match self {
            Trust::Reviewed => true,
            Trust::User => true,
            _ => false,
        }
    }
}

proof fn lemma_trim_word(s: Seq<char>)
    requires
        s.len() > 0,
        !is_white(s[0]),
        !is_white(s.last()),
    ensures
        trim(s) == s,
{
    assert(lead(s) == 0);
    assert(trim_start(s) =~= s);
    assert(trail(s) == 0);
    assert(trim_end(s) =~= s);
}

/// Parsing the name of a kind gives the kind back.
pub proof fn kind_names_round_trip(k: Kind)
    ensures
        kind_named(kind_name(k)) == Some(k),
{
    reveal_strlit("fact");
    reveal_strlit("rule");
    reveal_strlit("procedure");
    let s = kind_name(k);
    lemma_trim_word(s);
    assert(lower(s) =~= s);
    assert("fact"@[0] == 'f' && "rule"@[0] == 'r' && "procedure"@[0] == 'p');
}

/// Parsing the name of a trust tier gives the tier back.
pub proof fn trust_names_round_trip(t: Trust)
    ensures
        trust_named(trust_name(t)) == t,
{
    reveal_strlit("user");
    reveal_strlit("reviewed");
    reveal_strlit("proposed");
    reveal_strlit("untrusted");
    let s = trust_name(t);
    lemma_trim_word(s);
    assert(lower(s) =~= s);
    assert("user"@.len() == 4 && "reviewed"@[0] == 'r' && "proposed"@[0] == 'p');
}

/// The enforceable tiers are those that outrank a proposal.
pub proof fn enforceable_outranks_proposed(t: Trust)
    ensures
        enforceable(t) <==> trust_rank(t) > trust_rank(Trust::Proposed),
{
}

/// No two tiers have the same rank, nor the same name.
pub proof fn trust_tiers_are_distinct(a: Trust, b: Trust)
    ensures
        trust_rank(a) == trust_rank(b) ==> a == b,
        trust_name(a) == trust_name(b) ==> a == b,
{
    trust_names_round_trip(a);
    trust_names_round_trip(b);
}

/// A copy of a list of ids.
pub fn copy_ids(v: &Vec<i64>) -> (r: Vec<i64>)
    ensures
        r@ == v@,
{
    let mut r: Vec<i64> = Vec::new();
    let mut i: usize = 0;
    while i < v.len()
        invariant
            i <= v@.len(),
            r@ == v@.take(i as int),
        decreases v.len() - i,
    {
        r.push(v[i]);
        i += 1;
    }
    assert(r@ =~= v@);
    r
}

/// The mathematical values of a list of rows.
pub open spec fn models<T: View>(s: Seq<T>) -> Seq<T::V> {
    Seq::new(s.len(), |i: int| s[i]@)
}

/// Adding a row adds its values.
pub broadcast proof fn lemma_models_push<T: View>(s: Seq<T>, x: T)
    ensures
        #[trigger] models(s.push(x)) == models(s).push(x@),
{
    assert(models(s.push(x)) =~= models(s).push(x@));
}


/// A web search hit: data, never an instruction.
#[derive(Debug)]
pub struct SearchResult {
    pub title: String,
    pub url: String,
    pub snippet: String,
}

/// What a [`SearchResult`] holds, as mathematical values.
#[verifier::ext_equal]
pub struct SearchResultModel {
    pub title: Seq<char>,
    pub url: Seq<char>,
    pub snippet: Seq<char>,
}

impl View for SearchResult {
    type V = SearchResultModel;

    open spec fn view(&self) -> SearchResultModel {
        SearchResultModel {
            title: self.title@,
            url: self.url@,
            snippet: self.snippet@,
        }
    }
}

impl Clone for SearchResult {
    fn clone(&self) -> (r: Self)
        ensures
            r@ == self@,
    {
        SearchResult {
            title: self.title.clone(),
            url: self.url.clone(),
            snippet: self.snippet.clone(),
        }
    }
}

/// A knowledge item as listings hand it out, with the id that promotion and removal take.
#[derive(Debug)]
pub struct KnowledgeRow {
    pub id: i64,
    pub kind: String,
    pub domain: String,
    pub stage: Option<String>,
    pub title: String,
    pub body: String,
    pub trust: String,
    pub enforceable: bool,
    pub severity: Option<String>,
    pub created_at: i64,
    pub updated_at: i64,
    pub conflict_with_id: Option<i64>,
    pub conflict_status: Option<String>,
    pub retention_days: Option<i64>,
}

/// What a [`KnowledgeRow`] holds, as mathematical values.
#[verifier::ext_equal]
pub struct KnowledgeRowModel {
    pub id: i64,
    pub kind: Seq<char>,
    pub domain: Seq<char>,
    pub stage: Option<Seq<char>>,
    pub title: Seq<char>,
    pub body: Seq<char>,
    pub trust: Seq<char>,
    pub enforceable: bool,
    pub severity: Option<Seq<char>>,
    pub created_at: i64,
    pub updated_at: i64,
    pub conflict_with_id: Option<i64>,
    pub conflict_status: Option<Seq<char>>,
    pub retention_days: Option<i64>,
}

impl View for KnowledgeRow {
    type V = KnowledgeRowModel;

    open spec fn view(&self) -> KnowledgeRowModel {
        KnowledgeRowModel {
            id: self.id,
            kind: self.kind@,
            domain: self.domain@,
            stage: opt(self.stage),
            title: self.title@,
            body: self.body@,
            trust: self.trust@,
            enforceable: self.enforceable,
            severity: opt(self.severity),
            created_at: self.created_at,
            updated_at: self.updated_at,
            conflict_with_id: self.conflict_with_id,
            conflict_status: opt(self.conflict_status),
            retention_days: self.retention_days,
        }
    }
}

impl Clone for KnowledgeRow {
    fn clone(&self) -> (r: Self)
        ensures
            r@ == self@,
    {
        KnowledgeRow {
            id: self.id,
            kind: self.kind.clone(),
            domain: self.domain.clone(),
            stage: copy_opt(&self.stage),
            title: self.title.clone(),
            body: self.body.clone(),
            trust: self.trust.clone(),
            enforceable: self.enforceable,
            severity: copy_opt(&self.severity),
            created_at: self.created_at,
            updated_at: self.updated_at,
            conflict_with_id: self.conflict_with_id,
            conflict_status: copy_opt(&self.conflict_status),
            retention_days: self.retention_days,
        }
    }
}

/// A knowledge row with the title and address of the source it came from.
#[derive(Debug)]
pub struct KnowledgeItemWithSource {
    pub row: KnowledgeRow,
    pub source_title: Option<String>,
    pub source_uri: Option<String>,
}

/// What a [`KnowledgeItemWithSource`] holds, as mathematical values.
#[verifier::ext_equal]
pub struct KnowledgeItemWithSourceModel {
    pub row: KnowledgeRowModel,
    pub source_title: Option<Seq<char>>,
    pub source_uri: Option<Seq<char>>,
}

impl View for KnowledgeItemWithSource {
    type V = KnowledgeItemWithSourceModel;

    open spec fn view(&self) -> KnowledgeItemWithSourceModel {
        KnowledgeItemWithSourceModel {
            row: self.row@,
            source_title: opt(self.source_title),
            source_uri: opt(self.source_uri),
        }
    }
}

impl Clone for KnowledgeItemWithSource {
    fn clone(&self) -> (r: Self)
        ensures
            r@ == self@,
    {
        KnowledgeItemWithSource {
            row: self.row.clone(),
            source_title: copy_opt(&self.source_title),
            source_uri: copy_opt(&self.source_uri),
        }
    }
}

/// A registered domain as the router lists it.
#[derive(Debug)]
pub struct DomainRow {
    pub name: String,
    pub description: Option<String>,
    pub query_hint: Option<String>,
    pub doc_count: i64,
    pub rule_count: i64,
    pub last_updated: Option<i64>,
    pub enforced: bool,
    pub retention_days: Option<i64>,
    pub is_marketplace_template: bool,
}

/// What a [`DomainRow`] holds, as mathematical values.
#[verifier::ext_equal]
pub struct DomainRowModel {
    pub name: Seq<char>,
    pub description: Option<Seq<char>>,
    pub query_hint: Option<Seq<char>>,
    pub doc_count: i64,
    pub rule_count: i64,
    pub last_updated: Option<i64>,
    pub enforced: bool,
    pub retention_days: Option<i64>,
    pub is_marketplace_template: bool,
}

impl View for DomainRow {
    type V = DomainRowModel;

    open spec fn view(&self) -> DomainRowModel {
        DomainRowModel {
            name: self.name@,
            description: opt(self.description),
            query_hint: opt(self.query_hint),
            doc_count: self.doc_count,
            rule_count: self.rule_count,
            last_updated: self.last_updated,
            enforced: self.enforced,
            retention_days: self.retention_days,
            is_marketplace_template: self.is_marketplace_template,
        }
    }
}

impl Clone for DomainRow {
    fn clone(&self) -> (r: Self)
        ensures
            r@ == self@,
    {
        DomainRow {
            name: self.name.clone(),
            description: copy_opt(&self.description),
            query_hint: copy_opt(&self.query_hint),
            doc_count: self.doc_count,
            rule_count: self.rule_count,
            last_updated: self.last_updated,
            enforced: self.enforced,
            retention_days: self.retention_days,
            is_marketplace_template: self.is_marketplace_template,
        }
    }
}

/// A stage of a taxonomy.
#[derive(Debug)]
pub struct StageRow {
    pub taxonomy: String,
    pub name: String,
    pub ordinal: i64,
    pub description: Option<String>,
}

/// What a [`StageRow`] holds, as mathematical values.
#[verifier::ext_equal]
pub struct StageRowModel {
    pub taxonomy: Seq<char>,
    pub name: Seq<char>,
    pub ordinal: i64,
    pub description: Option<Seq<char>>,
}

impl View for StageRow {
    type V = StageRowModel;

    open spec fn view(&self) -> StageRowModel {
        StageRowModel {
            taxonomy: self.taxonomy@,
            name: self.name@,
            ordinal: self.ordinal,
            description: opt(self.description),
        }
    }
}

impl Clone for StageRow {
    fn clone(&self) -> (r: Self)
        ensures
            r@ == self@,
    {
        StageRow {
            taxonomy: self.taxonomy.clone(),
            name: self.name.clone(),
            ordinal: self.ordinal,
            description: copy_opt(&self.description),
        }
    }
}

/// An ingested source.
#[derive(Debug)]
pub struct SourceRow {
    pub id: i64,
    pub kind: String,
    pub uri: Option<String>,
    pub title: Option<String>,
    pub domain: String,
    pub fetched_at: i64,
    pub trust: String,
}

/// What a [`SourceRow`] holds, as mathematical values.
#[verifier::ext_equal]
pub struct SourceRowModel {
    pub id: i64,
    pub kind: Seq<char>,
    pub uri: Option<Seq<char>>,
    pub title: Option<Seq<char>>,
    pub domain: Seq<char>,
    pub fetched_at: i64,
    pub trust: Seq<char>,
}

impl View for SourceRow {
    type V = SourceRowModel;

    open spec fn view(&self) -> SourceRowModel {
        SourceRowModel {
            id: self.id,
            kind: self.kind@,
            uri: opt(self.uri),
            title: opt(self.title),
            domain: self.domain@,
            fetched_at: self.fetched_at,
            trust: self.trust@,
        }
    }
}

impl Clone for SourceRow {
    fn clone(&self) -> (r: Self)
        ensures
            r@ == self@,
    {
        SourceRow {
            id: self.id,
            kind: self.kind.clone(),
            uri: copy_opt(&self.uri),
            title: copy_opt(&self.title),
            domain: self.domain.clone(),
            fetched_at: self.fetched_at,
            trust: self.trust.clone(),
        }
    }
}

/// One entry of the session journal of a repository.
#[derive(Debug)]
pub struct JournalRow {
    pub id: i64,
    pub repo: String,
    /// One of `done`, `failed`, `avoid`, `decision` and `note`.
    pub kind: String,
    pub title: String,
    pub body: Option<String>,
    pub ts: i64,
    pub is_checkpoint: bool,
}

/// What a [`JournalRow`] holds, as mathematical values.
#[verifier::ext_equal]
pub struct JournalRowModel {
    pub id: i64,
    pub repo: Seq<char>,
    pub kind: Seq<char>,
    pub title: Seq<char>,
    pub body: Option<Seq<char>>,
    pub ts: i64,
    pub is_checkpoint: bool,
}

impl View for JournalRow {
    type V = JournalRowModel;

    open spec fn view(&self) -> JournalRowModel {
        JournalRowModel {
            id: self.id,
            repo: self.repo@,
            kind: self.kind@,
            title: self.title@,
            body: opt(self.body),
            ts: self.ts,
            is_checkpoint: self.is_checkpoint,
        }
    }
}

impl Clone for JournalRow {
    fn clone(&self) -> (r: Self)
        ensures
            r@ == self@,
    {
        JournalRow {
            id: self.id,
            repo: self.repo.clone(),
            kind: self.kind.clone(),
            title: self.title.clone(),
            body: copy_opt(&self.body),
            ts: self.ts,
            is_checkpoint: self.is_checkpoint,
        }
    }
}

/// An image that is attached to a knowledge item, or waits for one. Media of its own has
/// no trust tier: it takes over that of the item it is attached to.
#[derive(Debug)]
pub struct MediaRow {
    pub media_id: i64,
    pub storage_ref: String,
    pub mime_type: String,
    pub size_bytes: i64,
    pub caption: Option<String>,
    pub knowledge_id: Option<i64>,
    pub domain: Option<String>,
    pub trust: Option<String>,
    pub created_at: i64,
}

/// What a [`MediaRow`] holds, as mathematical values.
#[verifier::ext_equal]
pub struct MediaRowModel {
    pub media_id: i64,
    pub storage_ref: Seq<char>,
    pub mime_type: Seq<char>,
    pub size_bytes: i64,
    pub caption: Option<Seq<char>>,
    pub knowledge_id: Option<i64>,
    pub domain: Option<Seq<char>>,
    pub trust: Option<Seq<char>>,
    pub created_at: i64,
}

impl View for MediaRow {
    type V = MediaRowModel;

    open spec fn view(&self) -> MediaRowModel {
        MediaRowModel {
            media_id: self.media_id,
            storage_ref: self.storage_ref@,
            mime_type: self.mime_type@,
            size_bytes: self.size_bytes,
            caption: opt(self.caption),
            knowledge_id: self.knowledge_id,
            domain: opt(self.domain),
            trust: opt(self.trust),
            created_at: self.created_at,
        }
    }
}

impl Clone for MediaRow {
    fn clone(&self) -> (r: Self)
        ensures
            r@ == self@,
    {
        MediaRow {
            media_id: self.media_id,
            storage_ref: self.storage_ref.clone(),
            mime_type: self.mime_type.clone(),
            size_bytes: self.size_bytes,
            caption: copy_opt(&self.caption),
            knowledge_id: self.knowledge_id,
            domain: copy_opt(&self.domain),
            trust: copy_opt(&self.trust),
            created_at: self.created_at,
        }
    }
}

/// A request to publish a domain on the marketplace.
#[derive(Debug)]
pub struct SubmissionRow {
    pub id: i64,
    pub slug: String,
    pub description: Option<String>,
    pub query_hint: Option<String>,
    pub item_count: i64,
    /// One of `pending`, `approved` and `denied`.
    pub status: String,
    pub note: Option<String>,
    pub submitted_at: i64,
    pub reviewed_at: Option<i64>,
    pub author: Option<String>,
}

/// What a [`SubmissionRow`] holds, as mathematical values.
#[verifier::ext_equal]
pub struct SubmissionRowModel {
    pub id: i64,
    pub slug: Seq<char>,
    pub description: Option<Seq<char>>,
    pub query_hint: Option<Seq<char>>,
    pub item_count: i64,
    pub status: Seq<char>,
    pub note: Option<Seq<char>>,
    pub submitted_at: i64,
    pub reviewed_at: Option<i64>,
    pub author: Option<Seq<char>>,
}

impl View for SubmissionRow {
    type V = SubmissionRowModel;

    open spec fn view(&self) -> SubmissionRowModel {
        SubmissionRowModel {
            id: self.id,
            slug: self.slug@,
            description: opt(self.description),
            query_hint: opt(self.query_hint),
            item_count: self.item_count,
            status: self.status@,
            note: opt(self.note),
            submitted_at: self.submitted_at,
            reviewed_at: self.reviewed_at,
            author: opt(self.author),
        }
    }
}

impl Clone for SubmissionRow {
    fn clone(&self) -> (r: Self)
        ensures
            r@ == self@,
    {
        SubmissionRow {
            id: self.id,
            slug: self.slug.clone(),
            description: copy_opt(&self.description),
            query_hint: copy_opt(&self.query_hint),
            item_count: self.item_count,
            status: self.status.clone(),
            note: copy_opt(&self.note),
            submitted_at: self.submitted_at,
            reviewed_at: self.reviewed_at,
            author: copy_opt(&self.author),
        }
    }
}

/// One curated knowledge item of a marketplace template.
#[derive(Debug)]
pub struct MarketplaceItem {
    pub kind: Kind,
    pub stage: Option<String>,
    pub title: String,
    pub body: String,
    pub trigger: Option<String>,
    pub severity: Option<String>,
    pub remediation: Option<String>,
}

/// What a [`MarketplaceItem`] holds, as mathematical values.
#[verifier::ext_equal]
pub struct MarketplaceItemModel {
    pub kind: Kind,
    pub stage: Option<Seq<char>>,
    pub title: Seq<char>,
    pub body: Seq<char>,
    pub trigger: Option<Seq<char>>,
    pub severity: Option<Seq<char>>,
    pub remediation: Option<Seq<char>>,
}

impl View for MarketplaceItem {
    type V = MarketplaceItemModel;

    open spec fn view(&self) -> MarketplaceItemModel {
        MarketplaceItemModel {
            kind: self.kind,
            stage: opt(self.stage),
            title: self.title@,
            body: self.body@,
            trigger: opt(self.trigger),
            severity: opt(self.severity),
            remediation: opt(self.remediation),
        }
    }
}

impl Clone for MarketplaceItem {
    fn clone(&self) -> (r: Self)
        ensures
            r@ == self@,
    {
        MarketplaceItem {
            kind: self.kind,
            stage: copy_opt(&self.stage),
            title: self.title.clone(),
            body: self.body.clone(),
            trigger: copy_opt(&self.trigger),
            severity: copy_opt(&self.severity),
            remediation: copy_opt(&self.remediation),
        }
    }
}

/// A copy of a list of marketplace items.
pub fn copy_items(v: &Vec<MarketplaceItem>) -> (r: Vec<MarketplaceItem>)
    ensures
        models(r@) == models(v@),
{
    let mut r: Vec<MarketplaceItem> = Vec::new();
    let mut i: usize = 0;
    while i < v.len()
        invariant
            i <= v@.len(),
            models(r@) == models(v@).take(i as int),
        decreases v.len() - i,
    {
        broadcast use lemma_models_push;

        r.push(v[i].clone());
        assert(models(r@) =~= models(v@).take(i + 1));
        i += 1;
    }
    assert(models(r@) =~= models(v@));
    r
}

/// A domain template of the marketplace: its slug, what helps to find it, and its items.
#[derive(Debug)]
pub struct MarketplaceTemplate {
    pub slug: String,
    pub description: String,
    pub query_hint: String,
    /// The registered name of the publisher.
    pub author: Option<String>,
    pub items: Vec<MarketplaceItem>,
}

/// What a [`MarketplaceTemplate`] holds, as mathematical values.
#[verifier::ext_equal]
pub struct MarketplaceTemplateModel {
    pub slug: Seq<char>,
    pub description: Seq<char>,
    pub query_hint: Seq<char>,
    pub author: Option<Seq<char>>,
    pub items: Seq<MarketplaceItemModel>,
}

impl View for MarketplaceTemplate {
    type V = MarketplaceTemplateModel;

    open spec fn view(&self) -> MarketplaceTemplateModel {
        MarketplaceTemplateModel {
            slug: self.slug@,
            description: self.description@,
            query_hint: self.query_hint@,
            author: opt(self.author),
            items: models(self.items@),
        }
    }
}

impl Clone for MarketplaceTemplate {
    fn clone(&self) -> (r: Self)
        ensures
            r@ == self@,
    {
        MarketplaceTemplate {
            slug: self.slug.clone(),
            description: self.description.clone(),
            query_hint: self.query_hint.clone(),
            author: copy_opt(&self.author),
            items: copy_items(&self.items),
        }
    }
}

/// A model that a harness can use, perhaps for one sub-agent only.
#[derive(Debug)]
pub struct ModelRegistryRow {
    pub harness: String,
    pub model_id: String,
    pub capability_tier: String,
    /// The cost weight as a key that orders as the weight does.
    pub cost_weight: i64,
    pub sub_agent_name: Option<String>,
}

/// What a [`ModelRegistryRow`] holds, as mathematical values.
#[verifier::ext_equal]
pub struct ModelRegistryRowModel {
    pub harness: Seq<char>,
    pub model_id: Seq<char>,
    pub capability_tier: Seq<char>,
    pub cost_weight: i64,
    pub sub_agent_name: Option<Seq<char>>,
}

impl View for ModelRegistryRow {
    type V = ModelRegistryRowModel;

    open spec fn view(&self) -> ModelRegistryRowModel {
        ModelRegistryRowModel {
            harness: self.harness@,
            model_id: self.model_id@,
            capability_tier: self.capability_tier@,
            cost_weight: self.cost_weight,
            sub_agent_name: opt(self.sub_agent_name),
        }
    }
}

impl Clone for ModelRegistryRow {
    fn clone(&self) -> (r: Self)
        ensures
            r@ == self@,
    {
        ModelRegistryRow {
            harness: self.harness.clone(),
            model_id: self.model_id.clone(),
            capability_tier: self.capability_tier.clone(),
            cost_weight: self.cost_weight,
            sub_agent_name: copy_opt(&self.sub_agent_name),
        }
    }
}

/// Which model a harness uses for a kind of domain, task and complexity.
#[derive(Debug)]
pub struct RoutingRuleRow {
    pub harness: String,
    pub domain_type: String,
    pub task_type: String,
    pub complexity_tier: String,
    pub model_id: String,
}

/// What a [`RoutingRuleRow`] holds, as mathematical values.
#[verifier::ext_equal]
pub struct RoutingRuleRowModel {
    pub harness: Seq<char>,
    pub domain_type: Seq<char>,
    pub task_type: Seq<char>,
    pub complexity_tier: Seq<char>,
    pub model_id: Seq<char>,
}

impl View for RoutingRuleRow {
    type V = RoutingRuleRowModel;

    open spec fn view(&self) -> RoutingRuleRowModel {
        RoutingRuleRowModel {
            harness: self.harness@,
            domain_type: self.domain_type@,
            task_type: self.task_type@,
            complexity_tier: self.complexity_tier@,
            model_id: self.model_id@,
        }
    }
}

impl Clone for RoutingRuleRow {
    fn clone(&self) -> (r: Self)
        ensures
            r@ == self@,
    {
        RoutingRuleRow {
            harness: self.harness.clone(),
            domain_type: self.domain_type.clone(),
            task_type: self.task_type.clone(),
            complexity_tier: self.complexity_tier.clone(),
            model_id: self.model_id.clone(),
        }
    }
}

/// One step of an agentic run.
#[derive(Debug)]
pub struct EpisodeRow {
    pub id: i64,
    pub run_id: String,
    pub step: i64,
    pub stage: Option<String>,
    pub action: Option<String>,
    pub observation: Option<String>,
    pub outcome: Option<String>,
    pub ts: i64,
    pub knowledge_ids_used: Vec<i64>,
    /// The one domain that the step acted on, where there is one.
    pub domain: Option<String>,
    /// The model that took the step, where the caller reported it.
    pub model: Option<String>,
    /// The tokens that the step used, where the caller reported them.
    pub tokens_used: Option<i64>,
    /// The bits of the cost of the step, where the caller reported it.
    pub cost: Option<u64>,
}

/// What a [`EpisodeRow`] holds, as mathematical values.
#[verifier::ext_equal]
pub struct EpisodeRowModel {
    pub id: i64,
    pub run_id: Seq<char>,
    pub step: i64,
    pub stage: Option<Seq<char>>,
    pub action: Option<Seq<char>>,
    pub observation: Option<Seq<char>>,
    pub outcome: Option<Seq<char>>,
    pub ts: i64,
    pub knowledge_ids_used: Seq<i64>,
    pub domain: Option<Seq<char>>,
    pub model: Option<Seq<char>>,
    pub tokens_used: Option<i64>,
    pub cost: Option<u64>,
}

impl View for EpisodeRow {
    type V = EpisodeRowModel;

    open spec fn view(&self) -> EpisodeRowModel {
        EpisodeRowModel {
            id: self.id,
            run_id: self.run_id@,
            step: self.step,
            stage: opt(self.stage),
            action: opt(self.action),
            observation: opt(self.observation),
            outcome: opt(self.outcome),
            ts: self.ts,
            knowledge_ids_used: self.knowledge_ids_used@,
            domain: opt(self.domain),
            model: opt(self.model),
            tokens_used: self.tokens_used,
            cost: self.cost,
        }
    }
}

impl Clone for EpisodeRow {
    fn clone(&self) -> (r: Self)
        ensures
            r@ == self@,
    {
        EpisodeRow {
            id: self.id,
            run_id: self.run_id.clone(),
            step: self.step,
            stage: copy_opt(&self.stage),
            action: copy_opt(&self.action),
            observation: copy_opt(&self.observation),
            outcome: copy_opt(&self.outcome),
            ts: self.ts,
            knowledge_ids_used: copy_ids(&self.knowledge_ids_used),
            domain: copy_opt(&self.domain),
            model: copy_opt(&self.model),
            tokens_used: self.tokens_used,
            cost: self.cost,
        }
    }
}

/// A retrieval result. It carries provenance and trust, so that the trust rules can be
/// applied to it.
#[derive(Debug)]
pub struct RecallHit {
    /// `chunk` for the reference tier, `knowledge` for a curated item.
    pub source_kind: String,
    pub kind: Option<String>,
    pub title: String,
    pub body: String,
    pub domain: String,
    pub trust: String,
    pub enforceable: bool,
    pub provenance: Option<String>,
    pub fetched_at: Option<i64>,
    /// The position of the hit in the fused ranking.
    pub rank: usize,
}

/// What a [`RecallHit`] holds, as mathematical values.
#[verifier::ext_equal]
pub struct RecallHitModel {
    pub source_kind: Seq<char>,
    pub kind: Option<Seq<char>>,
    pub title: Seq<char>,
    pub body: Seq<char>,
    pub domain: Seq<char>,
    pub trust: Seq<char>,
    pub enforceable: bool,
    pub provenance: Option<Seq<char>>,
    pub fetched_at: Option<i64>,
    pub rank: usize,
}

impl View for RecallHit {
    type V = RecallHitModel;

    open spec fn view(&self) -> RecallHitModel {
        RecallHitModel {
            source_kind: self.source_kind@,
            kind: opt(self.kind),
            title: self.title@,
            body: self.body@,
            domain: self.domain@,
            trust: self.trust@,
            enforceable: self.enforceable,
            provenance: opt(self.provenance),
            fetched_at: self.fetched_at,
            rank: self.rank,
        }
    }
}

impl Clone for RecallHit {
    fn clone(&self) -> (r: Self)
        ensures
            r@ == self@,
    {
        RecallHit {
            source_kind: self.source_kind.clone(),
            kind: copy_opt(&self.kind),
            title: self.title.clone(),
            body: self.body.clone(),
            domain: self.domain.clone(),
            trust: self.trust.clone(),
            enforceable: self.enforceable,
            provenance: copy_opt(&self.provenance),
            fetched_at: self.fetched_at,
            rank: self.rank,
        }
    }
}

} // verus!
