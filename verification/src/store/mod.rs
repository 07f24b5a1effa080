//! The knowledge store: its tables, and what every operation does to them.
//!
//! The tables are plain rows in memory. Each operation is stated over a model of the
//! whole store, so that what it leaves alone is stated with what it changes. The time
//! is an argument; rows that a listing could give in either order keep the order in
//! which they were stored.
pub mod acl;
pub mod chunks;
pub mod domains;
pub mod episodes;
pub mod knowledge;
pub mod lifecycle;
pub mod media;
pub mod profile;
pub mod recall;
pub mod registry;
pub mod retention;
pub mod sources;
pub mod vectors;

use vstd::prelude::*;

use crate::text::{copy_opt, opt};
use crate::types::{Kind, Trust, models};
use crate::types::{EpisodeRow, EpisodeRowModel, MediaRow, MediaRowModel};
use crate::types::{ModelRegistryRow, ModelRegistryRowModel, RoutingRuleRow, RoutingRuleRowModel};
use crate::types::{SourceRow, SourceRowModel, StageRow, StageRowModel};

verus! {

/// Where the conflict of an item with another stands.
#[derive(Debug, Clone, Copy, PartialEq, Eq, Structural)]
pub enum Conflict {
    /// The two items contradict each other.
    Open,
    /// Somebody decided between them.
    Resolved,
}

/// A stored knowledge item.
#[derive(Debug)]
pub struct KnowledgeItem {
    pub id: i64,
    pub kind: Kind,
    pub domain: String,
    pub stage: Option<String>,
    pub title: String,
    pub body: String,
    pub trigger: Option<String>,
    pub severity: Option<String>,
    pub remediation: Option<String>,
    pub source_id: Option<i64>,
    pub trust: Trust,
    pub created_at: i64,
    pub updated_at: i64,
    pub conflict_with_id: Option<i64>,
    pub conflict_status: Option<Conflict>,
    pub retention_days: Option<i64>,
}

/// What a [`KnowledgeItem`] holds, as mathematical values.
#[verifier::ext_equal]
pub struct KnowledgeItemModel {
    pub id: i64,
    pub kind: Kind,
    pub domain: Seq<char>,
    pub stage: Option<Seq<char>>,
    pub title: Seq<char>,
    pub body: Seq<char>,
    pub trigger: Option<Seq<char>>,
    pub severity: Option<Seq<char>>,
    pub remediation: Option<Seq<char>>,
    pub source_id: Option<i64>,
    pub trust: Trust,
    pub created_at: i64,
    pub updated_at: i64,
    pub conflict_with_id: Option<i64>,
    pub conflict_status: Option<Conflict>,
    pub retention_days: Option<i64>,
}

impl View for KnowledgeItem {
    type V = KnowledgeItemModel;

    open spec fn view(&self) -> KnowledgeItemModel {
        KnowledgeItemModel {
            id: self.id,
            kind: self.kind,
            domain: self.domain@,
            stage: opt(self.stage),
            title: self.title@,
            body: self.body@,
            trigger: opt(self.trigger),
            severity: opt(self.severity),
            remediation: opt(self.remediation),
            source_id: self.source_id,
            trust: self.trust,
            created_at: self.created_at,
            updated_at: self.updated_at,
            conflict_with_id: self.conflict_with_id,
            conflict_status: self.conflict_status,
            retention_days: self.retention_days,
        }
    }
}

impl Clone for KnowledgeItem {
    fn clone(&self) -> (r: Self)
        ensures
            r@ == self@,
    {
        KnowledgeItem {
            id: self.id,
            kind: self.kind,
            domain: self.domain.clone(),
            stage: copy_opt(&self.stage),
            title: self.title.clone(),
            body: self.body.clone(),
            trigger: copy_opt(&self.trigger),
            severity: copy_opt(&self.severity),
            remediation: copy_opt(&self.remediation),
            source_id: self.source_id,
            trust: self.trust,
            created_at: self.created_at,
            updated_at: self.updated_at,
            conflict_with_id: self.conflict_with_id,
            conflict_status: self.conflict_status,
            retention_days: self.retention_days,
        }
    }
}

/// A stored domain.
#[derive(Debug)]
pub struct DomainRecord {
    pub name: String,
    pub description: Option<String>,
    pub query_hint: Option<String>,
    pub doc_count: i64,
    pub enforced: bool,
    pub redact_enabled: bool,
    pub retention_days: Option<i64>,
    pub is_marketplace_template: bool,
    pub last_updated: Option<i64>,
}

/// What a [`DomainRecord`] holds, as mathematical values.
#[verifier::ext_equal]
pub struct DomainRecordModel {
    pub name: Seq<char>,
    pub description: Option<Seq<char>>,
    pub query_hint: Option<Seq<char>>,
    pub doc_count: i64,
    pub enforced: bool,
    pub redact_enabled: bool,
    pub retention_days: Option<i64>,
    pub is_marketplace_template: bool,
    pub last_updated: Option<i64>,
}

impl View for DomainRecord {
    type V = DomainRecordModel;

    open spec fn view(&self) -> DomainRecordModel {
        DomainRecordModel {
            name: self.name@,
            description: opt(self.description),
            query_hint: opt(self.query_hint),
            doc_count: self.doc_count,
            enforced: self.enforced,
            redact_enabled: self.redact_enabled,
            retention_days: self.retention_days,
            is_marketplace_template: self.is_marketplace_template,
            last_updated: self.last_updated,
        }
    }
}

impl Clone for DomainRecord {
    fn clone(&self) -> (r: Self)
        ensures
            r@ == self@,
    {
        DomainRecord {
            name: self.name.clone(),
            description: copy_opt(&self.description),
            query_hint: copy_opt(&self.query_hint),
            doc_count: self.doc_count,
            enforced: self.enforced,
            redact_enabled: self.redact_enabled,
            retention_days: self.retention_days,
            is_marketplace_template: self.is_marketplace_template,
            last_updated: self.last_updated,
        }
    }
}

/// A stored piece of an ingested source.
#[derive(Debug)]
pub struct ChunkRecord {
    pub id: i64,
    pub source_id: i64,
    pub domain: String,
    pub ord: i64,
    pub text: String,
}

/// What a [`ChunkRecord`] holds, as mathematical values.
#[verifier::ext_equal]
pub struct ChunkRecordModel {
    pub id: i64,
    pub source_id: i64,
    pub domain: Seq<char>,
    pub ord: i64,
    pub text: Seq<char>,
}

impl View for ChunkRecord {
    type V = ChunkRecordModel;

    open spec fn view(&self) -> ChunkRecordModel {
        ChunkRecordModel {
            id: self.id,
            source_id: self.source_id,
            domain: self.domain@,
            ord: self.ord,
            text: self.text@,
        }
    }
}

impl Clone for ChunkRecord {
    fn clone(&self) -> (r: Self)
        ensures
            r@ == self@,
    {
        ChunkRecord {
            id: self.id,
            source_id: self.source_id,
            domain: self.domain.clone(),
            ord: self.ord,
            text: self.text.clone(),
        }
    }
}

/// Whether an identity may use a domain.
#[derive(Debug)]
pub struct Permission {
    pub identity: String,
    pub domain: String,
    pub allowed: bool,
}

/// What a [`Permission`] holds, as mathematical values.
#[verifier::ext_equal]
pub struct PermissionModel {
    pub identity: Seq<char>,
    pub domain: Seq<char>,
    pub allowed: bool,
}

impl View for Permission {
    type V = PermissionModel;

    open spec fn view(&self) -> PermissionModel {
        PermissionModel {
            identity: self.identity@,
            domain: self.domain@,
            allowed: self.allowed,
        }
    }
}

impl Clone for Permission {
    fn clone(&self) -> (r: Self)
        ensures
            r@ == self@,
    {
        Permission {
            identity: self.identity.clone(),
            domain: self.domain.clone(),
            allowed: self.allowed,
        }
    }
}

/// A stored request to publish a domain.
#[derive(Debug)]
pub struct SubmissionRecord {
    pub id: i64,
    pub slug: String,
    pub description: Option<String>,
    pub query_hint: Option<String>,
    /// The items to publish, as a JSON array.
    pub items_json: String,
    pub status: String,
    pub note: Option<String>,
    pub submitted_at: i64,
    pub reviewed_at: Option<i64>,
    pub author: Option<String>,
}

/// What a [`SubmissionRecord`] holds, as mathematical values.
#[verifier::ext_equal]
pub struct SubmissionRecordModel {
    pub id: i64,
    pub slug: Seq<char>,
    pub description: Option<Seq<char>>,
    pub query_hint: Option<Seq<char>>,
    pub items_json: Seq<char>,
    pub status: Seq<char>,
    pub note: Option<Seq<char>>,
    pub submitted_at: i64,
    pub reviewed_at: Option<i64>,
    pub author: Option<Seq<char>>,
}

impl View for SubmissionRecord {
    type V = SubmissionRecordModel;

    open spec fn view(&self) -> SubmissionRecordModel {
        SubmissionRecordModel {
            id: self.id,
            slug: self.slug@,
            description: opt(self.description),
            query_hint: opt(self.query_hint),
            items_json: self.items_json@,
            status: self.status@,
            note: opt(self.note),
            submitted_at: self.submitted_at,
            reviewed_at: self.reviewed_at,
            author: opt(self.author),
        }
    }
}

impl Clone for SubmissionRecord {
    fn clone(&self) -> (r: Self)
        ensures
            r@ == self@,
    {
        SubmissionRecord {
            id: self.id,
            slug: self.slug.clone(),
            description: copy_opt(&self.description),
            query_hint: copy_opt(&self.query_hint),
            items_json: self.items_json.clone(),
            status: self.status.clone(),
            note: copy_opt(&self.note),
            submitted_at: self.submitted_at,
            reviewed_at: self.reviewed_at,
            author: copy_opt(&self.author),
        }
    }
}

/// A stored preference of the user.
#[derive(Debug)]
pub struct Preference {
    pub id: i64,
    pub scope: String,
    pub statement: String,
    pub created_at: i64,
}

/// What a [`Preference`] holds, as mathematical values.
#[verifier::ext_equal]
pub struct PreferenceModel {
    pub id: i64,
    pub scope: Seq<char>,
    pub statement: Seq<char>,
    pub created_at: i64,
}

impl View for Preference {
    type V = PreferenceModel;

    open spec fn view(&self) -> PreferenceModel {
        PreferenceModel {
            id: self.id,
            scope: self.scope@,
            statement: self.statement@,
            created_at: self.created_at,
        }
    }
}

impl Clone for Preference {
    fn clone(&self) -> (r: Self)
        ensures
            r@ == self@,
    {
        Preference {
            id: self.id,
            scope: self.scope.clone(),
            statement: self.statement.clone(),
            created_at: self.created_at,
        }
    }
}

/// The registered author.
#[derive(Debug)]
pub struct Author {
    pub name: String,
    pub registered_at: i64,
    pub updated_at: i64,
}

/// What a [`Author`] holds, as mathematical values.
#[verifier::ext_equal]
pub struct AuthorModel {
    pub name: Seq<char>,
    pub registered_at: i64,
    pub updated_at: i64,
}

impl View for Author {
    type V = AuthorModel;

    open spec fn view(&self) -> AuthorModel {
        AuthorModel {
            name: self.name@,
            registered_at: self.registered_at,
            updated_at: self.updated_at,
        }
    }
}

impl Clone for Author {
    fn clone(&self) -> (r: Self)
        ensures
            r@ == self@,
    {
        Author {
            name: self.name.clone(),
            registered_at: self.registered_at,
            updated_at: self.updated_at,
        }
    }
}

/// The tables of the store.
#[derive(Debug)]
pub struct Store {
    pub knowledge: Vec<KnowledgeItem>,
    pub domains: Vec<DomainRecord>,
    pub sources: Vec<SourceRow>,
    pub chunks: Vec<ChunkRecord>,
    pub episodes: Vec<EpisodeRow>,
    pub permissions: Vec<Permission>,
    pub models: Vec<ModelRegistryRow>,
    pub rules: Vec<RoutingRuleRow>,
    pub media: Vec<MediaRow>,
    pub submissions: Vec<SubmissionRecord>,
    pub preferences: Vec<Preference>,
    pub stages: Vec<StageRow>,
    pub author: Option<Author>,
}

/// What a [`Store`] holds, as mathematical values.
#[verifier::ext_equal]
pub struct StoreModel {
    pub knowledge: Seq<KnowledgeItemModel>,
    pub domains: Seq<DomainRecordModel>,
    pub sources: Seq<SourceRowModel>,
    pub chunks: Seq<ChunkRecordModel>,
    pub episodes: Seq<EpisodeRowModel>,
    pub permissions: Seq<PermissionModel>,
    pub models: Seq<ModelRegistryRowModel>,
    pub rules: Seq<RoutingRuleRowModel>,
    pub media: Seq<MediaRowModel>,
    pub submissions: Seq<SubmissionRecordModel>,
    pub preferences: Seq<PreferenceModel>,
    pub stages: Seq<StageRowModel>,
    pub author: Option<AuthorModel>,
}

impl View for Store {
    type V = StoreModel;

    open spec fn view(&self) -> StoreModel {
        StoreModel {
            knowledge: models(self.knowledge@),
            domains: models(self.domains@),
            sources: models(self.sources@),
            chunks: models(self.chunks@),
            episodes: models(self.episodes@),
            permissions: models(self.permissions@),
            models: models(self.models@),
            rules: models(self.rules@),
            media: models(self.media@),
            submissions: models(self.submissions@),
            preferences: models(self.preferences@),
            stages: models(self.stages@),
            author: match self.author {
                Some(a) => Some(a@),
                None => None,
            },
        }
    }
}

/// A store without a row.
pub open spec fn empty_store() -> StoreModel {
    StoreModel {
        knowledge: seq![],
        domains: seq![],
        sources: seq![],
        chunks: seq![],
        episodes: seq![],
        permissions: seq![],
        models: seq![],
        rules: seq![],
        media: seq![],
        submissions: seq![],
        preferences: seq![],
        stages: seq![],
        author: None,
    }
}

impl Store {
    /// A store without a row.
    pub fn new() -> (r: Self)
        ensures
            r@ == empty_store(),
    {
        let r: Store = Store {
            knowledge: Vec::new(),
            domains: Vec::new(),
            sources: Vec::new(),
            chunks: Vec::new(),
            episodes: Vec::new(),
            permissions: Vec::new(),
            models: Vec::new(),
            rules: Vec::new(),
            media: Vec::new(),
            submissions: Vec::new(),
            preferences: Vec::new(),
            stages: Vec::new(),
            author: None,
        };
        assert(r@ =~= empty_store());
        r
    }
}

// ---- row numbers ----------------------------------------------------------

/// The number that the next row of a table gets: one more than the largest in use, and
/// one where the table is empty.
pub open spec fn fresh_id<V>(s: Seq<V>, id: spec_fn(V) -> i64) -> int
    decreases s.len(),
{
    if s.len() == 0 {
        1
    } else if s.len() == 1 || id(s.last()) + 1 > fresh_id(s.drop_last(), id) {
        id(s.last()) + 1
    } else {
        fresh_id(s.drop_last(), id)
    }
}

/// The number of a new row is at most one past those that a row can have.
pub proof fn lemma_fresh_id_bound<V>(s: Seq<V>, id: spec_fn(V) -> i64)
    ensures
        fresh_id(s, id) <= i64::MAX + 1,
    decreases s.len(),
{
    if s.len() > 0 {
        lemma_fresh_id_bound(s.drop_last(), id);
    }
}

/// The number of a new row is larger than that of any row of the table.
pub proof fn fresh_id_is_fresh<V>(s: Seq<V>, id: spec_fn(V) -> i64)
    ensures
        forall|i: int| 0 <= i < s.len() ==> id(#[trigger] s[i]) < fresh_id(s, id),
    decreases s.len(),
{
    if s.len() > 0 {
        fresh_id_is_fresh(s.drop_last(), id);
        assert forall|i: int| 0 <= i < s.len() implies id(#[trigger] s[i]) < fresh_id(s, id) by {
            if i < s.len() - 1 {
                assert(s[i] == s.drop_last()[i]);
            }
        }
    }
}

/// The number of the next row of a table; `None` where no larger number is left.
pub(crate) fn next_id<T: View>(
    v: &Vec<T>,
    id: impl Fn(&T) -> i64,
    Ghost(k): Ghost<spec_fn(T::V) -> i64>,
) -> (r: Option<i64>)
    requires
        forall|x: &T| #[trigger] call_requires(id, (x,)),
        forall|x: &T, n: i64| #[trigger] call_ensures(id, (x,), n) ==> n == k(x@),
    ensures
        match r {
            Some(n) => n == fresh_id(models(v@), k),
            None => fresh_id(models(v@), k) > i64::MAX,
        },
{
    let ghost s = models(v@);
    if v.len() == 0 {
        return Some(1);
    }
    let mut top: i64 = id(&v[0]);
    let mut i: usize = 1;
    assert(s.take(1).last() == s[0]);
    while i < v.len()
        invariant
            1 <= i <= v@.len(),
            s == models(v@),
            forall|x: &T| #[trigger] call_requires(id, (x,)),
            forall|x: &T, n: i64| #[trigger] call_ensures(id, (x,), n) ==> n == k(x@),
            top + 1 == fresh_id(s.take(i as int), k),
        decreases v.len() - i,
    {
        assert(s.take(i + 1).drop_last() =~= s.take(i as int));
        let n: i64 = id(&v[i]);
        if n > top {
            top = n;
        }
        i += 1;
    }
    assert(s.take(i as int) =~= s);
    if top == i64::MAX {
        None
    } else {
        Some(top + 1)
    }
}

} // verus!
