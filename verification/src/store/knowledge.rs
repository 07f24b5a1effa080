//! Curated knowledge: facts, rules and procedures, their conflicts and their retention.
use vstd::prelude::*;

use crate::order::{ints, picked};
use crate::redact::{redact, redacted};
use crate::store::acl::redacts;
use crate::store::{Conflict, KnowledgeItem, KnowledgeItemModel, Store, StoreModel};
use crate::store::{fresh_id, next_id};
use crate::table::{any, find_row, first_match, list, listed, map_at, retain, rewrite};
use crate::table::{some_match, top};
use crate::text::{copy_opt, decimal, lower, lowered, number, opt_str, own, same};
use crate::types::{enforceable, kind_name, lemma_models_push, models, trust_name};
use crate::types::{Kind, KnowledgeItemWithSource, KnowledgeItemWithSourceModel, KnowledgeRow};
use crate::types::{KnowledgeRowModel, SourceRow, SourceRowModel, Trust};

verus! {

// ---- rows -----------------------------------------------------------------

/// The name of the state of a conflict.
pub open spec fn conflict_name(c: Option<Conflict>) -> Option<Seq<char>> {
    match c {
        Some(Conflict::Open) => Some("open"@),
        Some(Conflict::Resolved) => Some("resolved"@),
        None => None,
    }
}

/// An item as listings give it.
pub open spec fn row_of(k: KnowledgeItemModel) -> KnowledgeRowModel {
    KnowledgeRowModel {
        id: k.id,
        kind: kind_name(k.kind),
        domain: k.domain,
        stage: k.stage,
        title: k.title,
        body: k.body,
        trust: trust_name(k.trust),
        enforceable: enforceable(k.trust),
        severity: k.severity,
        created_at: k.created_at,
        updated_at: k.updated_at,
        conflict_with_id: k.conflict_with_id,
        conflict_status: conflict_name(k.conflict_status),
        retention_days: k.retention_days,
    }
}

/// An item as listings give it.
pub fn knowledge_row(k: &KnowledgeItem) -> (r: KnowledgeRow)
    ensures
        r@ == row_of(k@),
{
    let status: Option<String> = match k.conflict_status {
        Some(Conflict::Open) => Some("open".to_owned()),
        Some(Conflict::Resolved) => Some("resolved".to_owned()),
        None => None,
    };
    KnowledgeRow {
        id: k.id,
        kind: k.kind.as_str().to_owned(),
        domain: k.domain.clone(),
        stage: copy_opt(&k.stage),
        title: k.title.clone(),
        body: k.body.clone(),
        trust: k.trust.as_str().to_owned(),
        enforceable: k.trust.is_enforceable(),
        severity: copy_opt(&k.severity),
        created_at: k.created_at,
        updated_at: k.updated_at,
        conflict_with_id: k.conflict_with_id,
        conflict_status: status,
        retention_days: k.retention_days,
    }
}

fn rows_at(v: &Vec<KnowledgeItem>, at: &Vec<usize>) -> (r: Vec<KnowledgeRow>)
    requires
        forall|i: int| 0 <= i < at@.len() ==> #[trigger] at@[i] < v@.len(),
    ensures
        models(r@) == picked(models(v@), ints(at@)).map_values(|k: KnowledgeItemModel| row_of(k)),
{
    let f = |k: &KnowledgeItem| -> (r: KnowledgeRow)
        ensures
            r@ == row_of(k@),
        { knowledge_row(k) };
    map_at(v, at, f, Ghost(|k: KnowledgeItemModel| row_of(k)))
}

// ---- storing --------------------------------------------------------------

/// A knowledge item before it is stored.
pub struct Draft {
    pub kind: Kind,
    pub domain: Seq<char>,
    pub stage: Option<Seq<char>>,
    pub title: Seq<char>,
    pub body: Seq<char>,
    pub trigger: Option<Seq<char>>,
    pub severity: Option<Seq<char>>,
    pub remediation: Option<Seq<char>>,
    pub source_id: Option<i64>,
    pub trust: Trust,
}

/// A text as a domain stores it: redacted, unless the domain does without.
pub open spec fn stored_text(s: StoreModel, domain: Seq<char>, text: Seq<char>) -> Seq<char> {
    if redacts(s, domain) {
        redacted(text)
    } else {
        text
    }
}

/// The number that the next knowledge item gets.
pub open spec fn next_knowledge_id(s: StoreModel) -> int {
    fresh_id(s.knowledge, |k: KnowledgeItemModel| k.id)
}

/// The item that a draft is stored as.
pub open spec fn item_of(s: StoreModel, d: Draft, now: i64) -> KnowledgeItemModel {
    KnowledgeItemModel {
        id: next_knowledge_id(s) as i64,
        kind: d.kind,
        domain: d.domain,
        stage: d.stage,
        title: stored_text(s, d.domain, d.title),
        body: stored_text(s, d.domain, d.body),
        trigger: d.trigger,
        severity: d.severity,
        remediation: d.remediation,
        source_id: d.source_id,
        trust: d.trust,
        created_at: now,
        updated_at: now,
        conflict_with_id: None,
        conflict_status: None,
        retention_days: None,
    }
}

/// Whether a new item contradicts an enforceable one: they have the same domain and
/// title, capitals aside, and say different things.
pub open spec fn contradicts(r: KnowledgeItemModel, new: KnowledgeItemModel) -> bool {
    r.domain == new.domain && lower(r.title) == lower(new.title) && r.id != new.id && enforceable(
        r.trust,
    ) && r.body != new.body
}

/// The item that a new one contradicts: the one that was updated last.
pub open spec fn rival(rows: Seq<KnowledgeItemModel>, new: KnowledgeItemModel) -> Option<i64> {
    let found = listed(
        rows,
        |r: KnowledgeItemModel| contradicts(r, new),
        |r: KnowledgeItemModel| (r.updated_at, 0i64),
    );
    if found.len() == 0 {
        None
    } else {
        Some(found[0].id)
    }
}

/// A row after the items `a` and `b` were marked as in conflict with each other.
pub open spec fn at_odds(r: KnowledgeItemModel, a: i64, b: i64, now: i64) -> KnowledgeItemModel {
    if r.id == a {
        KnowledgeItemModel {
            conflict_with_id: Some(b),
            conflict_status: Some(Conflict::Open),
            updated_at: now,
            ..r
        }
    } else if r.id == b {
        KnowledgeItemModel {
            conflict_with_id: Some(a),
            conflict_status: Some(Conflict::Open),
            updated_at: now,
            ..r
        }
    } else {
        r
    }
}

/// The store after a draft was stored: the new item, and the conflict with the item
/// that it contradicts, where there is one.
pub open spec fn inserted(s: StoreModel, d: Draft, now: i64) -> StoreModel {
    let new = item_of(s, d, now);
    let rows = s.knowledge.push(new);
    StoreModel {
        knowledge: match rival(rows, new) {
            Some(prior) => rows.map_values(
                |r: KnowledgeItemModel| at_odds(r, prior, new.id, now),
            ),
            None => rows,
        },
        ..s
    }
}

/// The draft of a fact that the user states.
pub open spec fn user_fact(domain: Seq<char>, statement: Seq<char>) -> Draft {
    Draft {
        kind: Kind::Fact,
        domain,
        stage: None,
        title: statement,
        body: statement,
        trigger: None,
        severity: None,
        remediation: None,
        source_id: None,
        trust: Trust::User,
    }
}

impl Store {
    /// Stores a fact that the user states: of the highest trust, enforceable at once.
    /// Gives its number; `None`, and nothing stored, where no number is left.
    pub fn remember(&mut self, domain: &str, statement: &str, now: i64) -> (r: Option<i64>)
        ensures
            match r {
                Some(id) => id == next_knowledge_id(old(self)@) && final(self)@ == inserted(
                    old(self)@,
                    user_fact(domain@, statement@),
                    now,
                ),
                None => next_knowledge_id(old(self)@) > i64::MAX && final(self)@ == old(self)@,
            },
    {
        self.insert_knowledge(
            Kind::Fact,
            domain,
            None,
            statement,
            statement,
            None,
            None,
            None,
            None,
            Trust::User,
            now,
        )
    }

    /// Stores a candidate: proposed, and not enforced until it is promoted. Gives its
    /// number; `None`, and nothing stored, where no number is left.
    pub fn propose(
        &mut self,
        kind: Kind,
        domain: &str,
        stage: Option<&str>,
        title: &str,
        body: &str,
        trigger: Option<&str>,
        severity: Option<&str>,
        remediation: Option<&str>,
        source_id: Option<i64>,
        now: i64,
    ) -> (r: Option<i64>)
        ensures
            match r {
                Some(id) => id == next_knowledge_id(old(self)@) && final(self)@ == inserted(
                    old(self)@,
                    (Draft {
                        kind,
                        domain: domain@,
                        stage: opt_str(stage),
                        title: title@,
                        body: body@,
                        trigger: opt_str(trigger),
                        severity: opt_str(severity),
                        remediation: opt_str(remediation),
                        source_id,
                        trust: Trust::Proposed,
                    }),
                    now,
                ),
                None => next_knowledge_id(old(self)@) > i64::MAX && final(self)@ == old(self)@,
            },
    {
        self.insert_knowledge(
            kind,
            domain,
            stage,
            title,
            body,
            trigger,
            severity,
            remediation,
            source_id,
            Trust::Proposed,
            now,
        )
    }

    fn insert_knowledge(
        &mut self,
        kind: Kind,
        domain: &str,
        stage: Option<&str>,
        title: &str,
        body: &str,
        trigger: Option<&str>,
        severity: Option<&str>,
        remediation: Option<&str>,
        source_id: Option<i64>,
        trust: Trust,
        now: i64,
    ) -> (r: Option<i64>)
        ensures
            match r {
                Some(id) => id == next_knowledge_id(old(self)@) && final(self)@ == inserted(
                    old(self)@,
                    (Draft {
                        kind,
                        domain: domain@,
                        stage: opt_str(stage),
                        title: title@,
                        body: body@,
                        trigger: opt_str(trigger),
                        severity: opt_str(severity),
                        remediation: opt_str(remediation),
                        source_id,
                        trust,
                    }),
                    now,
                ),
                None => next_knowledge_id(old(self)@) > i64::MAX && final(self)@ == old(self)@,
            },
    {
        broadcast use lemma_models_push;

        let ghost d = Draft {
            kind,
            domain: domain@,
            stage: opt_str(stage),
            title: title@,
            body: body@,
            trigger: opt_str(trigger),
            severity: opt_str(severity),
            remediation: opt_str(remediation),
            source_id,
            trust,
        };
        let number_of = |k: &KnowledgeItem| -> (n: i64)
            ensures
                n == k@.id,
            { k.id };
        let id: i64 = match next_id(
            &self.knowledge,
            number_of,
            Ghost(|k: KnowledgeItemModel| k.id),
        ) {
            Some(n) => n,
            None => {
                return None;
            },
        };
        let hide: bool = self.domain_redact_enabled(domain);
        let title: String = if hide { redact(title) } else { title.to_owned() };
        let body: String = if hide { redact(body) } else { body.to_owned() };
        let item: KnowledgeItem = KnowledgeItem {
            id,
            kind,
            domain: domain.to_owned(),
            stage: own(stage),
            title: title.clone(),
            body: body.clone(),
            trigger: own(trigger),
            severity: own(severity),
            remediation: own(remediation),
            source_id,
            trust,
            created_at: now,
            updated_at: now,
            conflict_with_id: None,
            conflict_status: None,
            retention_days: None,
        };
        let ghost new = item_of(old(self)@, d, now);
        assert(item@ =~= new);
        self.knowledge.push(item);
        let ghost rows = models(self.knowledge@);
        assert(rows == old(self)@.knowledge.push(new));
        let low: String = lowered(title.as_str());
        let differs = |r: &KnowledgeItem| -> (b: bool)
            ensures
                b == (r@.domain == domain@ && lower(r@.title) == lower(title@) && r@.id != id
                    && enforceable(r@.trust) && r@.body != body@),
            {
                same(r.domain.as_str(), domain) && same(
                    lowered(r.title.as_str()).as_str(),
                    low.as_str(),
                ) && r.id != id && r.trust.is_enforceable() && !same(r.body.as_str(), body.as_str())
            };
        let when = |r: &KnowledgeItem| -> (k: (i64, i64))
            ensures
                k == (r@.updated_at, 0i64),
            { (r.updated_at, 0) };
        let found: Vec<usize> = list(
            &self.knowledge,
            differs,
            when,
            1,
            Ghost(|r: KnowledgeItemModel| contradicts(r, new)),
            Ghost(|r: KnowledgeItemModel| (r.updated_at, 0i64)),
        );
        let ghost p = picked(rows, ints(found@));
        if found.len() > 0 {
            assert(p.len() > 0);
            assert(found@[0] < self.knowledge@.len());
            let prior: i64 = self.knowledge[found[0]].id;
            assert(p[0] == rows[found@[0] as int]);
            assert(rival(rows, new) == Some(prior));
            let mark = |r: KnowledgeItem| -> (q: KnowledgeItem)
                ensures
                    q@ == at_odds(r@, prior, id, now),
                {
                    let mut q: KnowledgeItem = r;
                    if q.id == prior {
                        q.conflict_with_id = Some(id);
                        q.conflict_status = Some(Conflict::Open);
                        q.updated_at = now;
                    } else if q.id == id {
                        q.conflict_with_id = Some(prior);
                        q.conflict_status = Some(Conflict::Open);
                        q.updated_at = now;
                    }
                    q
                };
            rewrite(
                &mut self.knowledge,
                mark,
                Ghost(|r: KnowledgeItemModel| at_odds(r, prior, id, now)),
            );
        } else {
            assert(p.len() == 0);
            assert(rival(rows, new) is None);
        }
        assert(self@ =~= inserted(old(self)@, d, now));
        Some(id)
    }
}

// ---- validating -----------------------------------------------------------

/// An item that was promoted: a proposed item becomes reviewed.
pub open spec fn promoted_item(r: KnowledgeItemModel, id: i64, now: i64) -> KnowledgeItemModel {
    if r.id == id && r.trust == Trust::Proposed {
        KnowledgeItemModel { trust: Trust::Reviewed, updated_at: now, ..r }
    } else {
        r
    }
}

/// The store after the promotion of the item `id`.
pub open spec fn promoted(s: StoreModel, id: i64, now: i64) -> StoreModel {
    StoreModel {
        knowledge: s.knowledge.map_values(|r: KnowledgeItemModel| promoted_item(r, id, now)),
        ..s
    }
}

/// Whether the store holds an item `id`.
pub open spec fn known(s: StoreModel, id: i64) -> bool {
    some_match(s.knowledge, |r: KnowledgeItemModel| r.id == id)
}

/// Whether the store holds a proposed item `id`.
pub open spec fn promotable(s: StoreModel, id: i64) -> bool {
    some_match(s.knowledge, |r: KnowledgeItemModel| r.id == id && r.trust == Trust::Proposed)
}

/// The store without the item `id`.
pub open spec fn forgotten(s: StoreModel, id: i64) -> StoreModel {
    StoreModel { knowledge: s.knowledge.filter(|r: KnowledgeItemModel| r.id != id), ..s }
}

impl Store {
    /// Whether the store holds an item `id`.
    fn knows(&self, id: i64) -> (r: bool)
        ensures
            r == known(self@, id),
    {
        let is = |r: &KnowledgeItem| -> (b: bool)
            ensures
                b == (r@.id == id),
            { r.id == id };
        any(&self.knowledge, is, Ghost(|r: KnowledgeItemModel| r.id == id))
    }

    /// The validation gate: promotes a proposed item to reviewed, which makes it
    /// enforceable. Says whether there was one.
    pub fn promote(&mut self, id: i64, now: i64) -> (r: bool)
        ensures
            final(self)@ == promoted(old(self)@, id, now),
            r == promotable(old(self)@, id),
    {
        let is = |r: &KnowledgeItem| -> (b: bool)
            ensures
                b == (r@.id == id && r@.trust == Trust::Proposed),
            { r.id == id && r.trust == Trust::Proposed };
        let done: bool = any(
            &self.knowledge,
            is,
            Ghost(|r: KnowledgeItemModel| r.id == id && r.trust == Trust::Proposed),
        );
        let raise = |r: KnowledgeItem| -> (q: KnowledgeItem)
            ensures
                q@ == promoted_item(r@, id, now),
            {
                let mut q: KnowledgeItem = r;
                if q.id == id && q.trust == Trust::Proposed {
                    q.trust = Trust::Reviewed;
                    q.updated_at = now;
                }
                q
            };
        rewrite(
            &mut self.knowledge,
            raise,
            Ghost(|r: KnowledgeItemModel| promoted_item(r, id, now)),
        );
        assert(self@ =~= promoted(old(self)@, id, now));
        done
    }

    /// Removes an item. Says whether there was one.
    pub fn forget(&mut self, id: i64) -> (r: bool)
        ensures
            final(self)@ == forgotten(old(self)@, id),
            r == known(old(self)@, id),
    {
        let done: bool = self.knows(id);
        let other = |r: &KnowledgeItem| -> (b: bool)
            ensures
                b == (r@.id != id),
            { r.id != id };
        retain(&mut self.knowledge, other, Ghost(|r: KnowledgeItemModel| r.id != id));
        assert(self@ =~= forgotten(old(self)@, id));
        done
    }

    /// Removes every item, and says how many they were.
    pub fn clear_all_knowledge(&mut self) -> (n: usize)
        ensures
            final(self)@ == (StoreModel { knowledge: seq![], ..old(self)@ }),
            n == old(self)@.knowledge.len(),
    {
        let n: usize = self.knowledge.len();
        self.knowledge = Vec::new();
        assert(self@ =~= (StoreModel { knowledge: seq![], ..old(self)@ }));
        n
    }
}

// ---- listing --------------------------------------------------------------

/// Whether an item belongs to a domain, and has the trust tier and the kind that are
/// asked for.
pub open spec fn is_wanted(
    r: KnowledgeItemModel,
    domain: Seq<char>,
    trust: Option<Seq<char>>,
    kind: Option<Kind>,
) -> bool {
    r.domain == domain && (match trust {
        Some(t) => trust_name(r.trust) == t,
        None => true,
    }) && (match kind {
        Some(k) => r.kind == k,
        None => true,
    })
}

/// The knowledge of a domain, newest first, a hundred items at most.
pub open spec fn knowledge_list(
    s: StoreModel,
    domain: Seq<char>,
    trust: Option<Seq<char>>,
    kind: Option<Kind>,
) -> Seq<KnowledgeRowModel> {
    top(
        listed(
            s.knowledge,
            |r: KnowledgeItemModel| is_wanted(r, domain, trust, kind),
            |r: KnowledgeItemModel| (r.updated_at, 0i64),
        ),
        100,
    ).map_values(|k: KnowledgeItemModel| row_of(k))
}

/// The items in open conflict, newest first, two hundred at most.
pub open spec fn conflict_list(s: StoreModel, domain: Option<Seq<char>>) -> Seq<KnowledgeRowModel> {
    top(
        listed(
            s.knowledge,
            |r: KnowledgeItemModel| is_contested(r, domain),
            |r: KnowledgeItemModel| (r.updated_at, 0i64),
        ),
        200,
    ).map_values(|k: KnowledgeItemModel| row_of(k))
}

/// Whether an item is in open conflict, and in the domain that is asked for.
pub open spec fn is_contested(r: KnowledgeItemModel, domain: Option<Seq<char>>) -> bool {
    r.conflict_status == Some(Conflict::Open) && (match domain {
        Some(d) => r.domain == d,
        None => true,
    })
}

/// The item `id` with its source.
pub open spec fn with_source(s: StoreModel, id: i64) -> Option<KnowledgeItemWithSourceModel> {
    match first_match(s.knowledge, |r: KnowledgeItemModel| r.id == id) {
        Some(k) => {
            let source = match k.source_id {
                Some(n) => first_match(s.sources, |r: SourceRowModel| r.id == n),
                None => None,
            };
            Some(
                KnowledgeItemWithSourceModel {
                    row: row_of(k),
                    source_title: match source {
                        Some(x) => x.title,
                        None => None,
                    },
                    source_uri: match source {
                        Some(x) => x.uri,
                        None => None,
                    },
                },
            )
        },
        None => None,
    }
}

impl Store {
    /// The knowledge of a domain, newest first, a hundred items at most; of a trust
    /// tier or a kind only, where one is given.
    pub fn list_knowledge(&self, domain: &str, trust: Option<&str>, kind: Option<Kind>) -> (r: Vec<
        KnowledgeRow,
    >)
        ensures
            models(r@) == knowledge_list(self@, domain@, opt_str(trust), kind),
    {
        let wanted = |r: &KnowledgeItem| -> (b: bool)
            ensures
                b == is_wanted(r@, domain@, opt_str(trust), kind),
            {
                same(r.domain.as_str(), domain) && (match trust {
                    Some(t) => same(r.trust.as_str(), t),
                    None => true,
                }) && (match kind {
                    Some(k) => r.kind == k,
                    None => true,
                })
            };
        let when = |r: &KnowledgeItem| -> (k: (i64, i64))
            ensures
                k == (r@.updated_at, 0i64),
            { (r.updated_at, 0) };
        let at: Vec<usize> = list(
            &self.knowledge,
            wanted,
            when,
            100,
            Ghost(|r: KnowledgeItemModel| is_wanted(r, domain@, opt_str(trust), kind)),
            Ghost(|r: KnowledgeItemModel| (r.updated_at, 0i64)),
        );
        rows_at(&self.knowledge, &at)
    }

    /// The items in open conflict, newest first, two hundred at most; of one domain
    /// only, where one is given.
    pub fn list_conflicts(&self, domain: Option<&str>) -> (r: Vec<KnowledgeRow>)
        ensures
            models(r@) == conflict_list(self@, opt_str(domain)),
    {
        let contested = |r: &KnowledgeItem| -> (b: bool)
            ensures
                b == is_contested(r@, opt_str(domain)),
            {
                let open: bool = match r.conflict_status {
                    Some(Conflict::Open) => true,
                    _ => false,
                };
                open && (match domain {
                    Some(d) => same(r.domain.as_str(), d),
                    None => true,
                })
            };
        let when = |r: &KnowledgeItem| -> (k: (i64, i64))
            ensures
                k == (r@.updated_at, 0i64),
            { (r.updated_at, 0) };
        let at: Vec<usize> = list(
            &self.knowledge,
            contested,
            when,
            200,
            Ghost(|r: KnowledgeItemModel| is_contested(r, opt_str(domain))),
            Ghost(|r: KnowledgeItemModel| (r.updated_at, 0i64)),
        );
        rows_at(&self.knowledge, &at)
    }

    /// The position of the item `id`.
    pub(crate) fn knowledge_at(&self, id: i64) -> (r: Option<usize>)
        ensures
            match r {
                Some(i) => i < self.knowledge@.len() && first_match(
                    self@.knowledge,
                    |r: KnowledgeItemModel| r.id == id,
                ) == Some(self.knowledge@[i as int]@) && self.knowledge@[i as int]@.id == id
                    && known(self@, id),
                None => first_match(self@.knowledge, |r: KnowledgeItemModel| r.id == id) is None
                    && !known(self@, id),
            },
    {
        let is = |r: &KnowledgeItem| -> (b: bool)
            ensures
                b == (r@.id == id),
            { r.id == id };
        find_row(&self.knowledge, is, Ghost(|r: KnowledgeItemModel| r.id == id))
    }

    /// The item `id` with the title and the address of its source; `None` where there is
    /// no such item.
    pub fn get_knowledge_by_id(&self, id: i64) -> (r: Option<KnowledgeItemWithSource>)
        ensures
            match r {
                Some(k) => with_source(self@, id) == Some(k@),
                None => with_source(self@, id) is None,
            },
    {
        let i: usize = match self.knowledge_at(id) {
            Some(i) => i,
            None => {
                return None;
            },
        };
        let source: Option<usize> = match self.knowledge[i].source_id {
            Some(n) => {
                let is = |r: &SourceRow| -> (b: bool)
                    ensures
                        b == (r@.id == n),
                    { r.id == n };
                find_row(&self.sources, is, Ghost(|r: SourceRowModel| r.id == n))
            },
            None => None,
        };
        let row: KnowledgeRow = knowledge_row(&self.knowledge[i]);
        match source {
            Some(j) => Some(
                KnowledgeItemWithSource {
                    row,
                    source_title: copy_opt(&self.sources[j].title),
                    source_uri: copy_opt(&self.sources[j].uri),
                },
            ),
            None => Some(KnowledgeItemWithSource { row, source_title: None, source_uri: None }),
        }
    }
}

// ---- conflicts ------------------------------------------------------------

/// The item that the item `id` is in conflict with.
pub open spec fn opponent(s: StoreModel, id: i64) -> Option<i64> {
    match first_match(s.knowledge, |r: KnowledgeItemModel| r.id == id) {
        Some(k) => k.conflict_with_id,
        None => None,
    }
}

/// The store after a conflict of the item `id` with the item `other` was resolved.
/// `keep` keeps both, `accept` removes the other, and `merge` removes it and notes that
/// in the body of the item.
pub open spec fn resolved(s: StoreModel, id: i64, other: i64, action: Seq<char>) -> StoreModel {
    if action == "keep"@ {
        StoreModel {
            knowledge: s.knowledge.map_values(
                |r: KnowledgeItemModel| kept_item(r, id, other),
            ),
            ..s
        }
    } else if action == "accept"@ {
        StoreModel {
            knowledge: s.knowledge.filter(|r: KnowledgeItemModel| r.id != other).map_values(
                |r: KnowledgeItemModel| settled_item(r, id, seq![]),
            ),
            ..s
        }
    } else {
        StoreModel {
            knowledge: s.knowledge.map_values(
                |r: KnowledgeItemModel| settled_item(r, id, merge_note(other)),
            ).filter(|r: KnowledgeItemModel| r.id != other),
            ..s
        }
    }
}

/// One of the two items of a conflict that was resolved by keeping both.
pub open spec fn kept_item(r: KnowledgeItemModel, id: i64, other: i64) -> KnowledgeItemModel {
    if r.id == id || r.id == other {
        KnowledgeItemModel { conflict_status: Some(Conflict::Resolved), ..r }
    } else {
        r
    }
}

/// The item that is left of a conflict, with a note behind its body.
pub open spec fn settled_item(r: KnowledgeItemModel, id: i64, note: Seq<char>) -> KnowledgeItemModel {
    if r.id == id {
        KnowledgeItemModel {
            body: r.body + note,
            conflict_with_id: None,
            conflict_status: Some(Conflict::Resolved),
            ..r
        }
    } else {
        r
    }
}

/// What a merge notes in the body of the item that is left.
pub open spec fn merge_note(other: i64) -> Seq<char> {
    "\nMerged from knowledge #"@ + decimal(other as int)
}

/// Whether a text names a way to resolve a conflict.
pub open spec fn is_resolution(action: Seq<char>) -> bool {
    action == "keep"@ || action == "accept"@ || action == "merge"@
}

impl Store {
    fn settle(&mut self, id: i64, note: &str)
        ensures
            final(self)@ == (StoreModel {
                knowledge: old(self)@.knowledge.map_values(
                    |r: KnowledgeItemModel| settled_item(r, id, note@),
                ),
                ..old(self)@
            }),
    {
        let set = |r: KnowledgeItem| -> (q: KnowledgeItem)
            ensures
                q@ == settled_item(r@, id, note@),
            {
                let mut q: KnowledgeItem = r;
                if q.id == id {
                    let mut body: String = q.body.clone();
                    body.append(note);
                    q.body = body;
                    q.conflict_with_id = None;
                    q.conflict_status = Some(Conflict::Resolved);
                }
                q
            };
        rewrite(
            &mut self.knowledge,
            set,
            Ghost(|r: KnowledgeItemModel| settled_item(r, id, note@)),
        );
        assert(self@ =~= (StoreModel {
            knowledge: old(self)@.knowledge.map_values(
                |r: KnowledgeItemModel| settled_item(r, id, note@),
            ),
            ..old(self)@
        }));
    }

    /// Resolves the conflict that an item is in: `keep` keeps both items, `accept`
    /// removes the other, `merge` removes it with a note. Says whether that was done;
    /// it is not where the item has no conflict, or the action is none of the three.
    pub fn resolve_conflict(&mut self, id: i64, action: &str) -> (r: bool)
        ensures
            r == (opponent(old(self)@, id) is Some && is_resolution(action@)),
            r ==> final(self)@ == resolved(old(self)@, id, opponent(old(self)@, id)->0, action@),
            !r ==> final(self)@ == old(self)@,
    {
        proof {
            reveal_strlit("keep");
            reveal_strlit("accept");
            reveal_strlit("merge");
            assert("keep"@.len() == 4 && "accept"@.len() == 6 && "merge"@.len() == 5);
        }
        let other: i64 = match self.knowledge_at(id) {
            Some(i) => match self.knowledge[i].conflict_with_id {
                Some(o) => o,
                None => {
                    return false;
                },
            },
            None => {
                return false;
            },
        };
        let ghost s = old(self)@;
        if same(action, "keep") {
            let set = |r: KnowledgeItem| -> (q: KnowledgeItem)
                ensures
                    q@ == kept_item(r@, id, other),
                {
                    let mut q: KnowledgeItem = r;
                    if q.id == id || q.id == other {
                        q.conflict_status = Some(Conflict::Resolved);
                    }
                    q
                };
            rewrite(
                &mut self.knowledge,
                set,
                Ghost(|r: KnowledgeItemModel| kept_item(r, id, other)),
            );
            assert(self@ =~= resolved(s, id, other, action@));
            true
        } else if same(action, "accept") {
            self.forget(other);
            self.settle(id, "");
            proof {
                reveal_strlit("");
                assert(""@ =~= seq![]);
            }
            assert(self@ =~= resolved(s, id, other, action@));
            true
        } else if same(action, "merge") {
            let mut note: String = "\nMerged from knowledge #".to_owned();
            note.append(number(other as i128).as_str());
            self.settle(id, note.as_str());
            self.forget(other);
            assert(self@ =~= resolved(s, id, other, action@));
            true
        } else {
            false
        }
    }
}

// ---- retention and editing ------------------------------------------------

/// A retention that was asked for, held to a ceiling.
pub open spec fn clamped(value: Option<i64>, max: Option<i64>) -> Option<i64> {
    match (value, max) {
        (Some(n), Some(m)) => if n > m {
            Some(m)
        } else {
            Some(n)
        },
        _ => value,
    }
}

/// Holds a retention that was asked for to a ceiling. No retention stays no retention:
/// the ceiling says how long data may be kept, and forces no end on data without one.
pub fn clamp_retention(value: Option<i64>, max: Option<i64>) -> (r: Option<i64>)
    ensures
        r == clamped(value, max),
{
    match (value, max) {
        (Some(n), Some(m)) => if n > m {
            Some(m)
        } else {
            Some(n)
        },
        _ => value,
    }
}

/// A retention that was held to a ceiling does not exceed it, is there if and only if
/// one was asked for, and is unchanged when held to the ceiling again.
pub proof fn clamping_respects_the_ceiling(value: Option<i64>, max: i64)
    ensures
        clamped(value, Some(max)) matches Some(n) ==> n <= max,
        clamped(value, Some(max)) is None <==> value is None,
        clamped(clamped(value, Some(max)), Some(max)) == clamped(value, Some(max)),
        clamped(value, None) == value,
{
}

/// An item after its retention was set.
pub open spec fn retained_item(
    r: KnowledgeItemModel,
    id: i64,
    days: Option<i64>,
) -> KnowledgeItemModel {
    if r.id == id {
        KnowledgeItemModel { retention_days: days, ..r }
    } else {
        r
    }
}

/// What an edit puts in the place of the fields of an item.
pub struct Edit {
    pub title: Seq<char>,
    pub body: Seq<char>,
    pub stage: Option<Seq<char>>,
    pub trigger: Option<Seq<char>>,
    pub severity: Option<Seq<char>>,
    pub remediation: Option<Seq<char>>,
}

/// An item after an edit. Its trust and its domain stay.
pub open spec fn edited_item(
    r: KnowledgeItemModel,
    id: i64,
    e: Edit,
    now: i64,
) -> KnowledgeItemModel {
    if r.id == id {
        KnowledgeItemModel {
            title: e.title,
            body: e.body,
            stage: e.stage,
            trigger: e.trigger,
            severity: e.severity,
            remediation: e.remediation,
            updated_at: now,
            ..r
        }
    } else {
        r
    }
}

impl Store {
    /// Sets or clears how long an item is kept, held to a ceiling. Says whether there is
    /// such an item.
    pub fn set_knowledge_retention(
        &mut self,
        id: i64,
        retention_days: Option<i64>,
        max_retention_days: Option<i64>,
    ) -> (r: bool)
        ensures
            r == known(old(self)@, id),
            final(self)@ == (StoreModel {
                knowledge: old(self)@.knowledge.map_values(
                    |r: KnowledgeItemModel|
                        retained_item(r, id, clamped(retention_days, max_retention_days)),
                ),
                ..old(self)@
            }),
    {
        let days: Option<i64> = clamp_retention(retention_days, max_retention_days);
        let done: bool = self.knows(id);
        let set = |r: KnowledgeItem| -> (q: KnowledgeItem)
            ensures
                q@ == retained_item(r@, id, days),
            {
                let mut q: KnowledgeItem = r;
                if q.id == id {
                    q.retention_days = days;
                }
                q
            };
        rewrite(
            &mut self.knowledge,
            set,
            Ghost(|r: KnowledgeItemModel| retained_item(r, id, days)),
        );
        assert(self@ =~= (StoreModel {
            knowledge: old(self)@.knowledge.map_values(
                |r: KnowledgeItemModel|
                    retained_item(r, id, clamped(retention_days, max_retention_days)),
            ),
            ..old(self)@
        }));
        done
    }

    /// Puts new texts in the place of those of an item. Says whether there is such an
    /// item.
    pub fn update_knowledge(
        &mut self,
        id: i64,
        title: &str,
        body: &str,
        stage: Option<&str>,
        trigger: Option<&str>,
        severity: Option<&str>,
        remediation: Option<&str>,
        now: i64,
    ) -> (r: bool)
        ensures
            r == known(old(self)@, id),
            final(self)@ == ({
                let e = Edit {
                    title: title@,
                    body: body@,
                    stage: opt_str(stage),
                    trigger: opt_str(trigger),
                    severity: opt_str(severity),
                    remediation: opt_str(remediation),
                };
                StoreModel {
                    knowledge: old(self)@.knowledge.map_values(
                        |r: KnowledgeItemModel| edited_item(r, id, e, now),
                    ),
                    ..old(self)@
                }
            }),
    {
        let ghost e = Edit {
            title: title@,
            body: body@,
            stage: opt_str(stage),
            trigger: opt_str(trigger),
            severity: opt_str(severity),
            remediation: opt_str(remediation),
        };
        let done: bool = self.knows(id);
        let set = |r: KnowledgeItem| -> (q: KnowledgeItem)
            ensures
                q@ == edited_item(
                    r@,
                    id,
                    (Edit {
                        title: title@,
                        body: body@,
                        stage: opt_str(stage),
                        trigger: opt_str(trigger),
                        severity: opt_str(severity),
                        remediation: opt_str(remediation),
                    }),
                    now,
                ),
            {
                let mut q: KnowledgeItem = r;
                if q.id == id {
                    q.title = title.to_owned();
                    q.body = body.to_owned();
                    q.stage = own(stage);
                    q.trigger = own(trigger);
                    q.severity = own(severity);
                    q.remediation = own(remediation);
                    q.updated_at = now;
                }
                q
            };
        rewrite(
            &mut self.knowledge,
            set,
            Ghost(|r: KnowledgeItemModel| edited_item(r, id, e, now)),
        );
        assert(self@ =~= (StoreModel {
            knowledge: old(self)@.knowledge.map_values(
                |r: KnowledgeItemModel| edited_item(r, id, e, now),
            ),
            ..old(self)@
        }));
        done
    }
}

} // verus!
