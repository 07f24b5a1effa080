//! The tools for knowledge: recall, remember, propose, promote, domains and the clearing
//! of stores.
use vstd::prelude::*;

use crate::codebase::{repo_by_path, without_repo, CodeStore, CodeStoreModel};
use crate::gate::{framed_hits, is_gated, recall_with_framing};
use crate::notify::{denial_noted, NotifyState, RelayEvent, RelayEventModel};
use crate::store::acl::{is_enforced, may_use, permitted};
use crate::store::domains::{with_domain, without_domain, DomainChange};
use crate::store::episodes::{is_recall, next_episode_id};
use crate::store::knowledge::{forgotten, inserted, known, next_knowledge_id, opponent, promotable};
use crate::store::knowledge::{is_resolution, promoted, resolved, user_fact, with_source, Draft};
use crate::store::profile::next_preference_id;
use crate::store::recall::recalled_hits;
use crate::store::sources::without_sources;
use crate::store::{PreferenceModel, Store, StoreModel};
use crate::text::{decimal, is_text, number, opt, opt_str, same};
use crate::tools::{answer, bool_text, event, full, full_text, log, log_usage, note, reported};
use crate::tools::{shown_bool, stepped, Usage};
use crate::types::{kind_named, models, EpisodeRowModel, Kind, KnowledgeItemWithSource, RecallHit};
use crate::types::{RecallHitModel, Trust};

verus! {

// ---- conflicts ------------------------------------------------------------

/// The event that tells that an item is in conflict with another.
pub open spec fn conflict_event(s: StoreModel, id: i64, now: i64) -> Option<RelayEventModel> {
    match with_source(s, id) {
        Some(k) => if k.row.conflict_status == Some("open"@) {
            Some(
                RelayEventModel {
                    trigger: "knowledge_conflict"@,
                    summary: "Conflict in domain '"@ + k.row.domain + "': #"@ + decimal(id as int) + " vs #"@ + decimal((match k.row.conflict_with_id {
                        Some(n) => n,
                        None => 0i64,
                    }) as int),
                    detail: k.row.title,
                    count: 1,
                    ts: now,
                },
            )
        } else {
            None
        },
        None => None,
    }
}

/// The event that tells that an item is in conflict with another, where it is and where
/// events are told.
pub fn conflict_alert(store: &Store, enabled: bool, id: i64, now: i64) -> (r: Option<RelayEvent>)
    ensures
        event(r) == (if enabled {
            conflict_event(store@, id, now)
        } else {
            None
        }),
{
    if !enabled {
        return None;
    }
    let k: KnowledgeItemWithSource = match store.get_knowledge_by_id(id) {
        Some(k) => k,
        None => {
            return None;
        },
    };
    if !is_text(&k.row.conflict_status, "open") {
        return None;
    }
    let other: i64 = match k.row.conflict_with_id {
        Some(n) => n,
        None => 0,
    };
    let mut summary: String = "Conflict in domain '".to_owned();
    summary.append(k.row.domain.as_str());
    summary.append("': #");
    summary.append(number(id as i128).as_str());
    summary.append(" vs #");
    summary.append(number(other as i128).as_str());
    Some(
        RelayEvent {
            trigger: "knowledge_conflict".to_owned(),
            summary,
            detail: k.row.title,
            count: 1,
            ts: now,
        },
    )
}

// ---- recall ---------------------------------------------------------------

/// The knowledge items among some hits, by their numbers: a hit tells its place in the
/// ranking.
pub open spec fn used_ids(ranking: Seq<i64>, hits: Seq<RecallHitModel>) -> Seq<i64>
    decreases hits.len(),
{
    if hits.len() == 0 {
        seq![]
    } else {
        let rest = used_ids(ranking, hits.drop_last());
        let h = hits.last();
        if h.source_kind == "knowledge"@ && h.rank < ranking.len() {
            rest.push(ranking[h.rank as int])
        } else {
            rest
        }
    }
}

/// The knowledge items among some hits, by their numbers.
pub fn ids_of_hits(ranking: &Vec<i64>, hits: &Vec<RecallHit>) -> (r: Vec<i64>)
    ensures
        r@ == used_ids(ranking@, models(hits@)),
{
    let ghost all = models(hits@);
    let mut r: Vec<i64> = Vec::new();
    let mut i: usize = 0;
    assert(r@ =~= used_ids(ranking@, all.take(0)));
    while i < hits.len()
        invariant
            i <= hits@.len(),
            all == models(hits@),
            r@ == used_ids(ranking@, all.take(i as int)),
        decreases hits.len() - i,
    {
        assert(all.take(i + 1).drop_last() =~= all.take(i as int));
        if same(hits[i].source_kind.as_str(), "knowledge") && hits[i].rank < ranking.len() {
            r.push(ranking[hits[i].rank]);
        }
        i += 1;
    }
    assert(all.take(i as int) =~= all);
    r
}

/// How many hits a recall is asked for, where nothing is said.
pub open spec fn asked_hits(k: Option<u32>) -> int {
    match k {
        Some(n) => n as int,
        None => 6,
    }
}

/// What a recall finds.
pub open spec fn found_hits(s: StoreModel, domain: Seq<char>, ranking: Seq<i64>, k: Option<u32>) -> Seq<
    RecallHitModel,
> {
    framed_hits(recalled_hits(s, ranking, domain, asked_hits(k)), is_enforced(s, domain))
}

/// The store after a recall: the step is noted with the items that it used.
pub open spec fn recalled_store(
    s: StoreModel,
    run_id: Seq<char>,
    domain: Seq<char>,
    query: Seq<char>,
    ranking: Seq<i64>,
    k: Option<u32>,
    usage: Usage,
    now: i64,
) -> StoreModel {
    let hits = found_hits(s, domain, ranking, k);
    let after = stepped(
        s,
        reported(
            note(
                run_id,
                "recall"@,
                "recall domain="@ + domain + " query="@ + query,
                "returned "@ + decimal(hits.len() as int) + " hits"@,
                "success"@,
                Some(domain),
            ),
            usage,
        ),
        now,
    );
    StoreModel {
        episodes: after.episodes.map_values(
            |e: EpisodeRowModel|
                if e.id == next_episode_id(s) {
                    EpisodeRowModel { knowledge_ids_used: used_ids(ranking, hits), ..e }
                } else {
                    e
                },
        ),
        ..after
    }
}

/// Recalls knowledge of a domain, given the ranking of what matches the query. Refused
/// where the caller may not use the domain.
pub fn recall(
    store: &mut Store,
    notify: &mut NotifyState,
    run_id: &str,
    domain: &str,
    query: &str,
    ranking: &Vec<i64>,
    k: Option<u32>,
    identity: Option<&str>,
    usage: &Usage,
    now: i64,
) -> (r: (Result<Vec<RecallHit>, String>, Option<RelayEvent>))
    requires
        old(notify).denials.wf(),
    ensures
        final(notify).denials.wf(),
        !may_use(old(store)@, opt_str(identity), domain@) ==> {
            &&& final(store)@ == old(store)@
            &&& denial_noted(*old(notify), *final(notify), domain@, now, event(r.1))
            &&& r.0 matches Err(e) && e@ == "access denied for identity '"@ + (match opt_str(identity) {
                Some(i) => i,
                None => "default"@,
            }) + "' to domain '"@ + domain@ + "'"@
        },
        may_use(old(store)@, opt_str(identity), domain@) ==> {
            &&& *final(notify) == *old(notify)
            &&& r.1 is None
            &&& if next_episode_id(old(store)@) > i64::MAX {
                &&& final(store)@ == old(store)@
                &&& r.0 matches Err(e) && e@ == full()
            } else {
                &&& r.0 matches Ok(hits) && models(hits@) == found_hits(
                    old(store)@,
                    domain@,
                    ranking@,
                    k,
                )
                &&& final(store)@ == recalled_store(
                    old(store)@,
                    run_id@,
                    domain@,
                    query@,
                    ranking@,
                    k,
                    *usage,
                    now,
                )
            }
        },
{
    if !store.domain_allowed(identity, domain) {
        let alert: Option<RelayEvent> = notify.record_denial(domain, now);
        let who: &str = match identity {
            Some(i) => i,
            None => "default",
        };
        let mut t: String = "access denied for identity '".to_owned();
        t.append(who);
        t.append("' to domain '");
        t.append(domain);
        t.append("'");
        return (Err(t), alert);
    }
    let n: usize = match k {
        Some(n) => n as usize,
        None => 6,
    };
    let hits: Vec<RecallHit> = recall_with_framing(store, domain, ranking, n);
    assert(models(hits@).len() == hits@.len());
    let mut action: String = "recall domain=".to_owned();
    action.append(domain);
    action.append(" query=");
    action.append(query);
    let mut observation: String = "returned ".to_owned();
    observation.append(number(hits.len() as i128).as_str());
    observation.append(" hits");
    let id: Option<i64> = log_usage(
        store,
        run_id,
        "recall",
        action.as_str(),
        observation.as_str(),
        "success",
        Some(domain),
        usage,
        now,
    );
    match id {
        Some(e) => {
            let ids: Vec<i64> = ids_of_hits(ranking, &hits);
            store.set_episode_knowledge_ids(e, &ids);
            assert(final(store)@.episodes =~= recalled_store(
                old(store)@,
                run_id@,
                domain@,
                query@,
                ranking@,
                k,
                *usage,
                now,
            ).episodes);
            (Ok(hits), None)
        },
        None => (Err(full_text()), None),
    }
}

// ---- storing --------------------------------------------------------------

/// What is answered where a domain is denied.
pub open spec fn denied(domain: Seq<char>) -> Seq<char> {
    "access denied to domain '"@ + domain + "'"@
}

fn denial(domain: &str) -> (r: String)
    ensures
        r@ == denied(domain@),
{
    let mut t: String = "access denied to domain '".to_owned();
    t.append(domain);
    t.append("'");
    t
}

/// The store after a fact of the user was stored.
pub open spec fn remembered(
    s: StoreModel,
    run_id: Seq<char>,
    domain: Seq<char>,
    statement: Seq<char>,
    usage: Usage,
    now: i64,
) -> StoreModel {
    stepped(
        inserted(s, user_fact(domain, statement), now),
        reported(
            note(
                run_id,
                "remember"@,
                "remember domain="@ + domain + " statement="@ + statement,
                "remembered fact #"@ + decimal(next_knowledge_id(s)) + " (trust=user)"@,
                "success"@,
                Some(domain),
            ),
            usage,
        ),
        now,
    )
}

/// Stores a fact of the user, which is in force at once. Refused where the caller may not
/// use the domain.
pub fn remember(
    store: &mut Store,
    notify: &mut NotifyState,
    run_id: &str,
    domain: &str,
    statement: &str,
    identity: Option<&str>,
    usage: &Usage,
    now: i64,
) -> (r: (Result<String, String>, Option<RelayEvent>))
    requires
        old(notify).denials.wf(),
    ensures
        final(notify).denials.wf(),
        !may_use(old(store)@, opt_str(identity), domain@) ==> {
            &&& final(store)@ == old(store)@
            &&& denial_noted(*old(notify), *final(notify), domain@, now, event(r.1))
            &&& answer(r.0) == Err::<Seq<char>, Seq<char>>(denied(domain@))
        },
        may_use(old(store)@, opt_str(identity), domain@) ==> {
            let id = next_knowledge_id(old(store)@);
            &&& *final(notify) == *old(notify)
            &&& if id > i64::MAX {
                &&& final(store)@ == old(store)@
                &&& r.1 is None
                &&& answer(r.0) == Err::<Seq<char>, Seq<char>>(full())
            } else {
                &&& final(store)@ == remembered(
                    old(store)@,
                    run_id@,
                    domain@,
                    statement@,
                    *usage,
                    now,
                )
                &&& event(r.1) == (if old(notify).enabled {
                    conflict_event(
                        inserted(old(store)@, user_fact(domain@, statement@), now),
                        id as i64,
                        now,
                    )
                } else {
                    None
                })
                &&& answer(r.0) == Ok::<Seq<char>, Seq<char>>(
                    "Remembered fact #"@ + decimal(id) + " in '"@ + domain@ + "' (trust=user)."@,
                )
            }
        },
{
    if !store.domain_allowed(identity, domain) {
        let alert: Option<RelayEvent> = notify.record_denial(domain, now);
        return (Err(denial(domain)), alert);
    }
    let id: i64 = match store.remember(domain, statement, now) {
        Some(n) => n,
        None => {
            return (Err(full_text()), None);
        },
    };
    let alert: Option<RelayEvent> = conflict_alert(store, notify.enabled, id, now);
    let mut action: String = "remember domain=".to_owned();
    action.append(domain);
    action.append(" statement=");
    action.append(statement);
    let mut observation: String = "remembered fact #".to_owned();
    observation.append(number(id as i128).as_str());
    observation.append(" (trust=user)");
    let _e: Option<i64> = log_usage(
        store,
        run_id,
        "remember",
        action.as_str(),
        observation.as_str(),
        "success",
        Some(domain),
        usage,
        now,
    );
    let mut t: String = "Remembered fact #".to_owned();
    t.append(number(id as i128).as_str());
    t.append(" in '");
    t.append(domain);
    t.append("' (trust=user).");
    (Ok(t), alert)
}

/// What is proposed.
#[derive(Debug)]
pub struct Proposal {
    pub domain: String,
    pub kind: String,
    pub title: String,
    pub body: String,
    pub stage: Option<String>,
    pub trigger: Option<String>,
    pub severity: Option<String>,
    pub remediation: Option<String>,
}

/// The draft of a proposal.
pub open spec fn draft_of(p: Proposal, kind: Kind) -> Draft {
    Draft {
        kind,
        domain: p.domain@,
        stage: opt(p.stage),
        title: p.title@,
        body: p.body@,
        trigger: opt(p.trigger),
        severity: opt(p.severity),
        remediation: opt(p.remediation),
        source_id: None,
        trust: Trust::Proposed,
    }
}

/// The store after something was proposed.
pub open spec fn proposed(s: StoreModel, run_id: Seq<char>, p: Proposal, kind: Kind, now: i64) -> StoreModel {
    stepped(
        inserted(s, draft_of(p, kind), now),
        note(
            run_id,
            "propose"@,
            "propose domain="@ + p.domain@ + " kind="@ + p.kind@ + " title="@ + p.title@,
            "proposed candidate "@ + p.kind@ + " #"@ + decimal(next_knowledge_id(s)),
            "success"@,
            Some(p.domain@),
        ),
        now,
    )
}

fn borrowed(t: &Option<String>) -> (r: Option<&str>)
    ensures
        opt_str(r) == opt(*t),
{
    match t {
        Some(s) => Some(s.as_str()),
        None => None,
    }
}

/// Stores a proposal, which is not in force until it is promoted. Refused where the
/// caller may not use the domain, and where the kind is unknown.
pub fn propose(
    store: &mut Store,
    notify: &mut NotifyState,
    run_id: &str,
    p: &Proposal,
    identity: Option<&str>,
    now: i64,
) -> (r: (Result<String, String>, Option<RelayEvent>))
    requires
        old(notify).denials.wf(),
    ensures
        final(notify).denials.wf(),
        !may_use(old(store)@, opt_str(identity), p.domain@) ==> {
            &&& final(store)@ == old(store)@
            &&& denial_noted(*old(notify), *final(notify), p.domain@, now, event(r.1))
            &&& answer(r.0) == Err::<Seq<char>, Seq<char>>(denied(p.domain@))
        },
        may_use(old(store)@, opt_str(identity), p.domain@) ==> {
            let id = next_knowledge_id(old(store)@);
            &&& *final(notify) == *old(notify)
            &&& match kind_named(p.kind@) {
                None => {
                    &&& final(store)@ == old(store)@
                    &&& r.1 is None
                    &&& answer(r.0) == Err::<Seq<char>, Seq<char>>(
                        "kind must be 'fact', 'rule', or 'procedure'"@,
                    )
                },
                Some(kind) => if id > i64::MAX {
                    &&& final(store)@ == old(store)@
                    &&& r.1 is None
                    &&& answer(r.0) == Err::<Seq<char>, Seq<char>>(full())
                } else {
                    &&& final(store)@ == proposed(old(store)@, run_id@, *p, kind, now)
                    &&& event(r.1) == (if old(notify).enabled {
                        conflict_event(
                            inserted(old(store)@, draft_of(*p, kind), now),
                            id as i64,
                            now,
                        )
                    } else {
                        None
                    })
                    &&& answer(r.0) == Ok::<Seq<char>, Seq<char>>(
                        "Proposed "@ + p.kind@ + " #"@ + decimal(id) + " in '"@ + p.domain@ + "' (trust=proposed, not enforced)."@,
                    )
                },
            }
        },
{
    let domain: &str = p.domain.as_str();
    if !store.domain_allowed(identity, domain) {
        let alert: Option<RelayEvent> = notify.record_denial(domain, now);
        return (Err(denial(domain)), alert);
    }
    let kind: Kind = match Kind::parse(p.kind.as_str()) {
        Some(k) => k,
        None => {
            return (Err("kind must be 'fact', 'rule', or 'procedure'".to_owned()), None);
        },
    };
    let stored: Option<i64> = store.propose(
        kind,
        domain,
        borrowed(&p.stage),
        p.title.as_str(),
        p.body.as_str(),
        borrowed(&p.trigger),
        borrowed(&p.severity),
        borrowed(&p.remediation),
        None,
        now,
    );
    let id: i64 = match stored {
        Some(n) => n,
        None => {
            return (Err(full_text()), None);
        },
    };
    let alert: Option<RelayEvent> = conflict_alert(store, notify.enabled, id, now);
    let mut action: String = "propose domain=".to_owned();
    action.append(domain);
    action.append(" kind=");
    action.append(p.kind.as_str());
    action.append(" title=");
    action.append(p.title.as_str());
    let mut observation: String = "proposed candidate ".to_owned();
    observation.append(p.kind.as_str());
    observation.append(" #");
    observation.append(number(id as i128).as_str());
    log(
        store,
        run_id,
        "propose",
        action.as_str(),
        observation.as_str(),
        "success",
        Some(domain),
        now,
    );
    let mut t: String = "Proposed ".to_owned();
    t.append(p.kind.as_str());
    t.append(" #");
    t.append(number(id as i128).as_str());
    t.append(" in '");
    t.append(domain);
    t.append("' (trust=proposed, not enforced).");
    (Ok(t), alert)
}

/// Promotes a proposal: the only way by which it comes to be in force.
pub fn promote(store: &mut Store, run_id: &str, id: i64, now: i64) -> (r: String)
    ensures
        ({
            let ok = promotable(old(store)@, id);
            &&& final(store)@ == stepped(
                promoted(old(store)@, id, now),
                note(
                    run_id@,
                    "promote"@,
                    "promote id="@ + decimal(id as int),
                    if ok {
                        "promoted knowledge #"@ + decimal(id as int) + " to trust=reviewed"@
                    } else {
                        "no proposed item #"@ + decimal(id as int) + " found to promote"@
                    },
                    "success"@,
                    None,
                ),
                now,
            )
            &&& r@ == (if ok {
                "Promoted knowledge #"@ + decimal(id as int) + " to trust=reviewed."@
            } else {
                "No proposed item #"@ + decimal(id as int) + " to promote."@
            })
        }),
{
    let ok: bool = store.promote(id, now);
    let mut action: String = "promote id=".to_owned();
    action.append(number(id as i128).as_str());
    let observation: String = if ok {
        let mut t: String = "promoted knowledge #".to_owned();
        t.append(number(id as i128).as_str());
        t.append(" to trust=reviewed");
        t
    } else {
        let mut t: String = "no proposed item #".to_owned();
        t.append(number(id as i128).as_str());
        t.append(" found to promote");
        t
    };
    log(
        store,
        run_id,
        "promote",
        action.as_str(),
        observation.as_str(),
        "success",
        None,
        now,
    );
    if ok {
        let mut t: String = "Promoted knowledge #".to_owned();
        t.append(number(id as i128).as_str());
        t.append(" to trust=reviewed.");
        t
    } else {
        let mut t: String = "No proposed item #".to_owned();
        t.append(number(id as i128).as_str());
        t.append(" to promote.");
        t
    }
}

/// Removes a knowledge item.
pub fn forget(store: &mut Store, run_id: &str, id: i64, now: i64) -> (r: String)
    ensures
        ({
            let ok = known(old(store)@, id);
            &&& final(store)@ == stepped(
                forgotten(old(store)@, id),
                note(
                    run_id@,
                    "forget"@,
                    "forget id="@ + decimal(id as int),
                    if ok {
                        "deleted knowledge item #"@ + decimal(id as int)
                    } else {
                        "no knowledge item #"@ + decimal(id as int) + " found to delete"@
                    },
                    "success"@,
                    None,
                ),
                now,
            )
            &&& r@ == (if ok {
                "Forgot knowledge #"@ + decimal(id as int) + "."@
            } else {
                "No item #"@ + decimal(id as int) + "."@
            })
        }),
{
    let ok: bool = store.forget(id);
    let mut action: String = "forget id=".to_owned();
    action.append(number(id as i128).as_str());
    let observation: String = if ok {
        let mut t: String = "deleted knowledge item #".to_owned();
        t.append(number(id as i128).as_str());
        t
    } else {
        let mut t: String = "no knowledge item #".to_owned();
        t.append(number(id as i128).as_str());
        t.append(" found to delete");
        t
    };
    log(
        store,
        run_id,
        "forget",
        action.as_str(),
        observation.as_str(),
        "success",
        None,
        now,
    );
    if ok {
        let mut t: String = "Forgot knowledge #".to_owned();
        t.append(number(id as i128).as_str());
        t.append(".");
        t
    } else {
        let mut t: String = "No item #".to_owned();
        t.append(number(id as i128).as_str());
        t.append(".");
        t
    }
}

/// The scope of a preference, where nothing is said.
pub open spec fn scope_of(scope: Option<Seq<char>>) -> Seq<char> {
    match scope {
        Some(t) => t,
        None => "global"@,
    }
}

/// Stores a preference.
pub fn set_preference(
    store: &mut Store,
    run_id: &str,
    scope: Option<&str>,
    statement: &str,
    now: i64,
) -> (r: Result<String, String>)
    ensures
        ({
            let id = next_preference_id(old(store)@);
            let scope = scope_of(opt_str(scope));
            if id > i64::MAX {
                &&& final(store)@ == old(store)@
                &&& answer(r) == Err::<Seq<char>, Seq<char>>(full())
            } else {
                &&& final(store)@ == stepped(
                    (StoreModel {
                        preferences: old(store)@.preferences.push(
                            PreferenceModel {
                                id: id as i64,
                                scope,
                                statement: statement@,
                                created_at: now,
                            },
                        ),
                        ..old(store)@
                    }),
                    note(
                        run_id@,
                        "set_preference"@,
                        "set_preference scope="@ + scope + " statement="@ + statement@,
                        "stored preference #"@ + decimal(id) + " (scope="@ + scope + ")"@,
                        "success"@,
                        None,
                    ),
                    now,
                )
                &&& answer(r) == Ok::<Seq<char>, Seq<char>>(
                    "Stored preference #"@ + decimal(id) + " (scope="@ + scope + ")."@,
                )
            }
        }),
{
    let scope: &str = match scope {
        Some(t) => t,
        None => "global",
    };
    let id: i64 = match store.set_preference(scope, statement, now) {
        Some(n) => n,
        None => {
            return Err(full_text());
        },
    };
    let mut action: String = "set_preference scope=".to_owned();
    action.append(scope);
    action.append(" statement=");
    action.append(statement);
    let mut observation: String = "stored preference #".to_owned();
    observation.append(number(id as i128).as_str());
    observation.append(" (scope=");
    observation.append(scope);
    observation.append(")");
    log(
        store,
        run_id,
        "set_preference",
        action.as_str(),
        observation.as_str(),
        "success",
        None,
        now,
    );
    let mut t: String = "Stored preference #".to_owned();
    t.append(number(id as i128).as_str());
    t.append(" (scope=");
    t.append(scope);
    t.append(").");
    Ok(t)
}

// ---- domains --------------------------------------------------------------

/// The change of the retention of a domain that is asked for: it is cleared, set, or left
/// as it is.
pub open spec fn retention_change(clear: Option<bool>, days: Option<i64>) -> Option<Option<i64>> {
    if clear == Some(true) {
        Some(None)
    } else {
        match days {
            Some(n) => Some(Some(n)),
            None => None,
        }
    }
}

/// Registers a domain, or changes what is said of it.
pub fn register_domain(
    store: &mut Store,
    run_id: &str,
    name: &str,
    description: Option<&str>,
    query_hint: Option<&str>,
    enforced: Option<bool>,
    redact_enabled: Option<bool>,
    retention_days: Option<i64>,
    clear_retention: Option<bool>,
    max_retention_days: Option<i64>,
    now: i64,
) -> (r: String)
    ensures
        final(store)@ == stepped(
            with_domain(
                old(store)@,
                name@,
                (DomainChange {
                    description: opt_str(description),
                    query_hint: opt_str(query_hint),
                    enforced,
                    redact_enabled,
                    retention_days: retention_change(clear_retention, retention_days),
                    is_marketplace_template: None,
                    max_retention_days,
                }),
                now,
            ),
            note(
                run_id@,
                "register_domain"@,
                "register_domain name="@ + name@,
                "registered/updated domain '"@ + name@ + "'"@,
                "success"@,
                Some(name@),
            ),
            now,
        ),
        r@ == "Registered domain '"@ + name@ + "'."@,
{
    let clear: bool = match clear_retention {
        Some(c) => c,
        None => false,
    };
    let change: Option<Option<i64>> = if clear {
        Some(None)
    } else {
        match retention_days {
            Some(n) => Some(Some(n)),
            None => None,
        }
    };
    store.register_domain(
        name,
        description,
        query_hint,
        enforced,
        redact_enabled,
        change,
        None,
        max_retention_days,
        now,
    );
    let mut action: String = "register_domain name=".to_owned();
    action.append(name);
    let mut observation: String = "registered/updated domain '".to_owned();
    observation.append(name);
    observation.append("'");
    log(
        store,
        run_id,
        "register_domain",
        action.as_str(),
        observation.as_str(),
        "success",
        Some(name),
        now,
    );
    let mut t: String = "Registered domain '".to_owned();
    t.append(name);
    t.append("'.");
    t
}

/// Allows or denies a domain to an identity. Once anyone is listed for a domain, anyone
/// else is denied it.
pub fn set_domain_permission(
    store: &mut Store,
    run_id: &str,
    identity: &str,
    domain: &str,
    allowed: bool,
    now: i64,
) -> (r: String)
    ensures
        final(store)@ == stepped(
            permitted(old(store)@, identity@, domain@, allowed),
            note(
                run_id@,
                "domain_acl"@,
                "set_domain_permission identity="@ + identity@ + " domain="@ + domain@ + " allowed="@ + shown_bool(allowed),
                "permission updated"@,
                "success"@,
                Some(domain@),
            ),
            now,
        ),
        r@ == "Domain permission updated for '"@ + identity@ + "' on '"@ + domain@ + "': "@ + shown_bool(allowed) + "."@,
{
    store.set_domain_permission(identity, domain, allowed);
    let mut action: String = "set_domain_permission identity=".to_owned();
    action.append(identity);
    action.append(" domain=");
    action.append(domain);
    action.append(" allowed=");
    action.append(bool_text(allowed));
    log(
        store,
        run_id,
        "domain_acl",
        action.as_str(),
        "permission updated",
        "success",
        Some(domain),
        now,
    );
    let mut t: String = "Domain permission updated for '".to_owned();
    t.append(identity);
    t.append("' on '");
    t.append(domain);
    t.append("': ");
    t.append(bool_text(allowed));
    t.append(".");
    t
}

/// Settles a conflict: the item is kept, its opponent is, or both are. Refused where
/// anything else is asked for.
pub fn resolve_conflict(store: &mut Store, run_id: &str, id: i64, action: &str, now: i64) -> (r: Result<
    String,
    String,
>)
    ensures
        if !is_resolution(action@) {
            &&& final(store)@ == old(store)@
            &&& answer(r) == Err::<Seq<char>, Seq<char>>(
                "action must be keep, accept, or merge"@,
            )
        } else {
            let found = opponent(old(store)@, id) is Some;
            &&& final(store)@ == stepped(
                if found {
                    resolved(old(store)@, id, opponent(old(store)@, id)->0, action@)
                } else {
                    old(store)@
                },
                note(
                    run_id@,
                    "conflict_resolution"@,
                    "resolve_conflict id="@ + decimal(id as int) + " action="@ + action@,
                    if found {
                        "resolved"@
                    } else {
                        "conflict not found"@
                    },
                    if found {
                        "success"@
                    } else {
                        "error"@
                    },
                    None,
                ),
                now,
            )
            &&& answer(r) == Ok::<Seq<char>, Seq<char>>(
                if found {
                    "Conflict #"@ + decimal(id as int) + " resolved with action '"@ + action@ + "'."@
                } else {
                    "No open conflict found for #"@ + decimal(id as int) + "."@
                },
            )
        },
{
    if !(same(action, "keep") || same(action, "accept") || same(action, "merge")) {
        return Err("action must be keep, accept, or merge".to_owned());
    }
    let ok: bool = store.resolve_conflict(id, action);
    let mut what: String = "resolve_conflict id=".to_owned();
    what.append(number(id as i128).as_str());
    what.append(" action=");
    what.append(action);
    log(
        store,
        run_id,
        "conflict_resolution",
        what.as_str(),
        if ok { "resolved" } else { "conflict not found" },
        if ok { "success" } else { "error" },
        None,
        now,
    );
    if ok {
        let mut t: String = "Conflict #".to_owned();
        t.append(number(id as i128).as_str());
        t.append(" resolved with action '");
        t.append(action);
        t.append("'.");
        Ok(t)
    } else {
        let mut t: String = "No open conflict found for #".to_owned();
        t.append(number(id as i128).as_str());
        t.append(".");
        Ok(t)
    }
}

// ---- clearing -------------------------------------------------------------

/// What is said of the knowledge of a domain that was cleared.
pub open spec fn knowledge_fate(chunks_only: bool, n: int) -> Seq<char> {
    if chunks_only {
        "knowledge kept"@
    } else {
        decimal(n) + " knowledge items deleted"@
    }
}

/// Clears a domain: its reference material only, or everything and the domain with it.
pub fn clear_domain(store: &mut Store, run_id: &str, domain: &str, chunks_only: Option<bool>, now: i64) -> (r:
    String)
    ensures
        ({
            let only = chunks_only == Some(true);
            let after = without_domain(old(store)@, domain@, only);
            let chunks = old(store)@.chunks.len() - after.chunks.len();
            let fate = knowledge_fate(only, old(store)@.knowledge.len() - after.knowledge.len());
            &&& final(store)@ == stepped(
                after,
                note(
                    run_id@,
                    "clear_domain"@,
                    "clear_domain name="@ + domain@ + " chunks_only="@ + shown_bool(only),
                    "cleared domain '"@ + domain@ + "': "@ + decimal(chunks) + " chunks deleted, "@ + fate,
                    "success"@,
                    Some(domain@),
                ),
                now,
            )
            &&& r@ == "Cleared domain '"@ + domain@ + "': "@ + decimal(chunks) + " chunks deleted, "@ + fate + "."@
        }),
{
    let only: bool = match chunks_only {
        Some(c) => c,
        None => false,
    };
    let (chunks, knowledge): (usize, usize) = store.clear_domain(domain, only);
    let fate: String = if only {
        "knowledge kept".to_owned()
    } else {
        let mut t: String = number(knowledge as i128);
        t.append(" knowledge items deleted");
        t
    };
    let mut action: String = "clear_domain name=".to_owned();
    action.append(domain);
    action.append(" chunks_only=");
    action.append(bool_text(only));
    let mut observation: String = "cleared domain '".to_owned();
    observation.append(domain);
    observation.append("': ");
    observation.append(number(chunks as i128).as_str());
    observation.append(" chunks deleted, ");
    observation.append(fate.as_str());
    log(
        store,
        run_id,
        "clear_domain",
        action.as_str(),
        observation.as_str(),
        "success",
        Some(domain),
        now,
    );
    let mut t: String = "Cleared domain '".to_owned();
    t.append(domain);
    t.append("': ");
    t.append(number(chunks as i128).as_str());
    t.append(" chunks deleted, ");
    t.append(fate.as_str());
    t.append(".");
    t
}

/// Removes a repository from the index.
pub fn forget_repo(store: &mut Store, code: &mut CodeStore, run_id: &str, path: &str, now: i64) -> (r:
    String)
    ensures
        ({
            let found = repo_by_path(old(code)@, path@);
            &&& final(code)@ == (match found {
                Some(q) => without_repo(old(code)@, q.id),
                None => old(code)@,
            })
            &&& final(store)@ == stepped(
                old(store)@,
                note(
                    run_id@,
                    "indexing"@,
                    "forget_repo path="@ + path@,
                    if found is Some {
                        "removed repo '"@ + path@ + "' from codebase memory"@
                    } else {
                        "no repo found at '"@ + path@ + "'"@
                    },
                    "success"@,
                    None,
                ),
                now,
            )
            &&& r@ == (if found is Some {
                "Removed '"@ + path@ + "' from code memory."@
            } else {
                "No indexed repo found at '"@ + path@ + "'. Check list_repos() for exact paths."@
            })
        }),
{
    let ok: bool = code.forget_repo(path);
    let mut action: String = "forget_repo path=".to_owned();
    action.append(path);
    let observation: String = if ok {
        let mut t: String = "removed repo '".to_owned();
        t.append(path);
        t.append("' from codebase memory");
        t
    } else {
        let mut t: String = "no repo found at '".to_owned();
        t.append(path);
        t.append("'");
        t
    };
    log(
        store,
        run_id,
        "indexing",
        action.as_str(),
        observation.as_str(),
        "success",
        None,
        now,
    );
    if ok {
        let mut t: String = "Removed '".to_owned();
        t.append(path);
        t.append("' from code memory.");
        t
    } else {
        let mut t: String = "No indexed repo found at '".to_owned();
        t.append(path);
        t.append("'. Check list_repos() for exact paths.");
        t
    }
}

/// Clears the index of code.
pub fn clear_codebase(store: &mut Store, code: &mut CodeStore, run_id: &str, now: i64) -> (r: String)
    ensures
        final(code)@ == (CodeStoreModel {
            repos: seq![],
            files: seq![],
            chunks: seq![],
            ..old(code)@
        }),
        final(store)@ == stepped(
            old(store)@,
            note(
                run_id@,
                "indexing"@,
                "clear_codebase"@,
                "codebase memory cleared"@,
                "success"@,
                None,
            ),
            now,
        ),
        r@ == "Codebase memory cleared. All indexed repositories, files, and chunks have been removed."@,
{
    let _n: usize = code.clear_all();
    log(
        store,
        run_id,
        "indexing",
        "clear_codebase",
        "codebase memory cleared",
        "success",
        None,
        now,
    );
    "Codebase memory cleared. All indexed repositories, files, and chunks have been removed.".to_owned()
}

/// Clears all domains with everything in them.
pub fn clear_domains(store: &mut Store, run_id: &str, now: i64) -> (r: String)
    ensures
        final(store)@ == stepped(
            (StoreModel {
                knowledge: seq![],
                chunks: seq![],
                sources: seq![],
                domains: seq![],
                ..old(store)@
            }),
            note(run_id@, "clear_domains"@, "clear_domains"@, "all domains cleared"@, "success"@, None),
            now,
        ),
        r@ == "All domains cleared. Knowledge, sources, chunks, and domain registrations have been removed. Codebase memory and training data are unaffected."@,
{
    let _n: usize = store.clear_all_domains();
    log(store, run_id, "clear_domains", "clear_domains", "all domains cleared", "success", None, now);
    "All domains cleared. Knowledge, sources, chunks, and domain registrations have been removed. Codebase memory and training data are unaffected.".to_owned()
}

/// Clears all knowledge; the domains and their sources stay.
pub fn clear_knowledge(store: &mut Store, run_id: &str, now: i64) -> (r: String)
    ensures
        final(store)@ == stepped(
            (StoreModel { knowledge: seq![], ..old(store)@ }),
            note(run_id@, "clear_knowledge"@, "clear_knowledge"@, "all knowledge items cleared"@, "success"@, None),
            now,
        ),
        r@ == "All knowledge items cleared. Domain registrations and sources are unaffected."@,
{
    let _n: usize = store.clear_all_knowledge();
    log(store, run_id, "clear_knowledge", "clear_knowledge", "all knowledge items cleared", "success", None, now);
    "All knowledge items cleared. Domain registrations and sources are unaffected.".to_owned()
}

/// Clears all sources with their chunks; the knowledge stays.
pub fn clear_sources(store: &mut Store, run_id: &str, now: i64) -> (r: String)
    ensures
        final(store)@ == stepped(
            without_sources(old(store)@),
            note(run_id@, "clear_sources"@, "clear_sources"@, "all sources and chunks cleared"@, "success"@, None),
            now,
        ),
        r@ == "All sources and reference chunks cleared. Knowledge items and domain registrations are unaffected."@,
{
    let _n: usize = store.clear_all_sources();
    log(store, run_id, "clear_sources", "clear_sources", "all sources and chunks cleared", "success", None, now);
    "All sources and reference chunks cleared. Knowledge items and domain registrations are unaffected.".to_owned()
}

/// Clears all episodes.
pub fn clear_episodes(store: &mut Store, run_id: &str, now: i64) -> (r: String)
    ensures
        final(store)@ == stepped(
            (StoreModel { episodes: seq![], ..old(store)@ }),
            note(run_id@, "clear_episodes"@, "clear_episodes"@, "all episodes cleared"@, "success"@, None),
            now,
        ),
        r@ == "All episodes cleared from the audit trail. Knowledge and sources are unaffected."@,
{
    let _n: usize = store.clear_all_episodes();
    log(store, run_id, "clear_episodes", "clear_episodes", "all episodes cleared", "success", None, now);
    "All episodes cleared from the audit trail. Knowledge and sources are unaffected.".to_owned()
}

/// A recall lets the changes of its run in its domain through.
pub proof fn recalling_lets_changes_through(
    s: StoreModel,
    run_id: Seq<char>,
    domain: Seq<char>,
    query: Seq<char>,
    ranking: Seq<i64>,
    k: Option<u32>,
    usage: Usage,
    now: i64,
)
    requires
        next_episode_id(s) <= i64::MAX,
    ensures
        !is_gated(
            recalled_store(s, run_id, domain, query, ranking, k, usage, now),
            domain,
            run_id,
        ),
{
    let t = recalled_store(s, run_id, domain, query, ranking, k, usage, now);
    let p = |e: EpisodeRowModel| is_recall(e, run_id, domain);
    assert(p(t.episodes[s.episodes.len() as int]));
}

} // verus!
