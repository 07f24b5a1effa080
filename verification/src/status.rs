//! What a glance at the stores shows: the knowledge by trust, the latest steps and the
//! health of the stores.
use vstd::prelude::*;

use crate::calendar::{format_utc, text_or_number, time_or_number, utc_text};
use crate::health::SyncHealthSnapshot;
use crate::notify::{FallbackTracker, RelayEvent, RelayEventModel, AgingTracker, is_due};
use crate::store::domains::domain_list;
use crate::store::knowledge::knowledge_list;
use crate::store::{Store, StoreModel};
use crate::text::{chars, decimal, join, joined, number, opt, opt_str, same, texts};
use crate::types::{lemma_models_push, models, DomainRow, DomainRowModel, EpisodeRow};
use crate::types::{EpisodeRowModel, Kind, KnowledgeRow, KnowledgeRowModel};

verus! {

// ---- knowledge by trust ---------------------------------------------------

/// How much knowledge there is by trust, and the proposals that wait for a review.
#[derive(Debug)]
pub struct TrustSummary {
    pub proposed: usize,
    pub reviewed: usize,
    pub user: usize,
    /// The domain and the title of each proposal.
    pub proposed_items: Vec<(String, String)>,
}

/// How many rows are of a trust tier.
pub open spec fn tally(rows: Seq<KnowledgeRowModel>, trust: Seq<char>) -> nat {
    rows.filter(|r: KnowledgeRowModel| r.trust == trust).len()
}

/// The proposals among some rows, in order, each by its domain and its title.
pub open spec fn proposals(rows: Seq<KnowledgeRowModel>) -> Seq<(Seq<char>, Seq<char>)> {
    rows.filter(|r: KnowledgeRowModel| r.trust == "proposed"@).map_values(
        |r: KnowledgeRowModel| (r.domain, r.title),
    )
}

/// Pairs of texts, as mathematical values.
pub open spec fn pairs(v: Seq<(String, String)>) -> Seq<(Seq<char>, Seq<char>)> {
    Seq::new(v.len(), |i: int| (v[i].0@, v[i].1@))
}

/// Counts knowledge by trust, and collects the proposals that wait for a review.
pub fn summarize_trust(rows: &[KnowledgeRow]) -> (r: TrustSummary)
    ensures
        r.proposed == tally(models(rows@), "proposed"@),
        r.reviewed == tally(models(rows@), "reviewed"@),
        r.user == tally(models(rows@), "user"@),
        pairs(r.proposed_items@) == proposals(models(rows@)),
{
    let ghost all = models(rows@);
    let ghost p = |r: KnowledgeRowModel| r.trust == "proposed"@;
    let ghost q = |r: KnowledgeRowModel| r.trust == "reviewed"@;
    let ghost u = |r: KnowledgeRowModel| r.trust == "user"@;
    let ghost shown = |r: KnowledgeRowModel| (r.domain, r.title);
    let mut proposed: usize = 0;
    let mut reviewed: usize = 0;
    let mut user: usize = 0;
    let mut proposed_items: Vec<(String, String)> = Vec::new();
    let mut i: usize = 0;
    proof {
        reveal(Seq::filter);
        reveal_strlit("proposed");
        reveal_strlit("reviewed");
        reveal_strlit("user");
        assert("proposed"@[0] != "reviewed"@[0]);
    }
    assert(pairs(proposed_items@) =~= all.take(0).filter(p).map_values(shown));
    while i < rows.len()
        invariant
            i <= rows@.len(),
            all == models(rows@),
            p == (|r: KnowledgeRowModel| r.trust == "proposed"@),
            q == (|r: KnowledgeRowModel| r.trust == "reviewed"@),
            u == (|r: KnowledgeRowModel| r.trust == "user"@),
            shown == (|r: KnowledgeRowModel| (r.domain, r.title)),
            "proposed"@ != "reviewed"@,
            "proposed"@ != "user"@,
            "reviewed"@ != "user"@,
            proposed <= i,
            reviewed <= i,
            user <= i,
            proposed == all.take(i as int).filter(p).len(),
            reviewed == all.take(i as int).filter(q).len(),
            user == all.take(i as int).filter(u).len(),
            pairs(proposed_items@) == all.take(i as int).filter(p).map_values(shown),
        decreases rows.len() - i,
    {
        proof {
            reveal(Seq::filter);
        }
        assert(all.take(i + 1).drop_last() =~= all.take(i as int));
        let row: &KnowledgeRow = &rows[i];
        let t: &str = row.trust.as_str();
        if same(t, "proposed") {
            proposed += 1;
            let ghost before = pairs(proposed_items@);
            proposed_items.push((row.domain.clone(), row.title.clone()));
            assert(pairs(proposed_items@) =~= before.push(shown(all[i as int])));
            assert(all.take(i as int).filter(p).push(all[i as int]).map_values(shown)
                =~= all.take(i as int).filter(p).map_values(shown).push(shown(all[i as int])));
        } else if same(t, "reviewed") {
            reviewed += 1;
        } else if same(t, "user") {
            user += 1;
        }
        i += 1;
    }
    assert(all.take(i as int) =~= all);
    TrustSummary { proposed, reviewed, user, proposed_items }
}

/// The knowledge of some domains, one after the other; of one trust tier and of one kind
/// only, where they are given.
pub open spec fn knowledge_across(
    s: StoreModel,
    domains: Seq<DomainRowModel>,
    trust: Option<Seq<char>>,
    kind: Option<Kind>,
) -> Seq<KnowledgeRowModel>
    decreases domains.len(),
{
    if domains.len() == 0 {
        seq![]
    } else {
        knowledge_across(s, domains.drop_last(), trust, kind) + knowledge_list(
            s,
            domains.last().name,
            trust,
            kind,
        )
    }
}

impl Store {
    /// The knowledge of all domains, one after the other; of one trust tier and of one
    /// kind only, where they are given.
    pub fn knowledge_of_all(&self, trust: Option<&str>, kind: Option<Kind>) -> (r: Vec<KnowledgeRow>)
        ensures
            models(r@) == knowledge_across(self@, domain_list(self@), opt_str(trust), kind),
    {
        let domains: Vec<DomainRow> = self.list_domains();
        let ghost all = models(domains@);
        let mut r: Vec<KnowledgeRow> = Vec::new();
        let mut i: usize = 0;
        assert(models(r@) =~= knowledge_across(self@, all.take(0), opt_str(trust), kind));
        while i < domains.len()
            invariant
                i <= domains@.len(),
                all == models(domains@),
                models(r@) == knowledge_across(self@, all.take(i as int), opt_str(trust), kind),
            decreases domains.len() - i,
        {
            assert(all.take(i + 1).drop_last() =~= all.take(i as int));
            let ghost before = models(r@);
            let mut part: Vec<KnowledgeRow> = self.list_knowledge(
                domains[i].name.as_str(),
                trust,
                kind,
            );
            let ghost more = models(part@);
            let ghost raw = r@ + part@;
            r.append(&mut part);
            assert(models(r@) =~= before + more);
            i += 1;
        }
        assert(all.take(i as int) =~= all);
        r
    }

    /// Counts the knowledge of all domains by trust.
    pub fn trust_summary(&self) -> (r: TrustSummary)
        ensures
            ({
                let rows = knowledge_across(self@, domain_list(self@), None, None);
                &&& r.proposed == tally(rows, "proposed"@)
                &&& r.reviewed == tally(rows, "reviewed"@)
                &&& r.user == tally(rows, "user"@)
                &&& pairs(r.proposed_items@) == proposals(rows)
            }),
    {
        let rows: Vec<KnowledgeRow> = self.knowledge_of_all(None, None);
        summarize_trust(rows.as_slice())
    }
}

// ---- lines ----------------------------------------------------------------

/// A text, or another where there is none.
pub open spec fn text_or(t: Option<Seq<char>>, other: Seq<char>) -> Seq<char> {
    match t {
        Some(s) => s,
        None => other,
    }
}

/// The line of a step, given its time as text.
pub open spec fn step_line(e: EpisodeRowModel, time: Seq<char>) -> Seq<char> {
    time + "  ["@ + text_or(e.outcome, "unknown"@) + "] "@ + text_or(e.stage, "-"@) + ": "@
        + text_or(e.action, "-"@)
}

/// The line of a step.
pub open spec fn episode_line(e: EpisodeRowModel) -> Seq<char> {
    step_line(e, time_or_number(e.ts, utc_text(e.ts, "%Y-%m-%d %H:%M:%S"@)))
}

fn put_or(s: &mut String, t: &Option<String>, other: &str)
    ensures
        final(s)@ == old(s)@ + text_or(opt(*t), other@),
{
    match t {
        Some(x) => s.append(x.as_str()),
        None => s.append(other),
    }
}

/// The line of a step, given its time as text.
pub fn line_of_step(e: &EpisodeRow, time: &str) -> (r: String)
    ensures
        r@ == step_line(e@, time@),
{
    let mut s: String = time.to_owned();
    s.append("  [");
    put_or(&mut s, &e.outcome, "unknown");
    s.append("] ");
    put_or(&mut s, &e.stage, "-");
    s.append(": ");
    put_or(&mut s, &e.action, "-");
    s
}

/// The line of a step.
pub fn format_episode_line(e: &EpisodeRow) -> (r: String)
    ensures
        r@ == episode_line(e@),
{
    let time: String = text_or_number(e.ts, format_utc(e.ts, "%Y-%m-%d %H:%M:%S"));
    line_of_step(e, time.as_str())
}

/// A text with spaces behind it, so that it is `n` characters wide at least.
pub open spec fn padded(s: Seq<char>, n: int) -> Seq<char> {
    if s.len() >= n {
        s
    } else {
        s + Seq::new((n - s.len()) as nat, |i: int| ' ')
    }
}

fn pad(s: &str, n: usize) -> (r: String)
    ensures
        r@ == padded(s@, n as int),
{
    let have: usize = chars(s).len();
    let mut r: String = s.to_owned();
    let mut i: usize = have;
    assert(r@ =~= s@ + Seq::new(0, |i: int| ' '));
    while i < n
        invariant
            have == s@.len(),
            have <= i,
            i <= n || i == have,
            r@ == s@ + Seq::new((i - have) as nat, |i: int| ' '),
        decreases n - i,
    {
        r.push(' ');
        i += 1;
        assert(r@ =~= s@ + Seq::new((i - have) as nat, |i: int| ' '));
    }
    assert(r@ =~= padded(s@, n as int));
    r
}

/// The line of a store.
pub open spec fn health_line(
    name: Seq<char>,
    engine: Seq<char>,
    healthy: bool,
    sync: Option<SyncHealthSnapshot>,
) -> Seq<char> {
    let head = padded(name, 10) + " ("@ + engine + ")  "@ + (if healthy {
        "healthy"@
    } else {
        "UNHEALTHY"@
    });
    match sync {
        Some(s) => head + "  remote_configured="@ + (if s.remote_configured {
            "true"@
        } else {
            "false"@
        }) + "  last_success="@ + (match s.last_success_at {
            Some(t) => decimal(t as int),
            None => "never"@,
        }) + "  consecutive_failures="@ + decimal(s.consecutive_failures as int)
            + "  fallback_events="@ + decimal(s.fallback_events as int),
        None => head,
    }
}

/// The line of a store.
pub fn format_health_line(
    name: &str,
    engine: &str,
    healthy: bool,
    sync: Option<&SyncHealthSnapshot>,
) -> (r: String)
    ensures
        r@ == health_line(
            name@,
            engine@,
            healthy,
            match sync {
                Some(s) => Some(*s),
                None => None,
            },
        ),
{
    let mut r: String = pad(name, 10);
    r.append(" (");
    r.append(engine);
    r.append(")  ");
    if healthy {
        r.append("healthy");
    } else {
        r.append("UNHEALTHY");
    }
    if let Some(s) = sync {
        r.append("  remote_configured=");
        if s.remote_configured {
            r.append("true");
        } else {
            r.append("false");
        }
        r.append("  last_success=");
        match s.last_success_at {
            Some(t) => r.append(number(t as i128).as_str()),
            None => r.append("never"),
        }
        r.append("  consecutive_failures=");
        r.append(number(s.consecutive_failures as i128).as_str());
        r.append("  fallback_events=");
        r.append(number(s.fallback_events as i128).as_str());
    }
    r
}

/// The lines of the four stores.
pub open spec fn store_lines(
    store: bool,
    code: (bool, SyncHealthSnapshot),
    train: (bool, SyncHealthSnapshot),
    session: (bool, SyncHealthSnapshot),
) -> Seq<Seq<char>> {
    seq![
        health_line("kl_store"@, "sqlite"@, store, None),
        health_line("kl_code"@, "libsql"@, code.0, Some(code.1)),
        health_line("kl_train"@, "libsql"@, train.0, Some(train.1)),
        health_line("kl_session"@, "libsql"@, session.0, Some(session.1)),
    ]
}

/// The lines of the four stores.
pub fn collect_health_lines(
    store: bool,
    code: (bool, SyncHealthSnapshot),
    train: (bool, SyncHealthSnapshot),
    session: (bool, SyncHealthSnapshot),
) -> (r: Vec<String>)
    ensures
        texts(r@) == store_lines(store, code, train, session),
{
    let mut r: Vec<String> = Vec::new();
    r.push(format_health_line("kl_store", "sqlite", store, None));
    r.push(format_health_line("kl_code", "libsql", code.0, Some(&code.1)));
    r.push(format_health_line("kl_train", "libsql", train.0, Some(&train.1)));
    r.push(format_health_line("kl_session", "libsql", session.0, Some(&session.1)));
    assert(texts(r@) =~= store_lines(store, code, train, session));
    r
}

// ---- the report -----------------------------------------------------------

/// The counts by trust.
pub open spec fn count_line(t: TrustSummary) -> Seq<char> {
    "proposed: "@ + decimal(t.proposed as int) + "   reviewed: "@ + decimal(t.reviewed as int)
        + "   user: "@ + decimal(t.user as int)
}

fn put_counts(s: &mut String, t: &TrustSummary)
    ensures
        final(s)@ == old(s)@ + count_line(*t),
{
    let ghost before = s@;
    s.append("proposed: ");
    s.append(number(t.proposed as i128).as_str());
    s.append("   reviewed: ");
    s.append(number(t.reviewed as i128).as_str());
    s.append("   user: ");
    s.append(number(t.user as i128).as_str());
    assert(s@ =~= before + count_line(*t));
}

/// The lines of the proposals that wait for a review.
pub open spec fn pending_lines(items: Seq<(Seq<char>, Seq<char>)>) -> Seq<char>
    decreases items.len(),
{
    if items.len() == 0 {
        seq![]
    } else {
        pending_lines(items.drop_last()) + "    - ["@ + items.last().0 + "] "@ + items.last().1
            + "\n"@
    }
}

/// The lines of some steps.
pub open spec fn episode_lines(e: Seq<EpisodeRowModel>) -> Seq<char>
    decreases e.len(),
{
    if e.len() == 0 {
        seq![]
    } else {
        episode_lines(e.drop_last()) + "  "@ + episode_line(e.last()) + "\n"@
    }
}

/// Some lines, set in.
pub open spec fn set_in(l: Seq<Seq<char>>) -> Seq<char>
    decreases l.len(),
{
    if l.len() == 0 {
        seq![]
    } else {
        set_in(l.drop_last()) + "  "@ + l.last() + "\n"@
    }
}

/// What the report says of the knowledge.
pub open spec fn trust_part(t: TrustSummary) -> Seq<char> {
    "Trust Lifecycle\n"@ + "  "@ + count_line(t) + "\n"@ + (if t.proposed_items@.len() == 0 {
        "  Pending promotion: none\n"@
    } else {
        "  Pending promotion (proposed):\n"@ + pending_lines(pairs(t.proposed_items@))
    }) + "\n"@
}

/// What the report says of the latest steps.
pub open spec fn episode_part(e: Seq<EpisodeRowModel>) -> Seq<char> {
    "Episode Log (recent)\n"@ + (if e.len() == 0 {
        "  no episodes recorded\n"@
    } else {
        episode_lines(e)
    }) + "\n"@
}

/// The report.
pub open spec fn status_report(
    t: TrustSummary,
    e: Seq<EpisodeRowModel>,
    health: Seq<Seq<char>>,
) -> Seq<char> {
    "klayer status\n"@ + "=============\n\n"@ + trust_part(t) + episode_part(e)
        + "Storage Health\n"@ + set_in(health)
}

fn put_trust(out: &mut String, trust: &TrustSummary)
    ensures
        final(out)@ == old(out)@ + trust_part(*trust),
{
    let ghost before = out@;
    out.append("Trust Lifecycle\n");
    out.append("  ");
    put_counts(out, trust);
    out.append("\n");
    if trust.proposed_items.len() == 0 {
        out.append("  Pending promotion: none\n");
    } else {
        let ghost all = pairs(trust.proposed_items@);
        out.append("  Pending promotion (proposed):\n");
        let ghost head = out@;
        let mut i: usize = 0;
        assert(out@ =~= head + pending_lines(all.take(0)));
        while i < trust.proposed_items.len()
            invariant
                i <= trust.proposed_items@.len(),
                all == pairs(trust.proposed_items@),
                out@ == head + pending_lines(all.take(i as int)),
            decreases trust.proposed_items.len() - i,
        {
            assert(all.take(i + 1).drop_last() =~= all.take(i as int));
            out.append("    - [");
            out.append(trust.proposed_items[i].0.as_str());
            out.append("] ");
            out.append(trust.proposed_items[i].1.as_str());
            out.append("\n");
            assert(out@ =~= head + pending_lines(all.take(i + 1)));
            i += 1;
        }
        assert(all.take(i as int) =~= all);
    }
    out.append("\n");
    assert(out@ =~= before + trust_part(*trust));
}

fn put_episodes(out: &mut String, episodes: &[EpisodeRow])
    ensures
        final(out)@ == old(out)@ + episode_part(models(episodes@)),
{
    let ghost before = out@;
    let ghost all = models(episodes@);
    out.append("Episode Log (recent)\n");
    if episodes.len() == 0 {
        out.append("  no episodes recorded\n");
    } else {
        let ghost head = out@;
        let mut i: usize = 0;
        assert(out@ =~= head + episode_lines(all.take(0)));
        while i < episodes.len()
            invariant
                i <= episodes@.len(),
                all == models(episodes@),
                out@ == head + episode_lines(all.take(i as int)),
            decreases episodes.len() - i,
        {
            assert(all.take(i + 1).drop_last() =~= all.take(i as int));
            out.append("  ");
            out.append(format_episode_line(&episodes[i]).as_str());
            out.append("\n");
            assert(out@ =~= head + episode_lines(all.take(i + 1)));
            i += 1;
        }
        assert(all.take(i as int) =~= all);
    }
    out.append("\n");
    assert(out@ =~= before + episode_part(all));
}

/// Writes the report.
pub fn build_status_report(
    trust: &TrustSummary,
    episodes: &[EpisodeRow],
    health_lines: &[String],
) -> (r: String)
    ensures
        r@ == status_report(*trust, models(episodes@), texts(health_lines@)),
{
    let mut out: String = String::new();
    out.append("klayer status\n");
    out.append("=============\n\n");
    put_trust(&mut out, trust);
    put_episodes(&mut out, episodes);
    out.append("Storage Health\n");
    let ghost head = out@;
    let ghost all = texts(health_lines@);
    let mut i: usize = 0;
    assert(out@ =~= head + set_in(all.take(0)));
    while i < health_lines.len()
        invariant
            i <= health_lines@.len(),
            all == texts(health_lines@),
            out@ == head + set_in(all.take(i as int)),
        decreases health_lines.len() - i,
    {
        assert(all.take(i + 1).drop_last() =~= all.take(i as int));
        out.append("  ");
        out.append(health_lines[i].as_str());
        out.append("\n");
        assert(out@ =~= head + set_in(all.take(i + 1)));
        i += 1;
    }
    assert(all.take(i as int) =~= all);
    assert(out@ =~= status_report(*trust, models(episodes@), all));
    out
}

// ---- the screen -----------------------------------------------------------

/// A proposal as the screen shows it.
pub open spec fn previewed(items: Seq<(Seq<char>, Seq<char>)>) -> Seq<Seq<char>> {
    Seq::new(
        if items.len() <= 3 {
            items.len()
        } else {
            3
        },
        |i: int| "["@ + items[i].0 + "] "@ + items[i].1,
    )
}

/// What the screen shows of the knowledge: the counts, and the first three proposals.
pub open spec fn panel(t: TrustSummary) -> Seq<char> {
    if t.proposed_items@.len() == 0 {
        count_line(t)
    } else {
        count_line(t) + "\npending: "@ + joined(previewed(pairs(t.proposed_items@)), "; "@)
    }
}

/// What the screen shows of the knowledge.
pub fn trust_panel(t: &TrustSummary) -> (r: String)
    ensures
        r@ == panel(*t),
{
    let mut s: String = String::new();
    put_counts(&mut s, t);
    assert(s@ =~= count_line(*t));
    if t.proposed_items.len() > 0 {
        let ghost all = previewed(pairs(t.proposed_items@));
        let n: usize = if t.proposed_items.len() <= 3 { t.proposed_items.len() } else { 3 };
        let mut v: Vec<String> = Vec::new();
        let mut i: usize = 0;
        assert(texts(v@) =~= all.take(0));
        while i < n
            invariant
                i <= n <= t.proposed_items@.len(),
                n == all.len(),
                all == previewed(pairs(t.proposed_items@)),
                texts(v@) == all.take(i as int),
            decreases n - i,
        {
            broadcast use crate::text::lemma_texts_push;

            let mut one: String = "[".to_owned();
            one.append(t.proposed_items[i].0.as_str());
            one.append("] ");
            one.append(t.proposed_items[i].1.as_str());
            assert(one@ =~= all[i as int]);
            v.push(one);
            assert(texts(v@) =~= all.take(i + 1));
            i += 1;
        }
        assert(all.take(i as int) =~= all);
        s.append("\npending: ");
        s.append(join(&v, "; ").as_str());
    }
    s
}

/// A key that the screen understands.
#[derive(PartialEq, Eq, Structural, Clone, Copy, Debug)]
pub enum Key {
    Quit,
    Up,
    Down,
    Other,
}

/// What a key does to the place from which steps are shown; `None` ends the screen.
pub open spec fn scrolled(scroll: usize, len: int, key: Key) -> Option<usize> {
    match key {
        Key::Quit => None,
        Key::Down => Some(
            if scroll + 1 < len {
                (scroll + 1) as usize
            } else {
                scroll
            },
        ),
        Key::Up => Some(
            if scroll > 0 {
                (scroll - 1) as usize
            } else {
                0
            },
        ),
        Key::Other => Some(scroll),
    }
}

/// What a key does to the place from which steps are shown; `None` ends the screen.
pub fn next_scroll(scroll: usize, len: usize, key: Key) -> (r: Option<usize>)
    ensures
        r == scrolled(scroll, len as int, key),
{
    match key {
        Key::Quit => None,
        Key::Down => Some(
            if scroll < len && scroll + 1 < len {
                scroll + 1
            } else {
                scroll
            },
        ),
        Key::Up => Some(
            if scroll > 0 {
                scroll - 1
            } else {
                0
            },
        ),
        Key::Other => Some(scroll),
    }
}

/// Scrolling never leaves the steps.
pub proof fn scrolling_stays_inside(scroll: usize, len: int, key: Key)
    requires
        scroll < len,
    ensures
        scrolled(scroll, len, key) matches Some(n) ==> n < len,
{
}

// ---- watching -------------------------------------------------------------

/// The event that tells of a proposal that grew old.
pub open spec fn aging_event(row: KnowledgeRowModel, now: i64) -> RelayEventModel {
    RelayEventModel {
        trigger: "proposed_item_aging"@,
        summary: "Proposed item #"@ + decimal(row.id as int) + " in '"@ + row.domain
            + "' aging past threshold"@,
        detail: row.title,
        count: 1,
        ts: now,
    }
}

/// Which proposals were told of once those of a list were looked at.
pub open spec fn told_after(
    rows: Seq<KnowledgeRowModel>,
    told: Set<i64>,
    now: i64,
    threshold: i64,
) -> Set<i64>
    decreases rows.len(),
{
    if rows.len() == 0 {
        told
    } else {
        let before = told_after(rows.drop_last(), told, now, threshold);
        if is_due(before, rows.last().id, rows.last().created_at, now, threshold) {
            before.insert(rows.last().id)
        } else {
            before
        }
    }
}

/// The events that tell of the proposals of a list that grew old.
pub open spec fn aging_events(
    rows: Seq<KnowledgeRowModel>,
    told: Set<i64>,
    now: i64,
    threshold: i64,
) -> Seq<RelayEventModel>
    decreases rows.len(),
{
    if rows.len() == 0 {
        seq![]
    } else {
        let before = told_after(rows.drop_last(), told, now, threshold);
        let rest = aging_events(rows.drop_last(), told, now, threshold);
        if is_due(before, rows.last().id, rows.last().created_at, now, threshold) {
            rest.push(aging_event(rows.last(), now))
        } else {
            rest
        }
    }
}

fn aging(row: &KnowledgeRow, now: i64) -> (r: RelayEvent)
    ensures
        r@ == aging_event(row@, now),
{
    let mut summary: String = "Proposed item #".to_owned();
    summary.append(number(row.id as i128).as_str());
    summary.append(" in '");
    summary.append(row.domain.as_str());
    summary.append("' aging past threshold");
    RelayEvent {
        trigger: "proposed_item_aging".to_owned(),
        summary,
        detail: row.title.clone(),
        count: 1,
        ts: now,
    }
}

/// The events that tell of the proposals of the store that grew old and were not told of
/// before.
pub fn watch_proposals(
    store: &Store,
    tracker: &mut AgingTracker,
    threshold_secs: i64,
    now: i64,
) -> (r: Vec<RelayEvent>)
    ensures
        ({
            let rows = knowledge_across(store@, domain_list(store@), Some("proposed"@), None);
            &&& models(r@) == aging_events(rows, old(tracker)@, now, threshold_secs)
            &&& final(tracker)@ == told_after(rows, old(tracker)@, now, threshold_secs)
        }),
{
    let rows: Vec<KnowledgeRow> = store.knowledge_of_all(Some("proposed"), None);
    let ghost all = models(rows@);
    let mut r: Vec<RelayEvent> = Vec::new();
    let mut i: usize = 0;
    assert(models(r@) =~= aging_events(all.take(0), old(tracker)@, now, threshold_secs));
    while i < rows.len()
        invariant
            i <= rows@.len(),
            all == models(rows@),
            models(r@) == aging_events(all.take(i as int), old(tracker)@, now, threshold_secs),
            tracker@ == told_after(all.take(i as int), old(tracker)@, now, threshold_secs),
        decreases rows.len() - i,
    {
        broadcast use lemma_models_push;

        assert(all.take(i + 1).drop_last() =~= all.take(i as int));
        if tracker.should_notify(rows[i].id, rows[i].created_at, now, threshold_secs) {
            r.push(aging(&rows[i], now));
        }
        i += 1;
    }
    assert(all.take(i as int) =~= all);
    r
}

/// The event that tells that a store went on with what it has itself.
pub open spec fn fallback_event(name: Seq<char>, delta: u64, now: i64) -> RelayEventModel {
    RelayEventModel {
        trigger: "sync_fallback"@,
        summary: name + " fell back to local-only storage "@ + decimal(delta as int) + " time(s)"@,
        detail: "Turso→SQLite fallback detected for "@ + name,
        count: (delta % 0x1_0000_0000) as u32,
        ts: now,
    }
}

/// The event that tells that a store went on with what it has itself, where it did so
/// since it was last looked at.
pub fn watch_fallback(tracker: &mut FallbackTracker, name: &str, fallbacks: u64, now: i64) -> (r:
    Option<RelayEvent>)
    requires
        old(tracker).wf(),
    ensures
        final(tracker).wf(),
        final(tracker).last_seen(name@) == Some(fallbacks),
        forall|n: Seq<char>|
            n != name@ ==> #[trigger] final(tracker).last_seen(n) == old(tracker).last_seen(n),
        match old(tracker).last_seen(name@) {
            Some(before) => if fallbacks > before {
                r matches Some(e) && e@ == fallback_event(name@, (fallbacks - before) as u64, now)
            } else {
                r is None
            },
            None => r is None,
        },
{
    match tracker.delta(name, fallbacks) {
        Some(delta) => {
            let mut summary: String = name.to_owned();
            summary.append(" fell back to local-only storage ");
            summary.append(number(delta as i128).as_str());
            summary.append(" time(s)");
            let mut detail: String = "Turso→SQLite fallback detected for ".to_owned();
            detail.append(name);
            Some(
                RelayEvent {
                    trigger: "sync_fallback".to_owned(),
                    summary,
                    detail,
                    count: (delta % 0x1_0000_0000) as u32,
                    ts: now,
                },
            )
        },
        None => None,
    }
}

} // verus!
