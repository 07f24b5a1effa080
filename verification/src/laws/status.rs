//! What the status shows.
use vstd::prelude::*;

use crate::calendar::{shown_time, utc_text};
use crate::health::SyncHealthSnapshot;
use crate::notify::RelayEventModel;
use crate::status::{aging_event, aging_events, count_line, episode_line, episode_lines};
use crate::status::{episode_part, fallback_event, health_line, knowledge_across, padded, pairs};
use crate::status::{panel, pending_lines, proposals, scrolled, set_in, status_report, step_line};
use crate::status::{store_lines, tally, told_after, trust_part, Key, TrustSummary};
use crate::store::StoreModel;
use crate::store::knowledge::knowledge_list;
use crate::text::{decimal, joined};
use crate::types::{DomainRowModel, EpisodeRowModel, Kind, KnowledgeRowModel};

verus! {

/// A tier is counted row by row, and what waits for promotion is listed row by row.
pub proof fn rows_are_tallied_by_tier(
    rows: Seq<KnowledgeRowModel>,
    r: KnowledgeRowModel,
    trust: Seq<char>,
)
    ensures
        tally(seq![], trust) == 0,
        r.trust == trust ==> tally(rows.push(r), trust) == tally(rows, trust) + 1,
        r.trust != trust ==> tally(rows.push(r), trust) == tally(rows, trust),
        r.trust == "proposed"@ ==> proposals(rows.push(r)) == proposals(rows).push(
            (r.domain, r.title),
        ),
        r.trust != "proposed"@ ==> proposals(rows.push(r)) == proposals(rows),
        proposals(seq![]).len() == 0,
{
    reveal(Seq::filter);
    assert(rows.push(r).drop_last() =~= rows);
    let p = |r: KnowledgeRowModel| r.trust == "proposed"@;
    if r.trust == "proposed"@ {
        assert(rows.push(r).filter(p) == rows.filter(p).push(r));
        assert(proposals(rows.push(r)) =~= proposals(rows).push((r.domain, r.title)));
    }
}

/// The knowledge of all domains is that of each, domain after domain.
pub proof fn every_domain_is_gone_through(
    s: StoreModel,
    domains: Seq<DomainRowModel>,
    d: DomainRowModel,
    trust: Option<Seq<char>>,
    kind: Option<Kind>,
)
    ensures
        knowledge_across(s, seq![], trust, kind).len() == 0,
        knowledge_across(s, domains.push(d), trust, kind) == knowledge_across(
            s,
            domains,
            trust,
            kind,
        ) + knowledge_list(s, d.name, trust, kind),
{
    assert(domains.push(d).drop_last() =~= domains);
}

/// A step is shown with its time, its outcome, its stage and what was done.
pub proof fn steps_are_shown_on_a_line(e: EpisodeRowModel, time: Seq<char>)
    ensures
        e.outcome is Some && e.stage is Some && e.action is Some ==> step_line(e, time) == time
            + "  ["@ + e.outcome->0 + "] "@ + e.stage->0 + ": "@ + e.action->0,
        e.outcome is None && e.stage is None && e.action is None ==> step_line(e, time) == time
            + "  ["@ + "unknown"@ + "] "@ + "-"@ + ": "@ + "-"@,
{
}

/// A store is shown with its name, its engine and its health.
pub proof fn stores_are_shown_on_a_line(
    name: Seq<char>,
    engine: Seq<char>,
    healthy: bool,
    s: SyncHealthSnapshot,
)
    ensures
        health_line(name, engine, healthy, None) == padded(name, 10) + " ("@ + engine + ")  "@ + (
        if healthy {
            "healthy"@
        } else {
            "UNHEALTHY"@
        }),
        health_line(name, engine, healthy, Some(s)) == health_line(name, engine, healthy, None)
            + "  remote_configured="@ + (if s.remote_configured {
            "true"@
        } else {
            "false"@
        }) + "  last_success="@ + (match s.last_success_at {
            Some(t) => decimal(t as int),
            None => "never"@,
        }) + "  consecutive_failures="@ + decimal(s.consecutive_failures as int)
            + "  fallback_events="@ + decimal(s.fallback_events as int),
{
}

/// Padding fills a text up with blanks behind it, and cuts nothing off.
pub proof fn padding_fills_up_behind(s: Seq<char>, n: nat, i: int)
    ensures
        padded(s, n as int).len() == if s.len() >= n {
            s.len()
        } else {
            n
        },
        0 <= i < s.len() ==> padded(s, n as int)[i] == s[i],
        s.len() <= i < n ==> padded(s, n as int)[i] == ' ',
{
}

/// The four stores are shown, each with its engine.
pub proof fn four_stores_are_shown(
    store: bool,
    code: (bool, SyncHealthSnapshot),
    train: (bool, SyncHealthSnapshot),
    session: (bool, SyncHealthSnapshot),
)
    ensures
        store_lines(store, code, train, session) == seq![
            health_line("kl_store"@, "sqlite"@, store, None),
            health_line("kl_code"@, "libsql"@, code.0, Some(code.1)),
            health_line("kl_train"@, "libsql"@, train.0, Some(train.1)),
            health_line("kl_session"@, "libsql"@, session.0, Some(session.1)),
        ],
{
}

/// The counts of the tiers are shown in their order.
pub proof fn tiers_are_counted_on_a_line(t: TrustSummary)
    ensures
        count_line(t) == "proposed: "@ + decimal(t.proposed as int) + "   reviewed: "@ + decimal(
            t.reviewed as int,
        ) + "   user: "@ + decimal(t.user as int),
{
}

/// What waits is shown line by line, as are the steps and the stores.
pub proof fn lines_are_shown_one_by_one(
    items: Seq<(Seq<char>, Seq<char>)>,
    domain: Seq<char>,
    title: Seq<char>,
    l: Seq<Seq<char>>,
    line: Seq<char>,
)
    ensures
        pending_lines(items.push((domain, title))) == pending_lines(items) + "    - ["@ + domain
            + "] "@ + title + "\n"@,
        pending_lines(seq![]).len() == 0,
        set_in(l.push(line)) == set_in(l) + "  "@ + line + "\n"@,
        set_in(seq![]).len() == 0,
        episode_lines(seq![]).len() == 0,
{
    assert(items.push((domain, title)).drop_last() =~= items);
    assert(l.push(line).drop_last() =~= l);
}

/// The status has its three parts; one without content says so.
pub proof fn the_status_has_three_parts(
    t: TrustSummary,
    e: Seq<EpisodeRowModel>,
    health: Seq<Seq<char>>,
)
    ensures
        status_report(t, e, health) == "klayer status\n"@ + "=============\n\n"@ + trust_part(t)
            + episode_part(e) + "Storage Health\n"@ + set_in(health),
        e.len() == 0 ==> episode_part(e) == "Episode Log (recent)\n"@ + "  no episodes recorded\n"@
            + "\n"@,
        e.len() > 0 ==> episode_part(e) == "Episode Log (recent)\n"@ + episode_lines(e) + "\n"@,
        t.proposed_items@.len() == 0 ==> trust_part(t) == "Trust Lifecycle\n"@ + "  "@ + count_line(
            t,
        ) + "\n"@ + "  Pending promotion: none\n"@ + "\n"@,
        t.proposed_items@.len() > 0 ==> trust_part(t) == "Trust Lifecycle\n"@ + "  "@ + count_line(
            t,
        ) + "\n"@ + ("  Pending promotion (proposed):\n"@ + pending_lines(pairs(t.proposed_items@)))
            + "\n"@,
{
}

/// The panel shows the first three of what waits.
pub proof fn the_panel_shows_three(t: TrustSummary)
    ensures
        ({
            let p = t.proposed_items@;
            &&& p.len() == 0 ==> panel(t) == count_line(t)
            &&& p.len() == 1 ==> panel(t) == count_line(t) + "\npending: "@ + ("["@ + p[0].0@ + "] "@
                + p[0].1@)
            &&& p.len() == 2 ==> panel(t) == count_line(t) + "\npending: "@ + (("["@ + p[0].0@
                + "] "@ + p[0].1@) + "; "@ + ("["@ + p[1].0@ + "] "@ + p[1].1@))
            &&& p.len() >= 3 ==> panel(t) == count_line(t) + "\npending: "@ + (("["@ + p[0].0@
                + "] "@ + p[0].1@) + "; "@ + ("["@ + p[1].0@ + "] "@ + p[1].1@) + "; "@ + ("["@
                + p[2].0@ + "] "@ + p[2].1@))
        }),
{
    reveal_with_fuel(joined, 4);
    let p = t.proposed_items@;
    let v = crate::status::previewed(pairs(p));
    if p.len() >= 3 {
        assert(v.drop_last().drop_last().len() == 1);
        assert(v.drop_last().drop_last()[0] == v[0]);
    } else if p.len() == 2 {
        assert(v.drop_last()[0] == v[0]);
    }
}

/// A key moves by one line, within the list.
pub proof fn keys_move_by_one(scroll: usize, len: nat)
    requires
        scroll < len <= usize::MAX,
    ensures
        scrolled(scroll, len as int, Key::Quit) is None,
        scrolled(scroll, len as int, Key::Other) == Some(scroll),
        scrolled(scroll, len as int, Key::Down) == Some(
            if scroll == len - 1 {
                scroll
            } else {
                (scroll + 1) as usize
            },
        ),
        scrolled(scroll, len as int, Key::Up) == Some(
            if scroll == 0 {
                0usize
            } else {
                (scroll - 1) as usize
            },
        ),
{
}

/// A proposal that grew old is told with its number, its domain and its title; one fallback
/// is told with its store and how often.
pub proof fn events_name_their_subject(row: KnowledgeRowModel, name: Seq<char>, n: u32, now: i64)
    ensures
        aging_event(row, now) == (RelayEventModel {
            trigger: "proposed_item_aging"@,
            summary: "Proposed item #"@ + decimal(row.id as int) + " in '"@ + row.domain
                + "' aging past threshold"@,
            detail: row.title,
            count: 1,
            ts: now,
        }),
        fallback_event(name, n as u64, now) == (RelayEventModel {
            trigger: "sync_fallback"@,
            summary: name + " fell back to local-only storage "@ + decimal(n as int) + " time(s)"@,
            detail: "Turso→SQLite fallback detected for "@ + name,
            count: n,
            ts: now,
        }),
{
}

/// A row that is old enough and was not told is told, and only then; once told it is not
/// told again.
pub proof fn old_rows_are_told_once(
    rows: Seq<KnowledgeRowModel>,
    row: KnowledgeRowModel,
    told: Set<i64>,
    now: i64,
    threshold: i64,
)
    ensures
        ({
            let seen = told_after(rows, told, now, threshold);
            let before = aging_events(rows, told, now, threshold);
            let after = aging_events(rows.push(row), told, now, threshold);
            &&& now - row.created_at >= threshold && !seen.contains(row.id) ==> after == before.push(
                aging_event(row, now),
            ) && told_after(rows.push(row), told, now, threshold).contains(row.id)
            &&& now - row.created_at < threshold || seen.contains(row.id) ==> after == before
                && told_after(rows.push(row), told, now, threshold) == seen
            &&& told_after(seq![], told, now, threshold) == told
            &&& aging_events(seq![], told, now, threshold).len() == 0
        }),
{
    assert(rows.push(row).drop_last() =~= rows);
}

/// A step is shown with its day and time, or with the bare number where there is none.
pub proof fn steps_are_shown_with_their_time(e: EpisodeRowModel, t: Seq<char>)
    ensures
        utc_text(e.ts, "%Y-%m-%d %H:%M:%S"@) == Some(t) ==> episode_line(e) == step_line(e, t),
        utc_text(e.ts, "%Y-%m-%d %H:%M:%S"@) is None ==> episode_line(e) == step_line(
            e,
            decimal(e.ts as int),
        ),
        utc_text(e.ts, "%Y-%m-%d %H:%M:%S UTC"@) == Some(t) ==> shown_time(e.ts) == t,
        utc_text(e.ts, "%Y-%m-%d %H:%M:%S UTC"@) is None ==> shown_time(e.ts) == decimal(
            e.ts as int,
        ),
{
}

} // verus!
