//! What is told to those who watch, and when.
use vstd::prelude::*;

use crate::laws::text::numbers_are_read_as_written;
use crate::notify::{batch_of, config_of, denial_noted, events_of, examples, in_window, is_due};
use crate::notify::{is_spike, latest, merged, spike_event, told, total_count, NotifyState};
use crate::notify::RelayEventModel;
use crate::text::{decimal, joined, trim};

verus! {

/// Nothing is told without an address. With one, the address is taken without the white at
/// its ends; proposals are old after seven days and five denials are a spike, unless told
/// otherwise.
pub proof fn watching_needs_an_address(
    url: Option<Seq<char>>,
    age: Option<Seq<char>>,
    spike: Option<Seq<char>>,
)
    ensures
        config_of(url, age, spike) is None <==> (url matches Some(u) ==> trim(u).len() == 0),
        config_of(url, age, spike) matches Some(c) ==> {
            &&& url matches Some(u) && c.webhook_url == trim(u)
            &&& age is None ==> c.proposed_age_threshold_secs == 604800
            &&& spike is None ==> c.denial_spike_threshold == 5
        },
{
}

/// A threshold that is told as a number is taken; one that is not a number is passed over.
pub proof fn told_thresholds_are_taken(url: Seq<char>, age: i64, spike: u32, other: Seq<char>)
    requires
        trim(url).len() > 0,
        crate::text::parsed(other) is None,
    ensures
        config_of(Some(url), Some(decimal(age as int)), Some(decimal(spike as int))) matches Some(c)
            && c.proposed_age_threshold_secs == age && c.denial_spike_threshold == spike,
        config_of(Some(url), Some(other), Some(other)) matches Some(c)
            && c.proposed_age_threshold_secs == 604800 && c.denial_spike_threshold == 5,
{
    numbers_are_read_as_written(age as int);
    numbers_are_read_as_written(spike as int);
    assert(crate::text::is_digit(decimal(spike as int)[0]));
}

/// Events are gathered for half a minute before they are told.
pub proof fn events_are_gathered_for_half_a_minute()
    ensures
        crate::notify::BATCH_WINDOW_SECS == 30,
{
}

/// A denial counts for a minute.
pub proof fn denials_count_for_a_minute(times: Seq<i64>, t: i64, now: i64)
    ensures
        in_window(times, now).contains(t) <==> times.contains(t) && now - t <= 60,
        in_window(times.push(now), now) == in_window(times, now).push(now),
{
    broadcast use vstd::seq_lib::group_filter_ensures;

    let p = |t: i64| now - t <= crate::notify::DENIAL_WINDOW_SECS;
    if in_window(times, now).contains(t) {
        times.lemma_filter_contains_rev(p, t);
        let f = times.filter(p);
        assert(p(f[f.index_of(t)]));
    }
    if times.contains(t) && now - t <= 60 {
        assert(p(times[times.index_of(t)]));
    }
    reveal(Seq::filter);
    assert(times.push(now).drop_last() =~= times);
}

/// So many denials as the threshold, or more, are told as a spike, unless one was told in
/// the last five minutes.
pub proof fn spikes_are_told_every_five_minutes(
    times: Seq<i64>,
    fired: Option<i64>,
    now: i64,
    threshold: u32,
)
    requires
        now >= 0,
    ensures
        is_spike(times, fired, now, threshold) <==> times.len() >= threshold && (
        fired matches Some(t) ==> now >= t + 300),
{
}

/// A spike names its domain.
pub proof fn spikes_name_their_domain(domain: Seq<char>, now: i64)
    ensures
        spike_event(domain, now).trigger == "domain_denial_spike"@,
        spike_event(domain, now).summary == "Denial spike in domain '"@ + domain + "'"@,
        spike_event(domain, now).detail == "Repeated access denials for domain '"@ + domain
            + "' within 60s"@,
        spike_event(domain, now).count == 1,
        spike_event(domain, now).ts == now,
{
    reveal_strlit("' within ");
    reveal_strlit("s");
    reveal_strlit("' within 60s");
    crate::laws::text::numbers_are_decimal(6, 0);
    reveal_with_fuel(crate::text::digits, 2);
    assert("' within "@ + decimal(60) + "s"@ =~= "' within 60s"@);
    assert(spike_event(domain, now).detail =~= "Repeated access denials for domain '"@ + domain + (
    "' within "@ + decimal(60) + "s"@));
}

/// A proposal is told once it is as old as the threshold, if it was not told before.
pub proof fn old_proposals_are_told(told: Set<i64>, id: i64, created: i64, now: i64, threshold: i64)
    ensures
        is_due(told, id, created, now, threshold) <==> now >= created + threshold && !(
        told.contains(id)),
{
}

/// The events of a trigger are told as one: their counts are added, its time is the latest
/// of theirs, and its detail shows the first three.
pub proof fn a_message_sums_its_events(trigger: Seq<char>, events: Seq<RelayEventModel>)
    requires
        events.len() > 0,
        0 <= total_count(events) <= u32::MAX,
    ensures
        ({
            let m = merged(trigger, events);
            &&& m.trigger == trigger
            &&& m.count == total_count(events)
            &&& m.summary == decimal(m.count as int) + " "@ + trigger + " event(s)"@
            &&& forall|i: int| 0 <= i < events.len() ==> (#[trigger] events[i]).ts <= m.ts
            &&& exists|i: int| 0 <= i < events.len() && (#[trigger] events[i]).ts == m.ts
            &&& events.len() == 1 ==> m.detail == events[0].summary
            &&& events.len() == 2 ==> m.detail == events[0].summary + "; "@ + events[1].summary
            &&& events.len() >= 3 ==> m.detail == events[0].summary + "; "@ + events[1].summary
                + "; "@ + events[2].summary
        }),
{
    lemma_latest(events);
    reveal_with_fuel(joined, 4);
    let x = examples(events);
    if events.len() >= 3 {
        assert(x.drop_last().drop_last() =~= seq![events[0].summary]);
        assert(x.drop_last().len() == 2);
    } else if events.len() == 2 {
        assert(x.drop_last() =~= seq![events[0].summary]);
    }
}

proof fn lemma_latest(events: Seq<RelayEventModel>)
    requires
        events.len() > 0,
    ensures
        forall|i: int| 0 <= i < events.len() ==> (#[trigger] events[i]).ts <= latest(events),
        exists|i: int| 0 <= i < events.len() && (#[trigger] events[i]).ts == latest(events),
    decreases events.len(),
{
    let n = events.len() - 1;
    if n > 0 {
        let head = events.drop_last();
        lemma_latest(head);
        let i = choose|i: int| 0 <= i < head.len() && (#[trigger] head[i]).ts == latest(head);
        assert(events[i] == head[i]);
        assert forall|i: int| 0 <= i < events.len() implies (#[trigger] events[i]).ts <= latest(
            events,
        ) by {
            if i < n {
                assert(head[i] == events[i]);
            }
        }
    }
    assert(events[n].ts == events.last().ts);
}

/// The counts of two lists of events add up.
pub proof fn counts_add_up(a: Seq<RelayEventModel>, b: Seq<RelayEventModel>)
    ensures
        total_count(a + b) == total_count(a) + total_count(b),
        forall|e: RelayEventModel| total_count(#[trigger] seq![e]) == e.count,
    decreases b.len(),
{
    assert forall|e: RelayEventModel| total_count(#[trigger] seq![e]) == e.count by {
        reveal_with_fuel(total_count, 2);
        assert(seq![e].drop_last() =~= seq![]);
    }
    if b.len() > 0 {
        counts_add_up(a, b.drop_last());
        assert((a + b).drop_last() =~= a + b.drop_last());
    } else {
        assert(a + b =~= a);
    }
}

/// Events of one trigger are told in one message, whatever comes between them.
pub proof fn one_trigger_is_one_message(events: Seq<RelayEventModel>, trigger: Seq<char>)
    requires
        events.len() > 0,
        forall|i: int| 0 <= i < events.len() ==> (#[trigger] events[i]).trigger == trigger,
    ensures
        told(batch_of(events)) == seq![merged(trigger, events)],
{
    crate::notify::each_trigger_is_told_once(events);
    let m = told(batch_of(events));
    assert(events[0].trigger == trigger);
    let j = choose|j: int| 0 <= j < m.len() && (#[trigger] m[j]).trigger == events[0].trigger;
    crate::table::lemma_filter_none_dropped(events, |e: RelayEventModel| e.trigger == trigger);
    assert(events_of(events, trigger) == events);
    assert forall|i: int| 0 <= i < m.len() implies #[trigger] m[i] == m[j] && i == j by {
        let own = events_of(events, m[i].trigger);
        let p = |e: RelayEventModel| e.trigger == m[i].trigger;
        assert(own.len() > 0);
        broadcast use vstd::seq_lib::group_filter_ensures;

        assert(own.contains(own[0]));
        events.lemma_filter_contains_rev(p, own[0]);
        assert(p(own[0]));
        let at = events.index_of(own[0]);
        assert(events[at].trigger == trigger);
        if i < j {
            assert(m[i].trigger != m[j].trigger);
        } else if j < i {
            assert(m[j].trigger != m[i].trigger);
        }
    }
    if m.len() > 1 {
        assert(m[0] == m[j] && m[1] == m[j]);
    }
    assert(m =~= seq![merged(trigger, events)]);
}

/// A denial is noted at its time, in its domain alone. It is told where, with it, there are
/// as many in the last minute as the threshold, and none was told in the last five minutes.
pub proof fn denials_are_noted_in_their_domain(
    before: NotifyState,
    after: NotifyState,
    domain: Seq<char>,
    now: i64,
    event: Option<RelayEventModel>,
    other: Seq<char>,
)
    requires
        denial_noted(before, after, domain, now, event),
        now >= 0,
        other != domain,
    ensures
        !before.enabled ==> event is None && after == before,
        before.enabled ==> {
            let recent = before.denials.recent(domain).push(now).filter(|t: i64| now - t <= 60);
            let told = before.denials.last_fired(domain);
            let spike = recent.len() >= before.denials.threshold && (told matches Some(t) ==> now
                >= t + 300);
            &&& event is Some <==> spike
            &&& event matches Some(e) ==> e.trigger == "domain_denial_spike"@ && e.ts == now
            &&& after.denials.recent(domain) == recent
            &&& after.denials.last_fired(domain) == if spike {
                Some(now)
            } else {
                told
            }
            &&& after.denials.recent(other) == before.denials.recent(other)
            &&& after.denials.last_fired(other) == before.denials.last_fired(other)
            &&& after.enabled && after.denials.threshold == before.denials.threshold
        },
{
    let p = |t: i64| now - t <= crate::notify::DENIAL_WINDOW_SECS;
    let q = |t: i64| now - t <= 60;
    assert(p =~= q);
}

} // verus!
