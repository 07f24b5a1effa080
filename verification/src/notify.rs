//! Notifications: which events are told, and how those of a short time are told at once.
use vstd::prelude::*;

use crate::text::{decimal, joined, join, number, opt, parse_i64, parse_u64, parsed, parsed_u64};
use crate::text::{same, texts, trim, trimmed};
use crate::types::{lemma_models_push, models};

verus! {

/// How old a proposal is when it is told of, where nothing else is set: a week.
pub const DEFAULT_PROPOSED_AGE_THRESHOLD_SECS: i64 = 604800;

/// How many denials make a spike, where nothing else is set.
pub const DEFAULT_DENIAL_SPIKE_THRESHOLD: u32 = 5;

/// How long events are gathered before they are told.
pub const BATCH_WINDOW_SECS: u64 = 30;

/// How long a denial counts.
pub const DENIAL_WINDOW_SECS: i64 = 60;

/// How long a spike of a domain is not told again.
pub const DENIAL_COOLDOWN_SECS: i64 = 300;

/// Something that is told: plain fields that any receiver can read.
#[derive(Debug)]
pub struct RelayEvent {
    pub trigger: String,
    pub summary: String,
    pub detail: String,
    pub count: u32,
    pub ts: i64,
}

/// What a [`RelayEvent`] holds, as mathematical values.
#[verifier::ext_equal]
pub struct RelayEventModel {
    pub trigger: Seq<char>,
    pub summary: Seq<char>,
    pub detail: Seq<char>,
    pub count: u32,
    pub ts: i64,
}

impl View for RelayEvent {
    type V = RelayEventModel;

    open spec fn view(&self) -> RelayEventModel {
        RelayEventModel {
            trigger: self.trigger@,
            summary: self.summary@,
            detail: self.detail@,
            count: self.count,
            ts: self.ts,
        }
    }
}

impl Clone for RelayEvent {
    fn clone(&self) -> (r: Self)
        ensures
            r@ == self@,
    {
        RelayEvent {
            trigger: self.trigger.clone(),
            summary: self.summary.clone(),
            detail: self.detail.clone(),
            count: self.count,
            ts: self.ts,
        }
    }
}

/// Where events are told, and from when on.
#[derive(Debug)]
pub struct NotifyConfig {
    pub webhook_url: String,
    pub proposed_age_threshold_secs: i64,
    pub denial_spike_threshold: u32,
}

/// What a [`NotifyConfig`] holds, as mathematical values.
#[verifier::ext_equal]
pub struct NotifyConfigModel {
    pub webhook_url: Seq<char>,
    pub proposed_age_threshold_secs: i64,
    pub denial_spike_threshold: u32,
}

impl View for NotifyConfig {
    type V = NotifyConfigModel;

    open spec fn view(&self) -> NotifyConfigModel {
        NotifyConfigModel {
            webhook_url: self.webhook_url@,
            proposed_age_threshold_secs: self.proposed_age_threshold_secs,
            denial_spike_threshold: self.denial_spike_threshold,
        }
    }
}

impl Clone for NotifyConfig {
    fn clone(&self) -> (r: Self)
        ensures
            r@ == self@,
    {
        NotifyConfig {
            webhook_url: self.webhook_url.clone(),
            proposed_age_threshold_secs: self.proposed_age_threshold_secs,
            denial_spike_threshold: self.denial_spike_threshold,
        }
    }
}

/// The settings that three texts make: events are told only where an address is set.
/// Numbers that cannot be read count as not set.
pub open spec fn config_of(
    url: Option<Seq<char>>,
    age: Option<Seq<char>>,
    spike: Option<Seq<char>>,
) -> Option<NotifyConfigModel> {
    match url {
        Some(u) => if trim(u).len() == 0 {
            None
        } else {
            Some(
                NotifyConfigModel {
                    webhook_url: trim(u),
                    proposed_age_threshold_secs: match age {
                        Some(a) => match parsed(a) {
                            Some(n) => if i64::MIN <= n <= i64::MAX {
                                n as i64
                            } else {
                                DEFAULT_PROPOSED_AGE_THRESHOLD_SECS
                            },
                            None => DEFAULT_PROPOSED_AGE_THRESHOLD_SECS,
                        },
                        None => DEFAULT_PROPOSED_AGE_THRESHOLD_SECS,
                    },
                    denial_spike_threshold: match spike {
                        Some(a) => match parsed_u64(a) {
                            Some(n) => if 0 <= n <= u32::MAX {
                                n as u32
                            } else {
                                DEFAULT_DENIAL_SPIKE_THRESHOLD
                            },
                            None => DEFAULT_DENIAL_SPIKE_THRESHOLD,
                        },
                        None => DEFAULT_DENIAL_SPIKE_THRESHOLD,
                    },
                },
            )
        },
        None => None,
    }
}

impl NotifyConfig {
    /// The settings that three texts make; `None` where no address is set.
    pub fn from_values(url: Option<String>, age: Option<String>, spike: Option<String>) -> (r:
        Option<NotifyConfig>)
        ensures
            match r {
                Some(c) => config_of(opt(url), opt(age), opt(spike)) == Some(c@),
                None => config_of(opt(url), opt(age), opt(spike)) is None,
            },
    {
        let webhook_url: String = match url {
            Some(u) => trimmed(u.as_str()),
            None => {
                return None;
            },
        };
        if webhook_url.as_str().is_empty() {
            return None;
        }
        let proposed_age_threshold_secs: i64 = match age {
            Some(a) => match parse_i64(a.as_str()) {
                Some(n) => n,
                None => DEFAULT_PROPOSED_AGE_THRESHOLD_SECS,
            },
            None => DEFAULT_PROPOSED_AGE_THRESHOLD_SECS,
        };
        let denial_spike_threshold: u32 = match spike {
            Some(a) => match parse_u64(a.as_str()) {
                Some(n) => if n <= u32::MAX as u64 {
                    n as u32
                } else {
                    DEFAULT_DENIAL_SPIKE_THRESHOLD
                },
                None => DEFAULT_DENIAL_SPIKE_THRESHOLD,
            },
            None => DEFAULT_DENIAL_SPIKE_THRESHOLD,
        };
        Some(NotifyConfig { webhook_url, proposed_age_threshold_secs, denial_spike_threshold })
    }
}

// ---- telling events at once -----------------------------------------------

/// How often the events of a list happened.
pub open spec fn total_count(events: Seq<RelayEventModel>) -> int
    decreases events.len(),
{
    if events.len() == 0 {
        0
    } else {
        total_count(events.drop_last()) + events.last().count
    }
}

/// When the last of some events happened; zero where there is none.
pub open spec fn latest(events: Seq<RelayEventModel>) -> i64
    decreases events.len(),
{
    if events.len() == 0 {
        0
    } else if events.len() == 1 || events.last().ts >= latest(events.drop_last()) {
        events.last().ts
    } else {
        latest(events.drop_last())
    }
}

/// The summaries of the first three of some events.
pub open spec fn examples(events: Seq<RelayEventModel>) -> Seq<Seq<char>> {
    Seq::new(
        if events.len() <= 3 {
            events.len()
        } else {
            3
        },
        |i: int| events[i].summary,
    )
}

/// The one event that some events of a kind are told as.
pub open spec fn merged(trigger: Seq<char>, events: Seq<RelayEventModel>) -> RelayEventModel {
    RelayEventModel {
        trigger,
        summary: decimal(total_count(events)) + " "@ + trigger + " event(s)"@,
        detail: joined(examples(events), "; "@),
        count: total_count(events) as u32,
        ts: latest(events),
    }
}

proof fn lemma_total_count(events: Seq<RelayEventModel>, n: int)
    requires
        0 <= n <= events.len(),
    ensures
        0 <= total_count(events.take(n)) <= total_count(events),
    decreases events.len(),
{
    if n == events.len() {
        assert(events.take(n) =~= events);
        if n > 0 {
            lemma_total_count(events.drop_last(), 0);
            assert(events.drop_last().take(0) =~= seq![]);
        }
    } else {
        assert(events.drop_last().take(n) =~= events.take(n));
        lemma_total_count(events.drop_last(), n);
    }
}

/// The one event that some events of a kind are told as.
pub fn merge_batch(trigger: &str, events: &[RelayEvent]) -> (r: RelayEvent)
    requires
        total_count(models(events@)) <= u32::MAX,
    ensures
        r@ == merged(trigger@, models(events@)),
{
    let ghost all = models(events@);
    let mut count: u32 = 0;
    let mut ts: i64 = 0;
    let mut shown: Vec<String> = Vec::new();
    let mut i: usize = 0;
    assert(total_count(all.take(0)) == 0);
    assert(texts(shown@) =~= examples(all.take(0)));
    while i < events.len()
        invariant
            i <= events@.len(),
            all == models(events@),
            total_count(all) <= u32::MAX,
            count == total_count(all.take(i as int)),
            ts == latest(all.take(i as int)),
            texts(shown@) == examples(all.take(i as int)),
        decreases events.len() - i,
    {
        broadcast use crate::text::lemma_texts_push;

        proof {
            assert(all.take(i + 1).drop_last() =~= all.take(i as int));
            lemma_total_count(all, i + 1);
        }
        let e: &RelayEvent = &events[i];
        count = count + e.count;
        if i == 0 || e.ts >= ts {
            ts = e.ts;
        }
        if i < 3 {
            shown.push(e.summary.clone());
        }
        assert(texts(shown@) =~= examples(all.take(i + 1)));
        i += 1;
    }
    assert(all.take(i as int) =~= all);
    let mut summary: String = number(count as i128);
    summary.append(" ");
    summary.append(trigger);
    summary.append(" event(s)");
    RelayEvent {
        trigger: trigger.to_owned(),
        summary,
        detail: join(&shown, "; "),
        count,
        ts,
    }
}

// ---- lists of named things ------------------------------------------------

/// The place of a name in a list of names: that of its first occurrence.
pub open spec fn slot(names: Seq<Seq<char>>, name: Seq<char>) -> Option<int>
    decreases names.len(),
{
    if names.len() == 0 {
        None
    } else {
        match slot(names.drop_last(), name) {
            Some(i) => Some(i),
            None => if names.last() == name {
                Some(names.len() - 1)
            } else {
                None
            },
        }
    }
}

proof fn lemma_slot(names: Seq<Seq<char>>, name: Seq<char>)
    ensures
        match slot(names, name) {
            Some(i) => 0 <= i < names.len() && names[i] == name,
            None => forall|i: int| 0 <= i < names.len() ==> #[trigger] names[i] != name,
        },
    decreases names.len(),
{
    if names.len() > 0 {
        lemma_slot(names.drop_last(), name);
        if slot(names, name) is None {
            assert forall|i: int| 0 <= i < names.len() implies #[trigger] names[i] != name by {
                if i < names.len() - 1 {
                    assert(names[i] == names.drop_last()[i]);
                }
            }
        }
    }
}

proof fn lemma_slot_push(names: Seq<Seq<char>>, more: Seq<char>, name: Seq<char>)
    ensures
        slot(names.push(more), name) == (match slot(names, name) {
            Some(i) => Some(i),
            None => if more == name {
                Some(names.len() as int)
            } else {
                None
            },
        }),
{
    assert(names.push(more).drop_last() =~= names);
}

fn slot_of(names: &Vec<String>, name: &str) -> (r: Option<usize>)
    ensures
        match r {
            Some(i) => slot(texts(names@), name@) == Some(i as int) && i < names@.len(),
            None => slot(texts(names@), name@) is None,
        },
{
    let ghost all = texts(names@);
    let mut i: usize = 0;
    assert(slot(all.take(0), name@) is None);
    while i < names.len()
        invariant
            i <= names@.len(),
            all == texts(names@),
            slot(all.take(i as int), name@) is None,
        decreases names.len() - i,
    {
        assert(all.take(i + 1).drop_last() =~= all.take(i as int));
        if same(names[i].as_str(), name) {
            proof {
                lemma_slot_stays(all, i + 1, name@);
            }
            return Some(i);
        }
        i += 1;
    }
    assert(all.take(i as int) =~= all);
    None
}

proof fn lemma_slot_stays(names: Seq<Seq<char>>, n: int, name: Seq<char>)
    requires
        0 <= n <= names.len(),
        slot(names.take(n), name) is Some,
    ensures
        slot(names, name) == slot(names.take(n), name),
    decreases names.len(),
{
    if n == names.len() {
        assert(names.take(n) =~= names);
    } else {
        assert(names.drop_last().take(n) =~= names.take(n));
        lemma_slot_stays(names.drop_last(), n, name);
    }
}

// ---- gathering events -----------------------------------------------------

/// The events that were gathered and not told yet, by trigger.
#[derive(Debug)]
pub struct Batcher {
    pub triggers: Vec<String>,
    pub events: Vec<Vec<RelayEvent>>,
}

/// The events of one trigger that were gathered and not told yet.
#[verifier::ext_equal]
pub struct Group {
    pub trigger: Seq<char>,
    pub events: Seq<RelayEventModel>,
}

impl View for Batcher {
    type V = Seq<Group>;

    open spec fn view(&self) -> Seq<Group> {
        Seq::new(
            self.triggers@.len(),
            |i: int|
                Group { trigger: self.triggers@[i]@, events: models(self.events@[i]@) },
        )
    }
}

/// The triggers of some groups.
pub open spec fn triggers_of(groups: Seq<Group>) -> Seq<Seq<char>> {
    groups.map_values(|g: Group| g.trigger)
}

/// The groups after one more event: it joins the group of its trigger, or starts it.
pub open spec fn booked(groups: Seq<Group>, e: RelayEventModel) -> Seq<Group> {
    match slot(triggers_of(groups), e.trigger) {
        Some(i) => groups.update(
            i,
            Group { trigger: e.trigger, events: groups[i].events.push(e) },
        ),
        None => groups.push(Group { trigger: e.trigger, events: seq![e] }),
    }
}

/// The groups after some events, from the first to the last.
pub open spec fn batch_of(events: Seq<RelayEventModel>) -> Seq<Group>
    decreases events.len(),
{
    if events.len() == 0 {
        seq![]
    } else {
        booked(batch_of(events.drop_last()), events.last())
    }
}

/// Whether the groups are apart, none is empty, and each holds events of its trigger alone.
pub open spec fn are_apart(groups: Seq<Group>) -> bool {
    &&& triggers_of(groups).no_duplicates()
    &&& forall|i: int| 0 <= i < groups.len() ==> (#[trigger] groups[i]).events.len() > 0
    &&& forall|i: int, j: int|
        0 <= i < groups.len() && 0 <= j < groups[i].events.len() ==> (
        #[trigger] groups[i].events[j]).trigger == groups[i].trigger
}

/// Whether the events of every group can be counted.
pub open spec fn are_countable(groups: Seq<Group>) -> bool {
    forall|i: int|
        0 <= i < groups.len() ==> total_count((#[trigger] groups[i]).events) <= u32::MAX
}

/// The messages that groups are told as: one of each, of all its events.
pub open spec fn told(groups: Seq<Group>) -> Seq<RelayEventModel> {
    groups.map_values(|g: Group| merged(g.trigger, g.events))
}

proof fn lemma_booked(groups: Seq<Group>, e: RelayEventModel)
    requires
        are_apart(groups),
    ensures
        are_apart(booked(groups, e)),
        triggers_of(booked(groups, e)) == (if triggers_of(groups).contains(e.trigger) {
            triggers_of(groups)
        } else {
            triggers_of(groups).push(e.trigger)
        }),
{
    let names = triggers_of(groups);
    let after = booked(groups, e);
    lemma_slot(names, e.trigger);
    match slot(names, e.trigger) {
        Some(i) => {
            assert(names[i] == e.trigger);
            assert(triggers_of(after) =~= names);
            assert forall|k: int, j: int|
                0 <= k < after.len() && 0 <= j < after[k].events.len() implies (
            #[trigger] after[k].events[j]).trigger == after[k].trigger by {
                if k != i {
                    assert(after[k] == groups[k]);
                } else if j < groups[i].events.len() {
                    assert(groups[i].events[j].trigger == groups[i].trigger);
                }
            }
        },
        None => {
            assert(triggers_of(after) =~= names.push(e.trigger));
            assert forall|k: int, j: int|
                0 <= k < after.len() && 0 <= j < after[k].events.len() implies (
            #[trigger] after[k].events[j]).trigger == after[k].trigger by {
                if k < groups.len() {
                    assert(after[k] == groups[k]);
                }
            }
        },
    }
}

impl Batcher {
    /// Every trigger has one group, which is not empty and holds its events alone.
    pub open spec fn wf(&self) -> bool {
        &&& self.triggers@.len() == self.events@.len()
        &&& texts(self.triggers@).no_duplicates()
        &&& are_apart(self@)
    }

    /// The events of a trigger that were not told yet.
    pub open spec fn pending(&self, trigger: Seq<char>) -> Seq<RelayEventModel> {
        match slot(triggers_of(self@), trigger) {
            Some(i) => self@[i].events,
            None => seq![],
        }
    }

    /// A batcher without events.
    pub fn new() -> (r: Self)
        ensures
            r.wf(),
            r@ == batch_of(seq![]),
    {
        let r: Batcher = Batcher { triggers: Vec::new(), events: Vec::new() };
        assert(r@ =~= seq![]);
        assert(texts(r.triggers@).len() == 0);
        r
    }

    /// Gathers an event: it joins those of its trigger, and nothing else changes.
    pub fn gather(&mut self, event: RelayEvent)
        requires
            old(self).wf(),
        ensures
            final(self).wf(),
            final(self)@ == booked(old(self)@, event@),
            texts(final(self).triggers@) == (if texts(old(self).triggers@).contains(event@.trigger) {
                texts(old(self).triggers@)
            } else {
                texts(old(self).triggers@).push(event@.trigger)
            }),
            final(self).pending(event@.trigger) == old(self).pending(event@.trigger).push(event@),
            forall|t: Seq<char>|
                t != event@.trigger ==> #[trigger] final(self).pending(t) == old(self).pending(t),
    {
        broadcast use {crate::text::lemma_texts_push, lemma_models_push};

        let ghost groups = self@;
        let ghost one = event@;
        proof {
            assert(texts(self.triggers@) =~= triggers_of(groups));
            lemma_slot(triggers_of(groups), one.trigger);
            lemma_booked(groups, one);
        }
        match slot_of(&self.triggers, event.trigger.as_str()) {
            Some(i) => {
                let ghost before = models(self.events@[i as int]@);
                let mut group: Vec<RelayEvent> = Vec::new();
                let mut k: usize = 0;
                while k < self.events[i].len()
                    invariant
                        *self == *old(self),
                        i < self.events@.len(),
                        before == models(self.events@[i as int]@),
                        k <= self.events@[i as int]@.len(),
                        models(group@) == before.take(k as int),
                    decreases self.events@[i as int]@.len() - k,
                {
                    broadcast use lemma_models_push;

                    group.push(self.events[i][k].clone());
                    k += 1;
                    assert(models(group@) =~= before.take(k as int));
                }
                assert(models(group@) =~= before);
                group.push(event);
                self.events.set(i, group);
            },
            None => {
                let trigger: String = event.trigger.clone();
                let mut group: Vec<RelayEvent> = Vec::new();
                group.push(event);
                assert(models(group@) =~= seq![one]);
                self.triggers.push(trigger);
                self.events.push(group);
            },
        }
        proof {
            assert(self@ =~= booked(groups, one));
            assert(texts(self.triggers@) =~= triggers_of(self@));
            lemma_pending(groups, one, one.trigger);
            assert(self.pending(one.trigger) =~= old(self).pending(one.trigger).push(one));
            assert forall|t: Seq<char>| t != one.trigger implies #[trigger] self.pending(t) == old(
                self,
            ).pending(t) by {
                lemma_pending(groups, one, t);
            }
        }
    }

    /// Whether the events of every trigger can be counted.
    pub fn is_countable(&self) -> (r: bool)
        requires
            self.wf(),
        ensures
            r == are_countable(self@),
    {
        let ghost groups = self@;
        let mut i: usize = 0;
        while i < self.events.len()
            invariant
                i <= self.events@.len(),
                groups == self@,
                groups.len() == self.events@.len(),
                forall|j: int| 0 <= j < i ==> total_count((#[trigger] groups[j]).events) <= u32::MAX,
            decreases self.events.len() - i,
        {
            let ghost all = models(self.events@[i as int]@);
            let mut n: u32 = 0;
            let mut k: usize = 0;
            assert(groups[i as int].events == all);
            assert(total_count(all.take(0)) == 0);
            while k < self.events[i].len()
                invariant
                    i < self.events@.len(),
                    groups == self@,
                    groups.len() == self.events@.len(),
                    groups[i as int].events == all,
                    all == models(self.events@[i as int]@),
                    k <= self.events@[i as int]@.len(),
                    n == total_count(all.take(k as int)),
                decreases self.events@[i as int]@.len() - k,
            {
                assert(all.take(k + 1).drop_last() =~= all.take(k as int));
                match n.checked_add(self.events[i][k].count) {
                    Some(m) => {
                        n = m;
                    },
                    None => {
                        proof {
                            lemma_total_count(all, k + 1);
                        }
                        return false;
                    },
                }
                k += 1;
            }
            assert(all.take(k as int) =~= all);
            i += 1;
        }
        true
    }

    /// Hands out the messages to be told, one of each trigger with all its events, and
    /// starts over.
    pub fn flush(&mut self) -> (r: Vec<RelayEvent>)
        requires
            old(self).wf(),
            are_countable(old(self)@),
        ensures
            final(self).wf(),
            final(self)@ == batch_of(seq![]),
            models(r@) == told(old(self)@),
    {
        let ghost groups = self@;
        let ghost all = told(groups);
        let mut r: Vec<RelayEvent> = Vec::new();
        let mut i: usize = 0;
        assert(models(r@) =~= all.take(0));
        while i < self.triggers.len()
            invariant
                *self == *old(self),
                self.wf(),
                groups == self@,
                are_countable(groups),
                i <= self.triggers@.len(),
                all == told(groups),
                models(r@) == all.take(i as int),
            decreases self.triggers.len() - i,
        {
            broadcast use lemma_models_push;

            assert(total_count(groups[i as int].events) <= u32::MAX);
            r.push(merge_batch(self.triggers[i].as_str(), self.events[i].as_slice()));
            assert(models(r@) =~= all.take(i + 1));
            i += 1;
        }
        assert(models(r@) =~= all);
        self.triggers = Vec::new();
        self.events = Vec::new();
        assert(self@ =~= seq![]);
        assert(texts(self.triggers@).len() == 0);
        r
    }
}

proof fn lemma_pending(groups: Seq<Group>, e: RelayEventModel, t: Seq<char>)
    requires
        are_apart(groups),
    ensures
        slot(triggers_of(booked(groups, e)), t) == (match slot(triggers_of(groups), t) {
            Some(i) => Some(i),
            None => if t == e.trigger {
                Some(groups.len() as int)
            } else {
                None
            },
        }),
        slot(triggers_of(groups), t) matches Some(i) ==> 0 <= i < groups.len() && groups[i].trigger
            == t,
{
    let names = triggers_of(groups);
    lemma_slot(names, t);
    lemma_slot(names, e.trigger);
    lemma_booked(groups, e);
    lemma_slot_push(names, e.trigger, t);
    if slot(names, e.trigger) is Some {
        assert(names.contains(e.trigger));
    }
}

/// Some events that have a trigger.
pub open spec fn events_of(events: Seq<RelayEventModel>, trigger: Seq<char>) -> Seq<
    RelayEventModel,
> {
    events.filter(|e: RelayEventModel| e.trigger == trigger)
}

proof fn lemma_events_counted(events: Seq<RelayEventModel>, trigger: Seq<char>)
    ensures
        0 <= total_count(events_of(events, trigger)) <= total_count(events),
    decreases events.len(),
{
    reveal(Seq::filter);
    if events.len() > 0 {
        let head = events.drop_last();
        lemma_events_counted(head, trigger);
        let before = events_of(head, trigger);
        assert(before.push(events.last()).drop_last() =~= before);
    }
}

proof fn lemma_batch(events: Seq<RelayEventModel>)
    ensures
        are_apart(batch_of(events)),
        forall|i: int|
            0 <= i < batch_of(events).len() ==> (#[trigger] batch_of(events)[i]).events == events_of(
                events,
                batch_of(events)[i].trigger,
            ),
        forall|i: int|
            0 <= i < events.len() ==> triggers_of(batch_of(events)).contains(
                (#[trigger] events[i]).trigger,
            ),
    decreases events.len(),
{
    let all = batch_of(events);
    if events.len() > 0 {
        reveal(Seq::filter);
        let head = events.drop_last();
        let e = events.last();
        let groups = batch_of(head);
        let names = triggers_of(groups);
        lemma_batch(head);
        lemma_booked(groups, e);
        lemma_slot(names, e.trigger);
        if names.contains(e.trigger) {
            let j = names.index_of(e.trigger);
            assert(slot(names, e.trigger) is Some);
        }
        assert forall|i: int| 0 <= i < all.len() implies (#[trigger] all[i]).events == events_of(
            events,
            all[i].trigger,
        ) by {
            match slot(names, e.trigger) {
                Some(k) => {
                    assert(names[k] == groups[k].trigger);
                    assert(groups[k].events == events_of(head, e.trigger));
                    if i != k {
                        assert(names[i] == groups[i].trigger);
                        assert(all[i] == groups[i]);
                    }
                },
                None => {
                    if i < groups.len() {
                        assert(names[i] == groups[i].trigger);
                        assert(all[i] == groups[i]);
                    } else {
                        assert forall|m: int| 0 <= m < head.len() implies (
                        #[trigger] head[m]).trigger != e.trigger by {
                            assert(names.contains(head[m].trigger));
                        }
                        lemma_no_events(head, e.trigger);
                        assert(all[i].events =~= seq![e]);
                    }
                },
            }
        }
        assert forall|i: int| 0 <= i < events.len() implies triggers_of(all).contains(
            (#[trigger] events[i]).trigger,
        ) by {
            if i < head.len() {
                assert(names.contains(head[i].trigger));
                let j = names.index_of(head[i].trigger);
                assert(triggers_of(all)[j] == head[i].trigger);
            } else if !names.contains(e.trigger) {
                assert(triggers_of(all)[names.len() as int] == e.trigger);
            }
        }
    }
}

proof fn lemma_no_events(events: Seq<RelayEventModel>, trigger: Seq<char>)
    requires
        forall|i: int| 0 <= i < events.len() ==> (#[trigger] events[i]).trigger != trigger,
    ensures
        events_of(events, trigger) == Seq::<RelayEventModel>::empty(),
{
    broadcast use vstd::seq_lib::group_filter_ensures;

    let own = events_of(events, trigger);
    if own.len() > 0 {
        let p = |e: RelayEventModel| e.trigger == trigger;
        assert(p(own[0]));
        assert(own.contains(own[0]));
        events.lemma_filter_contains_rev(p, own[0]);
        assert(events[events.index_of(own[0])].trigger == trigger);
    }
}

/// However events come, each trigger that occurred is told once, by one message of all its
/// events, and nothing else is told. Where all events together can be counted, so can those
/// of each trigger.
pub proof fn each_trigger_is_told_once(events: Seq<RelayEventModel>)
    ensures
        ({
            let messages = told(batch_of(events));
            &&& forall|i: int, j: int|
                0 <= i < j < messages.len() ==> (#[trigger] messages[i]).trigger != (
                #[trigger] messages[j]).trigger
            &&& forall|i: int|
                0 <= i < messages.len() ==> #[trigger] messages[i] == merged(
                    messages[i].trigger,
                    events_of(events, messages[i].trigger),
                ) && events_of(events, messages[i].trigger).len() > 0
            &&& forall|i: int|
                0 <= i < events.len() ==> exists|j: int|
                    0 <= j < messages.len() && (#[trigger] messages[j]).trigger == (
                    #[trigger] events[i]).trigger
        }),
        total_count(events) <= u32::MAX ==> are_countable(batch_of(events)),
{
    let groups = batch_of(events);
    let names = triggers_of(groups);
    let messages = told(groups);
    lemma_batch(events);
    assert forall|i: int| 0 <= i < groups.len() implies names[i] == (#[trigger] messages[i]).trigger
        && messages[i].trigger == groups[i].trigger && groups[i].events == events_of(
        events,
        messages[i].trigger,
    ) && groups[i].events.len() > 0 by {
        assert(names[i] == groups[i].trigger);
    }
    assert forall|i: int| 0 <= i < events.len() implies exists|j: int|
        0 <= j < messages.len() && (#[trigger] messages[j]).trigger == (
        #[trigger] events[i]).trigger by {
        assert(names.contains(events[i].trigger));
        let j = names.index_of(events[i].trigger);
        assert(messages[j].trigger == events[i].trigger);
    }
    assert forall|i: int| 0 <= i < groups.len() implies total_count((#[trigger] groups[i]).events)
        <= total_count(events) by {
        lemma_events_counted(events, groups[i].trigger);
    }
}

// ---- proposals that grow old ----------------------------------------------

/// Which proposals were told of already.
#[derive(Debug)]
pub struct AgingTracker {
    pub notified: Vec<i64>,
}

impl View for AgingTracker {
    type V = Set<i64>;

    open spec fn view(&self) -> Set<i64> {
        self.notified@.to_set()
    }
}

impl Default for AgingTracker {
    fn default() -> (r: Self)
        ensures
            r@ == Set::<i64>::empty(),
    {
        let r: AgingTracker = AgingTracker { notified: Vec::new() };
        assert(r@ =~= Set::<i64>::empty());
        r
    }
}

/// Whether a proposal is told of: it is old enough, and was not told of before.
pub open spec fn is_due(told: Set<i64>, id: i64, created_at: i64, now: i64, threshold: i64) -> bool {
    now - created_at >= threshold && !told.contains(id)
}

impl AgingTracker {
    /// Whether a proposal is told of. If so, it is not told of again.
    pub fn should_notify(&mut self, id: i64, created_at: i64, now: i64, threshold_secs: i64) -> (r:
        bool)
        ensures
            r == is_due(old(self)@, id, created_at, now, threshold_secs),
            final(self)@ == (if r {
                old(self)@.insert(id)
            } else {
                old(self)@
            }),
    {
        if (now as i128 - created_at as i128) < threshold_secs as i128 {
            return false;
        }
        let mut i: usize = 0;
        while i < self.notified.len()
            invariant
                i <= self.notified@.len(),
                *self == *old(self),
                forall|j: int| 0 <= j < i ==> #[trigger] self.notified@[j] != id,
            decreases self.notified.len() - i,
        {
            if self.notified[i] == id {
                assert(self.notified@.contains(id));
                return false;
            }
            i += 1;
        }
        assert(!self.notified@.contains(id));
        let ghost before = self.notified@;
        self.notified.push(id);
        proof {
            assert forall|x: i64| #[trigger] self@.contains(x) <==> before.to_set().insert(
                id,
            ).contains(x) by {
                if before.contains(x) {
                    let k = choose|k: int| 0 <= k < before.len() && before[k] == x;
                    assert(self.notified@[k] == x);
                }
                assert(self.notified@[before.len() as int] == id);
                if self.notified@.contains(x) {
                    let k = choose|k: int|
                        0 <= k < self.notified@.len() && self.notified@[k] == x;
                    if k < before.len() {
                        assert(before[k] == x);
                    }
                }
            }
            assert(self@ =~= before.to_set().insert(id));
        }
        true
    }
}

/// A proposal that was told of is not told of again, whenever it is asked for.
pub proof fn aging_is_told_once(told: Set<i64>, id: i64, created: i64, now: i64, later: i64, t: i64)
    requires
        is_due(told, id, created, now, t),
    ensures
        !is_due(told.insert(id), id, created, later, t),
{
}

// ---- stores that fall back ------------------------------------------------

/// The number of fallbacks that was last seen of each store.
#[derive(Debug)]
pub struct FallbackTracker {
    pub names: Vec<String>,
    pub counts: Vec<u64>,
}

impl Default for FallbackTracker {
    fn default() -> (r: Self)
        ensures
            r.wf(),
            forall|n: Seq<char>| #[trigger] r.last_seen(n) is None,
    {
        let r: FallbackTracker = FallbackTracker { names: Vec::new(), counts: Vec::new() };
        assert forall|n: Seq<char>| #[trigger] r.last_seen(n) is None by {
            assert(texts(r.names@).len() == 0);
        }
        r
    }
}

impl FallbackTracker {
    /// Every name has a count.
    pub open spec fn wf(&self) -> bool {
        self.names@.len() == self.counts@.len()
    }

    /// The number of fallbacks that was last seen of a store.
    pub open spec fn last_seen(&self, name: Seq<char>) -> Option<u64> {
        match slot(texts(self.names@), name) {
            Some(i) => Some(self.counts@[i]),
            None => None,
        }
    }

    /// By how much the fallbacks of a store grew since they were last seen; `None` where
    /// they did not grow, or were never seen before.
    pub fn delta(&mut self, store_name: &str, current: u64) -> (r: Option<u64>)
        requires
            old(self).wf(),
        ensures
            final(self).wf(),
            r == (match old(self).last_seen(store_name@) {
                Some(p) => if current > p {
                    Some((current - p) as u64)
                } else {
                    None
                },
                None => None,
            }),
            final(self).last_seen(store_name@) == Some(current),
            forall|n: Seq<char>|
                n != store_name@ ==> #[trigger] final(self).last_seen(n) == old(self).last_seen(n),
    {
        broadcast use crate::text::lemma_texts_push;

        let ghost names = texts(self.names@);
        match slot_of(&self.names, store_name) {
            Some(i) => {
                let before: u64 = self.counts[i];
                self.counts.set(i, current);
                proof {
                    lemma_slot(names, store_name@);
                    assert forall|n: Seq<char>| n != store_name@ implies #[trigger] self.last_seen(n)
                        == old(self).last_seen(n) by {
                        lemma_slot(names, n);
                    }
                }
                if current > before {
                    Some(current - before)
                } else {
                    None
                }
            },
            None => {
                self.names.push(store_name.to_owned());
                self.counts.push(current);
                proof {
                    lemma_slot_push(names, store_name@, store_name@);
                    assert forall|n: Seq<char>| n != store_name@ implies #[trigger] self.last_seen(n)
                        == old(self).last_seen(n) by {
                        lemma_slot_push(names, store_name@, n);
                        lemma_slot(names, n);
                    }
                }
                None
            },
        }
    }
}

// ---- denials --------------------------------------------------------------

/// The denials of late, by domain, and when a spike was last told.
#[derive(Debug)]
pub struct DenialTracker {
    pub threshold: u32,
    pub names: Vec<String>,
    pub times: Vec<Vec<i64>>,
    pub fired: Vec<Option<i64>>,
}

/// The denials of a list that still count.
pub open spec fn in_window(times: Seq<i64>, now: i64) -> Seq<i64> {
    times.filter(|t: i64| now - t <= DENIAL_WINDOW_SECS)
}

/// Whether denials are a spike that is told: they are many, and none was told of late.
pub open spec fn is_spike(times: Seq<i64>, fired: Option<i64>, now: i64, threshold: u32) -> bool {
    &&& times.len() >= threshold
    &&& now - (match fired {
        Some(t) => t as int,
        None => -4611686018427387904int,
    }) >= DENIAL_COOLDOWN_SECS
}

fn keep_recent(times: &Vec<i64>, now: i64) -> (r: Vec<i64>)
    ensures
        r@ == in_window(times@, now),
{
    let ghost p = |t: i64| now - t <= DENIAL_WINDOW_SECS;
    let mut r: Vec<i64> = Vec::new();
    let mut i: usize = 0;
    proof {
        reveal(Seq::filter);
    }
    assert(r@ =~= times@.take(0).filter(p));
    while i < times.len()
        invariant
            i <= times@.len(),
            p == (|t: i64| now - t <= DENIAL_WINDOW_SECS),
            r@ == times@.take(i as int).filter(p),
        decreases times.len() - i,
    {
        proof {
            reveal(Seq::filter);
        }
        assert(times@.take(i + 1).drop_last() =~= times@.take(i as int));
        if now as i128 - times[i] as i128 <= DENIAL_WINDOW_SECS as i128 {
            r.push(times[i]);
        }
        i += 1;
    }
    assert(times@.take(i as int) =~= times@);
    r
}

impl DenialTracker {
    /// Every name has its denials and its last spike.
    pub open spec fn wf(&self) -> bool {
        self.names@.len() == self.times@.len() == self.fired@.len()
    }

    /// The denials of a domain that counted when the last one came.
    pub open spec fn recent(&self, domain: Seq<char>) -> Seq<i64> {
        match slot(texts(self.names@), domain) {
            Some(i) => self.times@[i]@,
            None => seq![],
        }
    }

    /// When a spike of a domain was last told.
    pub open spec fn last_fired(&self, domain: Seq<char>) -> Option<i64> {
        match slot(texts(self.names@), domain) {
            Some(i) => self.fired@[i],
            None => None,
        }
    }

    /// A tracker that tells a spike from `threshold` denials on.
    pub fn new(threshold: u32) -> (r: Self)
        ensures
            r.wf(),
            r.threshold == threshold,
            forall|d: Seq<char>| #[trigger] r.recent(d) == Seq::<i64>::empty(),
            forall|d: Seq<char>| #[trigger] r.last_fired(d) is None,
    {
        let r: DenialTracker = DenialTracker {
            threshold,
            names: Vec::new(),
            times: Vec::new(),
            fired: Vec::new(),
        };
        assert(texts(r.names@).len() == 0);
        r
    }

    /// Notes a denial, and says whether it makes a spike that is told.
    pub fn record(&mut self, domain: &str, now: i64) -> (r: bool)
        requires
            old(self).wf(),
        ensures
            final(self).wf(),
            final(self).threshold == old(self).threshold,
            final(self).recent(domain@) == in_window(old(self).recent(domain@).push(now), now),
            r == is_spike(
                final(self).recent(domain@),
                old(self).last_fired(domain@),
                now,
                old(self).threshold,
            ),
            final(self).last_fired(domain@) == (if r {
                Some(now)
            } else {
                old(self).last_fired(domain@)
            }),
            forall|d: Seq<char>|
                d != domain@ ==> #[trigger] final(self).recent(d) == old(self).recent(d),
            forall|d: Seq<char>|
                d != domain@ ==> #[trigger] final(self).last_fired(d) == old(self).last_fired(d),
    {
        broadcast use crate::text::lemma_texts_push;

        let ghost names = texts(self.names@);
        let i: usize = match slot_of(&self.names, domain) {
            Some(i) => i,
            None => {
                self.names.push(domain.to_owned());
                self.times.push(Vec::new());
                self.fired.push(None);
                proof {
                    lemma_slot_push(names, domain@, domain@);
                }
                self.names.len() - 1
            },
        };
        let ghost mid = *self;
        let ghost all = texts(self.names@);
        proof {
            lemma_slot(all, domain@);
            assert(slot(all, domain@) == Some(i as int));
            assert forall|d: Seq<char>| d != domain@ implies #[trigger] mid.recent(d) == old(
                self,
            ).recent(d) && mid.last_fired(d) == old(self).last_fired(d) by {
                lemma_slot(names, d);
                if all.len() != names.len() {
                    lemma_slot_push(names, domain@, d);
                }
            }
            assert(mid.recent(domain@) =~= old(self).recent(domain@));
            assert(mid.last_fired(domain@) == old(self).last_fired(domain@));
        }
        let mut times: Vec<i64> = Vec::new();
        let mut k: usize = 0;
        while k < self.times[i].len()
            invariant
                *self == mid,
                i < self.times@.len(),
                k <= self.times@[i as int]@.len(),
                times@ == self.times@[i as int]@.take(k as int),
            decreases self.times@[i as int]@.len() - k,
        {
            times.push(self.times[i][k]);
            k += 1;
            assert(times@ =~= self.times@[i as int]@.take(k as int));
        }
        assert(times@ =~= mid.recent(domain@));
        times.push(now);
        let kept: Vec<i64> = keep_recent(&times, now);
        let many: bool = kept.len() as u64 >= self.threshold as u64;
        let last: i64 = match self.fired[i] {
            Some(t) => t,
            None => -4611686018427387904,
        };
        let spike: bool = many && now as i128 - last as i128 >= DENIAL_COOLDOWN_SECS as i128;
        self.times.set(i, kept);
        if spike {
            self.fired.set(i, Some(now));
        }
        proof {
            assert forall|d: Seq<char>| d != domain@ implies #[trigger] self.recent(d) == old(
                self,
            ).recent(d) && self.last_fired(d) == old(self).last_fired(d) by {
                lemma_slot(all, d);
                assert(mid.recent(d) == old(self).recent(d));
            }
            assert forall|d: Seq<char>| d != domain@ implies #[trigger] self.last_fired(d) == old(
                self,
            ).last_fired(d) by {
                assert(self.recent(d) == old(self).recent(d));
            }
        }
        spike
    }
}

/// The event that tells a spike of denials.
pub open spec fn spike_event(domain: Seq<char>, now: i64) -> RelayEventModel {
    RelayEventModel {
        trigger: "domain_denial_spike"@,
        summary: "Denial spike in domain '"@ + domain + "'"@,
        detail: "Repeated access denials for domain '"@ + domain + "' within "@ + decimal(
            DENIAL_WINDOW_SECS as int,
        ) + "s"@,
        count: 1,
        ts: now,
    }
}

/// The event that tells a spike of denials.
pub fn denial_spike(domain: &str, now: i64) -> (r: RelayEvent)
    ensures
        r@ == spike_event(domain@, now),
{
    let mut summary: String = "Denial spike in domain '".to_owned();
    summary.append(domain);
    summary.append("'");
    let mut detail: String = "Repeated access denials for domain '".to_owned();
    detail.append(domain);
    detail.append("' within ");
    detail.append(number(DENIAL_WINDOW_SECS as i128).as_str());
    detail.append("s");
    RelayEvent { trigger: "domain_denial_spike".to_owned(), summary, detail, count: 1, ts: now }
}

/// What noting a denial comes to: where nothing is told, nothing changes; else the denial
/// counts for its domain alone, and a spike is told.
pub open spec fn denial_noted(
    before: NotifyState,
    after: NotifyState,
    domain: Seq<char>,
    now: i64,
    event: Option<RelayEventModel>,
) -> bool {
    let recent = in_window(before.denials.recent(domain).push(now), now);
    let told = is_spike(recent, before.denials.last_fired(domain), now, before.denials.threshold);
    if !before.enabled {
        after == before && event is None
    } else {
        &&& after.enabled
        &&& after.proposed_age_threshold_secs == before.proposed_age_threshold_secs
        &&& after.denials.threshold == before.denials.threshold
        &&& after.denials.recent(domain) == recent
        &&& after.denials.last_fired(domain) == (if told {
            Some(now)
        } else {
            before.denials.last_fired(domain)
        })
        &&& event == (if told {
            Some(spike_event(domain, now))
        } else {
            None
        })
        &&& forall|d: Seq<char>|
            d != domain ==> #[trigger] after.denials.recent(d) == before.denials.recent(d)
        &&& forall|d: Seq<char>|
            d != domain ==> #[trigger] after.denials.last_fired(d) == before.denials.last_fired(d)
    }
}

/// Notifications as they are set up: where nothing is told, nothing is tracked.
#[derive(Debug)]
pub struct NotifyState {
    pub enabled: bool,
    pub proposed_age_threshold_secs: i64,
    pub denials: DenialTracker,
}

impl NotifyState {
    /// Nothing is told.
    pub fn disabled() -> (r: Self)
        ensures
            !r.enabled,
            r.proposed_age_threshold_secs == DEFAULT_PROPOSED_AGE_THRESHOLD_SECS,
            r.denials.wf(),
            r.denials.threshold == DEFAULT_DENIAL_SPIKE_THRESHOLD,
            forall|d: Seq<char>| #[trigger] r.denials.recent(d) == Seq::<i64>::empty(),
            forall|d: Seq<char>| #[trigger] r.denials.last_fired(d) is None,
    {
        NotifyState {
            enabled: false,
            proposed_age_threshold_secs: DEFAULT_PROPOSED_AGE_THRESHOLD_SECS,
            denials: DenialTracker::new(DEFAULT_DENIAL_SPIKE_THRESHOLD),
        }
    }

    /// Events are told as the settings say.
    pub fn from_config(config: &NotifyConfig) -> (r: Self)
        ensures
            r.enabled,
            r.proposed_age_threshold_secs == config@.proposed_age_threshold_secs,
            r.denials.wf(),
            r.denials.threshold == config@.denial_spike_threshold,
            forall|d: Seq<char>| #[trigger] r.denials.recent(d) == Seq::<i64>::empty(),
            forall|d: Seq<char>| #[trigger] r.denials.last_fired(d) is None,
    {
        NotifyState {
            enabled: true,
            proposed_age_threshold_secs: config.proposed_age_threshold_secs,
            denials: DenialTracker::new(config.denial_spike_threshold),
        }
    }

    /// Notes that a domain was denied. Gives the event that is to be told, if one is.
    pub fn record_denial(&mut self, domain: &str, now: i64) -> (r: Option<RelayEvent>)
        requires
            old(self).denials.wf(),
        ensures
            final(self).denials.wf(),
            denial_noted(
                *old(self),
                *final(self),
                domain@,
                now,
                match r {
                    Some(e) => Some(e@),
                    None => None,
                },
            ),
    {
        if !self.enabled {
            return None;
        }
        if self.denials.record(domain, now) {
            Some(denial_spike(domain, now))
        } else {
            None
        }
    }
}

/// A spike that was told is not told again while it cools down, however many denials
/// follow.
pub proof fn spikes_cool_down(times: Seq<i64>, told: i64, now: i64, threshold: u32)
    requires
        now - told < DENIAL_COOLDOWN_SECS,
    ensures
        !is_spike(times, Some(told), now, threshold),
{
}

/// A denial that lies back further than the window does not count.
pub proof fn old_denials_do_not_count(times: Seq<i64>, t: i64, now: i64)
    requires
        now - t > DENIAL_WINDOW_SECS,
    ensures
        !in_window(times, now).contains(t),
{
    let p = |t: i64| now - t <= DENIAL_WINDOW_SECS;
    if in_window(times, now).contains(t) {
        broadcast use vstd::seq_lib::group_filter_ensures;

        let i = choose|i: int| 0 <= i < times.filter(p).len() && times.filter(p)[i] == t;
        assert(p(times.filter(p)[i]));
    }
}

} // verus!
