//! Episodic memory: the steps of agentic runs, and the sweep that ends the retention of
//! knowledge.
use vstd::prelude::*;

use crate::store::{Store, StoreModel, fresh_id, next_id};
use crate::table::{any, list, listed, map_at, rewrite, select, some_match, top};
use crate::table::lemma_positions;
use crate::text::{contains, has, is_text, lower, lowered, opt_str, own, same};
use crate::types::{copy_ids, lemma_models_push, models};
use crate::types::{EpisodeRow, EpisodeRowModel};

verus! {

// ---- logging --------------------------------------------------------------

/// What is logged of a step.
pub struct StepNote {
    pub run_id: Seq<char>,
    pub stage: Option<Seq<char>>,
    pub action: Option<Seq<char>>,
    pub observation: Option<Seq<char>>,
    pub outcome: Option<Seq<char>>,
    pub domain: Option<Seq<char>>,
    pub model: Option<Seq<char>>,
    pub tokens_used: Option<i64>,
    pub cost: Option<u64>,
}

/// The number that the next episode gets.
pub open spec fn next_episode_id(s: StoreModel) -> int {
    fresh_id(s.episodes, |e: EpisodeRowModel| e.id)
}

/// The step that follows those of a run: one more than the largest, and one where there
/// is none, or none larger.
pub open spec fn next_step(s: StoreModel, run_id: Seq<char>) -> i64 {
    let n = fresh_id(
        s.episodes.filter(|e: EpisodeRowModel| e.run_id == run_id),
        |e: EpisodeRowModel| e.step,
    );
    if n > i64::MAX {
        1
    } else {
        n as i64
    }
}

/// The episode that a note is stored as.
pub open spec fn episode_of(s: StoreModel, note: StepNote, step: i64, now: i64) -> EpisodeRowModel {
    EpisodeRowModel {
        id: next_episode_id(s) as i64,
        run_id: note.run_id,
        step,
        stage: note.stage,
        action: note.action,
        observation: note.observation,
        outcome: note.outcome,
        ts: now,
        knowledge_ids_used: seq![],
        domain: note.domain,
        model: note.model,
        tokens_used: note.tokens_used,
        cost: note.cost,
    }
}

/// The store after a step was logged; it is unchanged where no number is left.
pub open spec fn logged(s: StoreModel, note: StepNote, step: i64, now: i64) -> StoreModel {
    if next_episode_id(s) > i64::MAX {
        s
    } else {
        StoreModel { episodes: s.episodes.push(episode_of(s, note, step, now)), ..s }
    }
}

impl Store {
    fn push_episode(&mut self, row: EpisodeRow)
        ensures
            final(self)@ == (StoreModel {
                episodes: old(self)@.episodes.push(row@),
                ..old(self)@
            }),
    {
        broadcast use lemma_models_push;

        let ghost model = row@;
        self.episodes.push(row);
        assert(self@ =~= (StoreModel { episodes: old(self)@.episodes.push(model), ..old(self)@ }));
    }

    fn episode_number(&self) -> (r: Option<i64>)
        ensures
            match r {
                Some(n) => n == next_episode_id(self@),
                None => next_episode_id(self@) > i64::MAX,
            },
    {
        let number_of = |e: &EpisodeRow| -> (n: i64)
            ensures
                n == e@.id,
            { e.id };
        next_id(&self.episodes, number_of, Ghost(|e: EpisodeRowModel| e.id))
    }

    /// Logs a step under a number of the caller's. Gives the number of the episode;
    /// `None`, and nothing logged, where none is left.
    pub fn log_episode(
        &mut self,
        run_id: &str,
        step: i64,
        stage: Option<&str>,
        action: Option<&str>,
        observation: Option<&str>,
        outcome: Option<&str>,
        now: i64,
    ) -> (r: Option<i64>)
        ensures
            match r {
                Some(id) => id == next_episode_id(old(self)@),
                None => next_episode_id(old(self)@) > i64::MAX,
            },
            final(self)@ == logged(
                old(self)@,
                (StepNote {
                    run_id: run_id@,
                    stage: opt_str(stage),
                    action: opt_str(action),
                    observation: opt_str(observation),
                    outcome: opt_str(outcome),
                    domain: None,
                    model: None,
                    tokens_used: None,
                    cost: None,
                }),
                step,
                now,
            ),
    {
        let id: i64 = match self.episode_number() {
            Some(n) => n,
            None => {
                return None;
            },
        };
        let row: EpisodeRow = EpisodeRow {
            id,
            run_id: run_id.to_owned(),
            step,
            stage: own(stage),
            action: own(action),
            observation: own(observation),
            outcome: own(outcome),
            ts: now,
            knowledge_ids_used: Vec::new(),
            domain: None,
            model: None,
            tokens_used: None,
            cost: None,
        };
        assert(row@.knowledge_ids_used =~= seq![]);
        self.push_episode(row);
        Some(id)
    }

    /// The step that follows those of a run.
    fn step_after(&self, run_id: &str) -> (r: i64)
        ensures
            r == next_step(self@, run_id@),
    {
        let ghost p = |e: EpisodeRowModel| e.run_id == run_id@;
        let is = |e: &EpisodeRow| -> (b: bool)
            ensures
                b == (e@.run_id == run_id@),
            { same(e.run_id.as_str(), run_id) };
        let at: Vec<usize> = select(&self.episodes, is, Ghost(p));
        proof {
            lemma_positions(self@.episodes, p);
        }
        let f = |e: &EpisodeRow| -> (q: EpisodeRow)
            ensures
                q@ == e@,
            { e.clone() };
        let rows: Vec<EpisodeRow> = map_at(&self.episodes, &at, f, Ghost(|e: EpisodeRowModel| e));
        assert(models(rows@) =~= self@.episodes.filter(p));
        let number_of = |e: &EpisodeRow| -> (n: i64)
            ensures
                n == e@.step,
            { e.step };
        match next_id(&rows, number_of, Ghost(|e: EpisodeRowModel| e.step)) {
            Some(n) => n,
            None => 1,
        }
    }

    /// Logs a step as the next one of its run. `domain` is the one domain that the step
    /// acted on, where there is one; `model`, `tokens_used` and `cost` are what the
    /// caller reports of it. Gives the number of the episode; `None`, and nothing
    /// logged, where none is left.
    pub fn log_episode_auto(
        &mut self,
        run_id: &str,
        stage: Option<&str>,
        action: Option<&str>,
        observation: Option<&str>,
        outcome: Option<&str>,
        domain: Option<&str>,
        model: Option<&str>,
        tokens_used: Option<i64>,
        cost: Option<u64>,
        now: i64,
    ) -> (r: Option<i64>)
        ensures
            match r {
                Some(id) => id == next_episode_id(old(self)@),
                None => next_episode_id(old(self)@) > i64::MAX,
            },
            final(self)@ == logged(
                old(self)@,
                (StepNote {
                    run_id: run_id@,
                    stage: opt_str(stage),
                    action: opt_str(action),
                    observation: opt_str(observation),
                    outcome: opt_str(outcome),
                    domain: opt_str(domain),
                    model: opt_str(model),
                    tokens_used,
                    cost,
                }),
                next_step(old(self)@, run_id@),
                now,
            ),
    {
        let id: i64 = match self.episode_number() {
            Some(n) => n,
            None => {
                return None;
            },
        };
        let step: i64 = self.step_after(run_id);
        let row: EpisodeRow = EpisodeRow {
            id,
            run_id: run_id.to_owned(),
            step,
            stage: own(stage),
            action: own(action),
            observation: own(observation),
            outcome: own(outcome),
            ts: now,
            knowledge_ids_used: Vec::new(),
            domain: own(domain),
            model: own(model),
            tokens_used,
            cost,
        };
        assert(row@.knowledge_ids_used =~= seq![]);
        self.push_episode(row);
        Some(id)
    }

    /// Notes which knowledge items an episode used.
    pub fn set_episode_knowledge_ids(&mut self, id: i64, ids: &Vec<i64>)
        ensures
            final(self)@ == (StoreModel {
                episodes: old(self)@.episodes.map_values(
                    |e: EpisodeRowModel|
                        if e.id == id {
                            EpisodeRowModel { knowledge_ids_used: ids@, ..e }
                        } else {
                            e
                        },
                ),
                ..old(self)@
            }),
    {
        let set = |e: EpisodeRow| -> (q: EpisodeRow)
            ensures
                q@ == (if e@.id == id {
                    EpisodeRowModel { knowledge_ids_used: ids@, ..e@ }
                } else {
                    e@
                }),
            {
                let mut q: EpisodeRow = e;
                if q.id == id {
                    q.knowledge_ids_used = copy_ids(ids);
                }
                q
            };
        let ghost g = |e: EpisodeRowModel|
            if e.id == id {
                EpisodeRowModel { knowledge_ids_used: ids@, ..e }
            } else {
                e
            };
        rewrite(&mut self.episodes, set, Ghost(g));
        assert(self@ =~= (StoreModel {
            episodes: old(self)@.episodes.map_values(g),
            ..old(self)@
        }));
    }

    /// Removes every episode, and says how many they were.
    pub fn clear_all_episodes(&mut self) -> (n: usize)
        ensures
            final(self)@ == (StoreModel { episodes: seq![], ..old(self)@ }),
            n == old(self)@.episodes.len(),
    {
        let n: usize = self.episodes.len();
        self.episodes = Vec::new();
        assert(self@ =~= (StoreModel { episodes: seq![], ..old(self)@ }));
        n
    }
}

// ---- reading --------------------------------------------------------------

/// Whether an episode is a recall of a domain in a run.
pub open spec fn is_recall(e: EpisodeRowModel, run_id: Seq<char>, domain: Seq<char>) -> bool {
    e.run_id == run_id && e.domain == Some(domain) && e.stage == Some("recall"@)
}

/// Whether a run has recalled a domain.
pub open spec fn recalled(s: StoreModel, run_id: Seq<char>, domain: Seq<char>) -> bool {
    some_match(s.episodes, |e: EpisodeRowModel| is_recall(e, run_id, domain))
}

/// Whether an episode has a stage, and an action in which `needle` occurs, ASCII capitals
/// aside.
pub open spec fn tells_of(e: EpisodeRowModel, stage: Seq<char>, needle: Seq<char>) -> bool {
    e.stage == Some(stage) && (e.action matches Some(a) && has(lower(a), lower(needle)))
}

/// Whether `t` is the latest time of an episode that has a stage and tells of `needle`;
/// `None` where there is no such episode.
pub open spec fn is_last_told(
    s: StoreModel,
    stage: Seq<char>,
    needle: Seq<char>,
    t: Option<i64>,
) -> bool {
    match t {
        Some(t) => {
            &&& exists|i: int|
                0 <= i < s.episodes.len() && tells_of(#[trigger] s.episodes[i], stage, needle)
                    && s.episodes[i].ts == t
            &&& forall|i: int|
                0 <= i < s.episodes.len() && tells_of(#[trigger] s.episodes[i], stage, needle)
                    ==> s.episodes[i].ts <= t
        },
        None => forall|i: int|
            0 <= i < s.episodes.len() ==> !tells_of(#[trigger] s.episodes[i], stage, needle),
    }
}

/// The episodes, newest first, two hundred at most; of one run only, where one is given.
pub open spec fn episode_list(s: StoreModel, run_id: Option<Seq<char>>) -> Seq<EpisodeRowModel> {
    top(
        listed(
            s.episodes,
            |e: EpisodeRowModel| is_of_run(e, run_id),
            |e: EpisodeRowModel| (e.ts, e.step),
        ),
        200,
    )
}

/// Whether an episode belongs to the run that is asked for.
pub open spec fn is_of_run(e: EpisodeRowModel, run_id: Option<Seq<char>>) -> bool {
    match run_id {
        Some(r) => e.run_id == r,
        None => true,
    }
}

impl Store {
    /// Whether a run has recalled a domain: what `execute_change` asks before it lets a
    /// change to an enforced domain pass.
    pub fn has_prior_recall(&self, run_id: &str, domain: &str) -> (r: bool)
        ensures
            r == recalled(self@, run_id@, domain@),
    {
        let is = |e: &EpisodeRow| -> (b: bool)
            ensures
                b == is_recall(e@, run_id@, domain@),
            {
                same(e.run_id.as_str(), run_id) && is_text(&e.domain, domain) && is_text(
                    &e.stage,
                    "recall",
                )
            };
        any(&self.episodes, is, Ghost(|e: EpisodeRowModel| is_recall(e, run_id@, domain@)))
    }

    /// The latest time of an episode of a stage whose action tells of `needle`.
    pub fn last_episode_ts_for(&self, stage: &str, needle: &str) -> (r: Option<i64>)
        ensures
            is_last_told(self@, stage@, needle@, r),
    {
        let small: String = lowered(needle);
        let mut best: Option<i64> = None;
        let mut i: usize = 0;
        while i < self.episodes.len()
            invariant
                i <= self.episodes@.len(),
                small@ == lower(needle@),
                match best {
                    Some(t) => {
                        &&& exists|j: int|
                            0 <= j < i && tells_of(
                                #[trigger] self@.episodes[j],
                                stage@,
                                needle@,
                            ) && self@.episodes[j].ts == t
                        &&& forall|j: int|
                            0 <= j < i && tells_of(
                                #[trigger] self@.episodes[j],
                                stage@,
                                needle@,
                            ) ==> self@.episodes[j].ts <= t
                    },
                    None => forall|j: int|
                        0 <= j < i ==> !tells_of(#[trigger] self@.episodes[j], stage@, needle@),
                },
            decreases self.episodes.len() - i,
        {
            let e: &EpisodeRow = &self.episodes[i];
            assert(e@ == self@.episodes[i as int]);
            let told: bool = is_text(&e.stage, stage) && (match &e.action {
                Some(a) => contains(lowered(a.as_str()).as_str(), small.as_str()),
                None => false,
            });
            assert(told == tells_of(self@.episodes[i as int], stage@, needle@));
            if told {
                let later: bool = match best {
                    Some(t) => e.ts > t,
                    None => true,
                };
                if later {
                    best = Some(e.ts);
                }
            }
            i += 1;
        }
        best
    }

    /// The episodes, newest first, two hundred at most; of one run only, where one is
    /// given.
    pub fn list_episodes(&self, run_id: Option<&str>) -> (r: Vec<EpisodeRow>)
        ensures
            models(r@) == episode_list(self@, opt_str(run_id)),
    {
        let is = |e: &EpisodeRow| -> (b: bool)
            ensures
                b == is_of_run(e@, opt_str(run_id)),
            {
                match run_id {
                    Some(r) => same(e.run_id.as_str(), r),
                    None => true,
                }
            };
        let when = |e: &EpisodeRow| -> (k: (i64, i64))
            ensures
                k == (e@.ts, e@.step),
            { (e.ts, e.step) };
        let at: Vec<usize> = list(
            &self.episodes,
            is,
            when,
            200,
            Ghost(|e: EpisodeRowModel| is_of_run(e, opt_str(run_id))),
            Ghost(|e: EpisodeRowModel| (e.ts, e.step)),
        );
        let f = |e: &EpisodeRow| -> (q: EpisodeRow)
            ensures
                q@ == e@,
            { e.clone() };
        let out: Vec<EpisodeRow> = map_at(&self.episodes, &at, f, Ghost(|e: EpisodeRowModel| e));
        assert(models(out@) =~= episode_list(self@, opt_str(run_id)));
        out
    }
}

} // verus!
