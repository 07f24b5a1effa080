//! What the tools do: each checks what it is asked for, works on the stores, notes the
//! step in the episodes, and answers.
use vstd::prelude::*;

use crate::notify::{RelayEvent, RelayEventModel};
use crate::store::episodes::{logged, next_step, StepNote};
use crate::store::{Store, StoreModel};
use crate::text::{number, opt_str};

pub mod admin;
pub mod codebase;
pub mod knowledge;
pub mod media;
pub mod session;
pub mod training;

verus! {

/// What a tool answers: a text, or why it refuses.
pub type Answer = Result<Seq<char>, Seq<char>>;

/// An answer, as mathematical values.
pub open spec fn answer(r: Result<String, String>) -> Answer {
    match r {
        Ok(t) => Ok(t@),
        Err(e) => Err(e@),
    }
}

/// An event that is to be told, as mathematical values.
pub open spec fn event(e: Option<RelayEvent>) -> Option<RelayEventModel> {
    match e {
        Some(x) => Some(x@),
        None => None,
    }
}

/// What is answered where a store has no number left for a new row.
pub open spec fn full() -> Seq<char> {
    "no row number is left"@
}

pub(crate) fn full_text() -> (r: String)
    ensures
        r@ == full(),
{
    "no row number is left".to_owned()
}

/// What a caller reports of the model that asks.
#[derive(Debug)]
pub struct Usage {
    pub model: Option<String>,
    pub tokens_used: Option<i64>,
    pub cost: Option<u64>,
}

/// The note of a step of which nothing is reported.
pub open spec fn note(
    run_id: Seq<char>,
    stage: Seq<char>,
    action: Seq<char>,
    observation: Seq<char>,
    outcome: Seq<char>,
    domain: Option<Seq<char>>,
) -> StepNote {
    StepNote {
        run_id,
        stage: Some(stage),
        action: Some(action),
        observation: Some(observation),
        outcome: Some(outcome),
        domain,
        model: None,
        tokens_used: None,
        cost: None,
    }
}

/// A note with what the caller reports.
pub open spec fn reported(n: StepNote, u: Usage) -> StepNote {
    StepNote {
        model: crate::text::opt(u.model),
        tokens_used: u.tokens_used,
        cost: u.cost,
        ..n
    }
}

/// The store after a step was noted as the next one of its run.
pub open spec fn stepped(s: StoreModel, n: StepNote, now: i64) -> StoreModel {
    logged(s, n, next_step(s, n.run_id), now)
}

/// Notes a step as the next one of its run.
pub(crate) fn log(
    store: &mut Store,
    run_id: &str,
    stage: &str,
    action: &str,
    observation: &str,
    outcome: &str,
    domain: Option<&str>,
    now: i64,
)
    ensures
        final(store)@ == stepped(
            old(store)@,
            note(run_id@, stage@, action@, observation@, outcome@, opt_str(domain)),
            now,
        ),
{
    let _id: Option<i64> = store.log_episode_auto(
        run_id,
        Some(stage),
        Some(action),
        Some(observation),
        Some(outcome),
        domain,
        None,
        None,
        None,
        now,
    );
}

/// Notes a step as the next one of its run, with what the caller reports. Gives the
/// number of the episode, where there is one left.
pub(crate) fn log_usage(
    store: &mut Store,
    run_id: &str,
    stage: &str,
    action: &str,
    observation: &str,
    outcome: &str,
    domain: Option<&str>,
    usage: &Usage,
    now: i64,
) -> (r: Option<i64>)
    ensures
        match r {
            Some(id) => id == crate::store::episodes::next_episode_id(old(store)@),
            None => crate::store::episodes::next_episode_id(old(store)@) > i64::MAX,
        },
        final(store)@ == stepped(
            old(store)@,
            reported(
                note(run_id@, stage@, action@, observation@, outcome@, opt_str(domain)),
                *usage,
            ),
            now,
        ),
{
    let model: Option<&str> = match &usage.model {
        Some(m) => Some(m.as_str()),
        None => None,
    };
    store.log_episode_auto(
        run_id,
        Some(stage),
        Some(action),
        Some(observation),
        Some(outcome),
        domain,
        model,
        usage.tokens_used,
        usage.cost,
        now,
    )
}

/// A truth value in words.
pub open spec fn shown_bool(b: bool) -> Seq<char> {
    if b {
        "true"@
    } else {
        "false"@
    }
}

pub(crate) fn bool_text(b: bool) -> (r: &'static str)
    ensures
        r@ == shown_bool(b),
{
    if b {
        "true"
    } else {
        "false"
    }
}

} // verus!
