//! How the datasets that are kept on disk are kept fresh.
//!
//! A dataset is read from its file while the file is younger than a day.
//! Otherwise it is fetched, stored and then served. Reading, fetching and
//! storing are done elsewhere; what to do next is decided here, step by step:
//! each step takes the state and what has just happened, and gives the next
//! state and what is to be done. No step serves a dataset after a failure.

use vstd::prelude::*;
use crate::error::{ErrorView, MeowdictError};

verus! {

/// How long a dataset on disk stays valid, in seconds: 24 hours.
pub const CACHE_LIFETIME_SECS: u64 = 86400;

/// Whether a dataset has to be fetched again before it is used.
///
/// `age_secs` is `None` when the backing file does not exist, and otherwise
/// the number of whole seconds since the file was last modified.
pub open spec fn stale(age_secs: Option<u64>) -> bool {
    match age_secs {
        None => true,
        Some(age) => age >= CACHE_LIFETIME_SECS,
    }
}

/// Decides whether a dataset must be refreshed from its remote source.
pub fn needs_refresh(age_secs: Option<u64>) -> (r: bool)
    ensures
        r == stale(age_secs),
{
    match age_secs {
        None => true,
        Some(age) => age >= CACHE_LIFETIME_SECS,
    }
}

/// Where the loading of a dataset stands.
#[derive(Clone, Copy, Debug, PartialEq, Eq)]
pub enum CacheState {
    /// Nothing is known of the file yet.
    Checking,
    /// The dataset is being fetched from its source.
    Fetching,
    /// The fetched dataset is being written to its file.
    Storing,
    /// The dataset is being read from its file.
    Loading,
    /// The dataset is at hand.
    Ready,
    /// The dataset could not be had.
    Failed,
}

/// What has just happened.
#[derive(Clone, Copy, Debug, PartialEq, Eq)]
pub enum CacheEvent {
    /// The file does not exist.
    Missing,
    /// The file exists and was last modified so many seconds ago.
    Aged(u64),
    /// What was to be done has been done.
    Done,
    /// What was to be done has failed, or the age of the file cannot be
    /// told.
    Broken,
}

/// What is to be done next.
#[derive(Clone, Copy, Debug, PartialEq, Eq)]
pub enum CacheAction {
    /// Fetch the dataset from its source.
    Fetch,
    /// Write the fetched dataset to its file.
    Store,
    /// Read the dataset from its file.
    Load,
    /// Hand the dataset to the caller.
    Serve,
    /// Report that the dataset could not be refreshed.
    GiveUp,
    /// Nothing: the loading has ended.
    Rest,
}

/// The next state and the next action, given the state and the event.
pub open spec fn next_step(state: CacheState, event: CacheEvent) -> (CacheState, CacheAction) {
    match state {
        CacheState::Checking => match event {
            CacheEvent::Missing => (CacheState::Fetching, CacheAction::Fetch),
            CacheEvent::Aged(age) => if age >= CACHE_LIFETIME_SECS {
                (CacheState::Fetching, CacheAction::Fetch)
            } else {
                (CacheState::Loading, CacheAction::Load)
            },
            _ => (CacheState::Failed, CacheAction::GiveUp),
        },
        CacheState::Fetching => match event {
            CacheEvent::Done => (CacheState::Storing, CacheAction::Store),
            _ => (CacheState::Failed, CacheAction::GiveUp),
        },
        CacheState::Storing => match event {
            CacheEvent::Done => (CacheState::Ready, CacheAction::Serve),
            _ => (CacheState::Failed, CacheAction::GiveUp),
        },
        CacheState::Loading => match event {
            CacheEvent::Done => (CacheState::Ready, CacheAction::Serve),
            _ => (CacheState::Failed, CacheAction::GiveUp),
        },
        CacheState::Ready => (CacheState::Ready, CacheAction::Rest),
        CacheState::Failed => (CacheState::Failed, CacheAction::Rest),
    }
}

/// Decides what to do next.
pub fn cache_step(state: CacheState, event: CacheEvent) -> (r: (CacheState, CacheAction))
    ensures
        r == next_step(state, event),
{
    match state {
        CacheState::Checking => match event {
            CacheEvent::Missing => (CacheState::Fetching, CacheAction::Fetch),
            CacheEvent::Aged(age) => if needs_refresh(Some(age)) {
                (CacheState::Fetching, CacheAction::Fetch)
            } else {
                (CacheState::Loading, CacheAction::Load)
            },
            _ => (CacheState::Failed, CacheAction::GiveUp),
        },
        CacheState::Fetching => match event {
            CacheEvent::Done => (CacheState::Storing, CacheAction::Store),
            _ => (CacheState::Failed, CacheAction::GiveUp),
        },
        CacheState::Storing => match event {
            CacheEvent::Done => (CacheState::Ready, CacheAction::Serve),
            _ => (CacheState::Failed, CacheAction::GiveUp),
        },
        CacheState::Loading => match event {
            CacheEvent::Done => (CacheState::Ready, CacheAction::Serve),
            _ => (CacheState::Failed, CacheAction::GiveUp),
        },
        CacheState::Ready => (CacheState::Ready, CacheAction::Rest),
        CacheState::Failed => (CacheState::Failed, CacheAction::Rest),
    }
}

/// What the caller gets when the loading has ended: the dataset, where the
/// loading came to its end with the dataset at hand, and else the failure to
/// refresh. Nothing stale and nothing half-loaded is handed on.
pub fn served<T>(state: CacheState, dataset: Option<T>) -> (r: Result<T, MeowdictError>)
    ensures
        state == CacheState::Ready && dataset is Some ==> r == Ok::<T, MeowdictError>(dataset->0),
        !(state == CacheState::Ready && dataset is Some) ==> (r matches Err(e) && e.deep_view()
            == ErrorView::CacheRefreshError),
{
    match state {
        CacheState::Ready => match dataset {
            Some(d) => Ok(d),
            None => Err(MeowdictError::CacheRefreshError),
        },
        _ => Err(MeowdictError::CacheRefreshError),
    }
}

/// The actions that a run of events brings about, from `state` on.
pub open spec fn actions_of(state: CacheState, events: Seq<CacheEvent>) -> Seq<CacheAction>
    decreases events.len(),
{
    if events.len() == 0 {
        Seq::empty()
    } else {
        seq![next_step(state, events[0]).1] + actions_of(
            next_step(state, events[0]).0,
            events.drop_first(),
        )
    }
}

/// How many of the actions fetch the dataset.
pub open spec fn fetches(actions: Seq<CacheAction>) -> nat
    decreases actions.len(),
{
    if actions.len() == 0 {
        0
    } else if actions[0] == CacheAction::Fetch {
        1 + fetches(actions.drop_first())
    } else {
        fetches(actions.drop_first())
    }
}

/// How many of the actions hand a dataset to the caller.
pub open spec fn serves(actions: Seq<CacheAction>) -> nat
    decreases actions.len(),
{
    if actions.len() == 0 {
        0
    } else if actions[0] == CacheAction::Serve {
        1 + serves(actions.drop_first())
    } else {
        serves(actions.drop_first())
    }
}

/// Whether the first thing that is learnt of the file calls for a refresh:
/// the file is missing, or it is a day old or older.
pub open spec fn calls_for_refresh(event: CacheEvent) -> bool {
    match event {
        CacheEvent::Missing => true,
        CacheEvent::Aged(age) => stale(Some(age)),
        _ => false,
    }
}

proof fn lemma_no_fetch_after_check(state: CacheState, events: Seq<CacheEvent>)
    requires
        state != CacheState::Checking,
    ensures
        fetches(actions_of(state, events)) == 0,
        state == CacheState::Failed ==> serves(actions_of(state, events)) == 0,
    decreases events.len(),
{
    if events.len() > 0 {
        let step = next_step(state, events[0]);
        lemma_no_fetch_after_check(step.0, events.drop_first());
        assert(actions_of(state, events).drop_first() =~= actions_of(step.0, events.drop_first()));
    }
}

/// Whatever happens, a dataset is fetched once where the file is missing or
/// a day old, and never where the file is younger; and where the age of the
/// file cannot be told, nothing is fetched and nothing is served.
pub proof fn lemma_refresh_at_most_once(events: Seq<CacheEvent>)
    requires
        events.len() > 0,
    ensures
        fetches(actions_of(CacheState::Checking, events)) == if calls_for_refresh(events[0]) {
            1nat
        } else {
            0nat
        },
        events[0] == CacheEvent::Broken || events[0] == CacheEvent::Done ==> serves(
            actions_of(CacheState::Checking, events),
        ) == 0,
{
    let step = next_step(CacheState::Checking, events[0]);
    lemma_no_fetch_after_check(step.0, events.drop_first());
    assert(actions_of(CacheState::Checking, events).drop_first() =~= actions_of(
        step.0,
        events.drop_first(),
    ));
}

} // verus!
