//! Sharing one resolution among concurrent requests for the same video or
//! room: answers come from the cache, from a resolution already under way,
//! or from a resolution of one's own whose outcome is then shared.
use vstd::prelude::*;
use crate::bilibili::{cache_key_of, extract_cache_key};
use crate::resolve::{resolve_transition, ResolveEvent, ResolveState, StageView, StepView};
use crate::text::decimal_repr;
use crate::text::{string_option, string_result};

verus! {

/// What the subscriber of a shared resolution observes when it looks.
pub enum WatchObservation {
    /// A value was published since the last look (`None`: not an outcome yet).
    Changed(Option<Result<String, String>>),
    /// Nothing new was published.
    Unchanged,
    /// The resolving side went away without publishing.
    Closed,
}

/// Whether the wait for a shared resolution is over.
pub enum WatchPoll {
    Ready(Result<String, String>),
    Pending,
}

/// The outcome of one look at a shared resolution.
pub open spec fn watch_poll_of(obs: WatchObservation) -> Option<Result<Seq<char>, Seq<char>>> {
    match obs {
        WatchObservation::Changed(Some(r)) => Some(string_result(r)),
        WatchObservation::Changed(None) => None,
        WatchObservation::Unchanged => None,
        WatchObservation::Closed => Some(Err("fetch task panicked"@)),
    }
}

pub open spec fn watch_poll_view(p: WatchPoll) -> Option<Result<Seq<char>, Seq<char>>> {
    match p {
        WatchPoll::Ready(r) => Some(string_result(r)),
        WatchPoll::Pending => None,
    }
}

/// Looks once at a shared resolution.
pub fn watch_poll(obs: WatchObservation) -> (p: WatchPoll)
    ensures
        watch_poll_view(p) == watch_poll_of(obs),
{
    match obs {
        WatchObservation::Changed(Some(r)) => WatchPoll::Ready(r),
        WatchObservation::Changed(None) => WatchPoll::Pending,
        WatchObservation::Unchanged => WatchPoll::Pending,
        WatchObservation::Closed => WatchPoll::Ready(Err("fetch task panicked".to_string())),
    }
}

/// Where a shared resolution stands.
pub enum DedupState {
    Start,
    /// The cache has been asked for `key`.
    AwaitCache { target: String, key: String },
    /// The resolution under way for `key` has been joined.
    AwaitJoin { target: String, key: String },
    /// The outcome of the resolution under way is awaited.
    AwaitShared { target: String, key: String },
    /// An own resolution of `target` is under way.
    Resolving { key: String },
    Finished,
}

/// What happened.
pub enum DedupEvent {
    Begin(String),
    /// The cache's answer for the key.
    Cached(Option<String>),
    /// The resolution under way was joined; `has_sender`: someone may still
    /// publish its outcome.
    Joined { has_sender: bool },
    /// The shared outcome, or `None` when the wait timed out.
    Shared(Option<Result<String, String>>),
    /// The outcome of the own resolution.
    Resolved(Result<String, String>),
}

/// What to do next.
pub enum DedupAction {
    LookupCache { key: String },
    /// Join (or open) the resolution under way for `key`.
    JoinInFlight { key: String },
    /// Wait for the outcome of the resolution under way.
    AwaitShared { key: String },
    /// Announce an own resolution for `key` and resolve `target`.
    Resolve { key: String, target: String },
    /// Cache `store` under `key` where it is given, publish `result` to the
    /// waiting requests, withdraw the announcement, and answer `result`.
    Complete { key: String, store: Option<String>, result: Result<String, String> },
    /// Answer `result`.
    Finish(Result<String, String>),
}

pub enum DedupStageView {
    Start,
    AwaitCache(Seq<char>, Seq<char>),
    AwaitJoin(Seq<char>, Seq<char>),
    AwaitShared(Seq<char>, Seq<char>),
    Resolving(Seq<char>),
    Finished,
}

pub enum DedupStepView {
    LookupCache(Seq<char>),
    JoinInFlight(Seq<char>),
    AwaitShared(Seq<char>),
    Resolve(Seq<char>, Seq<char>),
    Complete(Seq<char>, Option<Seq<char>>, Result<Seq<char>, Seq<char>>),
    Finish(Result<Seq<char>, Seq<char>>),
}

pub open spec fn dedup_stage_view(s: DedupState) -> DedupStageView {
    match s {
        DedupState::Start => DedupStageView::Start,
        DedupState::AwaitCache { target, key } => DedupStageView::AwaitCache(target@, key@),
        DedupState::AwaitJoin { target, key } => DedupStageView::AwaitJoin(target@, key@),
        DedupState::AwaitShared { target, key } => DedupStageView::AwaitShared(target@, key@),
        DedupState::Resolving { key } => DedupStageView::Resolving(key@),
        DedupState::Finished => DedupStageView::Finished,
    }
}

pub open spec fn dedup_step_view(a: DedupAction) -> DedupStepView {
    match a {
        DedupAction::LookupCache { key } => DedupStepView::LookupCache(key@),
        DedupAction::JoinInFlight { key } => DedupStepView::JoinInFlight(key@),
        DedupAction::AwaitShared { key } => DedupStepView::AwaitShared(key@),
        DedupAction::Resolve { key, target } => DedupStepView::Resolve(key@, target@),
        DedupAction::Complete { key, store, result } => DedupStepView::Complete(
            key@,
            string_option(store),
            string_result(result),
        ),
        DedupAction::Finish(r) => DedupStepView::Finish(string_result(r)),
    }
}

/// The event is the one that the state waits for.
pub open spec fn dedup_awaited(state: DedupState, event: DedupEvent) -> bool {
    match (state, event) {
        (DedupState::Start, DedupEvent::Begin(_)) => true,
        (DedupState::AwaitCache { .. }, DedupEvent::Cached(_)) => true,
        (DedupState::AwaitJoin { .. }, DedupEvent::Joined { .. }) => true,
        (DedupState::AwaitShared { .. }, DedupEvent::Shared(_)) => true,
        (DedupState::Resolving { .. }, DedupEvent::Resolved(_)) => true,
        _ => false,
    }
}

pub open spec fn dedup_finish(r: Result<Seq<char>, Seq<char>>) -> (DedupStageView, DedupStepView) {
    (DedupStageView::Finished, DedupStepView::Finish(r))
}

/// The next stage and step of a shared resolution.
pub open spec fn dedup_transition(state: DedupState, event: DedupEvent) -> (
    DedupStageView,
    DedupStepView,
) {
    match (state, event) {
        (DedupState::Start, DedupEvent::Begin(target)) => match cache_key_of(target@) {
            Err(e) => dedup_finish(Err(e)),
            Ok(key) => (DedupStageView::AwaitCache(target@, key), DedupStepView::LookupCache(key)),
        },
        (DedupState::AwaitCache { target, key }, DedupEvent::Cached(hit)) => match hit {
            Some(v) => dedup_finish(Ok(v@)),
            None => (DedupStageView::AwaitJoin(target@, key@), DedupStepView::JoinInFlight(key@)),
        },
        (DedupState::AwaitJoin { target, key }, DedupEvent::Joined { has_sender }) => if has_sender {
            (DedupStageView::AwaitShared(target@, key@), DedupStepView::AwaitShared(key@))
        } else {
            (DedupStageView::Resolving(key@), DedupStepView::Resolve(key@, target@))
        },
        (DedupState::AwaitShared { target, key }, DedupEvent::Shared(outcome)) => match outcome {
            Some(r) => dedup_finish(string_result(r)),
            None => (DedupStageView::Resolving(key@), DedupStepView::Resolve(key@, target@)),
        },
        (DedupState::Resolving { key }, DedupEvent::Resolved(r)) => (
            DedupStageView::Finished,
            DedupStepView::Complete(
                key@,
                match r {
                    Ok(url) => Some(url@),
                    Err(_) => None,
                },
                string_result(r),
            ),
        ),
        _ => dedup_finish(Err(Seq::empty())),
    }
}

/// Whether `event` is the one that `state` waits for.
pub fn dedup_awaits(state: &DedupState, event: &DedupEvent) -> (b: bool)
    ensures
        b == dedup_awaited(*state, *event),
{
    match (state, event) {
        (DedupState::Start, DedupEvent::Begin(_)) => true,
        (DedupState::AwaitCache { .. }, DedupEvent::Cached(_)) => true,
        (DedupState::AwaitJoin { .. }, DedupEvent::Joined { .. }) => true,
        (DedupState::AwaitShared { .. }, DedupEvent::Shared(_)) => true,
        (DedupState::Resolving { .. }, DedupEvent::Resolved(_)) => true,
        _ => false,
    }
}

/// Takes one step of a shared resolution.
pub fn dedup_step(state: DedupState, event: DedupEvent) -> (r: (DedupState, DedupAction))
    requires
        dedup_awaited(state, event),
    ensures
        (dedup_stage_view(r.0), dedup_step_view(r.1)) == dedup_transition(state, event),
{
    match (state, event) {
        (DedupState::Start, DedupEvent::Begin(target)) => match extract_cache_key(target.as_str()) {
            Err(e) => (DedupState::Finished, DedupAction::Finish(Err(e))),
            Ok(key) => {
                let k = key.clone();
                (DedupState::AwaitCache { target, key }, DedupAction::LookupCache { key: k })
            },
        },
        (DedupState::AwaitCache { target, key }, DedupEvent::Cached(hit)) => match hit {
            Some(v) => (DedupState::Finished, DedupAction::Finish(Ok(v))),
            None => {
                let k = key.clone();
                (DedupState::AwaitJoin { target, key }, DedupAction::JoinInFlight { key: k })
            },
        },
        (DedupState::AwaitJoin { target, key }, DedupEvent::Joined { has_sender }) => {
            if has_sender {
                let k = key.clone();
                (DedupState::AwaitShared { target, key }, DedupAction::AwaitShared { key: k })
            } else {
                let k = key.clone();
                (DedupState::Resolving { key }, DedupAction::Resolve { key: k, target })
            }
        },
        (DedupState::AwaitShared { target, key }, DedupEvent::Shared(outcome)) => match outcome {
            Some(r) => (DedupState::Finished, DedupAction::Finish(r)),
            None => {
                let k = key.clone();
                (DedupState::Resolving { key }, DedupAction::Resolve { key: k, target })
            },
        },
        (DedupState::Resolving { key }, DedupEvent::Resolved(r)) => {
            let store = match &r {
                Ok(url) => Some(url.clone()),
                Err(_) => None,
            };
            (DedupState::Finished, DedupAction::Complete { key, store, result: r })
        },
        _ => (DedupState::Finished, DedupAction::Finish(Err(String::new()))),
    }
}

/// The key under which a request is shared and cached names exactly what
/// the resolution of the same request goes on to fetch, and a request whose
/// resolution cannot start has no key, for the same reason.
pub proof fn lemma_cache_key_names_resolution(target: String, mirror: Seq<char>)
    ensures
        match resolve_transition(ResolveState::Start, ResolveEvent::Begin(target), mirror) {
            (StageView::AwaitPages(bvid, page), _) => cache_key_of(target@) == Ok::<Seq<char>, Seq<char>>(
                "vid:"@ + bvid + ":"@ + decimal_repr(page),
            ),
            (StageView::AwaitLiveRoom, StepView::FetchLiveRoom(room)) => cache_key_of(target@)
                == Ok::<Seq<char>, Seq<char>>("live:"@ + room),
            (_, StepView::Finish(Err(e), _)) => cache_key_of(target@) == Err::<Seq<char>, Seq<char>>(e),
            _ => false,
        },
        match cache_key_of(target@) {
            Ok(key) => dedup_transition(DedupState::Start, DedupEvent::Begin(target)).1
                == DedupStepView::LookupCache(key),
            Err(e) => dedup_transition(DedupState::Start, DedupEvent::Begin(target)).1
                == DedupStepView::Finish(Err(e)),
        },
{
}

} // verus!
