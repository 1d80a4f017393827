//! The loop that consumes the stream of updates: which request follows
//! which answer, and how the offset moves.

use vstd::prelude::*;
use crate::telegram_client::{
    ids_of, lemma_max_id, max_id, next_offset, offset_after, GetUpdates, Update,
};

verus! {

/// What happened to the request that is under way.
#[derive(Debug)]
pub enum PollEvent {
    /// The platform answered with a batch of updates, which may be empty.
    Fetched(Vec<Update>),
    /// The request failed.
    FetchFailed,
    /// The process is asked to end.
    Shutdown,
}

/// What the loop does next.
#[derive(Debug)]
pub enum PollAction {
    /// Send the request and wait for its answer.
    Fetch(GetUpdates),
    /// Hand `batch` to the dispatcher, and without waiting for it send
    /// `then`. A caller that wants no more than one batch under way may
    /// wait for the dispatcher first: the offset is the same either way.
    Dispatch { batch: Vec<Update>, then: GetUpdates },
    /// Send the request, wait for nothing more and end.
    Flush(GetUpdates),
    /// The loop has ended.
    Stop,
}

/// What a loop stands for: the offset that its next request carries, and
/// whether it has ended.
pub struct PollerState {
    pub offset: int,
    pub stopped: bool,
}

/// The state that `event` leaves a loop in. A batch moves the offset past
/// its largest identifier; an empty batch and a failed request leave it
/// where it is; a shutdown ends the loop. A loop that has ended stays as it
/// is.
pub open spec fn after_event(state: PollerState, event: PollEvent) -> PollerState {
    if state.stopped {
        state
    } else {
        match event {
            PollEvent::Fetched(batch) => PollerState {
                offset: offset_after(state.offset, ids_of(batch@)),
                stopped: false,
            },
            PollEvent::FetchFailed => state,
            PollEvent::Shutdown => PollerState { offset: state.offset, stopped: true },
        }
    }
}

/// Whether `action` is what a loop in `state` does about `event`. After a
/// batch the batch goes to the dispatcher and the next request asks from
/// the new offset on; a failed request is made again as it was; on shutdown
/// the offset is handed to the platform as it stands.
pub open spec fn is_action(state: PollerState, event: PollEvent, action: PollAction) -> bool {
    if state.stopped {
        action is Stop
    } else {
        match event {
            PollEvent::Fetched(fetched) => {
                &&& action matches PollAction::Dispatch { batch, then }
                &&& batch == fetched
                &&& then.is_poll(after_event(state, event).offset)
            },
            PollEvent::FetchFailed => {
                &&& action matches PollAction::Fetch(request)
                &&& request.is_poll(state.offset)
            },
            PollEvent::Shutdown => {
                &&& action matches PollAction::Flush(request)
                &&& request.is_flush(state.offset)
            },
        }
    }
}

/// The position in the stream of updates, and whether the loop has ended.
#[derive(Debug)]
pub struct UpdatePoller {
    offset: i64,
    stopped: bool,
}

impl View for UpdatePoller {
    type V = PollerState;

    closed spec fn view(&self) -> PollerState {
        PollerState { offset: self.offset as int, stopped: self.stopped }
    }
}

impl UpdatePoller {
    /// A loop that starts at `offset`.
    pub fn new(offset: i64) -> (r: Self)
        ensures
            r@ == (PollerState { offset: offset as int, stopped: false }),
    {
        UpdatePoller { offset, stopped: false }
    }

    /// The offset that the next request carries.
    pub fn current_offset(&self) -> (r: i64)
        ensures
            r == self@.offset,
    {
        self.offset
    }

    /// Whether the loop has ended.
    pub fn is_stopped(&self) -> (r: bool)
        ensures
            r == self@.stopped,
    {
        self.stopped
    }

    /// The first request of the loop.
    pub fn start(&self) -> (r: GetUpdates)
        ensures
            r.is_poll(self@.offset),
    {
        GetUpdates::poll(self.offset)
    }

    /// Takes in what happened to the request under way and says what to do
    /// next.
    ///
    /// A batch moves the offset past its largest identifier before the next
    /// request is made; an empty batch and a failed request leave it where
    /// it is. On shutdown the offset is handed to the platform as it
    /// stands, and the loop ends.
    pub fn step(&mut self, event: PollEvent) -> (action: PollAction)
        requires
            event matches PollEvent::Fetched(batch) ==> forall|i: int|
                0 <= i < batch.len() ==> (#[trigger] batch[i]).update_id < i64::MAX,
        ensures
            final(self)@ == after_event(old(self)@, event),
            is_action(old(self)@, event, action),
    {
        if self.stopped {
            return PollAction::Stop;
        }
        match event {
            PollEvent::Fetched(batch) => {
                self.offset = next_offset(self.offset, &batch);
                PollAction::Dispatch { batch, then: GetUpdates::poll(self.offset) }
            },
            PollEvent::FetchFailed => PollAction::Fetch(GetUpdates::poll(self.offset)),
            PollEvent::Shutdown => {
                self.stopped = true;
                PollAction::Flush(GetUpdates::flush(self.offset))
            },
        }
    }
}

/// The state of a loop that started in `state` after `events` came in one
/// after the other.
pub open spec fn after_events(state: PollerState, events: Seq<PollEvent>) -> PollerState
    decreases events.len(),
{
    if events.len() == 0 {
        state
    } else {
        after_event(after_events(state, events.drop_last()), events.last())
    }
}

/// After a batch the offset is one more than the largest identifier of the
/// batch, and after an empty batch it is what it was. A batch that holds no
/// identifier below the offset at which it was fetched never moves the
/// offset back.
pub proof fn lemma_offset_after_batch(offset: int, ids: Seq<int>)
    ensures
        ids.len() == 0 ==> offset_after(offset, ids) == offset,
        ids.len() > 0 ==> offset_after(offset, ids) == max_id(ids) + 1,
        forall|i: int| 0 <= i < ids.len() ==> ids[i] < offset_after(offset, ids),
        (forall|i: int| 0 <= i < ids.len() ==> offset <= ids[i]) ==> offset <= offset_after(
            offset,
            ids,
        ),
{
    if ids.len() > 0 {
        lemma_max_id(ids);
        assert(ids[0] <= max_id(ids));
    }
}

/// Whether every batch among `events` holds only identifiers from the
/// offset on at which it was fetched, as the platform promises.
pub open spec fn batches_from_offset(state: PollerState, events: Seq<PollEvent>) -> bool {
    forall|n: int, j: int|
        0 <= n < events.len() && events[n] is Fetched && 0 <= j < events[n]->Fetched_0.len()
            ==> after_events(state, events.take(n)).offset <= (#[trigger] events[n]->Fetched_0[j]).update_id
}

/// Whatever comes in, the offset of a loop never goes back from one event
/// to a later one, as long as no batch holds an identifier below the offset
/// at which it was fetched.
pub proof fn lemma_offset_never_goes_back(
    state: PollerState,
    events: Seq<PollEvent>,
    m: int,
    n: int,
)
    requires
        0 <= m <= n <= events.len(),
        batches_from_offset(state, events),
    ensures
        after_events(state, events.take(m)).offset <= after_events(state, events.take(n)).offset,
    decreases n - m,
{
    if m < n {
        lemma_offset_never_goes_back(state, events, m, n - 1);
        let upto = events.take(n);
        assert(upto.drop_last() =~= events.take(n - 1));
        assert(upto.last() == events[n - 1]);
        let before = after_events(state, events.take(n - 1));
        match events[n - 1] {
            PollEvent::Fetched(batch) => {
                if !before.stopped {
                    let ids = ids_of(batch@);
                    assert forall|j: int| 0 <= j < ids.len() implies before.offset <= ids[j] by {
                        assert(before.offset <= events[n - 1]->Fetched_0[j].update_id);
                    }
                    lemma_offset_after_batch(before.offset, ids);
                }
            },
            _ => {},
        }
    }
}

/// A shutdown right after a batch hands the platform the offset that the
/// batch left, which lies past every update of the batch, and a loop that
/// starts from what was handed over asks from there on: no update of the
/// batch is asked for again.
pub proof fn lemma_flush_resumes_after_batch(
    state: PollerState,
    batch: Vec<Update>,
    flush: PollAction,
    resumed: GetUpdates,
)
    requires
        !state.stopped,
        is_action(after_event(state, PollEvent::Fetched(batch)), PollEvent::Shutdown, flush),
        flush matches PollAction::Flush(request) ==> resumed.is_poll(request.offset as int),
    ensures
        after_event(after_event(state, PollEvent::Fetched(batch)), PollEvent::Shutdown).stopped,
        flush matches PollAction::Flush(request) && request.offset == offset_after(
            state.offset,
            ids_of(batch@),
        ),
        resumed.offset == offset_after(state.offset, ids_of(batch@)),
        forall|i: int| 0 <= i < batch.len() ==> (#[trigger] batch[i]).update_id < resumed.offset,
{
    let ids = ids_of(batch@);
    lemma_offset_after_batch(state.offset, ids);
    assert forall|i: int| 0 <= i < batch.len() implies (#[trigger] batch[i]).update_id
        < offset_after(state.offset, ids) by {
        assert(ids[i] == batch[i].update_id);
    }
}

} // verus!
