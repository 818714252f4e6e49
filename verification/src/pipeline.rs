//! One search as a sequence of stages.
//!
//! The host code performs what a stage asks of the accelerator and reports
//! how it went; the search then moves to its next stage. A stage is never
//! skipped: the pass is submitted before the map is requested, and the map
//! has completed before the staging buffer is read. A fault ends the
//! search for good, with no text.

use crate::bytes::{in_memory, read_slots, words_of, ByteOrder, SLOT_BYTES};
use crate::key::{encode, packed};
use crate::plan::{
    buffer_layout, dispatch_plan, plan_buffers, plan_dispatch, plan_session, session_request,
    BufferLayout, DispatchPlan, SessionRequest,
};
use crate::slots::{decode, stored_matches};
use crate::text::joined;
use vstd::prelude::*;

verus! {

/// Why a search ended without a result.
#[derive(Clone, Copy, PartialEq, Eq, Debug)]
pub enum SearchError {
    /// No compute adapter was found.
    NoAcceleratorAvailable,
    /// The adapter refused the device request.
    DeviceCreationFailed,
    /// The device could not allocate a buffer.
    BufferAllocationFailed,
    /// The staging buffer could not be mapped and read.
    MapFailed,
}

/// What the host code reports after it has carried out an action.
#[derive(Clone, Copy, PartialEq, Eq, Debug)]
pub enum Event {
    /// The device and its queue are there.
    SessionAcquired,
    /// The three buffers are there.
    BuffersAllocated,
    /// The pass and the copy were submitted to the queue.
    Submitted,
    /// The map of the staging buffer was requested.
    MapRequested,
    /// The device finished its work, and the map with it.
    MapCompleted,
    /// The staging buffer was read and released; it held these slots.
    StagingRead([u32; 10]),
    /// The action failed.
    Fault(SearchError),
}

/// Where a search stands.
#[derive(Clone, PartialEq, Eq, Debug)]
pub enum Stage {
    /// Nothing has been asked of the accelerator yet.
    Idle,
    /// The device and its queue are held.
    DeviceAcquired,
    /// The three buffers exist.
    BuffersAllocated,
    /// The pass and the copy are with the queue.
    Dispatched,
    /// The map of the staging buffer is requested and not yet there.
    AwaitingMap,
    /// The staging buffer is mapped and can be read.
    Mapped,
    /// The search is over; this is the text of its matches.
    Decoded(String),
    /// The search is over without a result.
    Failed(SearchError),
}

/// What the host code is to do next.
#[derive(Clone, Copy, PartialEq, Eq, Debug)]
pub enum Action {
    /// Request the default adapter, and from it a device and a queue as
    /// the request says.
    AcquireSession(SessionRequest),
    /// Create these buffers.
    AllocateBuffers(BufferLayout),
    /// Load the kernel, record the commands of this plan in their order,
    /// and submit them as one.
    Dispatch(DispatchPlan),
    /// Request a map of the whole staging buffer for reading.
    RequestMap,
    /// Make the device work until the map has completed.
    AwaitMap,
    /// Read the mapped bytes and release the map.
    ReadStaging,
    /// Nothing: the search is over.
    Nothing,
}

/// A stage with its text as a sequence of characters.
pub enum StageView {
    Idle,
    DeviceAcquired,
    BuffersAllocated,
    Dispatched,
    AwaitingMap,
    Mapped,
    Decoded(Seq<char>),
    Failed(SearchError),
}

/// A search as the contracts see it.
pub struct SearchView {
    pub key: u32,
    pub stage: StageView,
}

/// One search: its key, and the stage it has reached.
#[derive(Clone, PartialEq, Eq, Debug)]
pub struct Search {
    key: u32,
    stage: Stage,
}

impl View for Stage {
    type V = StageView;

    open spec fn view(&self) -> StageView {
        match *self {
            Stage::Idle => StageView::Idle,
            Stage::DeviceAcquired => StageView::DeviceAcquired,
            Stage::BuffersAllocated => StageView::BuffersAllocated,
            Stage::Dispatched => StageView::Dispatched,
            Stage::AwaitingMap => StageView::AwaitingMap,
            Stage::Mapped => StageView::Mapped,
            Stage::Decoded(text) => StageView::Decoded(text@),
            Stage::Failed(error) => StageView::Failed(error),
        }
    }
}

impl View for Search {
    type V = SearchView;

    closed spec fn view(&self) -> SearchView {
        SearchView { key: self.key, stage: self.stage@ }
    }
}

/// Whether a search at `stage` is over.
pub open spec fn terminal(stage: StageView) -> bool {
    stage is Decoded || stage is Failed
}

/// How far a stage is from the start.
pub open spec fn rank(stage: StageView) -> nat {
    match stage {
        StageView::Idle => 0,
        StageView::DeviceAcquired => 1,
        StageView::BuffersAllocated => 2,
        StageView::Dispatched => 3,
        StageView::AwaitingMap => 4,
        StageView::Mapped => 5,
        StageView::Decoded(_) => 6,
        StageView::Failed(_) => 6,
    }
}

/// Whether a search at `stage` takes `event`: the report that its action
/// succeeded, or a fault while it is not over.
pub open spec fn awaited(stage: StageView, event: Event) -> bool {
    match event {
        Event::SessionAcquired => stage is Idle,
        Event::BuffersAllocated => stage is DeviceAcquired,
        Event::Submitted => stage is BuffersAllocated,
        Event::MapRequested => stage is Dispatched,
        Event::MapCompleted => stage is AwaitingMap,
        Event::StagingRead(_) => stage is Mapped,
        Event::Fault(_) => !terminal(stage),
    }
}

/// The stage after `event`, for a search that takes it.
pub open spec fn stage_after(event: Event) -> StageView {
    match event {
        Event::SessionAcquired => StageView::DeviceAcquired,
        Event::BuffersAllocated => StageView::BuffersAllocated,
        Event::Submitted => StageView::Dispatched,
        Event::MapRequested => StageView::AwaitingMap,
        Event::MapCompleted => StageView::Mapped,
        Event::StagingRead(words) => StageView::Decoded(joined(stored_matches(words@))),
        Event::Fault(error) => StageView::Failed(error),
    }
}

/// The search after `event`: at the next stage if it takes the event, and
/// as it was if it does not.
pub open spec fn step(state: SearchView, event: Event) -> SearchView {
    if awaited(state.stage, event) {
        SearchView { key: state.key, stage: stage_after(event) }
    } else {
        state
    }
}

/// The search after `events`, one after the other.
pub open spec fn replay(state: SearchView, events: Seq<Event>) -> SearchView
    decreases events.len(),
{
    if events.len() == 0 {
        state
    } else {
        step(replay(state, events.drop_last()), events.last())
    }
}

/// A search for `a` and `b` that has not begun.
pub open spec fn start(a: u16, b: u16) -> SearchView {
    SearchView { key: packed(a, b), stage: StageView::Idle }
}

/// What a search in `state` asks the host code to do.
pub open spec fn pending_action(state: SearchView) -> Action {
    match state.stage {
        StageView::Idle => Action::AcquireSession(session_request()),
        StageView::DeviceAcquired => Action::AllocateBuffers(buffer_layout(state.key)),
        StageView::BuffersAllocated => Action::Dispatch(dispatch_plan()),
        StageView::Dispatched => Action::RequestMap,
        StageView::AwaitingMap => Action::AwaitMap,
        StageView::Mapped => Action::ReadStaging,
        StageView::Decoded(_) => Action::Nothing,
        StageView::Failed(_) => Action::Nothing,
    }
}

/// The reports of a search in which every action succeeds and the kernel
/// leaves `words` in the output slots.
pub open spec fn complete_run(words: [u32; 10]) -> Seq<Event> {
    seq![
        Event::SessionAcquired,
        Event::BuffersAllocated,
        Event::Submitted,
        Event::MapRequested,
        Event::MapCompleted,
        Event::StagingRead(words),
    ]
}

/// Whether two reports say the same: the same kind, and for a read the
/// same slots.
pub open spec fn same_report(first: Event, second: Event) -> bool {
    match (first, second) {
        (Event::StagingRead(one), Event::StagingRead(other)) => one@ == other@,
        _ => first == second,
    }
}

/// The reports among `events` that a search in `state` takes, in order.
pub open spec fn taken(state: SearchView, events: Seq<Event>) -> Seq<Event>
    decreases events.len(),
{
    if events.len() == 0 {
        Seq::empty()
    } else if awaited(replay(state, events.drop_last()).stage, events.last()) {
        taken(state, events.drop_last()).push(events.last())
    } else {
        taken(state, events.drop_last())
    }
}

/// The place of a report in a search in which every action succeeds; a
/// fault has none.
pub open spec fn place(event: Event) -> Option<nat> {
    match event {
        Event::SessionAcquired => Some(0nat),
        Event::BuffersAllocated => Some(1nat),
        Event::Submitted => Some(2nat),
        Event::MapRequested => Some(3nat),
        Event::MapCompleted => Some(4nat),
        Event::StagingRead(_) => Some(5nat),
        Event::Fault(_) => None,
    }
}

impl SearchError {
    /// The message of the error.
    pub open spec fn message_spec(self) -> Seq<char> {
        match self {
            SearchError::NoAcceleratorAvailable =>
                "GPU failed to initialize. Is WebGPU supported by your browser?"@,
            SearchError::DeviceCreationFailed => "GPU refused the device request."@,
            SearchError::BufferAllocationFailed => "GPU could not allocate a buffer."@,
            SearchError::MapFailed => "failed to run compute on gpu!"@,
        }
    }

    /// A message for the host environment.
    pub fn message(self) -> (text: &'static str)
        ensures
            text@ == self.message_spec(),
    {
        match self {
            SearchError::NoAcceleratorAvailable => {
                "GPU failed to initialize. Is WebGPU supported by your browser?"
            },
            SearchError::DeviceCreationFailed => "GPU refused the device request.",
            SearchError::BufferAllocationFailed => "GPU could not allocate a buffer.",
            SearchError::MapFailed => "failed to run compute on gpu!",
        }
    }
}

impl Event {
    /// The report for the bytes read from the staging buffer: the slots
    /// that they hold, read in the machine's byte order, or a map fault
    /// unless they are exactly as long as the slots.
    pub fn from_staging_bytes(bytes: &[u8]) -> (event: Event)
        ensures
            bytes@.len() != SLOT_BYTES ==> event == Event::Fault(SearchError::MapFailed),
            bytes@.len() == SLOT_BYTES ==> {
                &&& event matches Event::StagingRead(words)
                &&& in_memory(words@, bytes@)
                &&& (words@ == words_of(ByteOrder::LittleEndian, bytes@) || words@ == words_of(
                    ByteOrder::BigEndian,
                    bytes@,
                ))
            },
    {
        match read_slots(bytes) {
            Some(words) => Event::StagingRead(words),
            None => Event::Fault(SearchError::MapFailed),
        }
    }
}

impl Search {
    /// A search for the identifiers `a` and `b`, before its first action.
    pub fn begin(a: u16, b: u16) -> (search: Search)
        ensures
            search@ == start(a, b),
    {
        Search { key: encode(a, b), stage: Stage::Idle }
    }

    /// The key that is searched for.
    pub fn key(&self) -> (key: u32)
        ensures
            key == self@.key,
    {
        self.key
    }

    /// The stage that the search has reached.
    pub fn stage(&self) -> (stage: &Stage)
        ensures
            stage@ == self@.stage,
    {
        &self.stage
    }

    /// Whether the search is over.
    pub fn is_over(&self) -> (over: bool)
        ensures
            over == terminal(self@.stage),
    {
        match self.stage {
            Stage::Decoded(_) => true,
            Stage::Failed(_) => true,
            _ => false,
        }
    }

    /// What the host code is to do next.
    pub fn pending(&self) -> (action: Action)
        ensures
            action == pending_action(self@),
    {
        match self.stage {
            Stage::Idle => Action::AcquireSession(plan_session()),
            Stage::DeviceAcquired => Action::AllocateBuffers(plan_buffers(self.key)),
            Stage::BuffersAllocated => Action::Dispatch(plan_dispatch()),
            Stage::Dispatched => Action::RequestMap,
            Stage::AwaitingMap => Action::AwaitMap,
            Stage::Mapped => Action::ReadStaging,
            Stage::Decoded(_) => Action::Nothing,
            Stage::Failed(_) => Action::Nothing,
        }
    }

    /// Whether the search takes `event` at its stage.
    pub fn accepts(&self, event: Event) -> (taken: bool)
        ensures
            taken == awaited(self@.stage, event),
    {
        match event {
            Event::SessionAcquired => matches!(self.stage, Stage::Idle),
            Event::BuffersAllocated => matches!(self.stage, Stage::DeviceAcquired),
            Event::Submitted => matches!(self.stage, Stage::BuffersAllocated),
            Event::MapRequested => matches!(self.stage, Stage::Dispatched),
            Event::MapCompleted => matches!(self.stage, Stage::AwaitingMap),
            Event::StagingRead(_) => matches!(self.stage, Stage::Mapped),
            Event::Fault(_) => !self.is_over(),
        }
    }

    /// Moves the search on by one report. A report that the search does
    /// not take at its stage leaves it as it was; a search that is over
    /// takes none.
    pub fn advance(self, event: Event) -> (next: Search)
        ensures
            next@ == step(self@, event),
    {
        if !self.accepts(event) {
            return self;
        }
        let stage = match event {
            Event::SessionAcquired => Stage::DeviceAcquired,
            Event::BuffersAllocated => Stage::BuffersAllocated,
            Event::Submitted => Stage::Dispatched,
            Event::MapRequested => Stage::AwaitingMap,
            Event::MapCompleted => Stage::Mapped,
            Event::StagingRead(words) => Stage::Decoded(decode(&words)),
            Event::Fault(error) => Stage::Failed(error),
        };
        Search { key: self.key, stage }
    }

    /// How the search ended: its text or its error; `None` while it is not
    /// over.
    pub fn finish(self) -> (outcome: Option<Result<String, SearchError>>)
        ensures
            match self@.stage {
                StageView::Decoded(text) => outcome matches Some(Ok(found)) && found@ == text,
                StageView::Failed(error) => outcome == Some(Err::<String, SearchError>(error)),
                _ => outcome is None,
            },
    {
        match self.stage {
            Stage::Decoded(text) => Some(Ok(text)),
            Stage::Failed(error) => Some(Err(error)),
            _ => None,
        }
    }
}

/// A search for `a` and `b` moved on by each of `events` in turn.
pub fn run(a: u16, b: u16, events: &[Event]) -> (search: Search)
    ensures
        search@ == replay(start(a, b), events@),
{
    let mut search = Search::begin(a, b);
    let mut i: usize = 0;
    while i < events.len()
        invariant
            i <= events.len(),
            search@ == replay(start(a, b), events@.take(i as int)),
        decreases events.len() - i,
    {
        search = search.advance(events[i]);
        proof {
            let done = events@.take(i + 1);
            assert(done.drop_last() =~= events@.take(i as int));
            assert(done.last() == events@[i as int]);
        }
        i += 1;
    }
    assert(events@.take(i as int) =~= events@);
    search
}

/// A search that is over stays as it is, whatever is reported to it.
pub proof fn lemma_over_is_final(state: SearchView, events: Seq<Event>)
    requires
        terminal(state.stage),
    ensures
        replay(state, events) == state,
    decreases events.len(),
{
    if events.len() > 0 {
        lemma_over_is_final(state, events.drop_last());
    }
}

/// Replaying one run after another is replaying both as one.
pub proof fn lemma_replay_in_two(state: SearchView, first: Seq<Event>, rest: Seq<Event>)
    ensures
        replay(state, first + rest) == replay(replay(state, first), rest),
    decreases rest.len(),
{
    if rest.len() == 0 {
        assert(first + rest =~= first);
    } else {
        lemma_replay_in_two(state, first, rest.drop_last());
        assert((first + rest).drop_last() =~= first + rest.drop_last());
    }
}

/// No report moves a search by more than one stage, and none moves it
/// back or changes its key: what ends in text went through every stage in
/// order.
pub proof fn lemma_no_stage_skipped(state: SearchView, event: Event)
    ensures
        step(state, event).key == state.key,
        step(state, event).stage is Failed || rank(step(state, event).stage) == rank(state.stage)
            || rank(step(state, event).stage) == rank(state.stage) + 1,
        step(state, event).stage is Decoded ==> state.stage is Decoded || (state.stage is Mapped
            && event is StagingRead),
        step(state, event) != state ==> awaited(state.stage, event),
{
}

/// A fault at any stage before the end fails the search with that error,
/// and nothing reported afterwards changes it: no text comes of it.
pub proof fn lemma_fault_ends_search(state: SearchView, error: SearchError, rest: Seq<Event>)
    requires
        !terminal(state.stage),
    ensures
        replay(step(state, Event::Fault(error)), rest) == (SearchView {
            key: state.key,
            stage: StageView::Failed(error),
        }),
{
    lemma_over_is_final(step(state, Event::Fault(error)), rest);
}

/// A search whose first report is a fault fails with that error whatever
/// follows: when no accelerator is found, the search ends with
/// `NoAcceleratorAvailable`.
pub proof fn lemma_first_fault_fails(a: u16, b: u16, error: SearchError, rest: Seq<Event>)
    ensures
        replay(start(a, b), seq![Event::Fault(error)] + rest).stage == StageView::Failed(error),
{
    let first = seq![Event::Fault(error)];
    lemma_replay_in_two(start(a, b), first, rest);
    assert(first.drop_last() =~= Seq::<Event>::empty());
    assert(replay(start(a, b), first.drop_last()) == start(a, b));
    assert(replay(start(a, b), first) == step(start(a, b), Event::Fault(error)));
    lemma_fault_ends_search(start(a, b), error, rest);
}

/// A search in which every action succeeds ends with the text of the
/// matches that the kernel left in the slots, and that text depends on
/// nothing else.
pub proof fn lemma_complete_run_decodes(a: u16, b: u16, words: [u32; 10])
    ensures
        replay(start(a, b), complete_run(words)) == (SearchView {
            key: packed(a, b),
            stage: StageView::Decoded(joined(stored_matches(words@))),
        }),
{
    let run = complete_run(words);
    let r5 = run.drop_last();
    let r4 = r5.drop_last();
    let r3 = r4.drop_last();
    let r2 = r3.drop_last();
    let r1 = r2.drop_last();
    let r0 = r1.drop_last();
    assert(r0.len() == 0);
    assert(replay(start(a, b), r0) == start(a, b));
    assert(replay(start(a, b), r1).stage == StageView::DeviceAcquired);
    assert(replay(start(a, b), r2).stage == StageView::BuffersAllocated);
    assert(replay(start(a, b), r3).stage == StageView::Dispatched);
    assert(replay(start(a, b), r4).stage == StageView::AwaitingMap);
    assert(replay(start(a, b), r5).stage == StageView::Mapped);
}

/// Reports that say the same move a search to the same stage.
pub proof fn lemma_same_report_same_step(state: SearchView, first: Event, second: Event)
    requires
        same_report(first, second),
    ensures
        step(state, first) == step(state, second),
{
}

/// A search is determined by its identifiers and by what is reported to
/// it: two runs with the same identifiers and the same reports, the reads
/// with the same slots, end at the same stage with the same text.
pub proof fn lemma_same_reports_same_end(a: u16, b: u16, first: Seq<Event>, second: Seq<Event>)
    requires
        first.len() == second.len(),
        forall|i: int| 0 <= i < first.len() ==> same_report(#[trigger] first[i], second[i]),
    ensures
        replay(start(a, b), first) == replay(start(a, b), second),
    decreases first.len(),
{
    if first.len() > 0 {
        lemma_same_reports_same_end(a, b, first.drop_last(), second.drop_last());
        lemma_same_report_same_step(
            replay(start(a, b), first.drop_last()),
            first.last(),
            second.last(),
        );
    }
}

/// The reports that a search takes come in the one order of the stages:
/// the session before the buffers, the buffers before the submission, the
/// submission before the map request, the map request before its
/// completion, and the completion before the read. A search that has not
/// failed has taken exactly one report for each stage behind it; a failed
/// one has taken its fault last, and after that nothing.
pub proof fn lemma_reports_taken_in_order(a: u16, b: u16, events: Seq<Event>)
    ensures
        ({
            let reports = taken(start(a, b), events);
            let stage = replay(start(a, b), events).stage;
            &&& reports.len() <= events.len()
            &&& forall|k: int|
                0 <= k < reports.len() - 1 ==> place(#[trigger] reports[k]) == Some(k as nat)
            &&& match stage {
                StageView::Failed(error) => reports.len() >= 1 && reports.last() == Event::Fault(
                    error,
                ),
                _ => reports.len() == rank(stage) && (reports.len() >= 1 ==> place(reports.last())
                    == Some((reports.len() - 1) as nat)),
            }
        }),
    decreases events.len(),
{
    if events.len() > 0 {
        lemma_reports_taken_in_order(a, b, events.drop_last());
        let before = taken(start(a, b), events.drop_last());
        let reports = taken(start(a, b), events);
        if awaited(replay(start(a, b), events.drop_last()).stage, events.last()) {
            assert(reports.drop_last() =~= before);
            assert forall|k: int| 0 <= k < reports.len() - 1 implies place(#[trigger] reports[k])
                == Some(k as nat) by {
                assert(reports[k] == before[k]);
            }
        }
    }
}

/// The stage of a search that has moved is the one after the last report
/// it took.
pub proof fn lemma_last_taken_decides(state: SearchView, events: Seq<Event>)
    ensures
        taken(state, events).len() == 0 ==> replay(state, events) == state,
        taken(state, events).len() > 0 ==> replay(state, events) == (SearchView {
            key: state.key,
            stage: stage_after(taken(state, events).last()),
        }),
    decreases events.len(),
{
    if events.len() > 0 {
        lemma_last_taken_decides(state, events.drop_last());
    }
}

/// A search ends in text only after a complete run: the reports it took
/// are those of a search in which every action succeeds, in their order,
/// and the text is that of the slots in the last of them.
pub proof fn lemma_text_needs_complete_run(a: u16, b: u16, events: Seq<Event>)
    requires
        replay(start(a, b), events).stage is Decoded,
    ensures
        ({
            let reports = taken(start(a, b), events);
            &&& reports.len() == 6
            &&& reports[5] is StagingRead
            &&& reports == complete_run(reports[5]->StagingRead_0)
            &&& replay(start(a, b), events).stage == StageView::Decoded(
                joined(stored_matches(reports[5]->StagingRead_0@)),
            )
        }),
{
    lemma_reports_taken_in_order(a, b, events);
    lemma_last_taken_decides(start(a, b), events);
    let reports = taken(start(a, b), events);
    assert(place(reports[0]) == Some(0nat));
    assert(place(reports[1]) == Some(1nat));
    assert(place(reports[2]) == Some(2nat));
    assert(place(reports[3]) == Some(3nat));
    assert(place(reports[4]) == Some(4nat));
    assert(place(reports[5]) == Some(5nat));
}

} // verus!
