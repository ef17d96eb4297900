//! What a sync reply makes the client do.
use ruma_client_api::r0::sync::sync_events;
use vstd::prelude::*;

use crate::base_client::BaseClientView;
use crate::error::ClientError;
use crate::outside::{
    decode_sync, is_sync_error, is_sync_response, response_holds, sync_reply,
};

verus! {

/// What a sync reply says of one joined room.
#[derive(Debug)]
pub struct JoinedRoom {
    /// The id of the room.
    pub room_id: String,
    /// For each state event of the room, whether it is a valid one.
    pub state: Vec<bool>,
    /// The number of events in the room's timeline.
    pub timeline: usize,
}

/// The value of a [`JoinedRoom`].
pub struct JoinedRoomView {
    pub room_id: Seq<char>,
    pub state: Seq<bool>,
    pub timeline: nat,
}

impl View for JoinedRoom {
    type V = JoinedRoomView;

    open spec fn view(&self) -> JoinedRoomView {
        JoinedRoomView {
            room_id: self.room_id@,
            state: self.state@,
            timeline: self.timeline as nat,
        }
    }
}

/// The values of a sequence of rooms.
pub open spec fn room_views(rooms: Seq<JoinedRoom>) -> Seq<JoinedRoomView> {
    rooms.map_values(|room: JoinedRoom| room@)
}

/// The places in the joined rooms of a reply are machine numbers.
pub open spec fn rooms_fit(rooms: Seq<JoinedRoomView>) -> bool {
    &&& rooms.len() <= usize::MAX
    &&& forall|i: int|
        0 <= i < rooms.len() ==> (#[trigger] rooms[i]).state.len() <= usize::MAX
            && rooms[i].timeline <= usize::MAX
}

/// A sync reply, and what the client reads of it.
pub struct SyncReply {
    /// The token to go on from in the next sync.
    pub next_batch: String,
    /// The rooms that the user has joined, in some order.
    pub rooms: Vec<JoinedRoom>,
    /// The reply itself, with its events.
    pub response: sync_events::IncomingResponse,
}

/// One thing to do for a sync reply. Rooms go by their place in the run, events
/// by their place in the room, and callbacks by their place in the list of
/// callbacks.
#[derive(Clone, Copy, Debug, PartialEq, Eq, Structural)]
pub enum SyncAction {
    /// Hand a state event to its room.
    ReceiveStateEvent { room: usize, event: usize },
    /// Take hold of a room, whose timeline comes next.
    EnterRoom { room: usize },
    /// Hand a timeline event to the room that was entered.
    ReceiveTimelineEvent { room: usize, event: usize },
    /// Call a callback with a timeline event, and keep what it returns.
    CallBack { room: usize, event: usize, callback: usize },
    /// Wait for what a callback has returned.
    Await { callback: usize },
    /// Take the sync token of the reply.
    ReceiveSyncResponse,
}

impl SyncAction {
    /// The action speaks of rooms and events that a reply has.
    pub open spec fn within(self, rooms: Seq<JoinedRoomView>) -> bool {
        match self {
            SyncAction::ReceiveStateEvent { room, event } => room < rooms.len() && event
                < rooms[room as int].state.len() && rooms[room as int].state[event as int],
            SyncAction::EnterRoom { room } => room < rooms.len(),
            SyncAction::ReceiveTimelineEvent { room, event } => room < rooms.len() && event
                < rooms[room as int].timeline,
            SyncAction::CallBack { room, event, callback: _ } => room < rooms.len() && event
                < rooms[room as int].timeline,
            SyncAction::Await { callback: _ } => true,
            SyncAction::ReceiveSyncResponse => true,
        }
    }
}

/// How many callbacks there are when a timeline event is handed on, for each
/// room and each event.
pub type Counts = spec_fn(int, int) -> nat;

/// What is done for the state events of a room, from one of them on: the valid
/// ones are handed over in order and the others are passed over.
pub open spec fn state_plan(room: int, state: Seq<bool>, from: int) -> Seq<SyncAction>
    decreases state.len() - from,
{
    if from < 0 || from >= state.len() {
        Seq::empty()
    } else if state[from] {
        seq![SyncAction::ReceiveStateEvent { room: room as usize, event: from as usize }]
            + state_plan(room, state, from + 1)
    } else {
        state_plan(room, state, from + 1)
    }
}

/// Every callback, from one of them on, is called with an event.
pub open spec fn call_plan(room: int, event: int, from: int, callbacks: nat) -> Seq<SyncAction> {
    Seq::new(
        (callbacks - from) as nat,
        |i: int|
            SyncAction::CallBack {
                room: room as usize,
                event: event as usize,
                callback: (from + i) as usize,
            },
    )
}

/// What the callbacks, from one of them on, have returned is waited for.
pub open spec fn await_plan(from: int, callbacks: nat) -> Seq<SyncAction> {
    Seq::new(
        (callbacks - from) as nat,
        |i: int| SyncAction::Await { callback: (from + i) as usize },
    )
}

/// What is done for one event of a timeline: the room gets it, then every
/// callback is called with it, then every callback is waited for.
pub open spec fn event_plan(room: int, event: int, callbacks: nat) -> Seq<SyncAction> {
    seq![SyncAction::ReceiveTimelineEvent { room: room as usize, event: event as usize }]
        + call_plan(room, event, 0, callbacks) + await_plan(0, callbacks)
}

/// What is done for the timeline of a room, from one event on, and at its end.
pub open spec fn timeline_plan(room: int, timeline: nat, from: int, counts: Counts) -> Seq<
    SyncAction,
>
    decreases timeline - from,
{
    if from < 0 || from >= timeline {
        seq![SyncAction::ReceiveSyncResponse]
    } else {
        event_plan(room, from, counts(room, from)) + timeline_plan(
            room,
            timeline,
            from + 1,
            counts,
        )
    }
}

/// What is done for one joined room.
pub open spec fn room_plan(room: int, joined: JoinedRoomView, counts: Counts) -> Seq<SyncAction> {
    state_plan(room, joined.state, 0) + seq![SyncAction::EnterRoom { room: room as usize }]
        + timeline_plan(room, joined.timeline, 0, counts)
}

/// What is done for the joined rooms of a reply, from one of them on. For every
/// room the sync token is taken at its end; if the reply has no joined room, that
/// is all there is to do.
pub open spec fn sync_plan(rooms: Seq<JoinedRoomView>, from: int, counts: Counts) -> Seq<SyncAction>
    decreases rooms.len() - from,
{
    if from < 0 || from >= rooms.len() {
        if from == 0 {
            seq![SyncAction::ReceiveSyncResponse]
        } else {
            Seq::empty()
        }
    } else {
        room_plan(from, rooms[from], counts) + sync_plan(rooms, from + 1, counts)
    }
}

/// The room and the event that callbacks are called with after an action.
pub open spec fn dispatched_by(action: Option<SyncAction>) -> Option<(int, int)> {
    match action {
        Some(SyncAction::ReceiveTimelineEvent { room, event }) => Some((room as int, event as int)),
        _ => None,
    }
}

/// Whether one event, given by its room and its place there, comes before
/// another one.
pub open spec fn comes_before(a: (int, int), b: (int, int)) -> bool {
    a.0 < b.0 || (a.0 == b.0 && a.1 < b.1)
}

/// Where a run has got to within a room.
#[derive(Clone, Copy)]
enum Phase {
    /// The state events from this one on are still to come.
    State(usize),
    /// The timeline events from this one on are still to come.
    Timeline(usize),
    /// The room has this event, and no callback has it.
    Dispatch(usize),
    /// So many callbacks, from this one on, are still to be called.
    Call { event: usize, callback: usize, callbacks: usize },
    /// So many callbacks, from this one on, are still to be waited for.
    Await { event: usize, callback: usize, callbacks: usize },
}

/// Where a run has got to.
#[derive(Clone, Copy)]
struct Cursor {
    room: usize,
    phase: Phase,
}

impl Cursor {
    /// The cursor stands at a place that the rooms have, or behind them.
    spec fn fits(self, rooms: Seq<JoinedRoomView>) -> bool {
        if self.room >= rooms.len() {
            self.phase is State
        } else {
            match self.phase {
                Phase::State(event) => event <= rooms[self.room as int].state.len(),
                Phase::Timeline(event) => event <= rooms[self.room as int].timeline,
                Phase::Dispatch(event) => event < rooms[self.room as int].timeline,
                Phase::Call { event, callback, callbacks } => event
                    < rooms[self.room as int].timeline && callback < callbacks,
                Phase::Await { event, callback, callbacks } => event
                    < rooms[self.room as int].timeline && callback < callbacks,
            }
        }
    }

    /// What is still to be done.
    spec fn plan(self, rooms: Seq<JoinedRoomView>, counts: Counts) -> Seq<SyncAction> {
        let room = self.room as int;
        let timeline = rooms[room].timeline;
        if room >= rooms.len() {
            sync_plan(rooms, room, counts)
        } else {
            (match self.phase {
                Phase::State(event) => state_plan(room, rooms[room].state, event as int)
                    + seq![SyncAction::EnterRoom { room: self.room }] + timeline_plan(
                    room,
                    timeline,
                    0,
                    counts,
                ),
                Phase::Timeline(event) => timeline_plan(room, timeline, event as int, counts),
                Phase::Dispatch(event) => call_plan(
                    room,
                    event as int,
                    0,
                    counts(room, event as int),
                ) + await_plan(0, counts(room, event as int)) + timeline_plan(
                    room,
                    timeline,
                    event + 1,
                    counts,
                ),
                Phase::Call { event, callback, callbacks } => call_plan(
                    room,
                    event as int,
                    callback as int,
                    callbacks as nat,
                ) + await_plan(0, callbacks as nat) + timeline_plan(
                    room,
                    timeline,
                    event + 1,
                    counts,
                ),
                Phase::Await { event, callback, callbacks } => await_plan(
                    callback as int,
                    callbacks as nat,
                ) + timeline_plan(room, timeline, event + 1, counts),
            }) + sync_plan(rooms, room + 1, counts)
        }
    }

    /// The first event of the room that no callback has been called with.
    spec fn place(self) -> (int, int) {
        (
            self.room as int,
            match self.phase {
                Phase::State(_) => 0,
                Phase::Timeline(event) => event as int,
                Phase::Dispatch(event) => event as int,
                Phase::Call { event, callback: _, callbacks: _ } => event + 1,
                Phase::Await { event, callback: _, callbacks: _ } => event + 1,
            },
        )
    }

    /// The event that callbacks are about to be called with.
    spec fn dispatching(self) -> Option<(int, int)> {
        match self.phase {
            Phase::Dispatch(event) => Some((self.room as int, event as int)),
            _ => None,
        }
    }
}

/// The work that a sync reply asks for, done up to some point.
pub struct SyncRun {
    next_batch: String,
    rooms: Vec<JoinedRoom>,
    at: Cursor,
}

impl SyncRun {
    #[verifier::type_invariant]
    spec fn cursor_fits(self) -> bool {
        self.at.fits(room_views(self.rooms@))
    }

    /// The sync token of the reply.
    pub closed spec fn next_batch(self) -> Seq<char> {
        self.next_batch@
    }

    /// The joined rooms of the reply.
    pub closed spec fn rooms(self) -> Seq<JoinedRoomView> {
        room_views(self.rooms@)
    }

    /// What is still to be done, where the callbacks are as many as `counts`
    /// says when each event's turn comes.
    pub closed spec fn plan(self, counts: Counts) -> Seq<SyncAction> {
        self.at.plan(self.rooms(), counts)
    }

    /// The room and the event that callbacks are about to be called with.
    pub closed spec fn dispatching(self) -> Option<(int, int)> {
        self.at.dispatching()
    }

    /// The room that the run is in, and the first of its events that no callback
    /// has been called with.
    pub closed spec fn place(self) -> (int, int) {
        self.at.place()
    }

    /// Whether `counts` has it right that there are so many callbacks now.
    pub open spec fn agrees(self, counts: Counts, callbacks: nat) -> bool {
        self.dispatching() matches Some(at) ==> counts(at.0, at.1) == callbacks
    }

    /// What is to be done next, if anything is, when there are so many
    /// callbacks.
    pub open spec fn upcoming(self, callbacks: nat) -> Option<SyncAction> {
        let plan = self.plan(|room: int, event: int| callbacks);
        if plan.len() == 0 {
            None
        } else {
            Some(plan[0])
        }
    }

    /// Whether a step, taken when there are so many callbacks, is this action and
    /// leads to that run. The action is the first of what was still to be done,
    /// and the rest of it is left. Nothing is done where nothing was left. The
    /// run goes back to no event, and leaves the one that callbacks are called
    /// with. Callbacks are about to be called with an event just when its room has
    /// got it by this step.
    pub open spec fn steps_to(
        self,
        callbacks: nat,
        action: Option<SyncAction>,
        next: SyncRun,
    ) -> bool {
        &&& action == self.upcoming(callbacks)
        &&& action matches Some(action) ==> action.within(self.rooms())
        &&& action is None ==> next == self
        &&& next.rooms() == self.rooms()
        &&& next.next_batch() == self.next_batch()
        &&& forall|counts: Counts|
            #![trigger self.plan(counts)]
            #![trigger next.plan(counts)]
            self.agrees(counts, callbacks) ==> self.plan(counts) == match action {
                Some(action) => seq![action] + next.plan(counts),
                None => Seq::empty(),
            }
        &&& action is Some ==> next.dispatching() == dispatched_by(action)
        &&& next.place() == self.place() || comes_before(self.place(), next.place())
        &&& self.dispatching() matches Some(at) ==> at == self.place() && comes_before(
            at,
            next.place(),
        )
    }

    /// Starts on a sync reply.
    pub fn new(next_batch: String, rooms: Vec<JoinedRoom>) -> (run: SyncRun)
        ensures
            run.next_batch() == next_batch@,
            run.rooms() == room_views(rooms@),
            rooms_fit(run.rooms()),
            run.dispatching() is None,
            forall|counts: Counts| #[trigger]
                run.plan(counts) == sync_plan(room_views(rooms@), 0, counts),
    {
        proof {
            let views = room_views(rooms@);
            assert(rooms.len() == rooms@.len());
            assert forall|i: int| 0 <= i < views.len() implies (#[trigger] views[i]).state.len()
                <= usize::MAX by {
                assert(rooms@[i].state.len() == views[i].state.len());
            }
        }
        SyncRun { next_batch, rooms, at: Cursor { room: 0, phase: Phase::State(0) } }
    }

    /// The next step at a state event.
    fn advance_state(&self, room: usize, event: usize) -> (r: (SyncAction, Cursor))
        requires
            room < self.rooms().len(),
            event <= self.rooms()[room as int].state.len(),
        ensures
            r.0.within(self.rooms()),
            r.1.fits(self.rooms()),
            r.1.place() == (room as int, 0int),
            r.1.dispatching() is None,
            r.0 !is ReceiveTimelineEvent,
            forall|counts: Counts|
                #![trigger r.1.plan(self.rooms(), counts)]
                (Cursor { room, phase: Phase::State(event) }).plan(self.rooms(), counts)
                    == seq![r.0] + r.1.plan(self.rooms(), counts),
    {
        let ghost start = Cursor { room, phase: Phase::State(event) };
        let mut i: usize = event;
        while i < self.rooms[room].state.len()
            invariant
                room < self.rooms().len(),
                event <= i <= self.rooms()[room as int].state.len(),
                start == (Cursor { room, phase: Phase::State(event) }),
                state_plan(room as int, self.rooms()[room as int].state, event as int)
                    == state_plan(room as int, self.rooms()[room as int].state, i as int),
            decreases self.rooms()[room as int].state.len() - i,
        {
            if self.rooms[room].state[i] {
                let action = SyncAction::ReceiveStateEvent { room, event: i };
                let next = Cursor { room, phase: Phase::State(i + 1) };
                let ghost state = self.rooms()[room as int].state;
                assert(state_plan(room as int, state, i as int) == seq![action] + state_plan(
                    room as int,
                    state,
                    i + 1,
                ));
                assert forall|counts: Counts|
                    #![trigger next.plan(self.rooms(), counts)]
                    start.plan(self.rooms(), counts) == seq![action] + next.plan(
                        self.rooms(),
                        counts,
                    ) by {
                    assert(start.plan(self.rooms(), counts) =~= seq![action] + next.plan(
                        self.rooms(),
                        counts,
                    ));
                }
                return (action, next);
            }
            i += 1;
        }
        let action = SyncAction::EnterRoom { room };
        let next = Cursor { room, phase: Phase::Timeline(0) };
        assert forall|counts: Counts|
            #![trigger next.plan(self.rooms(), counts)]
            start.plan(self.rooms(), counts) == seq![action] + next.plan(self.rooms(), counts) by {
            assert(start.plan(self.rooms(), counts) =~= seq![action] + next.plan(
                self.rooms(),
                counts,
            ));
        }
        (action, next)
    }

    /// The next step at an event of a timeline, or at its end.
    fn advance_timeline(&self, room: usize, event: usize) -> (r: (SyncAction, Cursor))
        requires
            room < self.rooms().len(),
            event <= self.rooms()[room as int].timeline,
        ensures
            r.0.within(self.rooms()),
            r.1.fits(self.rooms()),
            r.1.place() == (room as int, event as int) || r.1.place() == (room + 1, 0int),
            r.1.dispatching() matches Some(at) ==> at == r.1.place(),
            r.1.dispatching() == dispatched_by(Some(r.0)),
            forall|counts: Counts|
                #![trigger r.1.plan(self.rooms(), counts)]
                (Cursor { room, phase: Phase::Timeline(event) }).plan(self.rooms(), counts)
                    == seq![r.0] + r.1.plan(self.rooms(), counts),
    {
        let ghost start = Cursor { room, phase: Phase::Timeline(event) };
        assert(room < self.rooms.len());
        let (action, next) = if event < self.rooms[room].timeline {
            (
                SyncAction::ReceiveTimelineEvent { room, event },
                Cursor { room, phase: Phase::Dispatch(event) },
            )
        } else {
            (SyncAction::ReceiveSyncResponse, Cursor { room: room + 1, phase: Phase::State(0) })
        };
        assert forall|counts: Counts|
            #![trigger next.plan(self.rooms(), counts)]
            start.plan(self.rooms(), counts) == seq![action] + next.plan(self.rooms(), counts) by {
            assert(start.plan(self.rooms(), counts) =~= seq![action] + next.plan(
                self.rooms(),
                counts,
            ));
        }
        (action, next)
    }

    /// The next step, and where it leads.
    fn advance(&self, callbacks: usize) -> (r: Option<(SyncAction, Cursor)>)
        ensures
            r matches Some(step) ==> step.0.within(self.rooms()) && step.1.fits(self.rooms()),
            r matches Some(step) ==> step.1.dispatching() == dispatched_by(Some(step.0)),
            r matches Some(step) ==> step.1.place() == self.place() || comes_before(
                self.place(),
                step.1.place(),
            ),
            r matches Some(step) ==> self.dispatching() matches Some(at) ==> comes_before(
                at,
                step.1.place(),
            ),
            forall|counts: Counts|
                #![trigger self.plan(counts)]
                self.agrees(counts, callbacks as nat) ==> self.plan(counts) == match r {
                    Some(step) => seq![step.0] + step.1.plan(self.rooms(), counts),
                    None => Seq::empty(),
                },
    {
        proof {
            use_type_invariant(self);
        }
        let room = self.at.room;
        if room >= self.rooms.len() {
            return if room == 0 {
                Some(
                    (SyncAction::ReceiveSyncResponse, Cursor { room: 1, phase: Phase::State(0) }),
                )
            } else {
                None
            };
        }
        match self.at.phase {
            Phase::State(event) => Some(self.advance_state(room, event)),
            Phase::Timeline(event) => Some(self.advance_timeline(room, event)),
            Phase::Dispatch(event) => {
                if callbacks == 0 {
                    let step = self.advance_timeline(room, event + 1);
                    Some(step)
                } else {
                    Some(self.advance_call(room, event, 0, callbacks))
                }
            },
            Phase::Call { event, callback, callbacks } => Some(
                self.advance_call(room, event, callback, callbacks),
            ),
            Phase::Await { event, callback, callbacks } => {
                let next = if callback + 1 < callbacks {
                    Phase::Await { event, callback: callback + 1, callbacks }
                } else {
                    Phase::Timeline(event + 1)
                };
                Some((SyncAction::Await { callback }, Cursor { room, phase: next }))
            },
        }
    }

    /// The next step at a callback that is to be called.
    fn advance_call(&self, room: usize, event: usize, callback: usize, callbacks: usize) -> (r: (
        SyncAction,
        Cursor,
    ))
        requires
            room < self.rooms().len(),
            event < self.rooms()[room as int].timeline,
            callback < callbacks,
        ensures
            r.0.within(self.rooms()),
            r.1.fits(self.rooms()),
            r.1.place() == (room as int, event + 1),
            r.1.dispatching() is None,
            r.0 !is ReceiveTimelineEvent,
            forall|counts: Counts|
                #![trigger r.1.plan(self.rooms(), counts)]
                (Cursor { room, phase: Phase::Call { event, callback, callbacks } }).plan(
                    self.rooms(),
                    counts,
                ) == seq![r.0] + r.1.plan(self.rooms(), counts),
    {
        let ghost start = Cursor { room, phase: Phase::Call { event, callback, callbacks } };
        let phase = if callback + 1 < callbacks {
            Phase::Call { event, callback: callback + 1, callbacks }
        } else {
            Phase::Await { event, callback: 0, callbacks }
        };
        let (action, next) = (
            SyncAction::CallBack { room, event, callback },
            Cursor { room, phase },
        );
        assert forall|counts: Counts|
            #![trigger next.plan(self.rooms(), counts)]
            start.plan(self.rooms(), counts) == seq![action] + next.plan(self.rooms(), counts) by {
            assert(start.plan(self.rooms(), counts) =~= seq![action] + next.plan(
                self.rooms(),
                counts,
            ));
        }
        (action, next)
    }

    /// What is to be done next, when there are so many callbacks.
    pub fn peek(&self, callbacks: usize) -> (r: Option<SyncAction>)
        ensures
            r == self.upcoming(callbacks as nat),
            r matches Some(action) ==> action.within(self.rooms()),
    {
        match self.advance(callbacks) {
            Some((action, _)) => Some(action),
            None => None,
        }
    }

    /// Takes the next step, when there are so many callbacks.
    pub fn next(&mut self, callbacks: usize) -> (r: Option<SyncAction>)
        ensures
            old(self).steps_to(callbacks as nat, r, *final(self)),
    {
        proof {
            use_type_invariant(&*self);
        }
        match self.advance(callbacks) {
            Some((action, at)) => {
                self.at = at;
                Some(action)
            },
            None => None,
        }
    }

    /// A joined room of the reply.
    pub fn room(&self, room: usize) -> (r: &JoinedRoom)
        requires
            room < self.rooms().len(),
        ensures
            r@ == self.rooms()[room as int],
    {
        &self.rooms[room]
    }

    /// The sync token of the reply.
    pub fn batch(&self) -> (r: &String)
        ensures
            r@ == self.next_batch(),
    {
        &self.next_batch
    }

    /// Reads the reply to a sync request and starts on it. The reply itself
    /// comes back too, for its events.
    pub fn receive(status: u16, body: Vec<u8>) -> (r: Result<
        (sync_events::IncomingResponse, SyncRun),
        ClientError,
    >)
        requires
            100 <= status <= 999,
        ensures
            r is Ok <==> sync_reply(status, body@) is Some,
            r is Ok ==> 200 <= status <= 299,
            r matches Ok((response, run)) ==> {
                &&& sync_reply(status, body@) == Some((run.next_batch(), run.rooms().to_multiset()))
                &&& rooms_fit(run.rooms())
                &&& run.dispatching() is None
                &&& is_sync_response(status, body@, response)
                &&& response_holds(response) == (run.next_batch(), run.rooms().to_multiset())
                &&& forall|counts: Counts| #[trigger]
                    run.plan(counts) == sync_plan(run.rooms(), 0, counts)
            },
            r matches Err(e) ==> (e matches ClientError::RumaApi(cause) && is_sync_error(
                status,
                body@,
                cause,
            )),
    {
        match decode_sync(status, body) {
            Ok(reply) => Ok((reply.response, SyncRun::new(reply.next_batch, reply.rooms))),
            Err(e) => Err(ClientError::RumaApi(e)),
        }
    }
}

/// What the client's state becomes by a step.
pub open spec fn after_action(
    base: BaseClientView,
    action: Option<SyncAction>,
    rooms: Seq<JoinedRoomView>,
    next_batch: Seq<char>,
) -> BaseClientView {
    match action {
        Some(SyncAction::ReceiveStateEvent { room, event: _ }) => base.with_room(
            rooms[room as int].room_id,
        ),
        Some(SyncAction::ReceiveSyncResponse) => base.with_token(next_batch),
        _ => base,
    }
}

/// Whether a step can be taken: a room that is to be entered is one that the
/// client knows.
pub open spec fn step_allowed(
    base: BaseClientView,
    action: Option<SyncAction>,
    rooms: Seq<JoinedRoomView>,
) -> bool {
    action matches Some(SyncAction::EnterRoom { room }) ==> base.joined_rooms.contains(
        rooms[room as int].room_id,
    )
}

} // verus!
