//! What holds of the work that a sync reply asks for.
use vstd::prelude::*;

use crate::base_client::BaseClientView;
use crate::sync::{
    after_action, await_plan, call_plan, comes_before, event_plan, room_plan, rooms_fit, state_plan,
    step_allowed, sync_plan, timeline_plan, Counts, JoinedRoomView, SyncAction, SyncRun,
};

verus! {

// ------------------------------------------------- what is done, how often

/// How often an action occurs.
pub open spec fn times(plan: Seq<SyncAction>, action: SyncAction) -> nat
    decreases plan.len(),
{
    if plan.len() == 0 {
        0
    } else {
        times(plan.drop_last(), action) + if plan.last() == action {
            1nat
        } else {
            0
        }
    }
}

/// How often a callback is called, with whatever event.
pub open spec fn calls(plan: Seq<SyncAction>, callback: usize) -> nat
    decreases plan.len(),
{
    if plan.len() == 0 {
        0
    } else {
        calls(plan.drop_last(), callback) + match plan.last() {
            SyncAction::CallBack { room: _, event: _, callback: c } => if c == callback {
                1nat
            } else {
                0
            },
            _ => 0,
        }
    }
}

proof fn times_of_parts(p: Seq<SyncAction>, q: Seq<SyncAction>, action: SyncAction)
    ensures
        times(p + q, action) == times(p, action) + times(q, action),
    decreases q.len(),
{
    if q.len() == 0 {
        assert(p + q =~= p);
    } else {
        assert((p + q).drop_last() =~= p + q.drop_last());
        times_of_parts(p, q.drop_last(), action);
    }
}

proof fn calls_of_parts(p: Seq<SyncAction>, q: Seq<SyncAction>, callback: usize)
    ensures
        calls(p + q, callback) == calls(p, callback) + calls(q, callback),
    decreases q.len(),
{
    if q.len() == 0 {
        assert(p + q =~= p);
    } else {
        assert((p + q).drop_last() =~= p + q.drop_last());
        calls_of_parts(p, q.drop_last(), callback);
    }
}

proof fn one_action(x: SyncAction, action: SyncAction, callback: usize)
    ensures
        times(seq![x], action) == if x == action {
            1nat
        } else {
            0
        },
        x !is CallBack ==> calls(seq![x], callback) == 0,
{
    assert(seq![x].drop_last() =~= Seq::empty());
    reveal_with_fuel(times, 2);
    reveal_with_fuel(calls, 2);
}

/// The places in a reply, and the numbers of callbacks, are machine numbers.
pub open spec fn countable(rooms: Seq<JoinedRoomView>, counts: Counts) -> bool {
    &&& rooms_fit(rooms)
    &&& forall|i: int, j: int| #[trigger] counts(i, j) <= usize::MAX
}

proof fn times_in_state(room: int, state: Seq<bool>, from: int, action: SyncAction, callback: usize)
    requires
        0 <= room <= usize::MAX,
        state.len() <= usize::MAX,
        0 <= from <= state.len(),
    ensures
        times(state_plan(room, state, from), action) == match action {
            SyncAction::ReceiveStateEvent { room: r, event } => if r == room && from <= event
                < state.len() && state[event as int] {
                1nat
            } else {
                0
            },
            _ => 0,
        },
        calls(state_plan(room, state, from), callback) == 0,
    decreases state.len() - from,
{
    if from < state.len() {
        times_in_state(room, state, from + 1, action, callback);
        let first = SyncAction::ReceiveStateEvent { room: room as usize, event: from as usize };
        times_of_parts(seq![first], state_plan(room, state, from + 1), action);
        calls_of_parts(seq![first], state_plan(room, state, from + 1), callback);
        one_action(first, action, callback);
    }
}

proof fn times_in_calls(room: int, event: int, n: nat, action: SyncAction, callback: usize)
    requires
        0 <= room <= usize::MAX,
        0 <= event <= usize::MAX,
        n <= usize::MAX,
    ensures
        times(call_plan(room, event, 0, n), action) == match action {
            SyncAction::CallBack { room: r, event: e, callback: c } => if r == room && e == event
                && c < n {
                1nat
            } else {
                0
            },
            _ => 0,
        },
        calls(call_plan(room, event, 0, n), callback) == if callback < n {
            1nat
        } else {
            0
        },
    decreases n,
{
    if n > 0 {
        times_in_calls(room, event, (n - 1) as nat, action, callback);
        assert(call_plan(room, event, 0, n).drop_last() =~= call_plan(
            room,
            event,
            0,
            (n - 1) as nat,
        ));
    }
}

proof fn times_in_awaits(n: nat, action: SyncAction, callback: usize)
    requires
        n <= usize::MAX,
    ensures
        times(await_plan(0, n), action) == match action {
            SyncAction::Await { callback: c } => if c < n {
                1nat
            } else {
                0
            },
            _ => 0,
        },
        calls(await_plan(0, n), callback) == 0,
    decreases n,
{
    if n > 0 {
        times_in_awaits((n - 1) as nat, action, callback);
        assert(await_plan(0, n).drop_last() =~= await_plan(0, (n - 1) as nat));
    }
}

proof fn times_in_event(room: int, event: int, n: nat, action: SyncAction, callback: usize)
    requires
        0 <= room <= usize::MAX,
        0 <= event <= usize::MAX,
        n <= usize::MAX,
    ensures
        times(event_plan(room, event, n), action) == match action {
            SyncAction::ReceiveTimelineEvent { room: r, event: e } => if r == room && e == event {
                1nat
            } else {
                0
            },
            SyncAction::CallBack { room: r, event: e, callback: c } => if r == room && e == event
                && c < n {
                1nat
            } else {
                0
            },
            SyncAction::Await { callback: c } => if c < n {
                1nat
            } else {
                0
            },
            _ => 0,
        },
        calls(event_plan(room, event, n), callback) == if callback < n {
            1nat
        } else {
            0
        },
{
    let first = SyncAction::ReceiveTimelineEvent { room: room as usize, event: event as usize };
    let called = call_plan(room, event, 0, n);
    one_action(first, action, callback);
    times_in_calls(room, event, n, action, callback);
    times_in_awaits(n, action, callback);
    times_of_parts(seq![first], called, action);
    times_of_parts(seq![first] + called, await_plan(0, n), action);
    calls_of_parts(seq![first], called, callback);
    calls_of_parts(seq![first] + called, await_plan(0, n), callback);
}

proof fn times_in_timeline(
    room: int,
    timeline: nat,
    from: int,
    counts: Counts,
    action: SyncAction,
    callback: usize,
)
    requires
        0 <= room <= usize::MAX,
        0 <= from <= timeline <= usize::MAX,
        forall|i: int, j: int| #[trigger] counts(i, j) <= usize::MAX,
    ensures
        action !is Await ==> times(timeline_plan(room, timeline, from, counts), action)
            == match action {
            SyncAction::ReceiveTimelineEvent { room: r, event: e } => if r == room && from <= e
                < timeline {
                1nat
            } else {
                0
            },
            SyncAction::CallBack { room: r, event: e, callback: c } => if r == room && from <= e
                < timeline && c < counts(room, e as int) {
                1nat
            } else {
                0
            },
            SyncAction::ReceiveSyncResponse => 1,
            _ => 0,
        },
        times(timeline_plan(room, timeline, from, counts), SyncAction::Await { callback }) == calls(
            timeline_plan(room, timeline, from, counts),
            callback,
        ),
    decreases timeline - from,
{
    let awaited = SyncAction::Await { callback };
    if from < timeline {
        let n = counts(room, from);
        let rest = timeline_plan(room, timeline, from + 1, counts);
        times_in_timeline(room, timeline, from + 1, counts, action, callback);
        times_in_event(room, from, n, action, callback);
        times_in_event(room, from, n, awaited, callback);
        times_of_parts(event_plan(room, from, n), rest, action);
        times_of_parts(event_plan(room, from, n), rest, awaited);
        calls_of_parts(event_plan(room, from, n), rest, callback);
    } else {
        one_action(SyncAction::ReceiveSyncResponse, action, callback);
        one_action(SyncAction::ReceiveSyncResponse, awaited, callback);
    }
}

/// Whether an action is asked for by the rooms from one of them on.
pub open spec fn asked_for(
    action: SyncAction,
    rooms: Seq<JoinedRoomView>,
    from: int,
    counts: Counts,
) -> bool {
    match action {
        SyncAction::ReceiveStateEvent { room, event } => from <= room < rooms.len() && event
            < rooms[room as int].state.len() && rooms[room as int].state[event as int],
        SyncAction::EnterRoom { room } => from <= room < rooms.len(),
        SyncAction::ReceiveTimelineEvent { room, event } => from <= room < rooms.len() && event
            < rooms[room as int].timeline,
        SyncAction::CallBack { room, event, callback } => from <= room < rooms.len() && event
            < rooms[room as int].timeline && callback < counts(room as int, event as int),
        _ => false,
    }
}

proof fn times_in_sync(
    rooms: Seq<JoinedRoomView>,
    from: int,
    counts: Counts,
    action: SyncAction,
    callback: usize,
)
    requires
        countable(rooms, counts),
        0 <= from <= rooms.len(),
    ensures
        action !is Await ==> times(sync_plan(rooms, from, counts), action) == match action {
            SyncAction::ReceiveSyncResponse => if rooms.len() == 0 {
                1
            } else {
                (rooms.len() - from) as nat
            },
            _ => if asked_for(action, rooms, from, counts) {
                1nat
            } else {
                0
            },
        },
        times(sync_plan(rooms, from, counts), SyncAction::Await { callback }) == calls(
            sync_plan(rooms, from, counts),
            callback,
        ),
    decreases rooms.len() - from,
{
    if from < rooms.len() {
        let awaited = SyncAction::Await { callback };
        let joined = rooms[from];
        let states = state_plan(from, joined.state, 0);
        let enter = SyncAction::EnterRoom { room: from as usize };
        let events = timeline_plan(from, joined.timeline, 0, counts);
        let rest = sync_plan(rooms, from + 1, counts);
        times_in_sync(rooms, from + 1, counts, action, callback);
        times_in_state(from, joined.state, 0, action, callback);
        times_in_state(from, joined.state, 0, awaited, callback);
        one_action(enter, action, callback);
        one_action(enter, awaited, callback);
        times_in_timeline(from, joined.timeline, 0, counts, action, callback);
        times_of_parts(states, seq![enter], action);
        times_of_parts(states + seq![enter], events, action);
        times_of_parts(states + seq![enter] + events, rest, action);
        times_of_parts(states, seq![enter], awaited);
        times_of_parts(states + seq![enter], events, awaited);
        times_of_parts(states + seq![enter] + events, rest, awaited);
        calls_of_parts(states, seq![enter], callback);
        calls_of_parts(states + seq![enter], events, callback);
        calls_of_parts(states + seq![enter] + events, rest, callback);
    } else {
        one_action(SyncAction::ReceiveSyncResponse, action, callback);
        one_action(SyncAction::ReceiveSyncResponse, SyncAction::Await { callback }, callback);
    }
}

/// Every callback is called with every event of every joined room's timeline,
/// once each, and with nothing else.
pub proof fn every_event_reaches_every_callback(
    rooms: Seq<JoinedRoomView>,
    counts: Counts,
    room: usize,
    event: usize,
    callback: usize,
)
    requires
        countable(rooms, counts),
    ensures
        times(
            sync_plan(rooms, 0, counts),
            SyncAction::CallBack { room, event, callback },
        ) == if room < rooms.len() && event < rooms[room as int].timeline && callback < counts(
            room as int,
            event as int,
        ) {
            1nat
        } else {
            0
        },
{
    times_in_sync(
        rooms,
        0,
        counts,
        SyncAction::CallBack { room, event, callback },
        callback,
    );
}

/// Every call of a callback is waited for.
pub proof fn every_call_is_waited_for(
    rooms: Seq<JoinedRoomView>,
    counts: Counts,
    callback: usize,
)
    requires
        countable(rooms, counts),
    ensures
        times(sync_plan(rooms, 0, counts), SyncAction::Await { callback }) == calls(
            sync_plan(rooms, 0, counts),
            callback,
        ),
{
    times_in_sync(rooms, 0, counts, SyncAction::ReceiveSyncResponse, callback);
}

/// Every timeline event is handed to its room once, valid or not. Of the state
/// events just the valid ones are, once each. Every joined room is entered once,
/// and for every joined room the sync token of the reply is taken once. If there
/// is none, it is taken once all the same.
pub proof fn every_room_gets_its_events(
    rooms: Seq<JoinedRoomView>,
    counts: Counts,
    room: usize,
    event: usize,
)
    requires
        countable(rooms, counts),
    ensures
        times(
            sync_plan(rooms, 0, counts),
            SyncAction::ReceiveTimelineEvent { room, event },
        ) == if room < rooms.len() && event < rooms[room as int].timeline {
            1nat
        } else {
            0
        },
        times(
            sync_plan(rooms, 0, counts),
            SyncAction::ReceiveStateEvent { room, event },
        ) == if room < rooms.len() && event < rooms[room as int].state.len()
            && rooms[room as int].state[event as int] {
            1nat
        } else {
            0
        },
        times(sync_plan(rooms, 0, counts), SyncAction::EnterRoom { room }) == if room
            < rooms.len() {
            1nat
        } else {
            0
        },
        times(sync_plan(rooms, 0, counts), SyncAction::ReceiveSyncResponse) == if rooms.len() == 0 {
            1
        } else {
            rooms.len()
        },
{
    times_in_sync(rooms, 0, counts, SyncAction::ReceiveTimelineEvent { room, event }, 0);
    times_in_sync(rooms, 0, counts, SyncAction::ReceiveStateEvent { room, event }, 0);
    times_in_sync(rooms, 0, counts, SyncAction::EnterRoom { room }, 0);
    times_in_sync(rooms, 0, counts, SyncAction::ReceiveSyncResponse, 0);
}

/// The room has an event before any callback has it. The callbacks are called in
/// the order in which they were added. All of them are called before the first is
/// waited for, and they are waited for in the same order.
pub proof fn callbacks_keep_their_order(room: int, event: int, callbacks: nat, i: int)
    requires
        0 <= i < callbacks,
    ensures
        event_plan(room, event, callbacks).len() == 1 + 2 * callbacks,
        event_plan(room, event, callbacks)[0] == (SyncAction::ReceiveTimelineEvent {
            room: room as usize,
            event: event as usize,
        }),
        event_plan(room, event, callbacks)[1 + i] == (SyncAction::CallBack {
            room: room as usize,
            event: event as usize,
            callback: i as usize,
        }),
        event_plan(room, event, callbacks)[1 + callbacks + i] == (SyncAction::Await {
            callback: i as usize,
        }),
{
}

// ------------------------------------------- what becomes of the client

/// What the client's state becomes by a sequence of actions.
pub open spec fn after_plan(
    base: BaseClientView,
    plan: Seq<SyncAction>,
    rooms: Seq<JoinedRoomView>,
    next_batch: Seq<char>,
) -> BaseClientView
    decreases plan.len(),
{
    if plan.len() == 0 {
        base
    } else {
        after_plan(
            after_action(base, Some(plan[0]), rooms, next_batch),
            plan.skip(1),
            rooms,
            next_batch,
        )
    }
}

/// Whether every step of a sequence of actions can be taken.
pub open spec fn plan_allowed(
    base: BaseClientView,
    plan: Seq<SyncAction>,
    rooms: Seq<JoinedRoomView>,
    next_batch: Seq<char>,
) -> bool
    decreases plan.len(),
{
    plan.len() == 0 || (step_allowed(base, Some(plan[0]), rooms) && plan_allowed(
        after_action(base, Some(plan[0]), rooms, next_batch),
        plan.skip(1),
        rooms,
        next_batch,
    ))
}

proof fn effect_of_parts(
    base: BaseClientView,
    p: Seq<SyncAction>,
    q: Seq<SyncAction>,
    rooms: Seq<JoinedRoomView>,
    next_batch: Seq<char>,
)
    ensures
        after_plan(base, p + q, rooms, next_batch) == after_plan(
            after_plan(base, p, rooms, next_batch),
            q,
            rooms,
            next_batch,
        ),
        plan_allowed(base, p + q, rooms, next_batch) <==> plan_allowed(base, p, rooms, next_batch)
            && plan_allowed(after_plan(base, p, rooms, next_batch), q, rooms, next_batch),
    decreases p.len(),
{
    if p.len() == 0 {
        assert(p + q =~= q);
    } else {
        assert((p + q).skip(1) =~= p.skip(1) + q);
        let next = after_action(base, Some(p[0]), rooms, next_batch);
        effect_of_parts(next, p.skip(1), q, rooms, next_batch);
    }
}

proof fn effect_of_one(
    base: BaseClientView,
    x: SyncAction,
    rooms: Seq<JoinedRoomView>,
    next_batch: Seq<char>,
)
    ensures
        after_plan(base, seq![x], rooms, next_batch) == after_action(
            base,
            Some(x),
            rooms,
            next_batch,
        ),
        plan_allowed(base, seq![x], rooms, next_batch) <==> step_allowed(base, Some(x), rooms),
{
    let plan = seq![x];
    assert(plan.skip(1) =~= Seq::empty());
    let next = after_action(base, Some(x), rooms, next_batch);
    assert(after_plan(next, plan.skip(1), rooms, next_batch) == next);
    assert(plan_allowed(next, plan.skip(1), rooms, next_batch));
}

/// Actions that neither hand over state events nor enter rooms nor take the
/// token leave the client's state as it is.
proof fn no_effect(
    base: BaseClientView,
    plan: Seq<SyncAction>,
    rooms: Seq<JoinedRoomView>,
    next_batch: Seq<char>,
)
    requires
        forall|i: int|
            0 <= i < plan.len() ==> (#[trigger] plan[i] is ReceiveTimelineEvent || plan[i] is CallBack
                || plan[i] is Await),
    ensures
        after_plan(base, plan, rooms, next_batch) == base,
        plan_allowed(base, plan, rooms, next_batch),
    decreases plan.len(),
{
    if plan.len() > 0 {
        assert(plan[0] is ReceiveTimelineEvent || plan[0] is CallBack || plan[0] is Await);
        no_effect(base, plan.skip(1), rooms, next_batch);
    }
}

/// Whether one of a room's state events, from one of them on, is valid.
pub open spec fn has_valid_state(state: Seq<bool>, from: int) -> bool {
    exists|i: int| from <= i < state.len() && #[trigger] state[i]
}

proof fn effect_of_state(
    base: BaseClientView,
    room: int,
    from: int,
    rooms: Seq<JoinedRoomView>,
    next_batch: Seq<char>,
)
    requires
        0 <= room < rooms.len() <= usize::MAX,
        0 <= from <= rooms[room].state.len() <= usize::MAX,
    ensures
        after_plan(base, state_plan(room, rooms[room].state, from), rooms, next_batch)
            == if has_valid_state(rooms[room].state, from) {
            base.with_room(rooms[room].room_id)
        } else {
            base
        },
        plan_allowed(base, state_plan(room, rooms[room].state, from), rooms, next_batch),
    decreases rooms[room].state.len() - from,
{
    let state = rooms[room].state;
    let id = rooms[room].room_id;
    if from < state.len() {
        if state[from] {
            let first = SyncAction::ReceiveStateEvent { room: room as usize, event: from as usize };
            let rest = state_plan(room, state, from + 1);
            let next = base.with_room(id);
            assert(next.joined_rooms.insert(id) =~= next.joined_rooms);
            effect_of_state(next, room, from + 1, rooms, next_batch);
            effect_of_one(base, first, rooms, next_batch);
            effect_of_parts(base, seq![first], rest, rooms, next_batch);
        } else {
            effect_of_state(base, room, from + 1, rooms, next_batch);
            if has_valid_state(state, from) {
                let i = choose|i: int| from <= i < state.len() && #[trigger] state[i];
                assert(from + 1 <= i < state.len() && state[i]);
            }
        }
    }
}

proof fn effect_of_timeline(
    base: BaseClientView,
    room: int,
    timeline: nat,
    from: int,
    counts: Counts,
    rooms: Seq<JoinedRoomView>,
    next_batch: Seq<char>,
)
    requires
        0 <= from <= timeline,
    ensures
        after_plan(base, timeline_plan(room, timeline, from, counts), rooms, next_batch)
            == base.with_token(next_batch),
        plan_allowed(base, timeline_plan(room, timeline, from, counts), rooms, next_batch),
    decreases timeline - from,
{
    if from < timeline {
        let first = event_plan(room, from, counts(room, from));
        no_effect(base, first, rooms, next_batch);
        effect_of_timeline(base, room, timeline, from + 1, counts, rooms, next_batch);
        effect_of_parts(
            base,
            first,
            timeline_plan(room, timeline, from + 1, counts),
            rooms,
            next_batch,
        );
    } else {
        effect_of_one(base, SyncAction::ReceiveSyncResponse, rooms, next_batch);
    }
}

/// What the client's state becomes by the work for one room.
pub open spec fn after_room(
    base: BaseClientView,
    joined: JoinedRoomView,
    next_batch: Seq<char>,
) -> BaseClientView {
    (if has_valid_state(joined.state, 0) {
        base.with_room(joined.room_id)
    } else {
        base
    }).with_token(next_batch)
}

proof fn effect_of_room(
    base: BaseClientView,
    room: int,
    counts: Counts,
    rooms: Seq<JoinedRoomView>,
    next_batch: Seq<char>,
)
    requires
        0 <= room < rooms.len() <= usize::MAX,
        rooms[room].state.len() <= usize::MAX,
    ensures
        after_plan(base, room_plan(room, rooms[room], counts), rooms, next_batch) == after_room(
            base,
            rooms[room],
            next_batch,
        ),
        plan_allowed(base, room_plan(room, rooms[room], counts), rooms, next_batch) <==> (
        base.joined_rooms.contains(rooms[room].room_id) || has_valid_state(rooms[room].state, 0)),
{
    let states = state_plan(room, rooms[room].state, 0);
    let enter = SyncAction::EnterRoom { room: room as usize };
    let events = timeline_plan(room, rooms[room].timeline, 0, counts);
    let entered = after_plan(base, states, rooms, next_batch);
    effect_of_state(base, room, 0, rooms, next_batch);
    effect_of_one(entered, enter, rooms, next_batch);
    effect_of_timeline(entered, room, rooms[room].timeline, 0, counts, rooms, next_batch);
    effect_of_parts(base, states, seq![enter], rooms, next_batch);
    effect_of_parts(base, states + seq![enter], events, rooms, next_batch);
}

/// Whether the reply has a room of this id, from one room on, with a valid state
/// event.
pub open spec fn told_of(id: Seq<char>, rooms: Seq<JoinedRoomView>, from: int) -> bool {
    exists|i: int|
        from <= i < rooms.len() && (#[trigger] rooms[i]).room_id == id && has_valid_state(
            rooms[i].state,
            0,
        )
}

proof fn effect_of_sync(
    base: BaseClientView,
    from: int,
    counts: Counts,
    rooms: Seq<JoinedRoomView>,
    next_batch: Seq<char>,
)
    requires
        rooms_fit(rooms),
        0 <= from <= rooms.len(),
    ensures
        ({
            let after = after_plan(base, sync_plan(rooms, from, counts), rooms, next_batch);
            &&& after.session == base.session
            &&& after.sync_token == if from == 0 || from < rooms.len() {
                Some(next_batch)
            } else {
                base.sync_token
            }
            &&& forall|id: Seq<char>| #[trigger]
                after.joined_rooms.contains(id) <==> base.joined_rooms.contains(id) || told_of(
                    id,
                    rooms,
                    from,
                )
        }),
    decreases rooms.len() - from,
{
    if from < rooms.len() {
        let joined = rooms[from];
        let next = after_room(base, joined, next_batch);
        let rest = sync_plan(rooms, from + 1, counts);
        effect_of_room(base, from, counts, rooms, next_batch);
        effect_of_sync(next, from + 1, counts, rooms, next_batch);
        effect_of_parts(base, room_plan(from, joined, counts), rest, rooms, next_batch);
        let after = after_plan(next, rest, rooms, next_batch);
        assert forall|id: Seq<char>| #[trigger]
            after.joined_rooms.contains(id) <==> base.joined_rooms.contains(id) || told_of(
                id,
                rooms,
                from,
            ) by {
            let added = has_valid_state(joined.state, 0) && id == joined.room_id;
            assert(next.joined_rooms.contains(id) <==> base.joined_rooms.contains(id) || added);
            if told_of(id, rooms, from) {
                let i = choose|i: int|
                    from <= i < rooms.len() && (#[trigger] rooms[i]).room_id == id
                        && has_valid_state(rooms[i].state, 0);
                if i > from {
                    assert(from + 1 <= i < rooms.len() && rooms[i].room_id == id);
                    assert(told_of(id, rooms, from + 1));
                }
            }
            if told_of(id, rooms, from + 1) {
                let i = choose|i: int|
                    from + 1 <= i < rooms.len() && (#[trigger] rooms[i]).room_id == id
                        && has_valid_state(rooms[i].state, 0);
                assert(from <= i < rooms.len() && rooms[i].room_id == id);
            }
            if added {
                assert(from <= from < rooms.len() && rooms[from].room_id == id);
            }
        }
    } else if from == 0 {
        effect_of_one(base, SyncAction::ReceiveSyncResponse, rooms, next_batch);
    }
}

proof fn timelines_end_with_the_token(room: int, timeline: nat, from: int, counts: Counts)
    ensures
        timeline_plan(room, timeline, from, counts).len() > 0,
        timeline_plan(room, timeline, from, counts).last() == SyncAction::ReceiveSyncResponse,
    decreases timeline - from,
{
    if 0 <= from < timeline {
        timelines_end_with_the_token(room, timeline, from + 1, counts);
    }
}

proof fn plans_end_with_the_token(rooms: Seq<JoinedRoomView>, from: int, counts: Counts)
    requires
        0 <= from < rooms.len() || from == 0,
    ensures
        sync_plan(rooms, from, counts).len() > 0,
        sync_plan(rooms, from, counts).last() == SyncAction::ReceiveSyncResponse,
    decreases rooms.len() - from,
{
    if from < rooms.len() {
        timelines_end_with_the_token(from, rooms[from].timeline, 0, counts);
        if from + 1 < rooms.len() {
            plans_end_with_the_token(rooms, from + 1, counts);
        }
    }
}

/// A sync leaves the client with the sync token of the reply, whether or not a
/// joined room had news.
pub proof fn a_sync_takes_the_token(
    base: BaseClientView,
    counts: Counts,
    rooms: Seq<JoinedRoomView>,
    next_batch: Seq<char>,
)
    ensures
        after_plan(base, sync_plan(rooms, 0, counts), rooms, next_batch).sync_token == Some(
            next_batch,
        ),
{
    let plan = sync_plan(rooms, 0, counts);
    plans_end_with_the_token(rooms, 0, counts);
    assert(plan =~= plan.drop_last() + seq![SyncAction::ReceiveSyncResponse]);
    let before = after_plan(base, plan.drop_last(), rooms, next_batch);
    let last = seq![SyncAction::ReceiveSyncResponse];
    effect_of_parts(base, plan.drop_last(), last, rooms, next_batch);
    effect_of_one(before, SyncAction::ReceiveSyncResponse, rooms, next_batch);
}

/// A sync whose reply has no joined room does nothing but take the sync token.
pub proof fn a_sync_without_rooms_takes_just_the_token(
    base: BaseClientView,
    counts: Counts,
    rooms: Seq<JoinedRoomView>,
    next_batch: Seq<char>,
)
    requires
        rooms.len() == 0,
    ensures
        sync_plan(rooms, 0, counts) == seq![SyncAction::ReceiveSyncResponse],
        after_plan(base, sync_plan(rooms, 0, counts), rooms, next_batch) == base.with_token(
            next_batch,
        ),
{
    effect_of_one(base, SyncAction::ReceiveSyncResponse, rooms, next_batch);
}

/// After a sync the client knows the rooms that it knew and the rooms of which
/// the reply has a valid state event, and no others. Its session is the same.
pub proof fn a_sync_adds_the_rooms_it_tells_of(
    base: BaseClientView,
    counts: Counts,
    rooms: Seq<JoinedRoomView>,
    next_batch: Seq<char>,
    id: Seq<char>,
)
    requires
        rooms_fit(rooms),
    ensures
        ({
            let after = after_plan(base, sync_plan(rooms, 0, counts), rooms, next_batch);
            &&& after.joined_rooms.contains(id) <==> base.joined_rooms.contains(id) || told_of(
                id,
                rooms,
                0,
            )
            &&& after.session == base.session
        }),
{
    effect_of_sync(base, 0, counts, rooms, next_batch);
}

/// Whether a joined room can be entered when its turn comes: the client knows it,
/// or the reply, from one room on, has told of it by then.
pub open spec fn enterable(
    base: BaseClientView,
    rooms: Seq<JoinedRoomView>,
    from: int,
    room: int,
) -> bool {
    base.joined_rooms.contains(rooms[room].room_id) || exists|i: int|
        from <= i <= room && (#[trigger] rooms[i]).room_id == rooms[room].room_id
            && has_valid_state(rooms[i].state, 0)
}

proof fn enterable_from_the_next(
    base: BaseClientView,
    rooms: Seq<JoinedRoomView>,
    next_batch: Seq<char>,
    from: int,
    room: int,
)
    requires
        0 <= from < room < rooms.len(),
    ensures
        enterable(base, rooms, from, room) <==> enterable(
            after_room(base, rooms[from], next_batch),
            rooms,
            from + 1,
            room,
        ),
{
    let joined = rooms[from];
    let id = rooms[room].room_id;
    let next = after_room(base, joined, next_batch);
    if enterable(base, rooms, from, room) && !base.joined_rooms.contains(id) {
        let i = choose|i: int|
            from <= i <= room && (#[trigger] rooms[i]).room_id == id && has_valid_state(
                rooms[i].state,
                0,
            );
        assert(i == from || from + 1 <= i);
    }
    if enterable(next, rooms, from + 1, room) {
        if next.joined_rooms.contains(id) {
            if !base.joined_rooms.contains(id) {
                assert(rooms[from].room_id == id);
            }
        } else {
            let i = choose|i: int|
                from + 1 <= i <= room && (#[trigger] rooms[i]).room_id == id && has_valid_state(
                    rooms[i].state,
                    0,
                );
            assert(from <= i);
        }
    }
}

proof fn allowed_in_sync(
    base: BaseClientView,
    from: int,
    counts: Counts,
    rooms: Seq<JoinedRoomView>,
    next_batch: Seq<char>,
)
    requires
        rooms_fit(rooms),
        0 <= from <= rooms.len(),
    ensures
        plan_allowed(base, sync_plan(rooms, from, counts), rooms, next_batch) <==> forall|i: int|
            from <= i < rooms.len() ==> #[trigger] enterable(base, rooms, from, i),
    decreases rooms.len() - from,
{
    if from < rooms.len() {
        let next = after_room(base, rooms[from], next_batch);
        let rest = sync_plan(rooms, from + 1, counts);
        effect_of_room(base, from, counts, rooms, next_batch);
        effect_of_parts(base, room_plan(from, rooms[from], counts), rest, rooms, next_batch);
        allowed_in_sync(next, from + 1, counts, rooms, next_batch);
        assert(enterable(base, rooms, from, from) <==> base.joined_rooms.contains(
            rooms[from].room_id,
        ) || has_valid_state(rooms[from].state, 0));
        assert forall|i: int| from < i < rooms.len() implies enterable(base, rooms, from, i)
            == #[trigger] enterable(next, rooms, from + 1, i) by {
            enterable_from_the_next(base, rooms, next_batch, from, i);
        }
        if forall|i: int| from <= i < rooms.len() ==> #[trigger] enterable(base, rooms, from, i) {
            assert forall|i: int| from + 1 <= i < rooms.len() implies #[trigger] enterable(
                next,
                rooms,
                from + 1,
                i,
            ) by {
                assert(enterable(base, rooms, from, i));
            }
        }
        if forall|i: int|
            from + 1 <= i < rooms.len() ==> #[trigger] enterable(next, rooms, from + 1, i) {
            assert forall|i: int| from < i < rooms.len() implies #[trigger] enterable(
                base,
                rooms,
                from,
                i,
            ) by {
                assert(enterable(next, rooms, from + 1, i));
            }
        }
    } else if from == 0 {
        effect_of_one(base, SyncAction::ReceiveSyncResponse, rooms, next_batch);
    }
}

/// Every step of a sync can be taken just when every joined room is one that the
/// client knows or that the reply has told of, by a valid state event, before the
/// room is entered.
pub proof fn a_sync_can_be_finished(
    base: BaseClientView,
    counts: Counts,
    rooms: Seq<JoinedRoomView>,
    next_batch: Seq<char>,
)
    requires
        rooms_fit(rooms),
    ensures
        plan_allowed(base, sync_plan(rooms, 0, counts), rooms, next_batch) <==> forall|i: int|
            0 <= i < rooms.len() ==> #[trigger] enterable(base, rooms, 0, i),
{
    allowed_in_sync(base, 0, counts, rooms, next_batch);
}

// ----------------------------------------------------- stepping to the end

/// Whether a run was stepped through these runs and states by these actions,
/// when there were so many callbacks each time.
pub open spec fn stepped(
    runs: Seq<SyncRun>,
    bases: Seq<BaseClientView>,
    callbacks: Seq<nat>,
    actions: Seq<SyncAction>,
) -> bool {
    &&& runs.len() == actions.len() + 1
    &&& bases.len() == actions.len() + 1
    &&& callbacks.len() == actions.len()
    &&& forall|i: int|
        0 <= i < actions.len() ==> {
            &&& runs[i].steps_to(callbacks[i], Some(#[trigger] actions[i]), runs[i + 1])
            &&& bases[i + 1] == after_action(
                bases[i],
                Some(actions[i]),
                runs[i].rooms(),
                runs[i].next_batch(),
            )
        }
}

proof fn places_go_up(
    runs: Seq<SyncRun>,
    bases: Seq<BaseClientView>,
    callbacks: Seq<nat>,
    actions: Seq<SyncAction>,
    i: int,
    j: int,
)
    requires
        stepped(runs, bases, callbacks, actions),
        0 <= i <= j < runs.len(),
    ensures
        runs[i].place() == runs[j].place() || comes_before(runs[i].place(), runs[j].place()),
        runs[i].rooms() == runs[j].rooms(),
        runs[i].next_batch() == runs[j].next_batch(),
    decreases j - i,
{
    if i < j {
        assert(runs[i].steps_to(callbacks[i], Some(actions[i]), runs[i + 1]));
        places_go_up(runs, bases, callbacks, actions, i + 1, j);
    }
}

/// Callbacks are called with an event at one step only.
proof fn events_are_met_once(
    runs: Seq<SyncRun>,
    bases: Seq<BaseClientView>,
    callbacks: Seq<nat>,
    actions: Seq<SyncAction>,
    i: int,
    j: int,
)
    requires
        stepped(runs, bases, callbacks, actions),
        0 <= i < j < actions.len(),
        runs[i].dispatching() is Some,
    ensures
        runs[i].dispatching() != runs[j].dispatching(),
{
    assert(runs[i].steps_to(callbacks[i], Some(actions[i]), runs[i + 1]));
    assert(runs[j].steps_to(callbacks[j], Some(actions[j]), runs[j + 1]));
    places_go_up(runs, bases, callbacks, actions, i + 1, j);
}

/// How many callbacks there were when the turn of each event came.
pub open spec fn met(runs: Seq<SyncRun>, callbacks: Seq<nat>) -> Counts {
    |room: int, event: int|
        if exists|i: int|
            0 <= i < callbacks.len() && (#[trigger] runs[i]).dispatching() == Some((room, event)) {
            callbacks[choose|i: int|
                0 <= i < callbacks.len() && (#[trigger] runs[i]).dispatching() == Some(
                    (room, event),
                )]
        } else {
            0
        }
}

proof fn met_fits(runs: Seq<SyncRun>, callbacks: Seq<nat>)
    requires
        forall|i: int| 0 <= i < callbacks.len() ==> #[trigger] callbacks[i] <= usize::MAX,
    ensures
        forall|room: int, event: int| #[trigger] met(runs, callbacks)(room, event) <= usize::MAX,
{
}

proof fn met_agrees(
    runs: Seq<SyncRun>,
    bases: Seq<BaseClientView>,
    callbacks: Seq<nat>,
    actions: Seq<SyncAction>,
    i: int,
)
    requires
        stepped(runs, bases, callbacks, actions),
        0 <= i < actions.len(),
    ensures
        runs[i].agrees(met(runs, callbacks), callbacks[i]),
{
    if let Some(at) = runs[i].dispatching() {
        let j = choose|j: int|
            0 <= j < callbacks.len() && (#[trigger] runs[j]).dispatching() == Some((at.0, at.1));
        assert(runs[i].dispatching() == Some((at.0, at.1)));
        if i < j {
            events_are_met_once(runs, bases, callbacks, actions, i, j);
        } else if j < i {
            events_are_met_once(runs, bases, callbacks, actions, j, i);
        }
    }
}

proof fn rest_of_the_plan(
    runs: Seq<SyncRun>,
    bases: Seq<BaseClientView>,
    callbacks: Seq<nat>,
    actions: Seq<SyncAction>,
    end: nat,
    counts: Counts,
    i: int,
)
    requires
        stepped(runs, bases, callbacks, actions),
        runs.last().steps_to(end, None, runs.last()),
        0 <= i <= actions.len(),
        forall|j: int|
            0 <= j < actions.len() ==> (#[trigger] runs[j]).agrees(counts, callbacks[j]),
    ensures
        runs[i].plan(counts) == actions.skip(i),
    decreases actions.len() - i,
{
    if i < actions.len() {
        rest_of_the_plan(runs, bases, callbacks, actions, end, counts, i + 1);
        let (run, next, action) = (runs[i], runs[i + 1], actions[i]);
        assert(run.steps_to(callbacks[i], Some(action), next));
        assert(run.agrees(counts, callbacks[i]));
        assert(run.plan(counts) == seq![action] + next.plan(counts));
        assert(actions.skip(i) =~= seq![action] + actions.skip(i + 1));
    } else {
        let run = runs.last();
        assert(run.agrees(counts, end));
        assert(run.plan(counts) == Seq::<SyncAction>::empty());
        assert(actions.skip(i) =~= Seq::empty());
    }
}

proof fn rest_of_the_states(
    runs: Seq<SyncRun>,
    bases: Seq<BaseClientView>,
    callbacks: Seq<nat>,
    actions: Seq<SyncAction>,
    i: int,
)
    requires
        stepped(runs, bases, callbacks, actions),
        0 <= i <= actions.len(),
    ensures
        bases.last() == after_plan(
            bases[i],
            actions.skip(i),
            runs[0].rooms(),
            runs[0].next_batch(),
        ),
    decreases actions.len() - i,
{
    if i < actions.len() {
        rest_of_the_states(runs, bases, callbacks, actions, i + 1);
        places_go_up(runs, bases, callbacks, actions, 0, i);
        let rest = actions.skip(i);
        assert(rest[0] == actions[i]);
        assert(rest.skip(1) =~= actions.skip(i + 1));
    } else {
        assert(actions.skip(i) =~= Seq::empty());
    }
}

/// A run that is stepped to its end has done its plan, neither more nor less,
/// where the callbacks of each event are those that there were when its turn
/// came. The state that the client ends with is the one that the plan leads to,
/// if nothing else changes the state between the steps.
pub proof fn a_finished_run_has_done_its_plan(
    runs: Seq<SyncRun>,
    bases: Seq<BaseClientView>,
    callbacks: Seq<nat>,
    actions: Seq<SyncAction>,
    end: nat,
)
    requires
        stepped(runs, bases, callbacks, actions),
        runs.last().steps_to(end, None, runs.last()),
    ensures
        actions == runs[0].plan(met(runs, callbacks)),
        forall|i: int|
            0 <= i < actions.len() ==> (#[trigger] runs[i]).agrees(
                met(runs, callbacks),
                callbacks[i],
            ),
        bases.last() == after_plan(
            bases[0],
            runs[0].plan(met(runs, callbacks)),
            runs[0].rooms(),
            runs[0].next_batch(),
        ),
{
    assert forall|i: int| 0 <= i < actions.len() implies (#[trigger] runs[i]).agrees(
        met(runs, callbacks),
        callbacks[i],
    ) by {
        met_agrees(runs, bases, callbacks, actions, i);
    }
    rest_of_the_plan(runs, bases, callbacks, actions, end, met(runs, callbacks), 0);
    rest_of_the_states(runs, bases, callbacks, actions, 0);
    assert(actions.skip(0) =~= actions);
}

/// A step shortens what is left to do by one action.
pub proof fn each_step_shortens_the_plan(
    run: SyncRun,
    callbacks: nat,
    action: SyncAction,
    next: SyncRun,
    counts: Counts,
)
    requires
        run.steps_to(callbacks, Some(action), next),
        run.agrees(counts, callbacks),
    ensures
        run.plan(counts).len() == next.plan(counts).len() + 1,
{
    assert(run.plan(counts) == seq![action] + next.plan(counts));
}

/// Every event of every joined room's timeline gets its turn in a run that is
/// stepped to its end: there is a step at which callbacks are called with it.
pub proof fn every_event_gets_its_turn(
    runs: Seq<SyncRun>,
    bases: Seq<BaseClientView>,
    callbacks: Seq<nat>,
    actions: Seq<SyncAction>,
    end: nat,
    room: usize,
    event: usize,
)
    requires
        stepped(runs, bases, callbacks, actions),
        runs.last().steps_to(end, None, runs.last()),
        forall|counts: Counts| #[trigger]
            runs[0].plan(counts) == sync_plan(runs[0].rooms(), 0, counts),
        rooms_fit(runs[0].rooms()),
        forall|i: int| 0 <= i < callbacks.len() ==> #[trigger] callbacks[i] <= usize::MAX,
        room < runs[0].rooms().len(),
        event < runs[0].rooms()[room as int].timeline,
    ensures
        exists|i: int|
            0 <= i < actions.len() && (#[trigger] runs[i]).dispatching() == Some(
                (room as int, event as int),
            ) && met(runs, callbacks)(room as int, event as int) == callbacks[i],
{
    let at = (room as int, event as int);
    let counts = met(runs, callbacks);
    met_fits(runs, callbacks);
    assert forall|i: int| 0 <= i < actions.len() implies (#[trigger] runs[i]).agrees(
        counts,
        callbacks[i],
    ) by {
        met_agrees(runs, bases, callbacks, actions, i);
    }
    if exists|i: int| 0 <= i < actions.len() && (#[trigger] runs[i]).dispatching() == Some(at) {
        let i = choose|i: int|
            0 <= i < actions.len() && (#[trigger] runs[i]).dispatching() == Some(at);
        assert(runs[i].agrees(counts, callbacks[i]));
    } else {
        // Then the number of callbacks at this event would make no difference.
        let rooms = runs[0].rooms();
        let one: Counts = |r: int, e: int|
            if (r, e) == at {
                1
            } else {
                counts(r, e)
            };
        assert(counts(at.0, at.1) == 0);
        assert(countable(rooms, one));
        assert forall|i: int| 0 <= i < actions.len() implies (#[trigger] runs[i]).agrees(
            one,
            callbacks[i],
        ) by {
            assert(runs[i].agrees(counts, callbacks[i]));
        }
        rest_of_the_plan(runs, bases, callbacks, actions, end, counts, 0);
        rest_of_the_plan(runs, bases, callbacks, actions, end, one, 0);
        every_event_reaches_every_callback(rooms, counts, room, event, 0);
        every_event_reaches_every_callback(rooms, one, room, event, 0);
    }
}

/// What a sync has done once its reply has been worked off: every event of every
/// joined room's timeline has had its turn, every callback that there was at that
/// turn has been called with it, once, and nothing else has been called. The
/// client has the sync token of the reply.
pub proof fn a_finished_sync_has_called_every_callback(
    runs: Seq<SyncRun>,
    bases: Seq<BaseClientView>,
    callbacks: Seq<nat>,
    actions: Seq<SyncAction>,
    end: nat,
    room: usize,
    event: usize,
    callback: usize,
)
    requires
        stepped(runs, bases, callbacks, actions),
        runs.last().steps_to(end, None, runs.last()),
        forall|counts: Counts| #[trigger]
            runs[0].plan(counts) == sync_plan(runs[0].rooms(), 0, counts),
        rooms_fit(runs[0].rooms()),
        forall|i: int| 0 <= i < callbacks.len() ==> #[trigger] callbacks[i] <= usize::MAX,
    ensures
        times(actions, SyncAction::CallBack { room, event, callback }) == if room
            < runs[0].rooms().len() && event < runs[0].rooms()[room as int].timeline && callback
            < met(runs, callbacks)(room as int, event as int) {
            1nat
        } else {
            0
        },
        room < runs[0].rooms().len() && event < runs[0].rooms()[room as int].timeline
            ==> exists|i: int|
            0 <= i < actions.len() && (#[trigger] runs[i]).dispatching() == Some(
                (room as int, event as int),
            ) && met(runs, callbacks)(room as int, event as int) == callbacks[i],
        times(actions, SyncAction::Await { callback }) == calls(actions, callback),
        bases.last().sync_token == Some(runs[0].next_batch()),
{
    let (rooms, counts) = (runs[0].rooms(), met(runs, callbacks));
    met_fits(runs, callbacks);
    a_finished_run_has_done_its_plan(runs, bases, callbacks, actions, end);
    every_event_reaches_every_callback(rooms, counts, room, event, callback);
    every_call_is_waited_for(rooms, counts, callback);
    a_sync_takes_the_token(bases[0], counts, rooms, runs[0].next_batch());
    if room < rooms.len() && event < rooms[room as int].timeline {
        every_event_gets_its_turn(runs, bases, callbacks, actions, end, room, event);
    }
}

} // verus!
