//! In which order the work that a sync reply asks for is done.
use vstd::prelude::*;

use crate::plan_laws::{
    countable, every_event_reaches_every_callback, every_room_gets_its_events, times,
};
use crate::sync::{
    event_plan, room_plan, state_plan, sync_plan, timeline_plan, Counts, JoinedRoomView, SyncAction,
};

verus! {

// ------------------------------------------------------ how a plan grows

proof fn plan_of_one_more_room(
    rooms: Seq<JoinedRoomView>,
    joined: JoinedRoomView,
    from: int,
    counts: Counts,
)
    requires
        0 <= from <= rooms.len(),
    ensures
        sync_plan(rooms.push(joined), from, counts) == (if from < rooms.len() {
            sync_plan(rooms, from, counts)
        } else {
            Seq::empty()
        }) + room_plan(rooms.len() as int, joined, counts),
    decreases rooms.len() - from,
{
    let more = rooms.push(joined);
    let added = room_plan(rooms.len() as int, joined, counts);
    if from < rooms.len() {
        plan_of_one_more_room(rooms, joined, from + 1, counts);
        let first = room_plan(from, rooms[from], counts);
        assert(more[from] == rooms[from]);
        assert(sync_plan(more, from, counts) == first + sync_plan(more, from + 1, counts));
        assert(sync_plan(rooms, from, counts) == first + sync_plan(rooms, from + 1, counts));
        assert(sync_plan(more, from, counts) =~= sync_plan(rooms, from, counts) + added);
    } else {
        assert(sync_plan(more, from + 1, counts) =~= Seq::empty());
        assert(sync_plan(more, from, counts) =~= added);
    }
}

proof fn plan_of_one_more_state_event(room: int, state: Seq<bool>, valid: bool, from: int)
    requires
        0 <= from <= state.len(),
    ensures
        state_plan(room, state.push(valid), from) == state_plan(room, state, from) + (if valid {
            seq![
                SyncAction::ReceiveStateEvent { room: room as usize, event: state.len() as usize },
            ]
        } else {
            Seq::empty()
        }),
    decreases state.len() - from,
{
    let more = state.push(valid);
    if from < state.len() {
        plan_of_one_more_state_event(room, state, valid, from + 1);
        assert(more[from] == state[from]);
        assert(state_plan(room, more, from) =~= state_plan(room, state, from) + (if valid {
            seq![
                SyncAction::ReceiveStateEvent { room: room as usize, event: state.len() as usize },
            ]
        } else {
            Seq::empty()
        }));
    } else {
        assert(state_plan(room, more, from + 1) =~= Seq::empty());
        assert(state_plan(room, state, from) =~= Seq::empty());
        assert(state_plan(room, more, from) =~= if valid {
            seq![
                SyncAction::ReceiveStateEvent { room: room as usize, event: state.len() as usize },
            ]
        } else {
            Seq::empty()
        });
    }
}

/// What is done for an event: the room gets it, so many callbacks are called with
/// it in order, and are waited for in order.
proof fn plan_of_an_event(room: int, event: int, callbacks: nat)
    ensures
        event_plan(room, event, callbacks) == seq![
            SyncAction::ReceiveTimelineEvent { room: room as usize, event: event as usize },
        ] + Seq::new(
            callbacks,
            |i: int|
                SyncAction::CallBack {
                    room: room as usize,
                    event: event as usize,
                    callback: i as usize,
                },
        ) + Seq::new(callbacks, |i: int| SyncAction::Await { callback: i as usize }),
{
    assert(event_plan(room, event, callbacks) =~= seq![
        SyncAction::ReceiveTimelineEvent { room: room as usize, event: event as usize },
    ] + Seq::new(
        callbacks,
        |i: int|
            SyncAction::CallBack {
                room: room as usize,
                event: event as usize,
                callback: i as usize,
            },
    ) + Seq::new(callbacks, |i: int| SyncAction::Await { callback: i as usize }));
}

proof fn plan_of_one_more_event(room: int, timeline: nat, from: int, counts: Counts)
    requires
        0 <= from <= timeline,
    ensures
        timeline_plan(room, timeline, from, counts).len() > 0,
        timeline_plan(room, timeline + 1, from, counts) == timeline_plan(
            room,
            timeline,
            from,
            counts,
        ).drop_last() + event_plan(room, timeline as int, counts(room, timeline as int)) + seq![
            SyncAction::ReceiveSyncResponse,
        ],
    decreases timeline - from,
{
    let added = event_plan(room, timeline as int, counts(room, timeline as int));
    let end = seq![SyncAction::ReceiveSyncResponse];
    let shorter = timeline_plan(room, timeline, from, counts);
    let longer = timeline_plan(room, timeline + 1, from, counts);
    if from < timeline {
        plan_of_one_more_event(room, timeline, from + 1, counts);
        let first = event_plan(room, from, counts(room, from));
        let rest = timeline_plan(room, timeline, from + 1, counts);
        assert(shorter == first + rest);
        assert(shorter.drop_last() =~= first + rest.drop_last());
        assert(longer == first + timeline_plan(room, timeline + 1, from + 1, counts));
        assert(longer =~= shorter.drop_last() + added + end);
    } else {
        assert(shorter == end);
        assert(shorter.drop_last() =~= Seq::empty());
        assert(timeline_plan(room, timeline + 1, from + 1, counts) == end);
        assert(longer =~= shorter.drop_last() + added + end);
    }
}

/// A reply without joined rooms asks for one thing, that its sync token is taken.
/// With one more joined room, of which it has no event, it asks for what it asked
/// for, and then that the room is entered and that the token is taken.
pub proof fn rooms_come_one_after_another(rooms: Seq<JoinedRoomView>, id: Seq<char>, counts: Counts)
    ensures
        sync_plan(Seq::empty(), 0, counts) == seq![SyncAction::ReceiveSyncResponse],
        sync_plan(
            rooms.push(JoinedRoomView { room_id: id, state: Seq::empty(), timeline: 0 }),
            0,
            counts,
        ) == (if rooms.len() == 0 {
            Seq::empty()
        } else {
            sync_plan(rooms, 0, counts)
        }) + seq![
            SyncAction::EnterRoom { room: rooms.len() as usize },
            SyncAction::ReceiveSyncResponse,
        ],
{
    let joined = JoinedRoomView { room_id: id, state: Seq::empty(), timeline: 0 };
    plan_of_one_more_room(rooms, joined, 0, counts);
    assert(state_plan(rooms.len() as int, joined.state, 0) =~= Seq::empty());
    assert(room_plan(rooms.len() as int, joined, counts) =~= seq![
        SyncAction::EnterRoom { room: rooms.len() as usize },
        SyncAction::ReceiveSyncResponse,
    ]);
}

/// One more state event of the last joined room, while its timeline is empty, is
/// handed over right before the room is entered, if it is valid; if not, it
/// changes nothing.
pub proof fn state_events_come_before_the_room_is_entered(
    rooms: Seq<JoinedRoomView>,
    id: Seq<char>,
    state: Seq<bool>,
    valid: bool,
    counts: Counts,
)
    ensures
        ({
            let room = rooms.len() as usize;
            let before = sync_plan(
                rooms.push(JoinedRoomView { room_id: id, state, timeline: 0 }),
                0,
                counts,
            );
            let after = sync_plan(
                rooms.push(JoinedRoomView { room_id: id, state: state.push(valid), timeline: 0 }),
                0,
                counts,
            );
            &&& before.len() >= 2
            &&& !valid ==> after == before
            &&& valid ==> after == before.take(before.len() - 2) + seq![
                SyncAction::ReceiveStateEvent { room, event: state.len() as usize },
                SyncAction::EnterRoom { room },
                SyncAction::ReceiveSyncResponse,
            ]
        }),
{
    let n = rooms.len() as int;
    let joined = JoinedRoomView { room_id: id, state, timeline: 0 };
    let more = JoinedRoomView { room_id: id, state: state.push(valid), timeline: 0 };
    let end = seq![
        SyncAction::EnterRoom { room: n as usize },
        SyncAction::ReceiveSyncResponse,
    ];
    plan_of_one_more_room(rooms, joined, 0, counts);
    plan_of_one_more_room(rooms, more, 0, counts);
    plan_of_one_more_state_event(n, state, valid, 0);
    let earlier = if rooms.len() == 0 {
        Seq::empty()
    } else {
        sync_plan(rooms, 0, counts)
    };
    let before = sync_plan(rooms.push(joined), 0, counts);
    let after = sync_plan(rooms.push(more), 0, counts);
    assert(room_plan(n, joined, counts) =~= state_plan(n, state, 0) + end);
    assert(room_plan(n, more, counts) =~= state_plan(n, state.push(valid), 0) + end);
    assert(before =~= earlier + state_plan(n, state, 0) + end);
    assert(after =~= earlier + state_plan(n, state.push(valid), 0) + end);
    assert(before.take(before.len() - 2) =~= earlier + state_plan(n, state, 0));
    if valid {
        assert(after =~= before.take(before.len() - 2) + seq![
            SyncAction::ReceiveStateEvent { room: n as usize, event: state.len() as usize },
            SyncAction::EnterRoom { room: n as usize },
            SyncAction::ReceiveSyncResponse,
        ]);
    } else {
        assert(after =~= before);
    }
}

/// One more event in the timeline of the last joined room, whichever room that is,
/// is handed to the room when all before it are done; then each callback is called
/// with it, in order; then each is waited for, in order; and then the sync token is
/// taken, as it was before.
pub proof fn timeline_events_come_one_after_another(
    rooms: Seq<JoinedRoomView>,
    id: Seq<char>,
    state: Seq<bool>,
    timeline: nat,
    counts: Counts,
)
    ensures
        ({
            let room = rooms.len() as usize;
            let event = timeline as usize;
            let callbacks = counts(rooms.len() as int, timeline as int);
            let before = sync_plan(
                rooms.push(JoinedRoomView { room_id: id, state, timeline }),
                0,
                counts,
            );
            let after = sync_plan(
                rooms.push(JoinedRoomView { room_id: id, state, timeline: timeline + 1 }),
                0,
                counts,
            );
            &&& before.len() >= 1
            &&& after == before.drop_last() + seq![SyncAction::ReceiveTimelineEvent { room, event }]
                + Seq::new(
                callbacks,
                |i: int| SyncAction::CallBack { room, event, callback: i as usize },
            ) + Seq::new(callbacks, |i: int| SyncAction::Await { callback: i as usize }) + seq![
                SyncAction::ReceiveSyncResponse,
            ]
        }),
{
    let n = rooms.len() as int;
    let joined = JoinedRoomView { room_id: id, state, timeline };
    let more = JoinedRoomView { room_id: id, state, timeline: timeline + 1 };
    let callbacks = counts(n, timeline as int);
    plan_of_one_more_room(rooms, joined, 0, counts);
    plan_of_one_more_room(rooms, more, 0, counts);
    plan_of_one_more_event(n, timeline, 0, counts);
    plan_of_an_event(n, timeline as int, callbacks);
    let earlier = if rooms.len() == 0 {
        Seq::empty()
    } else {
        sync_plan(rooms, 0, counts)
    } + (state_plan(n, state, 0) + seq![SyncAction::EnterRoom { room: n as usize }]);
    let before = sync_plan(rooms.push(joined), 0, counts);
    let after = sync_plan(rooms.push(more), 0, counts);
    let events = timeline_plan(n, timeline, 0, counts);
    let added = event_plan(n, timeline as int, callbacks);
    assert(before =~= earlier + events);
    assert(before.drop_last() =~= earlier + events.drop_last());
    assert(after =~= earlier + timeline_plan(n, timeline + 1, 0, counts));
    assert(after =~= before.drop_last() + added + seq![SyncAction::ReceiveSyncResponse]);
    assert(after =~= before.drop_last() + seq![
        SyncAction::ReceiveTimelineEvent { room: n as usize, event: timeline as usize },
    ] + Seq::new(
        callbacks,
        |i: int|
            SyncAction::CallBack {
                room: n as usize,
                event: timeline as usize,
                callback: i as usize,
            },
    ) + Seq::new(callbacks, |i: int| SyncAction::Await { callback: i as usize }) + seq![
        SyncAction::ReceiveSyncResponse,
    ]);
}

// -------------------------------------------------- where an event stands

proof fn place_in_timeline(room: int, timeline: nat, from: int, event: int, counts: Counts) -> (k:
    int)
    requires
        0 <= from <= event < timeline,
    ensures
        ({
            let plan = timeline_plan(room, timeline, from, counts);
            let one = event_plan(room, event, counts(room, event));
            0 <= k && k + one.len() <= plan.len() && plan.subrange(k, k + one.len()) == one
        }),
    decreases event - from,
{
    let plan = timeline_plan(room, timeline, from, counts);
    let first = event_plan(room, from, counts(room, from));
    let one = event_plan(room, event, counts(room, event));
    let rest = timeline_plan(room, timeline, from + 1, counts);
    assert(plan == first + rest);
    if from == event {
        assert(plan.subrange(0, one.len() as int) =~= one);
        0
    } else {
        let k = place_in_timeline(room, timeline, from + 1, event, counts);
        assert(plan.subrange(first.len() + k, first.len() + k + one.len()) =~= rest.subrange(
            k,
            k + one.len(),
        ));
        first.len() + k
    }
}

proof fn place_in_sync(
    rooms: Seq<JoinedRoomView>,
    from: int,
    room: int,
    event: int,
    counts: Counts,
) -> (k: int)
    requires
        0 <= from <= room < rooms.len(),
        0 <= event < rooms[room].timeline,
    ensures
        ({
            let plan = sync_plan(rooms, from, counts);
            let one = event_plan(room, event, counts(room, event));
            0 <= k && k + one.len() <= plan.len() && plan.subrange(k, k + one.len()) == one
        }),
    decreases room - from,
{
    let plan = sync_plan(rooms, from, counts);
    let first = room_plan(from, rooms[from], counts);
    let rest = sync_plan(rooms, from + 1, counts);
    let one = event_plan(room, event, counts(room, event));
    assert(plan == first + rest);
    if from == room {
        let events = timeline_plan(room, rooms[room].timeline, 0, counts);
        let head = state_plan(room, rooms[room].state, 0) + seq![
            SyncAction::EnterRoom { room: room as usize },
        ];
        assert(plan =~= head + events + rest);
        let k = place_in_timeline(room, rooms[room].timeline, 0, event, counts);
        assert(plan.subrange(head.len() + k, head.len() + k + one.len()) =~= events.subrange(
            k,
            k + one.len(),
        ));
        head.len() + k
    } else {
        let k = place_in_sync(rooms, from + 1, room, event, counts);
        assert(plan.subrange(first.len() + k, first.len() + k + one.len()) =~= rest.subrange(
            k,
            k + one.len(),
        ));
        first.len() + k
    }
}

/// In the work for a whole reply, every event of every joined room's timeline has
/// its place: there the room gets it, right after that each callback is called
/// with it, in order, and right after that each is waited for, in order.
pub proof fn every_event_has_its_place(
    rooms: Seq<JoinedRoomView>,
    counts: Counts,
    room: int,
    event: int,
) -> (k: int)
    requires
        0 <= room < rooms.len(),
        0 <= event < rooms[room].timeline,
    ensures
        0 <= k,
        k + 1 + 2 * counts(room, event) <= sync_plan(rooms, 0, counts).len(),
        sync_plan(rooms, 0, counts).subrange(k, k + 1 + 2 * counts(room, event)) == seq![
            SyncAction::ReceiveTimelineEvent { room: room as usize, event: event as usize },
        ] + Seq::new(
            counts(room, event),
            |i: int|
                SyncAction::CallBack {
                    room: room as usize,
                    event: event as usize,
                    callback: i as usize,
                },
        ) + Seq::new(counts(room, event), |i: int| SyncAction::Await { callback: i as usize }),
{
    plan_of_an_event(room, event, counts(room, event));
    place_in_sync(rooms, 0, room, event, counts)
}

proof fn at_least_once(plan: Seq<SyncAction>, action: SyncAction, i: int)
    requires
        0 <= i < plan.len(),
        plan[i] == action,
    ensures
        times(plan, action) >= 1,
    decreases plan.len(),
{
    if i < plan.len() - 1 {
        at_least_once(plan.drop_last(), action, i);
    }
}

proof fn at_least_twice(plan: Seq<SyncAction>, action: SyncAction, i: int, j: int)
    requires
        0 <= i < j < plan.len(),
        plan[i] == action,
        plan[j] == action,
    ensures
        times(plan, action) >= 2,
    decreases plan.len(),
{
    if j < plan.len() - 1 {
        at_least_twice(plan.drop_last(), action, i, j);
    } else {
        at_least_once(plan.drop_last(), action, i);
    }
}

proof fn only_once(plan: Seq<SyncAction>, action: SyncAction, i: int, j: int)
    requires
        0 <= i < plan.len(),
        0 <= j < plan.len(),
        plan[i] == action,
        plan[j] == action,
        times(plan, action) <= 1,
    ensures
        i == j,
{
    if i < j {
        at_least_twice(plan, action, i, j);
    } else if j < i {
        at_least_twice(plan, action, j, i);
    }
}

/// Wherever in the work for a whole reply a room gets an event, and wherever a
/// callback is called with that event, the room has it first: the call of the
/// first callback comes right after it, that of the second right after that, and
/// so on.
pub proof fn a_room_has_an_event_before_any_callback(
    rooms: Seq<JoinedRoomView>,
    counts: Counts,
    room: usize,
    event: usize,
    callback: usize,
    given: int,
    called: int,
)
    requires
        countable(rooms, counts),
        0 <= given < sync_plan(rooms, 0, counts).len(),
        0 <= called < sync_plan(rooms, 0, counts).len(),
        sync_plan(rooms, 0, counts)[given] == (SyncAction::ReceiveTimelineEvent { room, event }),
        sync_plan(rooms, 0, counts)[called] == (SyncAction::CallBack { room, event, callback }),
    ensures
        called == given + 1 + callback,
        given < called,
{
    let plan = sync_plan(rooms, 0, counts);
    let give = SyncAction::ReceiveTimelineEvent { room, event };
    let call = SyncAction::CallBack { room, event, callback };
    at_least_once(plan, give, given);
    at_least_once(plan, call, called);
    every_room_gets_its_events(rooms, counts, room, event);
    every_event_reaches_every_callback(rooms, counts, room, event, callback);
    let n = counts(room as int, event as int);
    let k = every_event_has_its_place(rooms, counts, room as int, event as int);
    let part = plan.subrange(k, k + 1 + 2 * n);
    assert(part[0] == give);
    assert(part[1 + callback] == call);
    assert(plan[k] == part[0]);
    assert(plan[k + 1 + callback] == part[1 + callback]);
    only_once(plan, give, given, k);
    only_once(plan, call, called, k + 1 + callback);
}

} // verus!
