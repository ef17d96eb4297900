//! What becomes of the client, and in which order a sync without end goes on.
use vstd::prelude::*;

use crate::async_client::AsyncClientView;
use crate::base_client::{session_view, BaseClientView};
use crate::outside::client_setup;
use crate::session::{text, LoginResponse, LoginResponseView, Session, SessionView};
use crate::settings::SyncSettingsView;
use crate::sync::{
    after_action, room_views, rooms_fit, step_allowed, Counts, JoinedRoom, JoinedRoomView,
    SyncAction, SyncRun,
};
use crate::sync_loop::{loop_step, LoopAction, LoopActionView, LoopEvent, SyncLoop, SyncLoopView};

verus! {

// ----------------------------------------------------- sessions and logins

/// A session, a login response and an optional text are worth what stands in their
/// fields.
pub proof fn sessions_are_their_fields(
    session: Session,
    response: LoginResponse,
    optional: Option<Session>,
    s: Option<String>,
)
    ensures
        session@.access_token == session.access_token@,
        session@.user_id == session.user_id@,
        session@.device_id == session.device_id@,
        response@.access_token == response.access_token@,
        response@.home_server == response.home_server@,
        response@.refresh_token is Some <==> response.refresh_token is Some,
        response.refresh_token matches Some(token) ==> response@.refresh_token == Some(token@),
        response@.user_id == response.user_id@,
        response@.device_id == response.device_id@,
        session_view(optional) is Some <==> optional is Some,
        optional matches Some(session) ==> session_view(optional) == Some(session@),
        text(s) is Some <==> s is Some,
        s matches Some(s) ==> text(Some(s)) == Some(s@),
{
}

/// A login that was granted gives the client the token, the user and the device of
/// the answer, whatever session it had, and leaves the rest of it alone.
pub proof fn a_granted_login_changes_just_the_session<C>(
    client: AsyncClientView<C>,
    response: LoginResponseView,
)
    ensures
        client.logged_in_with(response).base.session == Some(
            SessionView {
                access_token: response.access_token,
                user_id: response.user_id,
                device_id: response.device_id,
            },
        ),
        client.logged_in_with(response).base.sync_token == client.base.sync_token,
        client.logged_in_with(response).base.joined_rooms == client.base.joined_rooms,
        client.logged_in_with(response).homeserver == client.homeserver,
        client.logged_in_with(response).http_client == client.http_client,
        client.logged_in_with(response).transaction_id == client.transaction_id,
        client.logged_in_with(response).callbacks == client.callbacks,
{
}

/// A new client is at the homeserver that it was given, has the HTTP client and the
/// session that it was given, and has no sync token, no rooms and no callbacks. Its
/// first transaction id is 0.
pub proof fn a_new_client_has_what_it_was_given<C>(
    homeserver: Seq<char>,
    http_client: reqwest::Client,
    session: Option<SessionView>,
    id: Seq<char>,
)
    ensures
        ({
            let client = AsyncClientView::<C>::initial(homeserver, http_client, session);
            &&& client.homeserver == homeserver
            &&& client.http_client == http_client
            &&& client.setup() == client_setup(http_client)
            &&& client.base.session == session
            &&& client.base.sync_token is None
            &&& !client.base.joined_rooms.contains(id)
            &&& client.transaction_id == 0
            &&& client.callbacks.len() == 0
        }),
{
}

/// Taking up a transaction id moves on to the next number, and to 0 after the
/// largest, and leaves the rest of the client alone.
pub proof fn a_transaction_moves_on_by_one<C>(client: AsyncClientView<C>)
    ensures
        client.transaction_id < u64::MAX ==> client.next_transaction().transaction_id
            == client.transaction_id + 1,
        client.transaction_id == u64::MAX ==> client.next_transaction().transaction_id == 0,
        client.next_transaction().homeserver == client.homeserver,
        client.next_transaction().http_client == client.http_client,
        client.next_transaction().base == client.base,
        client.next_transaction().callbacks == client.callbacks,
{
}

/// Noting a room, a token or a session changes that and nothing else.
pub proof fn notes_change_one_thing(
    base: BaseClientView,
    room_id: Seq<char>,
    id: Seq<char>,
    token: Seq<char>,
    session: SessionView,
)
    ensures
        base.with_room(room_id).joined_rooms.contains(id) <==> base.joined_rooms.contains(id) || id
            == room_id,
        base.with_room(room_id).session == base.session,
        base.with_room(room_id).sync_token == base.sync_token,
        base.with_token(token).sync_token == Some(token),
        base.with_token(token).session == base.session,
        base.with_token(token).joined_rooms == base.joined_rooms,
        base.with_session(session).session == Some(session),
        base.with_session(session).sync_token == base.sync_token,
        base.with_session(session).joined_rooms == base.joined_rooms,
{
}

// -------------------------------------------------------- steps of a sync

/// A state event makes its room known; taking the token takes that of the reply;
/// no other step changes the client's state. A room can be entered just when it is
/// known, and every other step can be taken.
pub proof fn steps_change_what_they_are_for(
    base: BaseClientView,
    action: Option<SyncAction>,
    rooms: Seq<JoinedRoomView>,
    next_batch: Seq<char>,
    id: Seq<char>,
)
    ensures
        ({
            let after = after_action(base, action, rooms, next_batch);
            &&& after.session == base.session
            &&& action == Some(SyncAction::ReceiveSyncResponse) ==> after.sync_token == Some(
                next_batch,
            )
            &&& action != Some(SyncAction::ReceiveSyncResponse) ==> after.sync_token
                == base.sync_token
            &&& match action {
                Some(SyncAction::ReceiveStateEvent { room, event: _ }) => {
                    after.joined_rooms.contains(id) <==> base.joined_rooms.contains(id) || id
                        == rooms[room as int].room_id
                },
                _ => after.joined_rooms == base.joined_rooms,
            }
            &&& match action {
                Some(SyncAction::EnterRoom { room }) => {
                    step_allowed(base, action, rooms) <==> base.joined_rooms.contains(
                        rooms[room as int].room_id,
                    )
                },
                _ => step_allowed(base, action, rooms),
            }
        }),
{
}

/// The action of a step is the first thing that was left to do, and what is left
/// after it is the rest, where the callbacks of the event whose turn it is are as
/// many as there are now. A step is nothing just when nothing was left. The reply
/// stays the same. Callbacks come next just when a room has got an event.
pub proof fn a_step_does_the_first_thing_left(
    run: SyncRun,
    callbacks: nat,
    action: Option<SyncAction>,
    next: SyncRun,
    counts: Counts,
)
    requires
        run.steps_to(callbacks, action, next),
        run.dispatching() matches Some(at) ==> counts(at.0, at.1) == callbacks,
    ensures
        action is None <==> run.plan(counts).len() == 0,
        action is None ==> next == run,
        action matches Some(action) ==> run.plan(counts)[0] == action && next.plan(counts)
            == run.plan(counts).skip(1),
        next.rooms() == run.rooms(),
        next.next_batch() == run.next_batch(),
        action matches Some(action) ==> match action {
            SyncAction::ReceiveTimelineEvent { room, event } => next.dispatching() == Some(
                (room as int, event as int),
            ),
            _ => next.dispatching() is None,
        },
{
    assert(run.agrees(counts, callbacks));
    if let Some(action) = action {
        assert(run.plan(counts) == seq![action] + next.plan(counts));
        assert(run.plan(counts).skip(1) =~= next.plan(counts));
    }
}

/// While the number of callbacks stays the same, a step is the first thing left of
/// what is to be done with that many callbacks at every event.
pub proof fn a_step_is_the_upcoming_one(
    run: SyncRun,
    callbacks: nat,
    action: Option<SyncAction>,
    next: SyncRun,
)
    ensures
        run.steps_to(callbacks, action, next) ==> action == run.upcoming(callbacks),
        ({
            let plan = run.plan(|room: int, event: int| callbacks);
            &&& run.upcoming(callbacks) is None <==> plan.len() == 0
            &&& plan.len() > 0 ==> run.upcoming(callbacks) == Some(plan[0])
        }),
{
}

/// An action of a step names a room and an event that the reply has, and a state
/// event that is valid.
pub proof fn actions_name_what_there_is(action: SyncAction, rooms: Seq<JoinedRoomView>)
    requires
        action.within(rooms),
    ensures
        match action {
            SyncAction::ReceiveStateEvent { room, event } => room < rooms.len() && event
                < rooms[room as int].state.len() && rooms[room as int].state[event as int],
            SyncAction::EnterRoom { room } => room < rooms.len(),
            SyncAction::ReceiveTimelineEvent { room, event } => room < rooms.len() && event
                < rooms[room as int].timeline,
            SyncAction::CallBack { room, event, callback: _ } => room < rooms.len() && event
                < rooms[room as int].timeline,
            SyncAction::Await { callback: _ } => true,
            SyncAction::ReceiveSyncResponse => true,
        },
{
}

/// Joined rooms are worth what stands in their fields, each in its place.
pub proof fn rooms_are_their_fields(rooms: Seq<JoinedRoom>, i: int)
    requires
        0 <= i < rooms.len(),
    ensures
        room_views(rooms).len() == rooms.len(),
        room_views(rooms)[i].room_id == rooms[i].room_id@,
        room_views(rooms)[i].state == rooms[i].state@,
        room_views(rooms)[i].timeline == rooms[i].timeline,
        rooms[i]@ == room_views(rooms)[i],
{
}

/// Rooms fit if the machine can count them, their state events and their timelines.
pub proof fn rooms_fit_if_they_can_be_counted(rooms: Seq<JoinedRoomView>)
    requires
        rooms.len() <= usize::MAX,
        forall|i: int|
            0 <= i < rooms.len() ==> (#[trigger] rooms[i]).state.len() <= usize::MAX
                && rooms[i].timeline <= usize::MAX,
    ensures
        rooms_fit(rooms),
{
}

// ------------------------------------------------------- sync without end

/// Every move of a sync without end: it starts with the settings that it was given;
/// after a failure it waits a second, and then syncs with what it used before, or,
/// if that was the first sync, with a timeout of 30 seconds from the client's token;
/// after a success it calls the callback, and then syncs with a timeout of 30
/// seconds from the client's token. There are no other moves.
pub proof fn a_sync_without_end_moves_so(
    state: SyncLoopView,
    event: LoopEvent,
    token: Option<Seq<char>>,
)
    ensures
        ({
            let own = SyncSettingsView { timeout: Some(30000), token, full_state: None };
            loop_step(state, event, token) == if event == LoopEvent::Started {
                match state {
                    SyncLoopView::Ready(settings) => Some(
                        (SyncLoopView::FirstSync, LoopActionView::Sync(settings)),
                    ),
                    _ => None,
                }
            } else if event == LoopEvent::SyncFailed {
                match state {
                    SyncLoopView::FirstSync => Some(
                        (SyncLoopView::Sleeping(own), LoopActionView::Sleep { seconds: 1 }),
                    ),
                    SyncLoopView::Syncing(settings) => Some(
                        (SyncLoopView::Sleeping(settings), LoopActionView::Sleep { seconds: 1 }),
                    ),
                    _ => None,
                }
            } else if event == LoopEvent::Slept {
                match state {
                    SyncLoopView::Sleeping(settings) => Some(
                        (SyncLoopView::Syncing(settings), LoopActionView::Sync(settings)),
                    ),
                    _ => None,
                }
            } else if event == LoopEvent::SyncSucceeded {
                match state {
                    SyncLoopView::FirstSync => Some(
                        (SyncLoopView::CallingBack, LoopActionView::CallBack),
                    ),
                    SyncLoopView::Syncing(_) => Some(
                        (SyncLoopView::CallingBack, LoopActionView::CallBack),
                    ),
                    _ => None,
                }
            } else {
                match state {
                    SyncLoopView::CallingBack => Some(
                        (SyncLoopView::Syncing(own), LoopActionView::Sync(own)),
                    ),
                    _ => None,
                }
            }
        }),
{
}

/// The states and the actions of a sync without end are worth what they hold.
pub proof fn moves_are_what_they_hold(state: SyncLoop, action: LoopAction)
    ensures
        match state {
            SyncLoop::Ready(settings) => state@ == SyncLoopView::Ready(settings@),
            SyncLoop::FirstSync => state@ == SyncLoopView::FirstSync,
            SyncLoop::Syncing(settings) => state@ == SyncLoopView::Syncing(settings@),
            SyncLoop::Sleeping(settings) => state@ == SyncLoopView::Sleeping(settings@),
            SyncLoop::CallingBack => state@ == SyncLoopView::CallingBack,
        },
        match action {
            LoopAction::Sync(settings) => action@ == LoopActionView::Sync(settings@),
            LoopAction::Sleep { seconds } => action@ == (LoopActionView::Sleep { seconds }),
            LoopAction::CallBack => action@ == LoopActionView::CallBack,
        },
{
}

} // verus!
