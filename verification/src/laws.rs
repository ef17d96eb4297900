//! What holds of the client as a whole.
use vstd::prelude::*;

use crate::async_client::{AsyncClientView, ROOM_MESSAGE};
use crate::base_client::BaseClientView;
use crate::decimal::{decimal, decimal_digits, decimal_injective};
use crate::outside::parsed_room_id;
use crate::plan_laws::{a_sync_takes_the_token, after_plan};
use crate::query::{form_text, segment_text};
use crate::request::{EndpointRequestView, Method};
use crate::session::{LoginResponseView, SessionView};
use crate::settings::SyncSettingsView;
use crate::sync::{after_action, sync_plan, Counts, JoinedRoomView, SyncAction};
use crate::sync_loop::{loop_step, settings_from, LoopActionView, LoopEvent, SyncLoopView};

verus! {

// ------------------------------------------------------------- transactions

/// The client once so many transaction ids have been taken up.
pub open spec fn after_transactions<C>(client: AsyncClientView<C>, n: nat) -> AsyncClientView<C>
    decreases n,
{
    if n == 0 {
        client
    } else {
        after_transactions(client, (n - 1) as nat).next_transaction()
    }
}

/// Transaction ids count up by one: the id after `n` of them is `n` further on,
/// modulo 2^64. A new client starts with 0.
pub proof fn transaction_ids_count_up<C>(client: AsyncClientView<C>, n: nat)
    ensures
        after_transactions(client, n).transaction_id == (client.transaction_id + n) % (u64::MAX + 1),
        forall|homeserver: Seq<char>, http_client: reqwest::Client, session: Option<SessionView>|
            (#[trigger] AsyncClientView::<C>::initial(homeserver, http_client, session)).transaction_id
                == 0,
    decreases n,
{
    if n > 0 {
        transaction_ids_count_up(client, (n - 1) as nat);
        let before = client.transaction_id + n - 1;
        let m = u64::MAX + 1;
        vstd::arithmetic::div_mod::lemma_add_mod_noop(before, 1, m);
        vstd::arithmetic::div_mod::lemma_small_mod(1, m as nat);
        let id = before % m;
        assert((before + 1) % m == (id + 1) % m);
        if id == u64::MAX {
            vstd::arithmetic::div_mod::lemma_mod_self_0(m);
        } else {
            vstd::arithmetic::div_mod::lemma_small_mod((id + 1) as nat, m as nat);
        }
    }
}

/// The path of a message ends in the text of its transaction id.
proof fn paths_end_in_transactions(a: Seq<char>, b: Seq<char>, m: nat, n: nat)
    requires
        a + "/"@ + decimal(m) == b + "/"@ + decimal(n),
    ensures
        m == n,
{
    reveal_strlit("/");
    let (s, t) = (decimal(m), decimal(n));
    let path = a + "/"@ + s;
    assert(path =~= b + "/"@ + t);
    if s.len() > t.len() {
        decimal_digits(m, s.len() - t.len() - 1);
        assert(path[path.len() - t.len() - 1] == '/');
        assert(path[path.len() - t.len() - 1] == s[s.len() - t.len() - 1]);
    } else if s.len() < t.len() {
        decimal_digits(n, t.len() - s.len() - 1);
        assert(path[path.len() - s.len() - 1] == '/');
        assert(path[path.len() - s.len() - 1] == t[t.len() - s.len() - 1]);
    }
    assert(s =~= path.skip(path.len() - s.len()));
    assert(t =~= path.skip(path.len() - t.len()));
    decimal_injective(m, n);
}

/// No two of 2^64 messages in a row are sent to the same path, whichever rooms
/// they go to.
pub proof fn messages_share_no_path<C>(
    client: AsyncClientView<C>,
    i: nat,
    j: nat,
    room_i: Seq<char>,
    room_j: Seq<char>,
)
    requires
        i < j,
        j - i <= u64::MAX,
    ensures
        after_transactions(client, i).message_path(room_i) != after_transactions(
            client,
            j,
        ).message_path(room_j),
{
    transaction_ids_are_unique(client, i, j);
    let (a, b) = (after_transactions(client, i), after_transactions(client, j));
    if a.message_path(room_i) == b.message_path(room_j) {
        paths_end_in_transactions(
            "/_matrix/client/r0/rooms/"@ + segment_text(
                vstd::utf8::encode_utf8(parsed_room_id(room_i)->0),
            ) + "/send/"@ + ROOM_MESSAGE@,
            "/_matrix/client/r0/rooms/"@ + segment_text(
                vstd::utf8::encode_utf8(parsed_room_id(room_j)->0),
            ) + "/send/"@ + ROOM_MESSAGE@,
            a.transaction_id as nat,
            b.transaction_id as nat,
        );
    }
}

/// Transaction ids are unique: of 2^64 ids in a row no two are the same, neither
/// as numbers nor as the texts that requests carry.
pub proof fn transaction_ids_are_unique<C>(client: AsyncClientView<C>, i: nat, j: nat)
    requires
        i < j,
        j - i <= u64::MAX,
    ensures
        after_transactions(client, i).transaction_id != after_transactions(
            client,
            j,
        ).transaction_id,
        decimal(after_transactions(client, i).transaction_id as nat) != decimal(
            after_transactions(client, j).transaction_id as nat,
        ),
{
    transaction_ids_count_up(client, i);
    transaction_ids_count_up(client, j);
    let m = u64::MAX + 1;
    let (a, b) = (client.transaction_id + i, client.transaction_id + j);
    if a % m == b % m {
        vstd::arithmetic::div_mod::lemma_fundamental_div_mod(a, m);
        vstd::arithmetic::div_mod::lemma_fundamental_div_mod(b, m);
        let k = b / m - a / m;
        assert(b - a == m * (b / m) - m * (a / m));
        vstd::arithmetic::mul::lemma_mul_is_distributive_sub(m, b / m, a / m);
        assert(b - a == m * k);
        assert(false) by (nonlinear_arith)
            requires
                b - a == m * k,
                0 < b - a < m,
        ;
    }
    if decimal(after_transactions(client, i).transaction_id as nat) == decimal(
        after_transactions(client, j).transaction_id as nat,
    ) {
        decimal_injective(
            after_transactions(client, i).transaction_id as nat,
            after_transactions(client, j).transaction_id as nat,
        );
    }
}

// ------------------------------------------------------------ authentication

/// A client without a session sends no request that asks for an access token:
/// neither a sync nor a message nor any other one.
pub proof fn without_a_session_nothing_authenticated_goes_out<C>(
    client: AsyncClientView<C>,
    request: EndpointRequestView,
    settings: SyncSettingsView,
    room_id: Seq<char>,
    json: Seq<u8>,
)
    requires
        client.base.session is None,
    ensures
        request.requires_authentication ==> client.call(request) is None,
        client.sync_call(settings) is None,
        client.message_call(room_id, json) is None,
{
}

/// The access token goes out just with the requests that ask for one. A login
/// asks for none, and is the same whether or not there is a session.
pub proof fn the_token_goes_where_it_is_asked_for<C>(
    client: AsyncClientView<C>,
    request: EndpointRequestView,
    user: Seq<char>,
    password: Seq<char>,
    device_id: Option<Seq<char>>,
    session: SessionView,
)
    ensures
        !request.requires_authentication ==> client.call(request) is Some,
        client.call(request) matches Some(call) ==> call.bearer == if request.requires_authentication {
            Some(client.base.session->0.access_token)
        } else {
            None
        },
        client.login_call(user, password, device_id).bearer is None,
        (AsyncClientView { base: client.base.with_session(session), ..client }).login_call(
            user,
            password,
            device_id,
        ) == client.login_call(user, password, device_id),
{
}

/// A login that was answered logs the client in, and from then on the requests
/// that ask for an access token carry the one that was granted.
pub proof fn a_login_authenticates<C>(
    client: AsyncClientView<C>,
    response: LoginResponseView,
    settings: SyncSettingsView,
    room_id: Seq<char>,
    json: Seq<u8>,
)
    ensures
        client.logged_in_with(response).base.session == Some(response.session()),
        client.logged_in_with(response).sync_call(settings) matches Some(call) && call.bearer
            == Some(response.access_token),
        client.logged_in_with(response).message_call(room_id, json) matches Some(call)
            && call.bearer == Some(response.access_token),
{
}

/// What a request sends depends on its method: a sync sends nothing, a message
/// and a login send their JSON.
pub proof fn bodies_go_with_methods<C>(client: AsyncClientView<C>, request: EndpointRequestView)
    requires
        client.sendable(request),
    ensures
        client.call(request) matches Some(call) ==> {
            &&& call.method == Method::Get <==> call.body is None
            &&& call.body matches Some(body) ==> body == request.body
        },
{
}

// ----------------------------------------------------- a client's history

/// Something that changes a client.
pub enum ClientChange<C> {
    /// A callback was added.
    CallbackAdded(C),
    /// A callback was called, and is now this one.
    CallbackCalled(int, C),
    /// A transaction id was taken up.
    TransactionTaken,
    /// A login was granted.
    LoginGranted(LoginResponseView),
    /// A step of a sync was taken, for a reply with these rooms and this token.
    SyncStep {
        action: Option<SyncAction>,
        rooms: Seq<JoinedRoomView>,
        next_batch: Seq<char>,
    },
}

/// What a change makes of a client.
pub open spec fn after_change<C>(
    client: AsyncClientView<C>,
    change: ClientChange<C>,
) -> AsyncClientView<C> {
    match change {
        ClientChange::CallbackAdded(callback) => AsyncClientView {
            callbacks: client.callbacks.push(callback),
            ..client
        },
        ClientChange::CallbackCalled(i, callback) => AsyncClientView {
            callbacks: client.callbacks.update(i, callback),
            ..client
        },
        ClientChange::TransactionTaken => client.next_transaction(),
        ClientChange::LoginGranted(response) => client.logged_in_with(response),
        ClientChange::SyncStep { action, rooms, next_batch } => AsyncClientView {
            base: after_action(client.base, action, rooms, next_batch),
            ..client
        },
    }
}

/// Whether a change can come to a client: a callback that is called is one of its
/// callbacks.
pub open spec fn change_possible<C>(client: AsyncClientView<C>, change: ClientChange<C>) -> bool {
    change matches ClientChange::CallbackCalled(i, _) ==> 0 <= i < client.callbacks.len()
}

/// Whether a client went through these states by these changes.
pub open spec fn history<C>(
    clients: Seq<AsyncClientView<C>>,
    changes: Seq<ClientChange<C>>,
) -> bool {
    &&& clients.len() == changes.len() + 1
    &&& forall|i: int|
        0 <= i < changes.len() ==> change_possible(clients[i], #[trigger] changes[i]) && clients[i
            + 1] == after_change(clients[i], changes[i])
}

/// Whether a change takes a sync token from a reply.
pub open spec fn takes_token<C>(change: ClientChange<C>) -> bool {
    change matches ClientChange::SyncStep { action, rooms: _, next_batch: _ } && action == Some(
        SyncAction::ReceiveSyncResponse,
    )
}

/// The session that a client has after some changes: that of the last login that
/// was granted, or else the one that it had.
pub open spec fn session_after<C>(
    session: Option<SessionView>,
    changes: Seq<ClientChange<C>>,
) -> Option<SessionView>
    decreases changes.len(),
{
    if changes.len() == 0 {
        session
    } else {
        match changes.last() {
            ClientChange::LoginGranted(response) => Some(response.session()),
            _ => session_after(session, changes.drop_last()),
        }
    }
}

/// The sync token that a client has after some changes: the last one that was
/// taken from a reply, or else the one that it had.
pub open spec fn token_after<C>(
    token: Option<Seq<char>>,
    changes: Seq<ClientChange<C>>,
) -> Option<Seq<char>>
    decreases changes.len(),
{
    if changes.len() == 0 {
        token
    } else if takes_token(changes.last()) {
        Some(changes.last()->next_batch)
    } else {
        token_after(token, changes.drop_last())
    }
}

/// A history without its last change.
proof fn shorter_history<C>(clients: Seq<AsyncClientView<C>>, changes: Seq<ClientChange<C>>)
    requires
        history(clients, changes),
        changes.len() > 0,
    ensures
        history(clients.drop_last(), changes.drop_last()),
        change_possible(clients.drop_last().last(), changes.last()),
        clients.last() == after_change(clients.drop_last().last(), changes.last()),
{
    let n = changes.len() - 1;
    assert(changes[n] == changes.last());
    assert(clients[n + 1] == after_change(clients[n], changes[n]));
    let (fewer, rest) = (clients.drop_last(), changes.drop_last());
    assert forall|i: int| 0 <= i < rest.len() implies change_possible(fewer[i], #[trigger] rest[i])
        && fewer[i + 1] == after_change(fewer[i], rest[i]) by {
        assert(clients[i + 1] == after_change(clients[i], changes[i]));
    }
}

/// A client has the session of the last login that was granted, or, if none was,
/// the one that it had at the start. So it is logged in just when it was given a
/// session or a login was granted.
pub proof fn a_client_is_logged_in_by_a_session_or_a_login<C>(
    clients: Seq<AsyncClientView<C>>,
    changes: Seq<ClientChange<C>>,
)
    requires
        history(clients, changes),
    ensures
        clients.last().base.session == session_after(clients[0].base.session, changes),
        clients.last().base.session is Some <==> clients[0].base.session is Some || exists|i: int|
            0 <= i < changes.len() && #[trigger] changes[i] is LoginGranted,
    decreases changes.len(),
{
    if changes.len() > 0 {
        let rest = changes.drop_last();
        shorter_history(clients, changes);
        a_client_is_logged_in_by_a_session_or_a_login(clients.drop_last(), rest);
        if changes.last() is LoginGranted {
            assert(changes[changes.len() - 1] is LoginGranted);
        } else {
            assert forall|i: int| 0 <= i < changes.len() && #[trigger] changes[i] is LoginGranted
                implies rest[i] is LoginGranted && i < rest.len() by {}
            assert forall|i: int| 0 <= i < rest.len() && #[trigger] rest[i] is LoginGranted
                implies changes[i] is LoginGranted by {}
        }
    }
}

/// A client has the sync token that it took last from a sync reply, or, if it has
/// taken none, the one that it had at the start. So one that started without a
/// token has none just as long as it has not synced.
pub proof fn a_client_has_a_token_once_it_has_synced<C>(
    clients: Seq<AsyncClientView<C>>,
    changes: Seq<ClientChange<C>>,
)
    requires
        history(clients, changes),
    ensures
        clients.last().base.sync_token == token_after(clients[0].base.sync_token, changes),
        clients.last().base.sync_token is Some <==> clients[0].base.sync_token is Some
            || exists|i: int| 0 <= i < changes.len() && takes_token(#[trigger] changes[i]),
    decreases changes.len(),
{
    if changes.len() > 0 {
        let rest = changes.drop_last();
        shorter_history(clients, changes);
        a_client_has_a_token_once_it_has_synced(clients.drop_last(), rest);
        if takes_token(changes.last()) {
            assert(takes_token(changes[changes.len() - 1]));
        } else {
            assert forall|i: int| 0 <= i < changes.len() && takes_token(#[trigger] changes[i])
                implies takes_token(rest[i]) && i < rest.len() by {}
            assert forall|i: int| 0 <= i < rest.len() && takes_token(#[trigger] rest[i])
                implies takes_token(changes[i]) by {}
        }
    }
}

/// A new client has the session that it was given, and no sync token.
pub proof fn a_new_client_has_its_session_and_no_token<C>(
    homeserver: Seq<char>,
    http_client: reqwest::Client,
    session: Option<SessionView>,
)
    ensures
        AsyncClientView::<C>::initial(homeserver, http_client, session).base.session == session,
        AsyncClientView::<C>::initial(homeserver, http_client, session).base.sync_token is None,
{
}

/// A client keeps its homeserver and its HTTP client, forgets no room, and loses
/// no callback.
pub proof fn a_client_keeps_what_it_was_made_with<C>(
    clients: Seq<AsyncClientView<C>>,
    changes: Seq<ClientChange<C>>,
)
    requires
        history(clients, changes),
    ensures
        clients.last().homeserver == clients[0].homeserver,
        clients.last().http_client == clients[0].http_client,
        clients[0].base.joined_rooms.subset_of(clients.last().base.joined_rooms),
        clients[0].callbacks.len() <= clients.last().callbacks.len(),
    decreases changes.len(),
{
    if changes.len() > 0 {
        shorter_history(clients, changes);
        a_client_keeps_what_it_was_made_with(clients.drop_last(), changes.drop_last());
    }
}

// ---------------------------------------------------------- syncing forever

/// Where a sync without end has got to by a step.
pub open spec fn state_of(step: Option<(SyncLoopView, LoopActionView)>) -> SyncLoopView {
    match step {
        Some((state, _)) => state,
        None => SyncLoopView::CallingBack,
    }
}

/// How a sync has ended, and the client's sync token when it had.
pub struct Outcome {
    pub succeeded: bool,
    pub token: Option<Seq<char>>,
}

/// Where a sync without end is after one more sync has ended.
pub open spec fn after_outcome(state: SyncLoopView, outcome: Outcome) -> SyncLoopView {
    if outcome.succeeded {
        state_of(
            loop_step(
                state_of(loop_step(state, LoopEvent::SyncSucceeded, outcome.token)),
                LoopEvent::CalledBack,
                outcome.token,
            ),
        )
    } else {
        state_of(
            loop_step(
                state_of(loop_step(state, LoopEvent::SyncFailed, outcome.token)),
                LoopEvent::Slept,
                outcome.token,
            ),
        )
    }
}

/// Where a sync without end is after these outcomes.
pub open spec fn after_outcomes(settings: SyncSettingsView, outcomes: Seq<Outcome>) -> SyncLoopView
    decreases outcomes.len(),
{
    if outcomes.len() == 0 {
        state_of(loop_step(SyncLoopView::Ready(settings), LoopEvent::Started, None))
    } else {
        after_outcome(after_outcomes(settings, outcomes.drop_last()), outcomes.last())
    }
}

/// Whatever the outcomes were, another sync is under way, and no outcome of it
/// stops the loop.
pub proof fn a_sync_is_always_under_way(
    settings: SyncSettingsView,
    outcomes: Seq<Outcome>,
    token: Option<Seq<char>>,
)
    ensures
        ({
            let state = after_outcomes(settings, outcomes);
            &&& if outcomes.len() == 0 {
                state is FirstSync
            } else {
                state is Syncing
            }
            &&& loop_step(state, LoopEvent::SyncSucceeded, token) matches Some((next, _))
                && loop_step(next, LoopEvent::CalledBack, token) is Some
            &&& loop_step(state, LoopEvent::SyncFailed, token) matches Some((next, _))
                && loop_step(next, LoopEvent::Slept, token) is Some
        }),
    decreases outcomes.len(),
{
    if outcomes.len() > 0 {
        a_sync_is_always_under_way(settings, outcomes.drop_last(), token);
    }
}

/// The settings that a sync without end is given are used for the first sync, and
/// for no other: once a sync has ended, well or badly, what follows is the same
/// whatever they were.
pub proof fn the_first_settings_are_used_once(
    settings: SyncSettingsView,
    other: SyncSettingsView,
    outcomes: Seq<Outcome>,
    token: Option<Seq<char>>,
)
    ensures
        loop_step(SyncLoopView::Ready(settings), LoopEvent::Started, token) == Some(
            (SyncLoopView::FirstSync, LoopActionView::Sync(settings)),
        ),
        after_outcomes(settings, outcomes) == after_outcomes(other, outcomes),
    decreases outcomes.len(),
{
    if outcomes.len() > 0 {
        the_first_settings_are_used_once(settings, other, outcomes.drop_last(), token);
    }
}

/// While no sync has succeeded, a sync without end goes on from the token that the
/// client had when the first sync failed, if it had one, with a timeout of its
/// own.
pub proof fn without_a_success_syncs_go_on_from_the_token_at_hand(
    settings: SyncSettingsView,
    outcomes: Seq<Outcome>,
)
    requires
        outcomes.len() > 0,
        forall|i: int| 0 <= i < outcomes.len() ==> !(#[trigger] outcomes[i]).succeeded,
    ensures
        after_outcomes(settings, outcomes) == SyncLoopView::Syncing(
            SyncSettingsView { timeout: Some(30000), token: outcomes[0].token, full_state: None },
        ),
    decreases outcomes.len(),
{
    a_sync_is_always_under_way(settings, outcomes.drop_last(), None);
    if outcomes.len() > 1 {
        without_a_success_syncs_go_on_from_the_token_at_hand(settings, outcomes.drop_last());
    }
}

/// Once a sync has succeeded, a sync without end goes on from the token that the
/// client had after the last success, with a timeout of its own.
pub proof fn later_syncs_go_on_from_the_last_success(
    settings: SyncSettingsView,
    outcomes: Seq<Outcome>,
    last: int,
)
    requires
        0 <= last < outcomes.len(),
        outcomes[last].succeeded,
        forall|i: int| last < i < outcomes.len() ==> !(#[trigger] outcomes[i]).succeeded,
    ensures
        after_outcomes(settings, outcomes) == SyncLoopView::Syncing(
            SyncSettingsView { timeout: Some(30000), token: outcomes[last].token, full_state: None },
        ),
    decreases outcomes.len(),
{
    let before = outcomes.drop_last();
    a_sync_is_always_under_way(settings, before, None);
    if last < outcomes.len() - 1 {
        later_syncs_go_on_from_the_last_success(settings, before, last);
    }
}

/// After a sync that has failed the loop waits for a second and syncs again,
/// without calling the callback. If it was not the first sync, it is tried again
/// with the same settings.
pub proof fn a_failed_sync_is_followed_by_another(
    settings: SyncSettingsView,
    token: Option<Seq<char>>,
)
    ensures
        loop_step(SyncLoopView::FirstSync, LoopEvent::SyncFailed, token) == Some(
            (
                SyncLoopView::Sleeping(settings_from(token)),
                LoopActionView::Sleep { seconds: 1 },
            ),
        ),
        loop_step(SyncLoopView::Syncing(settings), LoopEvent::SyncFailed, token) == Some(
            (SyncLoopView::Sleeping(settings), LoopActionView::Sleep { seconds: 1 }),
        ),
        loop_step(SyncLoopView::Sleeping(settings), LoopEvent::Slept, token) == Some(
            (SyncLoopView::Syncing(settings), LoopActionView::Sync(settings)),
        ),
{
}

/// The callback is called with the reply of every sync that succeeds, and no
/// other sync starts before it is done.
pub proof fn every_success_reaches_the_callback(
    settings: SyncSettingsView,
    event: LoopEvent,
    token: Option<Seq<char>>,
)
    ensures
        loop_step(SyncLoopView::FirstSync, LoopEvent::SyncSucceeded, token) == Some(
            (SyncLoopView::CallingBack, LoopActionView::CallBack),
        ),
        loop_step(SyncLoopView::Syncing(settings), LoopEvent::SyncSucceeded, token) == Some(
            (SyncLoopView::CallingBack, LoopActionView::CallBack),
        ),
        loop_step(SyncLoopView::CallingBack, event, token) is Some ==> event
            == LoopEvent::CalledBack,
{
}

/// The request of a sync that goes on from a token carries the token and the
/// timeout.
pub proof fn a_later_sync_carries_the_token(token: Seq<char>)
    ensures
        settings_from(Some(token)).target() == "/_matrix/client/r0/sync?since="@ + form_text(
            vstd::utf8::encode_utf8(token),
        ) + "&timeout=30000"@,
{
    let value = form_text(vstd::utf8::encode_utf8(token));
    reveal_strlit("/_matrix/client/r0/sync?since=");
    reveal_strlit("/_matrix/client/r0/sync?");
    reveal_strlit("since");
    reveal_strlit("timeout");
    reveal_strlit("&timeout=30000");
    reveal_with_fuel(decimal, 5);
    assert(decimal(30000) =~= seq!['3', '0', '0', '0', '0']);
    assert(settings_from(Some(token)).target() =~= "/_matrix/client/r0/sync?since="@ + value
        + "&timeout=30000"@);
}

/// Setting the full state does nothing if no sync token is set: the request is
/// the same.
pub proof fn the_full_state_needs_a_token<C>(
    client: AsyncClientView<C>,
    settings: SyncSettingsView,
    full_state: Option<bool>,
)
    requires
        settings.token is None,
    ensures
        ({
            let changed = SyncSettingsView { full_state, ..settings };
            &&& changed.target() == settings.target()
            &&& changed.uri_fits() == settings.uri_fits()
            &&& client.sync_url(changed) == client.sync_url(settings)
            &&& client.sync_call(changed) == client.sync_call(settings)
        }),
{
}

/// A sync without end goes on from where the last sync has ended: from the token
/// of its reply, whether or not a joined room had news.
pub proof fn the_next_sync_goes_on_where_the_last_ended(
    base: BaseClientView,
    counts: Counts,
    rooms: Seq<JoinedRoomView>,
    next_batch: Seq<char>,
)
    ensures
        ({
            let after = after_plan(base, sync_plan(rooms, 0, counts), rooms, next_batch);
            loop_step(SyncLoopView::CallingBack, LoopEvent::CalledBack, after.sync_token) == Some(
                (
                    SyncLoopView::Syncing(settings_from(Some(next_batch))),
                    LoopActionView::Sync(settings_from(Some(next_batch))),
                ),
            )
        }),
{
    a_sync_takes_the_token(base, counts, rooms, next_batch);
}

} // verus!
