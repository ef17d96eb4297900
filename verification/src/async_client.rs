//! The client.
use ruma_events::room::message::MessageEventContent;
use vstd::prelude::*;

use crate::base_client::{session_view, BaseClient, BaseClientView};
use crate::config::{AsyncClientConfig, AsyncClientConfigView, HttpSetup};
use crate::decimal::{decimal, decimal_digits, decimal_length_u64, decimal_nonempty, to_decimal};
use crate::error::ClientError;
use crate::json::login_body;
use crate::outside::{
    client_setup, decode_login, decode_room_message, encode_login, encode_room_message,
    is_build_error, is_login_error, is_message_error, is_message_json, is_room_message_error,
    join_url, joined_url, login_reply, message_encodes, parse_room_id, parse_url, parsed_room_id,
    parsed_url, room_message_reply,
};
use crate::query::{alphanumeric, message_target, plain_segment};
use crate::request::{
    call_for, method_named, method_names, method_of, prepare_call, prepared, EndpointRequest,
    EndpointRequestView, HttpCall, HttpCallView, Method,
};
use crate::session::{text, LoginResponse, LoginResponseView, Session, SessionView};
use crate::settings::{SyncSettings, SyncSettingsView};
use crate::sync::{after_action, step_allowed, SyncAction, SyncRun};
use crate::sync_loop::{loop_step, LoopAction, LoopEvent, SyncLoop};

verus! {

/// A Matrix client, with callbacks of type `C`.
pub struct AsyncClient<C> {
    homeserver: String,
    http_client: reqwest::Client,
    base_client: BaseClient,
    transaction_id: u64,
    event_callbacks: Vec<C>,
}

/// The value of an [`AsyncClient`].
pub struct AsyncClientView<C> {
    /// The URL of the homeserver to connect to.
    pub homeserver: Seq<char>,
    /// The underlying HTTP client.
    pub http_client: reqwest::Client,
    /// User session data.
    pub base: BaseClientView,
    /// The next transaction id.
    pub transaction_id: u64,
    /// The event callbacks, in the order in which they were added.
    pub callbacks: Seq<C>,
}

impl<C> View for AsyncClient<C> {
    type V = AsyncClientView<C>;

    closed spec fn view(&self) -> AsyncClientView<C> {
        AsyncClientView {
            homeserver: self.homeserver@,
            http_client: self.http_client,
            base: self.base_client@,
            transaction_id: self.transaction_id,
            callbacks: self.event_callbacks@,
        }
    }
}

/// The type of the events that messages are sent as.
pub const ROOM_MESSAGE: &'static str = "m.room.message";

/// The type of message events, and the text of a transaction id, can stand in a
/// path as they are.
proof fn segments_are_plain(txn_id: u64)
    ensures
        plain_segment(ROOM_MESSAGE@),
        plain_segment(decimal(txn_id as nat)),
{
    reveal_strlit("m.room.message");
    let digits = decimal(txn_id as nat);
    decimal_length_u64(txn_id);
    decimal_nonempty(txn_id as nat);
    assert forall|i: int| 0 <= i < digits.len() implies alphanumeric(#[trigger] digits[i]) by {
        decimal_digits(txn_id as nat, i);
    }
}

/// The transaction id that follows another one.
pub open spec fn next_transaction_id(id: u64) -> u64 {
    if id == u64::MAX {
        0
    } else {
        (id + 1) as u64
    }
}

impl<C> AsyncClientView<C> {
    /// A client at its start.
    pub open spec fn initial(
        homeserver: Seq<char>,
        http_client: reqwest::Client,
        session: Option<SessionView>,
    ) -> AsyncClientView<C> {
        AsyncClientView {
            homeserver,
            http_client,
            base: BaseClientView { session, sync_token: None, joined_rooms: Set::empty() },
            transaction_id: 0,
            callbacks: Seq::empty(),
        }
    }

    /// What the underlying HTTP client was set up with.
    pub open spec fn setup(self) -> HttpSetup {
        client_setup(self.http_client)
    }

    /// Whether an endpoint's request can be sent: it has a path that the
    /// homeserver's URL can be joined with, and a method that the client makes
    /// requests with.
    pub open spec fn sendable(self, request: EndpointRequestView) -> bool {
        &&& request.path_and_query is Some
        &&& joined_url(self.homeserver, request.path_and_query->0) is Some
        &&& method_named(request.method) is Some
    }

    /// What goes over the wire for an endpoint's request.
    pub open spec fn call(self, request: EndpointRequestView) -> Option<HttpCallView> {
        call_for(
            request,
            method_named(request.method)->0,
            joined_url(self.homeserver, request.path_and_query->0)->0,
            self.base.session,
        )
    }

    /// The URL of the login endpoint.
    pub open spec fn login_url(self) -> Option<Seq<char>> {
        joined_url(self.homeserver, "/_matrix/client/r0/login"@)
    }

    /// What goes over the wire for a login.
    pub open spec fn login_call(
        self,
        user: Seq<char>,
        password: Seq<char>,
        device_id: Option<Seq<char>>,
    ) -> HttpCallView {
        HttpCallView {
            method: Method::Post,
            url: self.login_url()->0,
            body: Some(login_body(user, password, device_id)),
            bearer: None,
        }
    }

    /// The URL of a sync request.
    pub open spec fn sync_url(self, settings: SyncSettingsView) -> Option<Seq<char>> {
        joined_url(self.homeserver, settings.target())
    }

    /// What goes over the wire for a sync, if the client is logged in.
    pub open spec fn sync_call(self, settings: SyncSettingsView) -> Option<HttpCallView> {
        match self.base.session {
            Some(session) => Some(
                HttpCallView {
                    method: Method::Get,
                    url: self.sync_url(settings)->0,
                    body: None,
                    bearer: Some(session.access_token),
                },
            ),
            None => None,
        }
    }

    /// The client once a login has been answered.
    pub open spec fn logged_in_with(self, response: LoginResponseView) -> AsyncClientView<C> {
        AsyncClientView { base: self.base.with_session(response.session()), ..self }
    }

    /// The client once a transaction id has been taken up.
    pub open spec fn next_transaction(self) -> AsyncClientView<C> {
        AsyncClientView { transaction_id: next_transaction_id(self.transaction_id), ..self }
    }

    /// The path to send the next message to, in a room of this id.
    pub open spec fn message_path(self, room_id: Seq<char>) -> Seq<char> {
        message_target(
            parsed_room_id(room_id)->0,
            ROOM_MESSAGE@,
            decimal(self.transaction_id as nat),
        )
    }

    /// The URL to send the next message to.
    pub open spec fn message_url(self, room_id: Seq<char>) -> Option<Seq<char>> {
        joined_url(self.homeserver, self.message_path(room_id))
    }

    /// What goes over the wire for the next message, if the client is logged in.
    pub open spec fn message_call(self, room_id: Seq<char>, json: Seq<u8>) -> Option<HttpCallView> {
        match self.base.session {
            Some(session) => Some(
                HttpCallView {
                    method: Method::Put,
                    url: self.message_url(room_id)->0,
                    body: Some(json),
                    bearer: Some(session.access_token),
                },
            ),
            None => None,
        }
    }
}

/// Whether the outcome of sending a message, by a client as it was before, is
/// that a JSON form of the message goes out, or that authentication is lacking,
/// or that the message has no such form.
pub open spec fn message_sent<C>(
    r: Result<HttpCall, ClientError>,
    client: AsyncClientView<C>,
    room_id: Seq<char>,
    data: MessageEventContent,
) -> bool {
    if !message_encodes(data) {
        r matches Err(e) && e matches ClientError::RumaApi(cause) && is_message_error(data, cause)
    } else if client.base.session is None {
        r matches Err(e) && e is AuthenticationRequired
    } else {
        r matches Ok(call) && call@.body matches Some(json) && is_message_json(data, json) && Some(
            call@,
        ) == client.message_call(room_id, json)
    }
}

impl<C> AsyncClient<C> {
    /// Creates a new client for making HTTP requests to the given homeserver.
    ///
    /// If a previous login exists, the access token can be reused by giving a
    /// session object here.
    pub fn new(homeserver_url: &str, session: Option<Session>) -> (r: Result<
        AsyncClient<C>,
        ClientError,
    >)
        requires
            parsed_url(homeserver_url@) is Some,
        ensures
            r matches Ok(client) ==> client@ == AsyncClientView::<C>::initial(
                parsed_url(homeserver_url@)->0,
                client@.http_client,
                session_view(session),
            ) && client@.setup() == AsyncClientConfigView::unset().http_options().setup(),
            r matches Err(e) ==> (e matches ClientError::Reqwest(cause) && is_build_error(
                AsyncClientConfigView::unset().http_options().setup(),
                cause,
            )),
    {
        let config = AsyncClientConfig::new();
        AsyncClient::new_with_config(homeserver_url, session, config)
    }

    /// Creates a new client with the given configuration.
    pub fn new_with_config(
        homeserver_url: &str,
        session: Option<Session>,
        config: AsyncClientConfig,
    ) -> (r: Result<AsyncClient<C>, ClientError>)
        requires
            parsed_url(homeserver_url@) is Some,
        ensures
            r matches Ok(client) ==> client@ == AsyncClientView::<C>::initial(
                parsed_url(homeserver_url@)->0,
                client@.http_client,
                session_view(session),
            ) && client@.setup() == config@.http_options().setup(),
            r matches Err(e) ==> (e matches ClientError::Reqwest(cause) && is_build_error(
                config@.http_options().setup(),
                cause,
            )),
    {
        let homeserver = parse_url(homeserver_url).unwrap();
        match config.http_options().build() {
            Ok(http_client) => Ok(AsyncClient::with_http_client(homeserver, http_client, session)),
            Err(e) => Err(e),
        }
    }

    /// Creates a new client around an HTTP client.
    pub fn with_http_client(
        homeserver: String,
        http_client: reqwest::Client,
        session: Option<Session>,
    ) -> (client: AsyncClient<C>)
        ensures
            client@ == AsyncClientView::<C>::initial(
                homeserver@,
                http_client,
                session_view(session),
            ),
    {
        AsyncClient {
            homeserver,
            http_client,
            base_client: BaseClient::new(session),
            transaction_id: 0,
            event_callbacks: Vec::new(),
        }
    }

    /// Creates a new client, unless the homeserver's URL does not parse.
    pub fn try_new(homeserver_url: &str, session: Option<Session>) -> (r: Option<
        Result<AsyncClient<C>, ClientError>,
    >)
        ensures
            r is Some <==> parsed_url(homeserver_url@) is Some,
            r matches Some(Ok(client)) ==> client@ == AsyncClientView::<C>::initial(
                parsed_url(homeserver_url@)->0,
                client@.http_client,
                session_view(session),
            ) && client@.setup() == AsyncClientConfigView::unset().http_options().setup(),
            r matches Some(Err(e)) ==> (e matches ClientError::Reqwest(cause) && is_build_error(
                AsyncClientConfigView::unset().http_options().setup(),
                cause,
            )),
    {
        match parse_url(homeserver_url) {
            Ok(_) => Some(AsyncClient::new(homeserver_url, session)),
            Err(_) => None,
        }
    }

    /// Creates a new client with the given configuration, unless the
    /// homeserver's URL does not parse.
    pub fn try_new_with_config(
        homeserver_url: &str,
        session: Option<Session>,
        config: AsyncClientConfig,
    ) -> (r: Option<Result<AsyncClient<C>, ClientError>>)
        ensures
            r is Some <==> parsed_url(homeserver_url@) is Some,
            r matches Some(Ok(client)) ==> client@ == AsyncClientView::<C>::initial(
                parsed_url(homeserver_url@)->0,
                client@.http_client,
                session_view(session),
            ) && client@.setup() == config@.http_options().setup(),
            r matches Some(Err(e)) ==> (e matches ClientError::Reqwest(cause) && is_build_error(
                config@.http_options().setup(),
                cause,
            )),
    {
        match parse_url(homeserver_url) {
            Ok(_) => Some(AsyncClient::new_with_config(homeserver_url, session, config)),
            Err(_) => None,
        }
    }

    /// Is the client logged in.
    pub fn logged_in(&self) -> (r: bool)
        ensures
            r == (self@.base.session is Some),
    {
        self.base_client.logged_in()
    }

    /// The homeserver of the client.
    pub fn homeserver(&self) -> (r: &String)
        ensures
            r@ == self@.homeserver,
    {
        &self.homeserver
    }

    /// The underlying HTTP client.
    pub fn http_client(&self) -> (r: &reqwest::Client)
        ensures
            *r == self@.http_client,
            client_setup(*r) == self@.setup(),
    {
        &self.http_client
    }

    /// User session data.
    pub fn base_client(&self) -> (r: &BaseClient)
        ensures
            r@ == self@.base,
    {
        &self.base_client
    }

    /// The current, if any, sync token of the client.
    /// This will be None if the client didn't sync at least once.
    pub fn sync_token(&self) -> (r: Option<String>)
        ensures
            text(r) == self@.base.sync_token,
    {
        self.base_client.sync_token()
    }

    /// Adds a callback that will be called every time the client receives a
    /// room event.
    pub fn add_event_callback(&mut self, callback: C)
        ensures
            final(self)@ == (AsyncClientView {
                callbacks: old(self)@.callbacks.push(callback),
                ..old(self)@
            }),
    {
        self.event_callbacks.push(callback);
    }

    /// The number of event callbacks.
    pub fn callback_count(&self) -> (r: usize)
        ensures
            r == self@.callbacks.len(),
    {
        self.event_callbacks.len()
    }

    /// An event callback, to be called.
    pub fn event_callback(&mut self, i: usize) -> (r: &mut C)
        requires
            i < old(self)@.callbacks.len(),
        ensures
            *r == old(self)@.callbacks[i as int],
            final(self)@ == (AsyncClientView {
                callbacks: old(self)@.callbacks.update(i as int, *final(r)),
                ..old(self)@
            }),
    {
        &mut self.event_callbacks[i]
    }

    /// Gets a new unique transaction id for the client.
    pub fn transaction_id(&mut self) -> (id: u64)
        ensures
            id == old(self)@.transaction_id,
            final(self)@ == old(self)@.next_transaction(),
    {
        let id = self.transaction_id;
        self.transaction_id = id.wrapping_add(1);
        id
    }

    /// Prepares an endpoint's request to go over the wire: to the homeserver,
    /// with the access token where the endpoint asks for one.
    pub fn send(&self, request: EndpointRequest) -> (r: Result<HttpCall, ClientError>)
        requires
            self@.sendable(request@),
        ensures
            prepared(r, self@.call(request@)),
    {
        let url = match &request.path_and_query {
            Some(reference) => join_url(self.homeserver.as_str(), reference.as_str()).ok(),
            None => None,
        };
        let method = method_of(&request.method).unwrap();
        prepare_call(request, method, url.unwrap(), self.base_client.session())
    }

    /// Prepares an endpoint's request, unless it cannot be sent.
    pub fn try_send(&self, request: EndpointRequest) -> (r: Option<Result<HttpCall, ClientError>>)
        ensures
            r is Some <==> self@.sendable(request@),
            r matches Some(outcome) ==> prepared(outcome, self@.call(request@)),
    {
        let joins = match &request.path_and_query {
            Some(reference) => join_url(self.homeserver.as_str(), reference.as_str()).is_ok(),
            None => false,
        };
        if joins && method_of(&request.method).is_some() {
            Some(self.send(request))
        } else {
            None
        }
    }

    /// Logs in to the server: the request that does so.
    ///
    /// `device_id` is a unique id that will be associated with this session. If
    /// it is not given, the homeserver will create one. It can be an existing one
    /// from a previous login, which should be done only if the client also holds
    /// the encryption keys of that device.
    pub fn login(&self, user: String, password: String, device_id: Option<String>) -> (r: Result<
        HttpCall,
        ClientError,
    >)
        requires
            self@.login_url() is Some,
        ensures
            prepared(r, Some(self@.login_call(user@, password@, text(device_id)))),
    {
        proof {
            method_names();
        }
        match encode_login(user, password, device_id) {
            Ok(request) => self.send(request),
            Err(e) => Err(ClientError::RumaApi(e)),
        }
    }

    /// Logs in to the server, unless the login endpoint has no URL.
    pub fn try_login(&self, user: String, password: String, device_id: Option<String>) -> (r: Option<
        Result<HttpCall, ClientError>,
    >)
        ensures
            r is Some <==> self@.login_url() is Some,
            r matches Some(outcome) ==> prepared(
                outcome,
                Some(self@.login_call(user@, password@, text(device_id))),
            ),
    {
        match join_url(self.homeserver.as_str(), "/_matrix/client/r0/login") {
            Ok(_) => Some(self.login(user, password, device_id)),
            Err(_) => None,
        }
    }

    /// Takes the reply to a login. If it is a success, the client has the
    /// session that it opens; otherwise nothing changes.
    pub fn receive_login(&mut self, status: u16, body: Vec<u8>) -> (r: Result<
        LoginResponse,
        ClientError,
    >)
        requires
            100 <= status <= 999,
        ensures
            r is Ok <==> login_reply(status, body@) is Some,
            r is Ok ==> 200 <= status <= 299,
            r matches Ok(response) ==> login_reply(status, body@) == Some(response@),
            r matches Err(e) ==> (e matches ClientError::RumaApi(cause) && is_login_error(
                status,
                body@,
                cause,
            )),
            final(self)@ == match login_reply(status, body@) {
                Some(response) => old(self)@.logged_in_with(response),
                None => old(self)@,
            },
    {
        match decode_login(status, body) {
            Ok(response) => {
                self.receive_login_response(&response);
                Ok(response)
            },
            Err(e) => Err(ClientError::RumaApi(e)),
        }
    }

    /// Takes the session from the answer to a login.
    pub fn receive_login_response(&mut self, response: &LoginResponse)
        ensures
            final(self)@ == old(self)@.logged_in_with(response@),
    {
        self.base_client.receive_login_response(response);
    }

    /// Synchronises the client's state with the latest state on the server: the
    /// request that does so. [`SyncRun::receive`] takes the reply.
    pub fn sync(&self, sync_settings: SyncSettings) -> (r: Result<HttpCall, ClientError>)
        requires
            sync_settings@.uri_fits(),
            self@.sync_url(sync_settings@) is Some,
        ensures
            prepared(r, self@.sync_call(sync_settings@)),
    {
        proof {
            method_names();
        }
        match sync_settings.encode() {
            Ok(request) => self.send(request),
            Err(e) => Err(ClientError::RumaApi(e)),
        }
    }

    /// Synchronises the client's state, unless the request has no URL.
    pub fn try_sync(&self, sync_settings: SyncSettings) -> (r: Option<Result<HttpCall, ClientError>>)
        ensures
            r is Some <==> sync_settings@.uri_fits() && self@.sync_url(sync_settings@) is Some,
            r matches Some(outcome) ==> prepared(outcome, self@.sync_call(sync_settings@)),
    {
        if !sync_settings.uri_fits() {
            return None;
        }
        let target = match sync_settings.clone().encode() {
            Ok(request) => request.path_and_query,
            Err(_) => None,
        };
        match join_url(self.homeserver.as_str(), target.unwrap().as_str()) {
            Ok(_) => Some(self.sync(sync_settings)),
            Err(_) => None,
        }
    }

    /// Whether the next step of a run can be taken.
    pub fn sync_ready(&self, run: &SyncRun) -> (r: bool)
        ensures
            r == step_allowed(
                self@.base,
                run.upcoming(self@.callbacks.len()),
                run.rooms(),
            ),
    {
        match run.peek(self.event_callbacks.len()) {
            Some(SyncAction::EnterRoom { room }) => self.base_client.knows_room(
                &run.room(room).room_id,
            ),
            _ => true,
        }
    }

    /// Takes the next step of a run, if there is one left: does to the client's
    /// state what the step asks for, and says which step it was.
    pub fn sync_step(&mut self, run: &mut SyncRun) -> (r: Option<SyncAction>)
        requires
            step_allowed(
                old(self)@.base,
                old(run).upcoming(old(self)@.callbacks.len()),
                old(run).rooms(),
            ),
        ensures
            old(run).steps_to(old(self)@.callbacks.len(), r, *final(run)),
            final(self)@ == (AsyncClientView {
                base: after_action(
                    old(self)@.base,
                    r,
                    old(run).rooms(),
                    old(run).next_batch(),
                ),
                ..old(self)@
            }),
    {
        let action = run.next(self.event_callbacks.len());
        match action {
            Some(SyncAction::ReceiveStateEvent { room, event: _ }) => {
                self.base_client.receive_joined_state_event(&run.room(room).room_id);
            },
            Some(SyncAction::ReceiveSyncResponse) => {
                self.base_client.receive_sync_response(run.batch());
            },
            _ => {},
        }
        action
    }

    /// Repeatedly calls sync to synchronise the client state with the server:
    /// what follows an event.
    ///
    /// The settings that the loop starts with will be only used for the first sync
    /// call.
    pub fn sync_forever(&self, state: SyncLoop, event: LoopEvent) -> (r: (SyncLoop, LoopAction))
        requires
            loop_step(state@, event, self@.base.sync_token) is Some,
        ensures
            loop_step(state@, event, self@.base.sync_token) == Some((r.0@, r.1@)),
    {
        state.step(event, self.sync_token())
    }

    /// Sends a room message to the homeserver: the request that does so. It
    /// takes up a transaction id, even where no request comes of it.
    pub fn room_send(&mut self, room_id: &str, data: MessageEventContent) -> (r: Result<
        HttpCall,
        ClientError,
    >)
        requires
            parsed_room_id(room_id@) is Some,
            message_encodes(data) ==> old(self)@.message_url(room_id@) is Some,
        ensures
            message_sent(r, old(self)@, room_id@, data),
            final(self)@ == old(self)@.next_transaction(),
    {
        let ghost before = self@;
        let txn_id = self.transaction_id();
        proof {
            method_names();
            segments_are_plain(txn_id);
        }
        match encode_room_message(room_id, ROOM_MESSAGE, to_decimal(txn_id), data) {
            Ok(request) => {
                assert(self@.call(request@) == before.message_call(room_id@, request.body@));
                self.send(request)
            },
            Err(e) => Err(ClientError::RumaApi(e)),
        }
    }

    /// Sends a room message to the homeserver, unless the room id is not one or
    /// the request has no URL. In the first case no transaction id is taken up.
    pub fn try_room_send(&mut self, room_id: &str, data: MessageEventContent) -> (r: Option<
        Result<HttpCall, ClientError>,
    >)
        ensures
            r is Some <==> parsed_room_id(room_id@) is Some && (message_encodes(data) ==> old(
                self,
            )@.message_url(room_id@) is Some),
            r matches Some(outcome) ==> message_sent(outcome, old(self)@, room_id@, data),
            final(self)@ == if parsed_room_id(room_id@) is Some {
                old(self)@.next_transaction()
            } else {
                old(self)@
            },
    {
        if parse_room_id(room_id).is_none() {
            return None;
        }
        proof {
            segments_are_plain(self.transaction_id);
        }
        match encode_room_message(room_id, ROOM_MESSAGE, to_decimal(self.transaction_id), data.clone()) {
            Ok(request) => match join_url(
                self.homeserver.as_str(),
                request.path_and_query.unwrap().as_str(),
            ) {
                Ok(_) => Some(self.room_send(room_id, data)),
                Err(_) => {
                    let _ = self.transaction_id();
                    None
                },
            },
            Err(_) => Some(self.room_send(room_id, data)),
        }
    }

    /// Takes the reply to a sent message: the id of the event that it became.
    pub fn receive_room_send(status: u16, body: Vec<u8>) -> (r: Result<String, ClientError>)
        requires
            100 <= status <= 999,
        ensures
            r is Ok <==> room_message_reply(status, body@) is Some,
            r is Ok ==> 200 <= status <= 299,
            r matches Ok(event_id) ==> room_message_reply(status, body@) == Some(event_id@),
            r matches Err(e) ==> (e matches ClientError::RumaApi(cause) && is_room_message_error(
                status,
                body@,
                cause,
            )),
    {
        match decode_room_message(status, body) {
            Ok(event_id) => Ok(event_id),
            Err(e) => Err(ClientError::RumaApi(e)),
        }
    }
}

} // verus!
