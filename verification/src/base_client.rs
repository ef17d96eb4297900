//! What the client knows: its session, how far it has synced, its rooms.
use vstd::hash_set::StringHashSet;
use vstd::prelude::*;

use crate::session::{text, LoginResponse, Session, SessionView};

verus! {

/// The client's own state.
pub struct BaseClient {
    session: Option<Session>,
    sync_token: Option<String>,
    joined_rooms: StringHashSet,
}

/// The value of a [`BaseClient`].
pub struct BaseClientView {
    /// The current login, if there is one.
    pub session: Option<SessionView>,
    /// The token to go on from in the next sync, if there has been one.
    pub sync_token: Option<Seq<char>>,
    /// The ids of the rooms that the client knows.
    pub joined_rooms: Set<Seq<char>>,
}

impl BaseClientView {
    /// The state with a room that is known.
    pub open spec fn with_room(self, room_id: Seq<char>) -> BaseClientView {
        BaseClientView { joined_rooms: self.joined_rooms.insert(room_id), ..self }
    }

    /// The state with another sync token.
    pub open spec fn with_token(self, token: Seq<char>) -> BaseClientView {
        BaseClientView { sync_token: Some(token), ..self }
    }

    /// The state with another session.
    pub open spec fn with_session(self, session: SessionView) -> BaseClientView {
        BaseClientView { session: Some(session), ..self }
    }
}

/// The value of an optional session.
pub open spec fn session_view(session: Option<Session>) -> Option<SessionView> {
    match session {
        Some(session) => Some(session@),
        None => None,
    }
}

impl View for BaseClient {
    type V = BaseClientView;

    closed spec fn view(&self) -> BaseClientView {
        BaseClientView {
            session: session_view(self.session),
            sync_token: text(self.sync_token),
            joined_rooms: self.joined_rooms@,
        }
    }
}

impl BaseClient {
    /// Creates the state of a client that has not synced yet.
    pub fn new(session: Option<Session>) -> (client: BaseClient)
        ensures
            client@ == (BaseClientView {
                session: session_view(session),
                sync_token: None,
                joined_rooms: Set::empty(),
            }),
    {
        BaseClient { session, sync_token: None, joined_rooms: StringHashSet::new() }
    }

    /// Is the client logged in.
    pub fn logged_in(&self) -> (r: bool)
        ensures
            r == (self@.session is Some),
    {
        self.session.is_some()
    }

    /// The current session.
    pub fn session(&self) -> (r: Option<&Session>)
        ensures
            r is Some <==> self@.session is Some,
            r matches Some(session) ==> self@.session == Some(session@),
    {
        self.session.as_ref()
    }

    /// The token to go on from in the next sync.
    pub fn sync_token(&self) -> (r: Option<String>)
        ensures
            text(r) == self@.sync_token,
    {
        match &self.sync_token {
            Some(token) => Some(token.clone()),
            None => None,
        }
    }

    /// Whether the client knows a room.
    pub fn knows_room(&self, room_id: &String) -> (r: bool)
        ensures
            r == self@.joined_rooms.contains(room_id@),
    {
        self.joined_rooms.contains(room_id.as_str())
    }

    /// The number of rooms that the client knows.
    pub fn room_count(&self) -> (r: usize)
        ensures
            r == self@.joined_rooms.len(),
    {
        self.joined_rooms.len()
    }

    /// Takes the session from the answer to a login.
    pub fn receive_login_response(&mut self, response: &LoginResponse)
        ensures
            final(self)@ == old(self)@.with_session(response@.session()),
    {
        self.session = Some(
            Session {
                access_token: response.access_token.clone(),
                user_id: response.user_id.clone(),
                device_id: response.device_id.clone(),
            },
        );
    }

    /// Takes note of the room of a state event.
    pub fn receive_joined_state_event(&mut self, room_id: &String)
        ensures
            final(self)@ == old(self)@.with_room(room_id@),
    {
        self.joined_rooms.insert(room_id.clone());
    }

    /// Takes the sync token from a sync reply.
    pub fn receive_sync_response(&mut self, next_batch: &String)
        ensures
            final(self)@ == old(self)@.with_token(next_batch@),
    {
        self.sync_token = Some(next_batch.clone());
    }
}

} // verus!
