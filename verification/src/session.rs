//! A login that the homeserver has granted.
use vstd::prelude::*;

verus! {

/// A login: who is logged in, on which device, and the token that proves it.
#[derive(Debug)]
pub struct Session {
    /// The token that authenticates the client's requests.
    pub access_token: String,
    /// The user that is logged in.
    pub user_id: String,
    /// The device that the session belongs to.
    pub device_id: String,
}

/// The value of a [`Session`].
pub struct SessionView {
    pub access_token: Seq<char>,
    pub user_id: Seq<char>,
    pub device_id: Seq<char>,
}

impl View for Session {
    type V = SessionView;

    open spec fn view(&self) -> SessionView {
        SessionView {
            access_token: self.access_token@,
            user_id: self.user_id@,
            device_id: self.device_id@,
        }
    }
}

/// The homeserver's answer to a login.
#[derive(Debug)]
pub struct LoginResponse {
    /// The token to authenticate further requests with.
    pub access_token: String,
    /// The host name of the homeserver.
    pub home_server: String,
    /// A token that a new access token can be asked for with.
    pub refresh_token: Option<String>,
    /// The full id of the user.
    pub user_id: String,
    /// The device of the new session.
    pub device_id: String,
}

/// The value of a [`LoginResponse`].
pub struct LoginResponseView {
    pub access_token: Seq<char>,
    pub home_server: Seq<char>,
    pub refresh_token: Option<Seq<char>>,
    pub user_id: Seq<char>,
    pub device_id: Seq<char>,
}

impl View for LoginResponse {
    type V = LoginResponseView;

    open spec fn view(&self) -> LoginResponseView {
        LoginResponseView {
            access_token: self.access_token@,
            home_server: self.home_server@,
            refresh_token: text(self.refresh_token),
            user_id: self.user_id@,
            device_id: self.device_id@,
        }
    }
}

impl LoginResponseView {
    /// The session that the answer opens.
    pub open spec fn session(self) -> SessionView {
        SessionView {
            access_token: self.access_token,
            user_id: self.user_id,
            device_id: self.device_id,
        }
    }
}

/// The text of an optional string.
pub open spec fn text(s: Option<String>) -> Option<Seq<char>> {
    match s {
        Some(s) => Some(s@),
        None => None,
    }
}

} // verus!
