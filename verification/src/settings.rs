//! Settings of a sync request.
use vstd::prelude::*;

use crate::decimal::to_decimal;
use crate::error::IntRangeError;
use crate::outside::{encode_sync, uint_from, MAX_SAFE_UINT};
use crate::query::{form_length, length_with_param, sync_target, sync_uri_fits};
use crate::request::{EndpointRequest, EndpointRequestView};
use crate::session::text;

verus! {

/// Settings for a sync call.
#[derive(Debug)]
pub struct SyncSettings {
    timeout: Option<u64>,
    token: Option<String>,
    full_state: Option<bool>,
}

/// The value of [`SyncSettings`].
pub struct SyncSettingsView {
    /// The time the server is allowed to wait, in milliseconds.
    pub timeout: Option<u64>,
    /// The token to go on from.
    pub token: Option<Seq<char>>,
    /// Whether the server should return the full state.
    pub full_state: Option<bool>,
}

impl SyncSettingsView {
    /// Settings in which nothing is set.
    pub open spec fn unset() -> SyncSettingsView {
        SyncSettingsView { timeout: None, token: None, full_state: None }
    }

    /// What a request says of the full state: nothing, if no sync token is set.
    pub open spec fn sent_full_state(self) -> Option<bool> {
        match self.token {
            Some(_) => self.full_state,
            None => None,
        }
    }

    /// The path and the query of a request with these settings.
    pub open spec fn target(self) -> Seq<char> {
        sync_target(self.token, self.sent_full_state(), self.timeout)
    }

    /// Whether a request can be made of the settings: its URI must not be too
    /// long.
    pub open spec fn uri_fits(self) -> bool {
        sync_uri_fits(self.token, self.sent_full_state(), self.timeout)
    }
}

impl View for SyncSettings {
    type V = SyncSettingsView;

    closed spec fn view(&self) -> SyncSettingsView {
        SyncSettingsView {
            timeout: self.timeout,
            token: text(self.token),
            full_state: self.full_state,
        }
    }
}

impl Default for SyncSettings {
    fn default() -> (settings: SyncSettings)
        ensures
            settings@ == SyncSettingsView::unset(),
    {
        SyncSettings { timeout: None, token: None, full_state: None }
    }
}

impl Clone for SyncSettings {
    fn clone(&self) -> (settings: SyncSettings)
        ensures
            settings@ == self@,
    {
        proof {
            use_type_invariant(self);
        }
        let token = match &self.token {
            Some(token) => Some(token.clone()),
            None => None,
        };
        SyncSettings { timeout: self.timeout, token, full_state: self.full_state }
    }
}

impl SyncSettings {
    /// A timeout is a number that a request can carry.
    #[verifier::type_invariant]
    spec fn timeout_is_safe(self) -> bool {
        self.timeout matches Some(n) ==> n <= MAX_SAFE_UINT
    }

    /// Creates new default sync settings.
    pub fn new() -> (settings: SyncSettings)
        ensures
            settings@ == SyncSettingsView::unset(),
    {
        SyncSettings::default()
    }

    /// Sets the sync token, which the sync call will go on from.
    pub fn token(self, token: String) -> (settings: SyncSettings)
        ensures
            settings@ == (SyncSettingsView { token: Some(token@), ..self@ }),
    {
        proof {
            use_type_invariant(&self);
        }
        SyncSettings { timeout: self.timeout, token: Some(token), full_state: self.full_state }
    }

    /// Sets the maximum time the server can wait, in milliseconds, before
    /// responding to the sync request. A time that is negative or above
    /// 2^53 - 1 is refused.
    pub fn timeout(self, timeout: i128) -> (r: Result<SyncSettings, IntRangeError>)
        ensures
            r is Ok <==> 0 <= timeout <= MAX_SAFE_UINT,
            r matches Ok(settings) ==> settings@ == (SyncSettingsView {
                timeout: Some(timeout as u64),
                ..self@
            }),
    {
        match uint_from(timeout) {
            Ok(n) => Ok(
                SyncSettings { timeout: Some(n), token: self.token, full_state: self.full_state },
            ),
            Err(e) => Err(IntRangeError(e)),
        }
    }

    /// Sets whether the server should return the full state from the start of
    /// the timeline.
    ///
    /// This does nothing if no sync token is set.
    pub fn full_state(self, full_state: bool) -> (settings: SyncSettings)
        ensures
            settings@ == (SyncSettingsView { full_state: Some(full_state), ..self@ }),
    {
        proof {
            use_type_invariant(&self);
        }
        SyncSettings { timeout: self.timeout, token: self.token, full_state: Some(full_state) }
    }

    /// What a request says of the full state.
    fn sent_full_state(&self) -> (r: Option<bool>)
        ensures
            r == self@.sent_full_state(),
    {
        if self.token.is_some() {
            self.full_state
        } else {
            None
        }
    }

    /// Whether the URI of a sync request with these settings is not too long.
    pub fn uri_fits(&self) -> (r: bool)
        ensures
            r == self@.uri_fits(),
    {
        proof {
            reveal_strlit("since");
            reveal_strlit("full_state");
            reveal_strlit("timeout");
            reveal_strlit("true");
            reveal_strlit("false");
            reveal_strlit("/_matrix/client/r0/sync?");
        }
        let since: Option<u128> = match &self.token {
            Some(token) => Some(form_length(token.as_str())),
            None => None,
        };
        let full_state: Option<u128> = match self.sent_full_state() {
            Some(true) => Some(4),
            Some(false) => Some(5),
            None => None,
        };
        let timeout: Option<u128> = match self.timeout {
            Some(n) => Some(to_decimal(n).as_str().unicode_len() as u128),
            None => None,
        };
        let length: u128 = length_with_param(0, 5, since);
        let length: u128 = length_with_param(length, 10, full_state);
        let length: u128 = length_with_param(length, 7, timeout);
        33 + 24 + length < 65535
    }

    /// The sync endpoint's request with these settings.
    pub(crate) fn encode(self) -> (r: Result<EndpointRequest, ruma_api::Error>)
        requires
            self@.uri_fits(),
        ensures
            r is Ok,
            r->Ok_0@ == (EndpointRequestView {
                method: "GET"@,
                requires_authentication: true,
                path_and_query: Some(self@.target()),
                body: Seq::empty(),
            }),
    {
        proof {
            use_type_invariant(&self);
        }
        let full_state = self.sent_full_state();
        encode_sync(self.token, full_state, self.timeout)
    }
}

} // verus!
