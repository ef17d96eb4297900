//! The order of things when the client syncs without end.
use vstd::prelude::*;

use crate::session::text;
use crate::settings::{SyncSettings, SyncSettingsView};

verus! {

/// The time that the server is allowed to wait in every sync but the first, in
/// milliseconds.
pub const SYNC_TIMEOUT: u64 = 30000;

/// The time to wait after a sync that has failed, in seconds.
pub const RETRY_DELAY: u64 = 1;

/// Where a sync without end has got to.
#[derive(Debug)]
pub enum SyncLoop {
    /// Nothing has been done yet.
    Ready(SyncSettings),
    /// The first sync is under way.
    FirstSync,
    /// A later sync is under way, with these settings.
    Syncing(SyncSettings),
    /// A sync has failed, and another one with these settings will follow.
    Sleeping(SyncSettings),
    /// A sync has succeeded, and the callback has its reply.
    CallingBack,
}

/// The value of a [`SyncLoop`].
pub enum SyncLoopView {
    Ready(SyncSettingsView),
    FirstSync,
    Syncing(SyncSettingsView),
    Sleeping(SyncSettingsView),
    CallingBack,
}

impl View for SyncLoop {
    type V = SyncLoopView;

    open spec fn view(&self) -> SyncLoopView {
        match self {
            SyncLoop::Ready(settings) => SyncLoopView::Ready(settings@),
            SyncLoop::FirstSync => SyncLoopView::FirstSync,
            SyncLoop::Syncing(settings) => SyncLoopView::Syncing(settings@),
            SyncLoop::Sleeping(settings) => SyncLoopView::Sleeping(settings@),
            SyncLoop::CallingBack => SyncLoopView::CallingBack,
        }
    }
}

/// What has happened to a sync without end.
#[derive(Clone, Copy, Debug, PartialEq, Eq, Structural)]
pub enum LoopEvent {
    /// It was started.
    Started,
    /// The sync has failed.
    SyncFailed,
    /// The time to wait is over.
    Slept,
    /// The sync has succeeded.
    SyncSucceeded,
    /// The callback is done with the reply.
    CalledBack,
}

/// What a sync without end does next.
#[derive(Debug)]
pub enum LoopAction {
    /// Sync with these settings.
    Sync(SyncSettings),
    /// Wait for so many seconds.
    Sleep { seconds: u64 },
    /// Call the callback with the reply and wait for it.
    CallBack,
}

/// The value of a [`LoopAction`].
pub enum LoopActionView {
    Sync(SyncSettingsView),
    Sleep { seconds: u64 },
    CallBack,
}

impl View for LoopAction {
    type V = LoopActionView;

    open spec fn view(&self) -> LoopActionView {
        match self {
            LoopAction::Sync(settings) => LoopActionView::Sync(settings@),
            LoopAction::Sleep { seconds } => LoopActionView::Sleep { seconds: *seconds },
            LoopAction::CallBack => LoopActionView::CallBack,
        }
    }
}

/// The settings of every sync but the first: it goes on from the client's sync
/// token, if there is one.
pub open spec fn settings_from(token: Option<Seq<char>>) -> SyncSettingsView {
    SyncSettingsView { timeout: Some(SYNC_TIMEOUT), token, full_state: None }
}

/// What follows an event, if it can come where the loop is, when the client's
/// sync token is `token`.
pub open spec fn loop_step(
    state: SyncLoopView,
    event: LoopEvent,
    token: Option<Seq<char>>,
) -> Option<(SyncLoopView, LoopActionView)> {
    match (state, event) {
        (SyncLoopView::Ready(settings), LoopEvent::Started) => Some(
            (SyncLoopView::FirstSync, LoopActionView::Sync(settings)),
        ),
        (SyncLoopView::FirstSync, LoopEvent::SyncFailed) => Some(
            (
                SyncLoopView::Sleeping(settings_from(token)),
                LoopActionView::Sleep { seconds: RETRY_DELAY },
            ),
        ),
        (SyncLoopView::Syncing(settings), LoopEvent::SyncFailed) => Some(
            (SyncLoopView::Sleeping(settings), LoopActionView::Sleep { seconds: RETRY_DELAY }),
        ),
        (SyncLoopView::Sleeping(settings), LoopEvent::Slept) => Some(
            (SyncLoopView::Syncing(settings), LoopActionView::Sync(settings)),
        ),
        (SyncLoopView::FirstSync, LoopEvent::SyncSucceeded) => Some(
            (SyncLoopView::CallingBack, LoopActionView::CallBack),
        ),
        (SyncLoopView::Syncing(_), LoopEvent::SyncSucceeded) => Some(
            (SyncLoopView::CallingBack, LoopActionView::CallBack),
        ),
        (SyncLoopView::CallingBack, LoopEvent::CalledBack) => Some(
            (
                SyncLoopView::Syncing(settings_from(token)),
                LoopActionView::Sync(settings_from(token)),
            ),
        ),
        _ => None,
    }
}

/// The settings of every sync but the first.
fn later_settings(token: Option<String>) -> (settings: SyncSettings)
    ensures
        settings@ == settings_from(text(token)),
{
    let settings = SyncSettings::new().timeout(SYNC_TIMEOUT as i128).unwrap();
    match token {
        Some(token) => settings.token(token),
        None => settings,
    }
}

impl SyncLoop {
    /// Whether an event can come where the loop is.
    pub fn accepts(&self, event: LoopEvent) -> (r: bool)
        ensures
            forall|token: Option<Seq<char>>|
                r == ((#[trigger] loop_step(self@, event, token)) is Some),
    {
        match self {
            SyncLoop::Ready(_) => event == LoopEvent::Started,
            SyncLoop::FirstSync | SyncLoop::Syncing(_) => event == LoopEvent::SyncFailed || event
                == LoopEvent::SyncSucceeded,
            SyncLoop::Sleeping(_) => event == LoopEvent::Slept,
            SyncLoop::CallingBack => event == LoopEvent::CalledBack,
        }
    }

    /// Goes on with a sync without end, when the client's sync token is `token`.
    pub fn step(self, event: LoopEvent, token: Option<String>) -> (r: (SyncLoop, LoopAction))
        requires
            loop_step(self@, event, text(token)) is Some,
        ensures
            loop_step(self@, event, text(token)) == Some((r.0@, r.1@)),
    {
        match (self, event) {
            (SyncLoop::Ready(settings), _) => (SyncLoop::FirstSync, LoopAction::Sync(settings)),
            (SyncLoop::FirstSync, LoopEvent::SyncFailed) => (
                SyncLoop::Sleeping(later_settings(token)),
                LoopAction::Sleep { seconds: RETRY_DELAY },
            ),
            (SyncLoop::Syncing(settings), LoopEvent::SyncFailed) => (
                SyncLoop::Sleeping(settings),
                LoopAction::Sleep { seconds: RETRY_DELAY },
            ),
            (SyncLoop::Sleeping(settings), _) => (
                SyncLoop::Syncing(settings.clone()),
                LoopAction::Sync(settings),
            ),
            (SyncLoop::FirstSync, _) | (SyncLoop::Syncing(_), _) => (
                SyncLoop::CallingBack,
                LoopAction::CallBack,
            ),
            (SyncLoop::CallingBack, _) => {
                let settings = later_settings(token);
                (SyncLoop::Syncing(settings.clone()), LoopAction::Sync(settings))
            },
        }
    }
}

} // verus!
