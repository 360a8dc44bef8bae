//! The decisions of the file watchers: a relevant event opens a debounce
//! window, events inside the window are absorbed, and the end of the window
//! triggers a build (source tree) or a reload (deployment directory).
use vstd::prelude::*;
use crate::text::{contains, ends_with, str_contains};

verus! {

/// What a watcher observes.
#[derive(Clone, Copy, PartialEq, Eq, Structural)]
pub enum WatchKind {
    /// Module sources: changes are compiled and copied for deployment.
    Sources,
    /// Deployment directory: changes are loaded.
    Deployment,
}

#[derive(PartialEq, Eq, Structural)]
pub enum WatchState {
    Idle,
    Debouncing,
}

#[derive(PartialEq, Eq, Structural)]
pub enum WatchEvent {
    /// A file event; `transient` when every path it names is transient.
    File { transient: bool },
    /// The debounce window has ended.
    WindowElapsed,
}

#[derive(PartialEq, Eq, Structural)]
pub enum WatchAction {
    Nothing,
    /// Wait this many milliseconds, then report `WindowElapsed`.
    Wait(u64),
    Build,
    Reload,
}

pub const SOURCE_DEBOUNCE_MS: u64 = 400;
pub const DEPLOY_DEBOUNCE_MS: u64 = 300;

pub open spec fn debounce_ms(kind: WatchKind) -> u64 {
    match kind {
        WatchKind::Sources => SOURCE_DEBOUNCE_MS,
        WatchKind::Deployment => DEPLOY_DEBOUNCE_MS,
    }
}

/// The next state and action of a watcher.
pub open spec fn watch_step_spec(kind: WatchKind, state: WatchState, event: WatchEvent) -> (WatchState, WatchAction) {
    match (state, event) {
        (WatchState::Idle, WatchEvent::File { transient }) => if transient {
            (WatchState::Idle, WatchAction::Nothing)
        } else {
            (WatchState::Debouncing, WatchAction::Wait(debounce_ms(kind)))
        },
        (WatchState::Debouncing, WatchEvent::File { .. }) => (WatchState::Debouncing, WatchAction::Nothing),
        (WatchState::Debouncing, WatchEvent::WindowElapsed) => (
            WatchState::Idle,
            match kind {
                WatchKind::Sources => WatchAction::Build,
                WatchKind::Deployment => WatchAction::Reload,
            },
        ),
        (WatchState::Idle, WatchEvent::WindowElapsed) => (WatchState::Idle, WatchAction::Nothing),
    }
}

pub fn watch_step(kind: WatchKind, state: WatchState, event: WatchEvent) -> (r: (WatchState, WatchAction))
    ensures
        r == watch_step_spec(kind, state, event),
{
    match (state, event) {
        (WatchState::Idle, WatchEvent::File { transient }) => if transient {
            (WatchState::Idle, WatchAction::Nothing)
        } else {
            let ms = match kind {
                WatchKind::Sources => SOURCE_DEBOUNCE_MS,
                WatchKind::Deployment => DEPLOY_DEBOUNCE_MS,
            };
            (WatchState::Debouncing, WatchAction::Wait(ms))
        },
        (WatchState::Debouncing, WatchEvent::File { .. }) => (WatchState::Debouncing, WatchAction::Nothing),
        (WatchState::Debouncing, WatchEvent::WindowElapsed) => (
            WatchState::Idle,
            match kind {
                WatchKind::Sources => WatchAction::Build,
                WatchKind::Deployment => WatchAction::Reload,
            },
        ),
        (WatchState::Idle, WatchEvent::WindowElapsed) => (WatchState::Idle, WatchAction::Nothing),
    }
}

/// A build directory holds feature sources: its path ends in `features`
/// or has a `features` component.
pub open spec fn features_dir_spec(path: Seq<char>) -> bool {
    ends_with(path, "features"@) || contains(path, "/features"@) || contains(path, "\\features"@)
}

pub fn is_features_dir(path: &str) -> (r: bool)
    ensures
        r == features_dir_spec(path@),
{
    let p = crate::text::chars_of(path);
    let suffix = crate::text::chars_of("features");
    crate::text::seq_ends_with(&p, &suffix) || str_contains(path, "/features") || str_contains(path, "\\features")
}

} // verus!
