//! The update orchestrator, as a state machine: read the local version,
//! fetch the remote one, compare, and if an update is available uninstall
//! (non-fatally), download, validate, persist and run the installer
//! script, cleaning its temporary file up on every path. The driver
//! performs each returned action and feeds the outcome back as the next
//! event; every failure ends the run with a reported outcome, never a
//! raised error.

use crate::errors::{FetchError, RunError, UninstallError, VersionError};
use crate::record::{parse_version_record, spec_version_field};
use crate::script::{looks_like_script, spec_status_success, status_success, validate_script};
use crate::transcript::ProcessOutcome;
use crate::version::{is_update_available, spec_update_available};
use vstd::prelude::*;

verus! {

/// How one run of the workflow ended.
#[derive(Debug, Clone)]
pub enum UpdateOutcome {
    /// No update available: the run ends with no side effects.
    UpToDate,
    /// The installer ran and exited with code zero; the caller should
    /// restart the application.
    Updated,
    Failed(UpdateFailure),
}

#[derive(Debug, Clone)]
pub enum UpdateFailure {
    Version(VersionError),
    Fetch(FetchError),
    Run(RunError),
    /// The installer script ran but exited with a failure; the exit code
    /// and the merged transcript the runner captured come along.
    InstallerFailed { exit_code: Option<i32>, transcript: Vec<String> },
}

#[derive(Debug)]
pub enum UpdateState {
    /// Waiting for the local version file's content.
    ReadingLocal,
    /// Waiting for the remote manifest's body.
    FetchingRemote { current: String },
    /// Waiting for the uninstall step's outcome.
    Uninstalling,
    /// Waiting for the installer script's download.
    FetchingScript,
    /// Waiting for the validated script to reach its temporary file.
    Persisting,
    /// Waiting for the installer run's outcome.
    Running,
    /// Waiting for the temporary file's removal; the outcome to report
    /// once it is gone.
    CleaningUp { outcome: UpdateOutcome },
    /// Terminal.
    Done { outcome: UpdateOutcome },
}

#[derive(Debug)]
pub enum UpdateEvent {
    /// The local version file's content, `None` when unreadable.
    LocalRead(Option<String>),
    /// The remote manifest's body, `None` on transport failure.
    RemoteFetched(Option<String>),
    /// The uninstall step's outcome.
    Uninstalled(Result<(), UninstallError>),
    /// The script download: status code and body, `None` on transport
    /// failure.
    ScriptFetched(Option<(u16, String)>),
    /// Did the write of the temporary file succeed? A failure may still
    /// have left a file behind, so cleanup follows either way.
    Persisted(bool),
    /// The installer run: its outcome once both streams were drained and
    /// the process was reaped.
    Ran(Result<ProcessOutcome, RunError>),
    /// Did the best-effort removal of the temporary file succeed? The
    /// answer is logged and never escalated.
    CleanedUp(bool),
}

#[derive(Debug)]
pub enum UpdateAction {
    /// Read the local version file and answer with `LocalRead`.
    ReadLocalVersion,
    /// Fetch the remote manifest and answer with `RemoteFetched`.
    FetchRemoteVersion,
    /// Attempt the uninstall and answer with `Uninstalled`.
    RunUninstall,
    /// Download the installer script and answer with `ScriptFetched`.
    DownloadScript,
    /// Write this validated script to the temporary file, make it
    /// executable, and answer with `Persisted`.
    PersistScript(String),
    /// Run the installer through the process runner and answer with
    /// `Ran`.
    RunInstaller,
    /// Remove the temporary file and answer with `CleanedUp`.
    RemoveScript,
    /// Terminal: report the outcome in `Done`.
    Report,
    /// Nothing to do: the event did not belong to this state.
    Idle,
}

pub open spec fn spec_update_start() -> (UpdateState, UpdateAction) {
    (UpdateState::ReadingLocal, UpdateAction::ReadLocalVersion)
}

/// The transition relation: what the next state and action must be for a
/// given state and event.
pub open spec fn update_step_ok(
    st: UpdateState,
    ev: UpdateEvent,
    next: UpdateState,
    action: UpdateAction,
) -> bool {
    match (st, ev) {
        (UpdateState::ReadingLocal, UpdateEvent::LocalRead(content)) => match content {
            None => next == (UpdateState::Done {
                outcome: UpdateOutcome::Failed(UpdateFailure::Version(VersionError::ConfigMissing)),
            }) && action == UpdateAction::Report,
            Some(doc) => match spec_version_field(doc@) {
                None => next == (UpdateState::Done {
                    outcome: UpdateOutcome::Failed(
                        UpdateFailure::Version(VersionError::ConfigMalformed),
                    ),
                }) && action == UpdateAction::Report,
                Some(v) => (next matches UpdateState::FetchingRemote { current } && current@ == v)
                    && action == UpdateAction::FetchRemoteVersion,
            },
        },
        (UpdateState::FetchingRemote { current }, UpdateEvent::RemoteFetched(body)) => match body {
            None => next == (UpdateState::Done {
                outcome: UpdateOutcome::Failed(UpdateFailure::Version(VersionError::NetworkError)),
            }) && action == UpdateAction::Report,
            Some(doc) => match spec_version_field(doc@) {
                None => next == (UpdateState::Done {
                    outcome: UpdateOutcome::Failed(
                        UpdateFailure::Version(VersionError::RemoteMalformed),
                    ),
                }) && action == UpdateAction::Report,
                Some(latest) => if spec_update_available(current@, latest) {
                    next == UpdateState::Uninstalling && action == UpdateAction::RunUninstall
                } else {
                    next == (UpdateState::Done { outcome: UpdateOutcome::UpToDate }) && action
                        == UpdateAction::Report
                },
            },
        },
        (UpdateState::Uninstalling, UpdateEvent::Uninstalled(_)) => next
            == UpdateState::FetchingScript && action == UpdateAction::DownloadScript,
        (UpdateState::FetchingScript, UpdateEvent::ScriptFetched(fetched)) => match fetched {
            None => next == (UpdateState::Done {
                outcome: UpdateOutcome::Failed(
                    UpdateFailure::Fetch(FetchError::DownloadFailed(None)),
                ),
            }) && action == UpdateAction::Report,
            Some((status, body)) => if !spec_status_success(status) {
                next == (UpdateState::Done {
                    outcome: UpdateOutcome::Failed(
                        UpdateFailure::Fetch(FetchError::DownloadFailed(Some(status))),
                    ),
                }) && action == UpdateAction::Report
            } else if !looks_like_script(body@) {
                next == (UpdateState::Done {
                    outcome: UpdateOutcome::Failed(
                        UpdateFailure::Fetch(FetchError::UntrustedContent),
                    ),
                }) && action == UpdateAction::Report
            } else {
                next == UpdateState::Persisting && (action matches UpdateAction::PersistScript(s)
                    && s@ == body@)
            },
        },
        (UpdateState::Persisting, UpdateEvent::Persisted(ok)) => if ok {
            next == UpdateState::Running && action == UpdateAction::RunInstaller
        } else {
            // A failed persist may still have left a file behind, so the
            // cleanup step runs before the outcome is reported.
            next == (UpdateState::CleaningUp {
                outcome: UpdateOutcome::Failed(UpdateFailure::Fetch(FetchError::PersistFailed)),
            }) && action == UpdateAction::RemoveScript
        },
        (UpdateState::Running, UpdateEvent::Ran(result)) => next == (UpdateState::CleaningUp {
            outcome: match result {
                Ok(o) => if o.exit_success {
                    UpdateOutcome::Updated
                } else {
                    UpdateOutcome::Failed(
                        UpdateFailure::InstallerFailed {
                            exit_code: o.exit_code,
                            transcript: o.transcript,
                        },
                    )
                },
                Err(e) => UpdateOutcome::Failed(UpdateFailure::Run(e)),
            },
        }) && action == UpdateAction::RemoveScript,
        (UpdateState::CleaningUp { outcome }, UpdateEvent::CleanedUp(_)) => next
            == (UpdateState::Done { outcome }) && action == UpdateAction::Report,
        (s, _) => next == s && action == UpdateAction::Idle,
    }
}

/// Begin one run of the workflow. Every run starts fresh.
pub fn update_start() -> (r: (UpdateState, UpdateAction))
    ensures
        r == spec_update_start(),
{
    (UpdateState::ReadingLocal, UpdateAction::ReadLocalVersion)
}

/// Advance the workflow by one observed event.
pub fn update_step(st: UpdateState, ev: UpdateEvent) -> (r: (UpdateState, UpdateAction))
    ensures
        update_step_ok(st, ev, r.0, r.1),
{
    match (st, ev) {
        (UpdateState::ReadingLocal, UpdateEvent::LocalRead(content)) => match content {
            None => (
                UpdateState::Done {
                    outcome: UpdateOutcome::Failed(
                        UpdateFailure::Version(VersionError::ConfigMissing),
                    ),
                },
                UpdateAction::Report,
            ),
            Some(doc) => match parse_version_record(doc.as_str()) {
                None => (
                    UpdateState::Done {
                        outcome: UpdateOutcome::Failed(
                            UpdateFailure::Version(VersionError::ConfigMalformed),
                        ),
                    },
                    UpdateAction::Report,
                ),
                Some(v) => (
                    UpdateState::FetchingRemote { current: v },
                    UpdateAction::FetchRemoteVersion,
                ),
            },
        },
        (UpdateState::FetchingRemote { current }, UpdateEvent::RemoteFetched(body)) => match body {
            None => (
                UpdateState::Done {
                    outcome: UpdateOutcome::Failed(
                        UpdateFailure::Version(VersionError::NetworkError),
                    ),
                },
                UpdateAction::Report,
            ),
            Some(doc) => match parse_version_record(doc.as_str()) {
                None => (
                    UpdateState::Done {
                        outcome: UpdateOutcome::Failed(
                            UpdateFailure::Version(VersionError::RemoteMalformed),
                        ),
                    },
                    UpdateAction::Report,
                ),
                Some(latest) => if is_update_available(current.as_str(), latest.as_str()) {
                    (UpdateState::Uninstalling, UpdateAction::RunUninstall)
                } else {
                    (UpdateState::Done { outcome: UpdateOutcome::UpToDate }, UpdateAction::Report)
                },
            },
        },
        (UpdateState::Uninstalling, UpdateEvent::Uninstalled(_)) => (
            UpdateState::FetchingScript,
            UpdateAction::DownloadScript,
        ),
        (UpdateState::FetchingScript, UpdateEvent::ScriptFetched(fetched)) => match fetched {
            None => (
                UpdateState::Done {
                    outcome: UpdateOutcome::Failed(
                        UpdateFailure::Fetch(FetchError::DownloadFailed(None)),
                    ),
                },
                UpdateAction::Report,
            ),
            Some((status, body)) => if !status_success(status) {
                (
                    UpdateState::Done {
                        outcome: UpdateOutcome::Failed(
                            UpdateFailure::Fetch(FetchError::DownloadFailed(Some(status))),
                        ),
                    },
                    UpdateAction::Report,
                )
            } else {
                match validate_script(body.as_str()) {
                    Err(_) => (
                        UpdateState::Done {
                            outcome: UpdateOutcome::Failed(
                                UpdateFailure::Fetch(FetchError::UntrustedContent),
                            ),
                        },
                        UpdateAction::Report,
                    ),
                    Ok(()) => (UpdateState::Persisting, UpdateAction::PersistScript(body)),
                }
            },
        },
        (UpdateState::Persisting, UpdateEvent::Persisted(ok)) => if ok {
            (UpdateState::Running, UpdateAction::RunInstaller)
        } else {
            (
                UpdateState::CleaningUp {
                    outcome: UpdateOutcome::Failed(
                        UpdateFailure::Fetch(FetchError::PersistFailed),
                    ),
                },
                UpdateAction::RemoveScript,
            )
        },
        (UpdateState::Running, UpdateEvent::Ran(result)) => (
            UpdateState::CleaningUp {
                outcome: match result {
                    Ok(o) => if o.exit_success {
                        UpdateOutcome::Updated
                    } else {
                        UpdateOutcome::Failed(
                            UpdateFailure::InstallerFailed {
                                exit_code: o.exit_code,
                                transcript: o.transcript,
                            },
                        )
                    },
                    Err(e) => UpdateOutcome::Failed(UpdateFailure::Run(e)),
                },
            },
            UpdateAction::RemoveScript,
        ),
        (UpdateState::CleaningUp { outcome }, UpdateEvent::CleanedUp(_)) => (
            UpdateState::Done { outcome },
            UpdateAction::Report,
        ),
        (s, _) => (s, UpdateAction::Idle),
    }
}

// ---------------------------------------------------------------------------
// Laws of the workflow
// ---------------------------------------------------------------------------

/// An uninstall failure is not fatal: whatever error the uninstall step
/// reports, the workflow proceeds to download the installer script, on
/// the assumption that a missing prior installation is a valid state.
pub proof fn lemma_uninstall_failure_nonfatal(
    e: UninstallError,
    next: UpdateState,
    action: UpdateAction,
)
    requires
        update_step_ok(UpdateState::Uninstalling, UpdateEvent::Uninstalled(Err(e)), next, action),
    ensures
        next == UpdateState::FetchingScript,
        action == UpdateAction::DownloadScript,
{
}

/// A missing local version file ends the run at once, reporting
/// `ConfigMissing`.
pub proof fn lemma_missing_config_stops_run(next: UpdateState, action: UpdateAction)
    requires
        update_step_ok(UpdateState::ReadingLocal, UpdateEvent::LocalRead(None), next, action),
    ensures
        next == (UpdateState::Done {
            outcome: UpdateOutcome::Failed(UpdateFailure::Version(VersionError::ConfigMissing)),
        }),
        action == UpdateAction::Report,
{
}

/// A terminal state asks for nothing more: no fetch, no uninstall, no
/// install can follow it.
pub proof fn lemma_done_is_terminal(
    o: UpdateOutcome,
    ev: UpdateEvent,
    next: UpdateState,
    action: UpdateAction,
)
    requires
        update_step_ok(UpdateState::Done { outcome: o }, ev, next, action),
    ensures
        next == (UpdateState::Done { outcome: o }),
        action == UpdateAction::Idle,
{
}

/// Whatever the state and the event, a body handed to the persist step
/// has passed the integrity gate: no script reaches disk without its
/// interpreter directive.
pub proof fn lemma_persist_only_validated(
    st: UpdateState,
    ev: UpdateEvent,
    next: UpdateState,
    action: UpdateAction,
    s: String,
)
    requires
        update_step_ok(st, ev, next, action),
        action == UpdateAction::PersistScript(s),
    ensures
        looks_like_script(s@),
{
}

/// The installer is only ever run right after the validated script was
/// successfully persisted.
pub proof fn lemma_run_only_after_persist(
    st: UpdateState,
    ev: UpdateEvent,
    next: UpdateState,
    action: UpdateAction,
)
    requires
        update_step_ok(st, ev, next, action),
        action == UpdateAction::RunInstaller,
    ensures
        st is Persisting,
        ev == UpdateEvent::Persisted(true),
{
}

/// Cleanup is unconditional: however the installer run ended — success,
/// non-zero exit, or a runner error — the next action removes the
/// temporary file, and only then is the outcome reported.
pub proof fn lemma_cleanup_unconditional(
    result: Result<ProcessOutcome, RunError>,
    next: UpdateState,
    action: UpdateAction,
)
    requires
        update_step_ok(UpdateState::Running, UpdateEvent::Ran(result), next, action),
    ensures
        action == UpdateAction::RemoveScript,
        next is CleaningUp,
{
}

/// A failed persist is an exit path like any other: the write may still
/// have left a file behind, so the temporary file's removal is attempted
/// before `PersistFailed` is reported.
pub proof fn lemma_persist_failure_still_cleans_up(next: UpdateState, action: UpdateAction)
    requires
        update_step_ok(UpdateState::Persisting, UpdateEvent::Persisted(false), next, action),
    ensures
        action == UpdateAction::RemoveScript,
        next == (UpdateState::CleaningUp {
            outcome: UpdateOutcome::Failed(UpdateFailure::Fetch(FetchError::PersistFailed)),
        }),
{
}

/// The installer's captured output is never dropped on failure: a run
/// that ended with a non-zero exit reports an outcome carrying the exit
/// code and the full transcript the runner captured.
pub proof fn lemma_install_failure_keeps_the_transcript(
    o: ProcessOutcome,
    next: UpdateState,
    action: UpdateAction,
)
    requires
        update_step_ok(UpdateState::Running, UpdateEvent::Ran(Ok(o)), next, action),
        !o.exit_success,
    ensures
        next == (UpdateState::CleaningUp {
            outcome: UpdateOutcome::Failed(
                UpdateFailure::InstallerFailed { exit_code: o.exit_code, transcript: o.transcript },
            ),
        }),
{
}

/// A body that fails the integrity gate is never persisted and never run:
/// the workflow ends at once with `UntrustedContent`.
pub proof fn lemma_untrusted_script_never_persisted(
    status: u16,
    body: String,
    next: UpdateState,
    action: UpdateAction,
)
    requires
        update_step_ok(
            UpdateState::FetchingScript,
            UpdateEvent::ScriptFetched(Some((status, body))),
            next,
            action,
        ),
        spec_status_success(status),
        !looks_like_script(body@),
    ensures
        next == (UpdateState::Done {
            outcome: UpdateOutcome::Failed(UpdateFailure::Fetch(FetchError::UntrustedContent)),
        }),
        action == UpdateAction::Report,
{
}

} // verus!
