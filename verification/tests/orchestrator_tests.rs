use zama_core::errors::{FetchError, UninstallError, VersionError};
use zama_core::orchestrator::{
    update_start, update_step, UpdateAction, UpdateEvent, UpdateFailure, UpdateOutcome,
    UpdateState,
};
use zama_core::transcript::ProcessOutcome;

#[test]
fn full_update_run_proceeds_despite_uninstall_not_found() {
    // Current version 1.2.0, remote manifest {"version":"1.3.0"}: an
    // update is available; the uninstall answers NotFound and the run
    // still fetches and executes the installer script.
    let (st, action) = update_start();
    assert!(matches!(st, UpdateState::ReadingLocal));
    assert!(matches!(action, UpdateAction::ReadLocalVersion));

    let (st, action) = update_step(
        st,
        UpdateEvent::LocalRead(Some("{\"version\":\"1.2.0\"}".to_string())),
    );
    assert!(matches!(&st, UpdateState::FetchingRemote { current } if current == "1.2.0"));
    assert!(matches!(action, UpdateAction::FetchRemoteVersion));

    let (st, action) = update_step(
        st,
        UpdateEvent::RemoteFetched(Some("{\"version\":\"1.3.0\"}".to_string())),
    );
    assert!(matches!(st, UpdateState::Uninstalling));
    assert!(matches!(action, UpdateAction::RunUninstall));

    let (st, action) = update_step(
        st,
        UpdateEvent::Uninstalled(Err(UninstallError::NotFound)),
    );
    assert!(matches!(st, UpdateState::FetchingScript));
    assert!(matches!(action, UpdateAction::DownloadScript));

    let (st, action) = update_step(
        st,
        UpdateEvent::ScriptFetched(Some((200, "#!/bin/sh\necho updating".to_string()))),
    );
    assert!(matches!(st, UpdateState::Persisting));
    assert!(
        matches!(&action, UpdateAction::PersistScript(s) if s == "#!/bin/sh\necho updating")
    );

    let (st, action) = update_step(st, UpdateEvent::Persisted(true));
    assert!(matches!(st, UpdateState::Running));
    assert!(matches!(action, UpdateAction::RunInstaller));

    let (st, action) = update_step(
        st,
        UpdateEvent::Ran(Ok(ProcessOutcome {
            exit_success: true,
            exit_code: Some(0),
            transcript: vec!["installing".to_string()],
        })),
    );
    assert!(matches!(
        st,
        UpdateState::CleaningUp { outcome: UpdateOutcome::Updated }
    ));
    assert!(matches!(action, UpdateAction::RemoveScript));

    let (st, action) = update_step(st, UpdateEvent::CleanedUp(true));
    assert!(matches!(
        st,
        UpdateState::Done { outcome: UpdateOutcome::Updated }
    ));
    assert!(matches!(action, UpdateAction::Report));
}

#[test]
fn equal_versions_end_up_to_date_with_no_side_effects() {
    let (st, _) = update_start();
    let (st, _) = update_step(
        st,
        UpdateEvent::LocalRead(Some("{\"version\":\"1.3.0\"}".to_string())),
    );
    let (st, action) = update_step(
        st,
        UpdateEvent::RemoteFetched(Some("{\"version\":\"1.3.0\"}".to_string())),
    );
    assert!(matches!(
        st,
        UpdateState::Done { outcome: UpdateOutcome::UpToDate }
    ));
    assert!(matches!(action, UpdateAction::Report));
}

#[test]
fn untrusted_script_is_never_persisted_or_run() {
    // The body `echo hi` has no `#!` prefix: the run ends with
    // UntrustedContent; no persist action and no run action is emitted.
    let (st, action) = update_step(
        UpdateState::FetchingScript,
        UpdateEvent::ScriptFetched(Some((200, "echo hi".to_string()))),
    );
    assert!(matches!(
        st,
        UpdateState::Done {
            outcome: UpdateOutcome::Failed(UpdateFailure::Fetch(FetchError::UntrustedContent))
        }
    ));
    assert!(matches!(action, UpdateAction::Report));
}

#[test]
fn non_success_status_is_a_download_failure_carrying_the_status() {
    let (st, _) = update_step(
        UpdateState::FetchingScript,
        UpdateEvent::ScriptFetched(Some((404, "#!/bin/sh".to_string()))),
    );
    assert!(matches!(
        st,
        UpdateState::Done {
            outcome: UpdateOutcome::Failed(UpdateFailure::Fetch(FetchError::DownloadFailed(
                Some(404)
            )))
        }
    ));
    let (st, _) = update_step(UpdateState::FetchingScript, UpdateEvent::ScriptFetched(None));
    assert!(matches!(
        st,
        UpdateState::Done {
            outcome: UpdateOutcome::Failed(UpdateFailure::Fetch(FetchError::DownloadFailed(
                None
            )))
        }
    ));
}

#[test]
fn missing_local_version_stops_the_run_at_once() {
    // The local version file is unreadable: the run reports ConfigMissing
    // and a terminal state answers every further event with Idle, so no
    // network call, no uninstall and no install can follow.
    let (st, _) = update_start();
    let (st, action) = update_step(st, UpdateEvent::LocalRead(None));
    assert!(matches!(
        st,
        UpdateState::Done {
            outcome: UpdateOutcome::Failed(UpdateFailure::Version(VersionError::ConfigMissing))
        }
    ));
    assert!(matches!(action, UpdateAction::Report));

    let (st, action) = update_step(st, UpdateEvent::RemoteFetched(Some("{}".to_string())));
    assert!(matches!(
        st,
        UpdateState::Done {
            outcome: UpdateOutcome::Failed(UpdateFailure::Version(VersionError::ConfigMissing))
        }
    ));
    assert!(matches!(action, UpdateAction::Idle));
}

#[test]
fn malformed_version_documents_are_reported_by_side() {
    let (st, _) = update_step(
        UpdateState::ReadingLocal,
        UpdateEvent::LocalRead(Some("not json".to_string())),
    );
    assert!(matches!(
        st,
        UpdateState::Done {
            outcome: UpdateOutcome::Failed(UpdateFailure::Version(VersionError::ConfigMalformed))
        }
    ));

    let (st, _) = update_step(
        UpdateState::ReadingLocal,
        UpdateEvent::LocalRead(Some("{\"name\":\"zama\"}".to_string())),
    );
    assert!(matches!(
        st,
        UpdateState::Done {
            outcome: UpdateOutcome::Failed(UpdateFailure::Version(VersionError::ConfigMalformed))
        }
    ));

    let (st, _) = update_step(
        UpdateState::FetchingRemote { current: "1.0.0".to_string() },
        UpdateEvent::RemoteFetched(Some("<html></html>".to_string())),
    );
    assert!(matches!(
        st,
        UpdateState::Done {
            outcome: UpdateOutcome::Failed(UpdateFailure::Version(VersionError::RemoteMalformed))
        }
    ));

    let (st, _) = update_step(
        UpdateState::FetchingRemote { current: "1.0.0".to_string() },
        UpdateEvent::RemoteFetched(None),
    );
    assert!(matches!(
        st,
        UpdateState::Done {
            outcome: UpdateOutcome::Failed(UpdateFailure::Version(VersionError::NetworkError))
        }
    ));
}

#[test]
fn corrupt_version_strings_mean_no_update_cycle() {
    // Malformed on either side: the comparison fails safe and the run
    // ends UpToDate, so no uninstall can be triggered by corrupt data.
    let (st, _) = update_step(
        UpdateState::FetchingRemote { current: "garbage".to_string() },
        UpdateEvent::RemoteFetched(Some("{\"version\":\"1.3.0\"}".to_string())),
    );
    assert!(matches!(
        st,
        UpdateState::Done { outcome: UpdateOutcome::UpToDate }
    ));
}

#[test]
fn installer_failure_cleans_up_and_keeps_the_transcript() {
    // The installer runs and exits non-zero: cleanup still happens, and
    // the outcome carries the exit code and the captured transcript.
    let (st, action) = update_step(
        UpdateState::Running,
        UpdateEvent::Ran(Ok(ProcessOutcome {
            exit_success: false,
            exit_code: Some(3),
            transcript: vec!["step one".to_string(), "boom".to_string()],
        })),
    );
    assert!(matches!(action, UpdateAction::RemoveScript));
    let (st, _) = update_step(st, UpdateEvent::CleanedUp(false));
    match st {
        UpdateState::Done {
            outcome: UpdateOutcome::Failed(UpdateFailure::InstallerFailed { exit_code, transcript }),
        } => {
            assert_eq!(exit_code, Some(3));
            assert_eq!(transcript, vec!["step one", "boom"]);
        }
        other => panic!("unexpected state: {:?}", other),
    }
}

#[test]
fn persist_failure_still_cleans_up_the_temp_file() {
    // A failed persist may have left a file behind (written but not made
    // executable), so its removal is attempted before PersistFailed is
    // reported: cleanup on every exit path.
    let (st, action) = update_step(UpdateState::Persisting, UpdateEvent::Persisted(false));
    assert!(matches!(action, UpdateAction::RemoveScript));
    assert!(matches!(
        st,
        UpdateState::CleaningUp {
            outcome: UpdateOutcome::Failed(UpdateFailure::Fetch(FetchError::PersistFailed))
        }
    ));
    let (st, action) = update_step(st, UpdateEvent::CleanedUp(true));
    assert!(matches!(
        st,
        UpdateState::Done {
            outcome: UpdateOutcome::Failed(UpdateFailure::Fetch(FetchError::PersistFailed))
        }
    ));
    assert!(matches!(action, UpdateAction::Report));
}
