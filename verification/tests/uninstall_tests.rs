use zama_core::errors::UninstallError;
use zama_core::uninstall::{
    escape_path, first_existing, select_install_path, trash_command, uninstall_result,
};

#[test]
fn escapes_every_single_quote() {
    assert_eq!(escape_path("/Applications/Zama.app"), "/Applications/Zama.app");
    assert_eq!(escape_path("it's"), "it'\"'\"'s");
    assert_eq!(escape_path("''"), "'\"'\"''\"'\"'");
    assert_eq!(escape_path(""), "");
}

#[test]
fn trash_command_embeds_the_escaped_path() {
    assert_eq!(
        trash_command("/Applications/Zama.app"),
        "tell app \"Finder\" to move POSIX file \"/Applications/Zama.app\" to trash"
    );
    assert_eq!(
        trash_command("/tmp/o'clock"),
        "tell app \"Finder\" to move POSIX file \"/tmp/o'\"'\"'clock\" to trash"
    );
}

#[test]
fn picks_the_first_existing_candidate() {
    assert_eq!(first_existing(&vec![false, true, true]), Some(1));
    assert_eq!(first_existing(&vec![true, false]), Some(0));
    assert_eq!(first_existing(&vec![false, false]), None);
    assert_eq!(first_existing(&vec![]), None);
}

#[test]
fn no_existing_candidate_is_not_found() {
    assert_eq!(select_install_path(&vec![false, true]), Ok(1));
    assert_eq!(
        select_install_path(&vec![false, false]),
        Err(UninstallError::NotFound)
    );
    assert_eq!(select_install_path(&vec![]), Err(UninstallError::NotFound));
}

#[test]
fn move_failure_is_trash_move_failed() {
    assert_eq!(uninstall_result(true), Ok(()));
    assert_eq!(uninstall_result(false), Err(UninstallError::TrashMoveFailed));
}
