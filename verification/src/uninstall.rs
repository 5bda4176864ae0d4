//! The uninstall step's decisions: which candidate installation path to
//! act on, how to quote that path inside the move-to-trash command, and
//! what its exit status means. The driver checks which paths exist and
//! runs the command.

use crate::errors::UninstallError;
use vstd::prelude::*;

verus! {

/// How one character is quoted for the move-to-trash command: a single
/// quote becomes `'"'"'`, so the character can never terminate the quoted
/// region; every other character stands unchanged.
pub open spec fn escape_char(c: char) -> Seq<char> {
    if c == '\'' {
        seq!['\'', '"', '\'', '"', '\'']
    } else {
        seq![c]
    }
}

/// The whole path, quoted character by character.
pub open spec fn escaped(s: Seq<char>) -> Seq<char>
    decreases s.len(),
{
    if s.len() == 0 {
        Seq::empty()
    } else {
        escaped(s.drop_last()) + escape_char(s.last())
    }
}

/// Neutralize quote-breaking characters in a path before it is
/// interpolated into the move-to-trash command. This is a hard security
/// requirement: the path can originate from an environment variable.
pub fn escape_path(path: &str) -> (r: String)
    ensures
        r@ == escaped(path@),
{
    let n = path.unicode_len();
    let mut out = String::new();
    let mut i: usize = 0;
    while i < n
        invariant
            i <= n == path@.len(),
            out@ == escaped(path@.subrange(0, i as int)),
        decreases n - i,
    {
        let c = path.get_char(i);
        if c == '\'' {
            out.append("'\"'\"'");
            proof {
                reveal_strlit("'\"'\"'");
                assert(("'\"'\"'")@ =~= seq!['\'', '"', '\'', '"', '\'']);
            }
        } else {
            let piece = path.substring_char(i, i + 1);
            out.append(piece);
            proof {
                assert(path@.subrange(i as int, i + 1) =~= seq![path@[i as int]]);
            }
        }
        i += 1;
        proof {
            let p = path@.subrange(0, i as int);
            assert(p.drop_last() =~= path@.subrange(0, i - 1));
            assert(p.last() == path@[i - 1]);
        }
    }
    proof {
        assert(path@.subrange(0, n as int) =~= path@);
    }
    out
}

/// The command handed to the shell-integration tool, with the path
/// already quoted.
pub open spec fn spec_trash_command(path: Seq<char>) -> Seq<char> {
    ("tell app \"Finder\" to move POSIX file \"")@ + escaped(path) + ("\" to trash")@
}

pub fn trash_command(path: &str) -> (r: String)
    ensures
        r@ == spec_trash_command(path@),
{
    let mut out = String::from_str("tell app \"Finder\" to move POSIX file \"");
    let esc = escape_path(path);
    out.append(esc.as_str());
    out.append("\" to trash");
    out
}

/// The candidate path to uninstall: the first one that exists, if any.
pub fn first_existing(exists: &Vec<bool>) -> (r: Option<usize>)
    ensures
        match r {
            Some(i) => i < exists@.len() && exists@[i as int] && forall|j: int|
                0 <= j < i ==> !exists@[j],
            None => forall|j: int| 0 <= j < exists@.len() ==> !exists@[j],
        },
{
    let mut i: usize = 0;
    while i < exists.len()
        invariant
            i <= exists@.len(),
            forall|j: int| 0 <= j < i ==> !exists@[j],
        decreases exists@.len() - i,
    {
        if exists[i] {
            return Some(i);
        }
        i += 1;
    }
    None
}

/// The uninstall step's selection: the first existing candidate, or
/// `NotFound` when no candidate installation path exists.
pub fn select_install_path(exists: &Vec<bool>) -> (r: Result<usize, UninstallError>)
    ensures
        match r {
            Ok(i) => i < exists@.len() && exists@[i as int] && forall|j: int|
                0 <= j < i ==> !exists@[j],
            Err(e) => e == UninstallError::NotFound && forall|j: int|
                0 <= j < exists@.len() ==> !exists@[j],
        },
{
    match first_existing(exists) {
        Some(i) => Ok(i),
        None => Err(UninstallError::NotFound),
    }
}

/// What the move-to-trash command's exit status means.
pub fn uninstall_result(exit_success: bool) -> (r: Result<(), UninstallError>)
    ensures
        exit_success <==> r is Ok,
        r is Err ==> r->Err_0 == UninstallError::TrashMoveFailed,
{
    if exit_success {
        Ok(())
    } else {
        Err(UninstallError::TrashMoveFailed)
    }
}

} // verus!
