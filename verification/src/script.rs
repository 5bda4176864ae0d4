//! The integrity gate for a downloaded installer script: the body must
//! begin with an interpreter directive before it may ever be persisted
//! or executed.

use crate::errors::FetchError;
use vstd::prelude::*;

verus! {

/// The body minimally resembles an executable script: its first two
/// characters are `#!`.
pub open spec fn looks_like_script(s: Seq<char>) -> bool {
    s.len() >= 2 && s[0] == '#' && s[1] == '!'
}

/// The integrity gate: accept exactly the bodies that begin with `#!`.
/// Everything else is `UntrustedContent` and must never reach disk or a
/// shell.
pub fn validate_script(body: &str) -> (r: Result<(), FetchError>)
    ensures
        r is Ok <==> looks_like_script(body@),
        r is Err ==> r->Err_0 == FetchError::UntrustedContent,
{
    let n = body.unicode_len();
    if n < 2 {
        return Err(FetchError::UntrustedContent);
    }
    if body.get_char(0) == '#' && body.get_char(1) == '!' {
        Ok(())
    } else {
        Err(FetchError::UntrustedContent)
    }
}

/// A success status in the HTTP sense: any 2xx code.
pub open spec fn spec_status_success(status: u16) -> bool {
    200 <= status < 300
}

pub fn status_success(status: u16) -> (r: bool)
    ensures
        r == spec_status_success(status),
{
    200 <= status && status < 300
}

} // verus!
