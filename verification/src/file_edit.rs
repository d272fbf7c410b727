//! The steps of a surgical file edit shared by every backend: read the
//! file, replace one occurrence, write it back, and what each command's
//! outcome means.

use vstd::prelude::*;
use crate::error::Error;
use crate::text::{concat, trim, trim_text};

verus! {

/// The error of a step that failed: `Failed to <verb> <path>: ` and the
/// trimmed stderr.
pub open spec fn step_failure(verb: Seq<char>, path: Seq<char>, stderr: Seq<char>) -> Seq<char> {
    "Failed to "@ + verb + " "@ + path + ": "@ + trim(stderr)
}

fn failure_text(verb: &str, path: &str, stderr: &str) -> (r: String)
    ensures
        r@ == step_failure(verb@, path@, stderr@),
{
    let mut m = concat("Failed to ", verb);
    m.append(" ");
    m.append(path);
    m.append(": ");
    let t = trim_text(stderr);
    m.append(t.as_str());
    m
}

/// What the read of the file to edit means: it must have exited 0.
pub fn check_read(path: &str, exit_code: i32, stderr: &str) -> (r: Result<(), Error>)
    ensures
        exit_code == 0 <==> r is Ok,
        r matches Err(e) ==> e matches Error::FileRead(m) && m@ == step_failure("read"@, path@, stderr@),
{
    if exit_code != 0 {
        return Err(Error::FileRead(failure_text("read", path, stderr)));
    }
    Ok(())
}

/// What the write of the edited file means: it must have exited 0, and
/// the edit is then reported as applied.
pub fn check_write(path: &str, exit_code: i32, stderr: &str) -> (r: Result<String, Error>)
    ensures
        exit_code == 0 <==> r is Ok,
        r matches Ok(m) ==> m@ == "Edit applied to "@ + path@,
        r matches Err(e) ==> e matches Error::FileEdit(m) && m@ == step_failure("write"@, path@, stderr@),
{
    if exit_code != 0 {
        return Err(Error::FileEdit(failure_text("write", path, stderr)));
    }
    Ok(concat("Edit applied to ", path))
}

} // verus!
