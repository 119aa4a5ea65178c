//! What can go wrong while building an archive, and how it is reported.

use vstd::prelude::*;

verus! {

/// A failure that ends the run. Each one but `Usage` names the path it concerns.
pub enum ArchiveError {
    /// Fewer than two arguments: an archive path and at least one input are needed.
    Usage,
    /// The archive file could not be created.
    CreateOutput { path: String, reason: String },
    /// The input path has no base name to store the file under.
    InvalidFileName { path: String },
    /// The input file could not be read, or not stored in the archive.
    Input { path: String, reason: String },
    /// The archive could not be completed or written out.
    Output { path: String, reason: String },
}

/// The line that explains how to call the program.
pub const USAGE: &'static str = "Usage: zipper <zip file> <file to archive> <file to archive> ...";

/// The human-readable text of an error.
pub open spec fn message_of(e: ArchiveError) -> Seq<char> {
    match e {
        ArchiveError::Usage => USAGE@,
        ArchiveError::CreateOutput { path, reason } => "Error creating "@ + path@ + ": "@
            + reason@,
        ArchiveError::InvalidFileName { path } => path@ + ": Invalid file name"@,
        ArchiveError::Input { path, reason } => path@ + ": "@ + reason@,
        ArchiveError::Output { path, reason } => path@ + ": "@ + reason@,
    }
}

/// The path an error concerns; empty for `Usage`, which concerns none.
pub open spec fn path_of(e: ArchiveError) -> Seq<char> {
    match e {
        ArchiveError::Usage => Seq::empty(),
        ArchiveError::CreateOutput { path, .. } => path@,
        ArchiveError::InvalidFileName { path } => path@,
        ArchiveError::Input { path, .. } => path@,
        ArchiveError::Output { path, .. } => path@,
    }
}

/// `path`, then `tail`, then `rest`.
fn joined(path: &String, tail: &str, rest: &String) -> (r: String)
    ensures
        r@ == path@ + tail@ + rest@,
{
    let mut r = path.clone();
    r.append(tail);
    r.append(rest.as_str());
    r
}

impl ArchiveError {
    /// The human-readable text of this error.
    pub fn message(&self) -> (r: String)
        ensures
            r@ == message_of(*self),
    {
        match self {
            ArchiveError::Usage => String::from_str(USAGE),
            ArchiveError::CreateOutput { path, reason } => {
                let mut r = String::from_str("Error creating ");
                r.append(joined(path, ": ", reason).as_str());
                proof {
                    assert(r@ =~= message_of(*self));
                }
                r
            },
            ArchiveError::InvalidFileName { path } => {
                let mut r = path.clone();
                r.append(": Invalid file name");
                r
            },
            ArchiveError::Input { path, reason } => joined(path, ": ", reason),
            ArchiveError::Output { path, reason } => joined(path, ": ", reason),
        }
    }
}
/// The process exit status for the outcome of a run: 0 on success, 1 on any failure.
pub fn exit_code(outcome: &Result<(), ArchiveError>) -> (r: i32)
    ensures
        r == (if outcome is Ok { 0i32 } else { 1i32 }),
{
    match outcome {
        Ok(()) => 0,
        Err(_) => 1,
    }
}

} // verus!
