//! The decisions behind the timezone marker: a text file beside the timezone
//! link that names the timezone in force.
//!
//! On some systems the mere existence of the file has a meaning, so a file
//! that is not there is left alone unless the caller insists.

use vstd::prelude::*;
use vstd::string::*;

verus! {

/// The permissions of a marker that is created: its owner may write it,
/// everyone may read it.
pub const MARKER_MODE: u32 = 0o644u32;

/// How to open the marker for writing.
#[derive(Clone, Copy, Debug, PartialEq, Eq, Structural)]
pub struct MarkerOpen {
    /// Create the file where there is none.
    pub create: bool,
    /// Drop what the file held.
    pub truncate: bool,
    /// The permissions of a file that is created.
    pub mode: u32,
}

/// What opening the marker gave.
#[derive(Clone, Copy, Debug, PartialEq, Eq, Structural)]
pub enum Opened {
    /// The file is open.
    Ready,
    /// There is no such file, and none was to be created.
    NotFound,
    /// The file could not be opened.
    Failed,
}

/// What to do once the marker was opened, or was not.
#[derive(Clone, Copy, Debug, PartialEq, Eq, Structural)]
pub enum MarkerStep {
    /// Write the contents; their writing decides the result.
    Write,
    /// Leave everything as it is, and succeed.
    Skip,
    /// Fail with the error that opening gave.
    Fail,
}

/// How the marker is opened: created only where `always_create` says so, and
/// emptied, so that all it holds afterwards is what is written.
pub fn marker_open(always_create: bool) -> (open: MarkerOpen)
    ensures
        open == (MarkerOpen { create: always_create, truncate: true, mode: MARKER_MODE }),
{
    MarkerOpen { create: always_create, truncate: true, mode: MARKER_MODE }
}

/// What the marker is to hold: the timezone and a line feed.
pub fn marker_contents(timezone: &str) -> (contents: String)
    ensures
        contents@ == timezone@.push('\n'),
{
    let contents = String::from_str(timezone).concat("\n");
    proof {
        reveal_strlit("\n");
        assert("\n"@ =~= seq!['\n']);
        assert(timezone@ + seq!['\n'] =~= timezone@.push('\n'));
    }
    contents
}

/// Decides on what opening the marker gave: an open file is written, a file
/// that is not there is passed over in silence, and any other failure is the
/// caller's to report.
pub fn after_open(opened: Opened) -> (step: MarkerStep)
    ensures
        step == match opened {
            Opened::Ready => MarkerStep::Write,
            Opened::NotFound => MarkerStep::Skip,
            Opened::Failed => MarkerStep::Fail,
        },
{
    match opened {
        Opened::Ready => MarkerStep::Write,
        Opened::NotFound => MarkerStep::Skip,
        Opened::Failed => MarkerStep::Fail,
    }
}

} // verus!
