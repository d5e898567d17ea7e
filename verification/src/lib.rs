//! Status-bar rendering library: turns window-manager and system state into
//! a single line of lemonbar markup.

pub mod bar;
pub mod classify;
pub mod clock;
pub mod markup;
pub mod strutil;
pub mod sysmod;
pub mod tree;

use vstd::prelude::*;

verus! {

/// Everything that can go wrong while rendering.
#[derive(PartialEq, Eq, Structural, Clone, Copy, Debug)]
pub enum BarError {
    /// A displayable workspace carries no name.
    UnnamedWorkspace,
    /// Numbered-workspace mode is on and a workspace name is not a number.
    WorkspaceNameNotNumeric,
    /// A playing media title does not split as `"Title - Artist"`.
    BadSongFormat,
    /// A required system reading was not supplied.
    MissingInput,
    /// A system reading did not parse as a number.
    BadNumber,
    /// A processor sample went backwards or was inconsistent.
    BadCpuSample,
}

impl BarError {
    /// Only a malformed song title is recoverable within one render; every
    /// other error is an environment misconfiguration the operator must fix.
    pub open spec fn spec_recoverable(self) -> bool {
        self == BarError::BadSongFormat
    }

    /// Exec twin of [`BarError::spec_recoverable`].
    pub fn recoverable(&self) -> (r: bool)
        ensures
            r == self.spec_recoverable(),
    {
        matches!(self, BarError::BadSongFormat)
    }

    /// A diagnostic line for the operator.
    pub fn message(&self) -> (r: &'static str) {
        match self {
            BarError::UnnamedWorkspace => "a displayable workspace has no name",
            BarError::WorkspaceNameNotNumeric => "workspace name is not a number",
            BarError::BadSongFormat => "window title is not 'Title - Artist'",
            BarError::MissingInput => "a required system reading is missing",
            BarError::BadNumber => "a system reading did not parse as a number",
            BarError::BadCpuSample => "processor counters went backwards",
        }
    }
}

/// The markup fragment substituted for a module whose render failed.
pub fn error_indicator() -> (r: &'static str)
    ensures
        r@ == "ERROR"@,
{
    "ERROR"
}

} // verus!
