//! The outcome of running one outside diagnostic tool.
//!
//! Launching the process, enforcing the timeout and capturing its output are
//! the operating environment's business; the engine only consumes the
//! resulting [`CommandOutcome`] value.

use vstd::prelude::*;

verus! {

/// Abstract value of a [`CommandOutcome`].
pub enum CommandOutcomeView {
    Success { stdout: Seq<char>, stderr: Seq<char> },
    NonZeroExit { code: i32, stdout: Seq<char>, stderr: Seq<char> },
    LaunchFailed { reason: Seq<char> },
    TimedOut,
}

/// What running an outside tool produced. All four cases are ordinary
/// values; no failure of a tool is an error of the engine.
#[derive(Debug, Clone, PartialEq)]
pub enum CommandOutcome {
    /// The tool ran and exited with status zero.
    Success { stdout: String, stderr: String },
    /// The tool ran and exited with a nonzero status.
    NonZeroExit { code: i32, stdout: String, stderr: String },
    /// The tool could not be started at all.
    LaunchFailed { reason: String },
    /// The tool exceeded its wall-clock budget.
    TimedOut,
}

impl View for CommandOutcome {
    type V = CommandOutcomeView;

    open spec fn view(&self) -> CommandOutcomeView {
        match self {
            CommandOutcome::Success { stdout, stderr } => CommandOutcomeView::Success {
                stdout: stdout@,
                stderr: stderr@,
            },
            CommandOutcome::NonZeroExit { code, stdout, stderr } => CommandOutcomeView::NonZeroExit {
                code: *code,
                stdout: stdout@,
                stderr: stderr@,
            },
            CommandOutcome::LaunchFailed { reason } => CommandOutcomeView::LaunchFailed {
                reason: reason@,
            },
            CommandOutcome::TimedOut => CommandOutcomeView::TimedOut,
        }
    }
}

/// The standard output carried by a successful outcome, if any.
pub open spec fn spec_success_stdout(o: CommandOutcomeView) -> Option<Seq<char>> {
    match o {
        CommandOutcomeView::Success { stdout, .. } => Some(stdout),
        _ => None,
    }
}

/// The cause a failed outcome carries: nothing for a successful run, a
/// short description otherwise.
pub open spec fn spec_failure_cause(o: CommandOutcomeView) -> Option<Seq<char>> {
    match o {
        CommandOutcomeView::Success { .. } => None,
        CommandOutcomeView::NonZeroExit { .. } => Some("tool reported failure"@),
        CommandOutcomeView::LaunchFailed { reason } => Some("launch failed: "@ + reason),
        CommandOutcomeView::TimedOut => Some("timed out"@),
    }
}

impl CommandOutcome {
    /// The cause of a failed outcome, for diagnostic logging; `None` for a
    /// successful run.
    pub fn failure_cause(&self) -> (r: Option<String>)
        ensures
            r.deep_view() == spec_failure_cause(self@),
    {
        match self {
            CommandOutcome::Success { .. } => None,
            CommandOutcome::NonZeroExit { .. } => Some("tool reported failure".to_owned()),
            CommandOutcome::LaunchFailed { reason } => {
                let mut cause = "launch failed: ".to_owned();
                cause.append(reason.as_str());
                Some(cause)
            },
            CommandOutcome::TimedOut => Some("timed out".to_owned()),
        }
    }

    /// Whether the tool ran to completion with status zero.
    pub fn is_success(&self) -> (r: bool)
        ensures
            r == (spec_success_stdout(self@) is Some),
    {
        match self {
            CommandOutcome::Success { .. } => true,
            _ => false,
        }
    }

    /// The captured standard output of a successful run, or `None`.
    pub fn success_stdout(&self) -> (r: Option<&String>)
        ensures
            match r {
                Some(s) => spec_success_stdout(self@) == Some(s@),
                None => spec_success_stdout(self@) is None,
            },
    {
        match self {
            CommandOutcome::Success { stdout, .. } => Some(stdout),
            _ => None,
        }
    }
}

} // verus!
