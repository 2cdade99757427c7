//! Running the steps: what an exit status means, and how a run moves on.

use vstd::prelude::*;
use vstd::string::StringExecFns;
use crate::error::InitError;
use crate::step::{steps_view, Step, StepView};

verus! {

/// Judges an external program by its exit code, where `None` stands for a
/// program that could not be started or that ended without an exit code:
/// only the exit code 0 is a success, and every failure carries the
/// program's name.
pub fn run_cmd(cmd: &str, exit_code: Option<i32>) -> (outcome: Result<(), InitError>)
    ensures
        exit_code == Some(0i32) ==> outcome is Ok,
        exit_code != Some(0i32) ==> (outcome matches Err(InitError::CommandFailed { program })
            && program@ == cmd@),
{
    match exit_code {
        Some(0) => Ok(()),
        _ => Err(InitError::CommandFailed { program: String::from_str(cmd) }),
    }
}

/// Where a run stands.
#[derive(Clone, Copy, Debug, PartialEq, Eq, Structural)]
pub enum Progress {
    /// The step at this position is the next to perform.
    At(usize),
    /// Every step succeeded.
    Done,
    /// A step failed; none was performed after it.
    Failed,
}

/// Where a run of `total` steps stands after the step at hand has ended.
/// A success moves on to the next step, or to `Done` after the last; a
/// failure moves to `Failed`; `Done` and `Failed` are final.
pub open spec fn advanced(total: int, progress: Progress, succeeded: bool) -> Progress {
    match progress {
        Progress::At(i) => if !succeeded {
            Progress::Failed
        } else if i + 1 < total {
            Progress::At((i + 1) as usize)
        } else {
            Progress::Done
        },
        Progress::Done => Progress::Done,
        Progress::Failed => Progress::Failed,
    }
}

/// Where a run of `total` steps starts.
pub fn start(total: usize) -> (progress: Progress)
    ensures
        progress == if total > 0 {
            Progress::At(0)
        } else {
            Progress::Done
        },
{
    if total > 0 {
        Progress::At(0)
    } else {
        Progress::Done
    }
}

/// Moves a run of `total` steps on after the step at hand has ended.
pub fn advance(total: usize, progress: Progress, succeeded: bool) -> (next: Progress)
    ensures
        next == advanced(total as int, progress, succeeded),
{
    match progress {
        Progress::At(i) => {
            if !succeeded {
                Progress::Failed
            } else if i < total && i + 1 < total {
                Progress::At(i + 1)
            } else {
                Progress::Done
            }
        },
        Progress::Done => Progress::Done,
        Progress::Failed => Progress::Failed,
    }
}

/// The exit code of the process once the run has ended: 0 after `Done`,
/// 1 after `Failed`, none while steps remain.
pub fn exit_code(progress: Progress) -> (code: Option<i32>)
    ensures
        code == match progress {
            Progress::At(_) => None::<i32>,
            Progress::Done => Some(0i32),
            Progress::Failed => Some(1i32),
        },
{
    match progress {
        Progress::At(_) => None,
        Progress::Done => Some(0),
        Progress::Failed => Some(1),
    }
}

/// The scratch directory that stands when the step at position `at` is
/// about to be performed: the one of the last step before `at` that cleared
/// a scratch directory for use, unless a later step before `at` removed it.
pub open spec fn scratch_in_use(steps: Seq<StepView>, at: int) -> Option<Seq<char>>
    decreases at,
{
    if at <= 0 || at > steps.len() {
        None
    } else {
        match steps[at - 1] {
            StepView::ClearScratch { path } => Some(path),
            StepView::RemoveScratch { path } => None,
            _ => scratch_in_use(steps, at - 1),
        }
    }
}

/// The scratch directory to remove after the step at position `failed_at`
/// has failed, so that no failure leaves one behind; none where no scratch
/// directory stands at that step.
pub fn cleanup_after_failure(steps: &Vec<Step>, failed_at: usize) -> (scratch: Option<String>)
    ensures
        match scratch_in_use(steps_view(steps@), failed_at as int) {
            Some(path) => scratch matches Some(text) && text@ == path,
            None => scratch is None,
        },
{
    if failed_at > steps.len() {
        return None;
    }
    let ghost all = steps_view(steps@);
    let mut at: usize = failed_at;
    while at > 0
        invariant
            at <= failed_at <= steps.len(),
            all == steps_view(steps@),
            scratch_in_use(all, failed_at as int) == scratch_in_use(all, at as int),
        decreases at,
    {
        proof {
            assert(all[at - 1] == steps[at - 1]@);
        }
        match &steps[at - 1] {
            Step::ClearScratch { path } => {
                return Some(path.clone());
            },
            Step::RemoveScratch { path } => {
                return None;
            },
            _ => {},
        }
        at -= 1;
    }
    None
}

} // verus!
