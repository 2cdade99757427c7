//! The steps that a run is made of.

use vstd::prelude::*;
use crate::replace::{pairs_of, Replacement};

verus! {

/// One thing to do on the way from an empty directory to a pushed
/// repository. The caller performs it; a step that fails ends the run.
#[derive(Clone, Debug, PartialEq, Eq)]
pub enum Step {
    /// Start `program` with `args`, wait for it, and take its exit code.
    Run { program: String, args: Vec<String> },
    /// Remove the scratch directory if a former run left one.
    ClearScratch { path: String },
    /// Copy what the scratch clone holds into the target directory.
    CopyTemplate { from: String, to: String },
    /// Remove the scratch directory.
    RemoveScratch { path: String },
    /// Rewrite the placeholders in one file.
    Substitute { file: String, replacements: Vec<Replacement> },
    /// Make `dir` the working directory.
    ChangeDirectory { dir: String },
}

/// What a step says, as plain text.
pub enum StepView {
    Run { program: Seq<char>, args: Seq<Seq<char>> },
    ClearScratch { path: Seq<char> },
    CopyTemplate { from: Seq<char>, to: Seq<char> },
    RemoveScratch { path: Seq<char> },
    Substitute { file: Seq<char>, replacements: Seq<(Seq<char>, Seq<char>)> },
    ChangeDirectory { dir: Seq<char> },
}

/// The text of each string, in order.
pub open spec fn texts_of(v: Seq<String>) -> Seq<Seq<char>> {
    v.map_values(|s: String| s@)
}

impl View for Step {
    type V = StepView;

    open spec fn view(&self) -> StepView {
        match self {
            Step::Run { program, args } => StepView::Run {
                program: program@,
                args: texts_of(args@),
            },
            Step::ClearScratch { path } => StepView::ClearScratch { path: path@ },
            Step::CopyTemplate { from, to } => StepView::CopyTemplate { from: from@, to: to@ },
            Step::RemoveScratch { path } => StepView::RemoveScratch { path: path@ },
            Step::Substitute { file, replacements } => StepView::Substitute {
                file: file@,
                replacements: pairs_of(replacements@),
            },
            Step::ChangeDirectory { dir } => StepView::ChangeDirectory { dir: dir@ },
        }
    }
}

/// What each step says, in order.
pub open spec fn steps_view(v: Seq<Step>) -> Seq<StepView> {
    v.map_values(|s: Step| s@)
}

} // verus!
