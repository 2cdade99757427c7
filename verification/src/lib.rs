//! Scaffolding of a new project from a template repository: the naming, the
//! placeholder rewriting, the copy plan and the ordered list of steps, each
//! with a proved contract. Running the steps is left to the caller.

pub mod copy;
pub mod error;
pub mod naming;
pub mod path;
pub mod plan;
pub mod precheck;
pub mod replace;
pub mod run;
pub mod step;
pub mod template;
pub mod text;
pub mod title;
