//! Fern gives the parts of a mono-repo one interface to run their tasks.
//!
//! Every directory may hold a `fern.yaml` that maps operation names to
//! shell command lines. This library holds the rules of the runner: how
//! such a file is decoded, which operations it offers, which files a walk
//! of the tree selects, and in which order command lines are run and
//! failures are reported. Reading files, walking directories and spawning
//! processes are left to the caller, who is told what to do next and
//! answers with what happened.

pub mod arguments;
pub mod discovery;
pub mod document;
pub mod engine;
pub mod failure;
pub mod leaf;
pub mod listing;
pub mod location;
pub mod seed;
pub mod steps;

pub use arguments::{parse, Options};
pub use discovery::{find_fern_files, find_here, WalkEntry};
pub use document::{RawDocument, RawEntry};
pub use engine::{run_leaves, Depth, Directive, Discovering, ExecOptions, Reading, Running};
pub use failure::{Failure, FailureView};
pub use listing::{
    all_operations, comes_before, insert_name, list_of_leaves, list_of_operations, render,
    PrintStyle,
};
pub use leaf::{Found, FoundFile, Leaf, Operation};
pub use seed::{folder, Config, Seed, SeedFailure, SeedStep, Seeding};
pub use steps::{Outcome, RawItem, RawValue, Step, StepRun, Steps};
