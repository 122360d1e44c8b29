//! Running one operation over the task files of a tree, or over the one of
//! the current directory.
//!
//! The engine does no work on the outside world itself. It hands out a
//! `Directive` that says what is to be done next, and the value inside the
//! directive takes the answer and gives the next directive, until one says
//! that the run is over.

use vstd::prelude::*;

use crate::failure::{outcome_view, Failure, FailureView};
use crate::discovery::{
    find_fern_files, find_here, here_path, selected, walk_views, WalkEntry, WalkEntryView,
};
use crate::leaf::{leaf_of, run_step, Found, FoundView, Leaf, Operation};
use crate::steps::{step_after, texts, Outcome, OutcomeView, Step, StepRun, StepRunView, StepView};

verus! {

/// How far a run reaches.
#[derive(Debug, Clone, Copy, PartialEq, Eq)]
pub enum Depth {
    /// Only the task file of the current directory.
    Here,
    /// Every task file that a walk of the tree selects.
    Recursive,
}

/// How an operation is to be run.
#[derive(Debug, Clone, Copy)]
pub struct ExecOptions {
    pub depth: Depth,
    /// Report success whatever fails.
    pub quiet: bool,
}

/// What a failure becomes under the quiet flag: success when it is set,
/// the failure itself when it is not.
pub open spec fn quieted(quiet: bool, failure: FailureView) -> Result<(), FailureView> {
    if quiet {
        Ok(())
    } else {
        Err(failure)
    }
}

impl ExecOptions {
    /// The result that a failure of the run amounts to under these options.
    pub fn quietly(self, failure: Failure) -> (result: Result<(), Failure>)
        ensures
            outcome_view(result) == quieted(self.quiet, failure@),
    {
        if self.quiet {
            Ok(())
        } else {
            Err(failure)
        }
    }
}

/// A run that waits for the entries of a walk of the tree from `./`.
pub struct Discovering {
    operation: Operation,
    quiet: bool,
}

/// A run that waits for what reading the file at `path()` gives.
pub struct Reading {
    operation: Operation,
    quiet: bool,
    paths: Vec<String>,
    index: usize,
}

/// A run that waits for the outcome of the command line `line()`, run by
/// `sh -c` in the directory `cwd()`.
pub struct Running {
    operation: Operation,
    quiet: bool,
    paths: Vec<String>,
    index: usize,
    run: StepRun,
}

/// What the caller has to do next.
pub enum Directive {
    /// Walk the tree from `./`, leaving out what the ignore files of the
    /// tree name, and answer with every entry, in walk order, by
    /// `Discovering::found`.
    Discover(Discovering),
    /// Look for the file at `Reading::path`, read it, and answer by
    /// `Reading::contents`.
    Read(Reading),
    /// Run `sh -c` with the line `Running::line` in the directory
    /// `Running::cwd`, with the standard streams inherited, wait for it to
    /// end, and answer by `Running::outcome`.
    Spawn(Running),
    /// Nothing: the run is over, with this result.
    Finish(Result<(), Failure>),
}

/// The files of a run and the one it is at.
pub struct PlanView {
    pub operation: Seq<char>,
    pub quiet: bool,
    pub paths: Seq<Seq<char>>,
    pub index: int,
}

/// A `Directive` by the views of its parts.
pub enum DirectiveView {
    Discover { operation: Seq<char>, quiet: bool },
    Read(PlanView),
    Spawn(PlanView, StepRunView),
    Finish(Result<(), FailureView>),
}

impl Discovering {
    /// The operation that is run.
    pub closed spec fn operation(&self) -> Seq<char> {
        self.operation@
    }

    /// Whether failures are turned into success.
    pub closed spec fn quiet(&self) -> bool {
        self.quiet
    }
}

impl View for Reading {
    type V = PlanView;

    closed spec fn view(&self) -> PlanView {
        PlanView {
            operation: self.operation@,
            quiet: self.quiet,
            paths: texts(self.paths@),
            index: self.index as int,
        }
    }
}

impl Running {
    /// The files of the run and the one whose steps are running.
    pub closed spec fn plan(&self) -> PlanView {
        PlanView {
            operation: self.operation@,
            quiet: self.quiet,
            paths: texts(self.paths@),
            index: self.index as int,
        }
    }

    /// The steps that are running.
    pub closed spec fn steps(&self) -> StepRunView {
        self.run@
    }
}

impl View for Directive {
    type V = DirectiveView;

    open spec fn view(&self) -> DirectiveView {
        match *self {
            Directive::Discover(state) => DirectiveView::Discover {
                operation: state.operation(),
                quiet: state.quiet(),
            },
            Directive::Read(state) => DirectiveView::Read(state@),
            Directive::Spawn(state) => DirectiveView::Spawn(state.plan(), state.steps()),
            Directive::Finish(result) => DirectiveView::Finish(outcome_view(result)),
        }
    }
}

/// The first directive of a run: read the file of the current directory,
/// or walk the tree.
pub open spec fn start(operation: Seq<char>, options: ExecOptions) -> DirectiveView {
    match options.depth {
        Depth::Here => DirectiveView::Read(
            PlanView { operation, quiet: options.quiet, paths: seq![here_path()], index: 0 },
        ),
        Depth::Recursive => DirectiveView::Discover { operation, quiet: options.quiet },
    }
}

/// The directive after a walk: read the first selected file, or end where
/// none was selected.
pub open spec fn after_walk(
    operation: Seq<char>,
    quiet: bool,
    entries: Seq<WalkEntryView>,
) -> DirectiveView {
    if selected(entries).len() == 0 {
        DirectiveView::Finish(quieted(quiet, FailureView::NoFilesFoundAnywhere))
    } else {
        DirectiveView::Read(PlanView { operation, quiet, paths: selected(entries), index: 0 })
    }
}

/// The directive that a step of the current file's steps leads to: run the
/// line that is due; end at the first failure; after the last line go on
/// to the next file, or end with success after the last file.
pub open spec fn follow(plan: PlanView, step: StepView) -> DirectiveView {
    match step {
        StepView::Spawn(run) => DirectiveView::Spawn(plan, run),
        StepView::Finish(Err(failure)) => DirectiveView::Finish(quieted(plan.quiet, failure)),
        StepView::Finish(Ok(())) => if plan.index + 1 < plan.paths.len() {
            DirectiveView::Read(PlanView { index: plan.index + 1, ..plan })
        } else {
            DirectiveView::Finish(Ok(()))
        },
    }
}

/// The directive after reading the current file: end where it makes no
/// `Leaf`, else start its steps for the operation.
pub open spec fn after_read(plan: PlanView, found: FoundView) -> DirectiveView {
    match leaf_of(plan.paths[plan.index], found) {
        Err(failure) => DirectiveView::Finish(quieted(plan.quiet, failure)),
        Ok(leaf) => follow(plan, run_step(leaf, plan.operation)),
    }
}

/// The directive after the outcome of the current command line.
pub open spec fn after_outcome(
    plan: PlanView,
    run: StepRunView,
    outcome: OutcomeView,
) -> DirectiveView {
    follow(plan, step_after(run, outcome))
}

/// Starts running `operation` as the options say.
pub fn run_leaves(operation: Operation, opts: ExecOptions) -> (directive: Directive)
    ensures
        directive@ == start(operation@, opts),
{
    match opts.depth {
        Depth::Here => {
            let mut paths: Vec<String> = Vec::new();
            paths.push(find_here());
            assert(texts(paths@) =~= seq![here_path()]);
            Directive::Read(Reading { operation, quiet: opts.quiet, paths, index: 0 })
        },
        Depth::Recursive => Directive::Discover(Discovering { operation, quiet: opts.quiet }),
    }
}

/// Goes on from a step of the steps of the file at `index`.
fn proceed(
    operation: Operation,
    quiet: bool,
    paths: Vec<String>,
    index: usize,
    step: Step,
) -> (directive: Directive)
    requires
        index < paths.len(),
    ensures
        directive@ == follow(
            PlanView { operation: operation@, quiet, paths: texts(paths@), index: index as int },
            step@,
        ),
{
    match step {
        Step::Spawn(run) => Directive::Spawn(Running { operation, quiet, paths, index, run }),
        Step::Finish(Err(failure)) => Directive::Finish(
            ExecOptions { depth: Depth::Recursive, quiet }.quietly(failure),
        ),
        Step::Finish(Ok(())) => if index + 1 < paths.len() {
            Directive::Read(Reading { operation, quiet, paths, index: index + 1 })
        } else {
            Directive::Finish(Ok(()))
        },
    }
}

impl Discovering {
    /// Takes the entries of the walk, in walk order. Where they hold no
    /// task file the run is over: with the failure that says so, or with
    /// success when quiet. Else the first task file is to be read.
    pub fn found(self, entries: &Vec<WalkEntry>) -> (directive: Directive)
        ensures
            directive@ == after_walk(self.operation(), self.quiet(), walk_views(entries@)),
    {
        let paths = find_fern_files(entries);
        if paths.is_empty() {
            Directive::Finish(
                ExecOptions { depth: Depth::Recursive, quiet: self.quiet }.quietly(
                    Failure::NoFilesFoundAnywhere,
                ),
            )
        } else {
            Directive::Read(
                Reading { operation: self.operation, quiet: self.quiet, paths, index: 0 },
            )
        }
    }
}

impl Reading {
    #[verifier::type_invariant]
    spec fn in_range(&self) -> bool {
        self.index < self.paths.len()
    }

    /// The location of the file that is to be read.
    pub fn path(&self) -> (path: &String)
        ensures
            0 <= self@.index < self@.paths.len(),
            path@ == self@.paths[self@.index],
    {
        proof {
            use_type_invariant(self);
        }
        &self.paths[self.index]
    }

    /// Takes what reading the file gave. A file that makes no `Leaf` ends
    /// the run; else the file's steps for the operation start, and a file
    /// without steps for it is passed over.
    pub fn contents(self, found: &Found) -> (directive: Directive)
        ensures
            directive@ == after_read(self@, found@),
    {
        proof {
            use_type_invariant(&self);
        }
        let Reading { operation, quiet, paths, index } = self;
        match Leaf::from_file(paths[index].clone(), found) {
            Err(failure) => Directive::Finish(
                ExecOptions { depth: Depth::Recursive, quiet }.quietly(failure),
            ),
            Ok(leaf) => {
                let step = leaf.run(&operation);
                proceed(operation, quiet, paths, index, step)
            },
        }
    }
}

impl Running {
    #[verifier::type_invariant]
    spec fn in_range(&self) -> bool {
        self.index < self.paths.len()
    }

    /// The command line that is to be run.
    pub fn line(&self) -> (line: &String)
        ensures
            0 <= self.steps().next < self.steps().lines.len(),
            line@ == self.steps().lines[self.steps().next],
    {
        self.run.line()
    }

    /// The directory in which the command line is to be run.
    pub fn cwd(&self) -> (cwd: &String)
        ensures
            cwd@ == self.steps().cwd,
    {
        self.run.cwd()
    }

    /// Takes the outcome of the command line.
    pub fn outcome(self, outcome: Outcome) -> (directive: Directive)
        ensures
            directive@ == after_outcome(self.plan(), self.steps(), outcome@),
    {
        proof {
            use_type_invariant(&self);
        }
        let Running { operation, quiet, paths, index, run } = self;
        let step = run.advance(outcome);
        proceed(operation, quiet, paths, index, step)
    }
}

/// A recursive run whose walk selects no file ends at once: with the
/// failure that says that no file was found anywhere, or, when quiet, with
/// success.
pub proof fn lemma_no_files_anywhere(operation: Seq<char>, quiet: bool, entries: Seq<WalkEntryView>)
    requires
        selected(entries).len() == 0,
    ensures
        start(operation, ExecOptions { depth: Depth::Recursive, quiet }) == (
        DirectiveView::Discover { operation, quiet }),
        !quiet ==> after_walk(operation, quiet, entries) == DirectiveView::Finish(
            Err(FailureView::NoFilesFoundAnywhere),
        ),
        quiet ==> after_walk(operation, quiet, entries) == DirectiveView::Finish(Ok(())),
{
}

/// A run in the current directory reads the one file there, and where that
/// file is missing it ends at once: with the failure that says that no file
/// was found here, or, when quiet, with success.
pub proof fn lemma_no_file_here(operation: Seq<char>, quiet: bool)
    ensures
        start(operation, ExecOptions { depth: Depth::Here, quiet }) matches DirectiveView::Read(
            plan,
        ) && {
            &&& plan.paths == seq![here_path()]
            &&& plan.index == 0
            &&& !quiet ==> after_read(plan, FoundView::Missing) == DirectiveView::Finish(
                Err(FailureView::NoFileFoundHere),
            )
            &&& quiet ==> after_read(plan, FoundView::Missing) == DirectiveView::Finish(Ok(()))
        },
{
}

/// A quiet run never ends in failure, whatever happens to its files and
/// command lines.
pub proof fn lemma_quiet_hides_failure(
    plan: PlanView,
    step: StepView,
    found: FoundView,
    entries: Seq<WalkEntryView>,
)
    requires
        plan.quiet,
    ensures
        follow(plan, step) matches DirectiveView::Finish(result) ==> result is Ok,
        after_read(plan, found) matches DirectiveView::Finish(result) ==> result is Ok,
        after_walk(plan.operation, plan.quiet, entries) matches DirectiveView::Finish(result)
            ==> result is Ok,
{
}

/// Without a failure the quiet flag changes nothing but itself: the same
/// step leads to the same kind of directive for the same file and line.
pub proof fn lemma_quiet_changes_no_success(plan: PlanView, step: StepView)
    requires
        !(step matches StepView::Finish(Err(_))),
    ensures
        match (follow(plan, step), follow(PlanView { quiet: !plan.quiet, ..plan }, step)) {
            (DirectiveView::Spawn(a, run), DirectiveView::Spawn(b, also)) => run == also && a.index
                == b.index && a.paths == b.paths,
            (DirectiveView::Read(a), DirectiveView::Read(b)) => a.index == b.index && a.paths
                == b.paths,
            (DirectiveView::Finish(a), DirectiveView::Finish(b)) => a == b,
            _ => false,
        },
{
}

} // verus!
