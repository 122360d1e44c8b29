//! The command lines of one operation, and how they are decoded.

use vstd::prelude::*;

use crate::failure::{outcome_view, Failure, FailureView};

verus! {

/// One node of a decoded document where only text is of interest: a key of
/// the top-level mapping, or an item of a sequence.
#[derive(Debug, Clone, PartialEq, Eq)]
pub enum RawItem {
    /// A text scalar.
    Text(String),
    /// Anything else: null, a boolean, a number, a sequence, a mapping.
    Other,
}

/// The value that a document gives for one operation, before it is known to
/// have an accepted shape.
#[derive(Debug, Clone, PartialEq, Eq)]
pub enum RawValue {
    /// A single text scalar.
    Text(String),
    /// A sequence, each item text or not.
    List(Vec<RawItem>),
    /// Anything else: null, a boolean, a number, a mapping.
    Other,
}

/// The command lines of one operation, in the order in which they run.
#[derive(Debug, Clone, PartialEq, Eq)]
pub struct Steps {
    pub values: Vec<String>,
}

/// A sequence of strings as the sequence of their texts.
pub open spec fn texts(strings: Seq<String>) -> Seq<Seq<char>> {
    strings.map_values(|string: String| string@)
}

impl View for Steps {
    type V = Seq<Seq<char>>;

    open spec fn view(&self) -> Seq<Seq<char>> {
        texts(self.values@)
    }
}

/// A `RawItem` with its text as a sequence of characters.
pub enum RawItemView {
    Text(Seq<char>),
    Other,
}

impl View for RawItem {
    type V = RawItemView;

    open spec fn view(&self) -> RawItemView {
        match *self {
            RawItem::Text(text) => RawItemView::Text(text@),
            RawItem::Other => RawItemView::Other,
        }
    }
}

/// The views of a sequence of items.
pub open spec fn item_views(items: Seq<RawItem>) -> Seq<RawItemView> {
    items.map_values(|item: RawItem| item@)
}

/// A `RawValue` by the views of its parts.
pub enum RawValueView {
    Text(Seq<char>),
    List(Seq<RawItemView>),
    Other,
}

impl View for RawValue {
    type V = RawValueView;

    open spec fn view(&self) -> RawValueView {
        match *self {
            RawValue::Text(text) => RawValueView::Text(text@),
            RawValue::List(items) => RawValueView::List(item_views(items@)),
            RawValue::Other => RawValueView::Other,
        }
    }
}

/// What the decoder says of a value that has neither accepted shape.
pub open spec fn expected_shapes() -> Seq<char> {
    "expected either single string or sequence of strings"@
}

/// Whether every item of a sequence is text.
pub open spec fn all_text(items: Seq<RawItemView>) -> bool {
    forall|i: int| 0 <= i < items.len() ==> items[i] is Text
}

/// The texts of a sequence of items that are all text.
pub open spec fn texts_of(items: Seq<RawItemView>) -> Seq<Seq<char>> {
    items.map_values(|item: RawItemView| item->Text_0)
}

/// The command lines that a raw value stands for, or nothing where its
/// shape is not accepted.
pub open spec fn steps_of(raw: RawValueView) -> Option<Seq<Seq<char>>> {
    match raw {
        RawValueView::Text(line) => Some(seq![line]),
        RawValueView::List(items) => if all_text(items) {
            Some(texts_of(items))
        } else {
            None
        },
        RawValueView::Other => None,
    }
}

/// What became of one command line that was handed to the shell.
#[derive(Debug, Clone, PartialEq, Eq)]
pub enum Outcome {
    /// The shell ran and ended; `code` is its exit code, or nothing where
    /// none can be had (it was ended by a signal).
    Exited { code: Option<i32> },
    /// The shell could not be started; `cause` is what the system said.
    SpawnFailed { cause: String },
}

/// An `Outcome` with its text as a sequence of characters.
pub enum OutcomeView {
    Exited { code: Option<i32> },
    SpawnFailed { cause: Seq<char> },
}

impl View for Outcome {
    type V = OutcomeView;

    open spec fn view(&self) -> OutcomeView {
        match *self {
            Outcome::Exited { code } => OutcomeView::Exited { code },
            Outcome::SpawnFailed { cause } => OutcomeView::SpawnFailed { cause: cause@ },
        }
    }
}

/// A run of command lines that waits for the outcome of one of them: the
/// line at `next` has been handed out and the lines before it succeeded.
pub struct StepRun {
    steps: Steps,
    cwd: String,
    next: usize,
}

/// The state of a `StepRun`.
pub struct StepRunView {
    pub lines: Seq<Seq<char>>,
    pub cwd: Seq<char>,
    pub next: int,
}

/// What the caller has to do next for a run of command lines.
pub enum Step {
    /// Run `sh -c` with the run's current line in the run's directory, with
    /// the standard streams inherited, and hand the outcome to `advance`.
    Spawn(StepRun),
    /// The run is over, with this result.
    Finish(Result<(), Failure>),
}

/// A `Step` by the views of its parts.
pub enum StepView {
    Spawn(StepRunView),
    Finish(Result<(), FailureView>),
}

impl View for Step {
    type V = StepView;

    open spec fn view(&self) -> StepView {
        match *self {
            Step::Spawn(run) => StepView::Spawn(run@),
            Step::Finish(result) => StepView::Finish(outcome_view(result)),
        }
    }
}

/// Whether a command line ended well: the shell ran and gave exit code 0.
pub open spec fn succeeded(outcome: OutcomeView) -> bool {
    outcome == (OutcomeView::Exited { code: Some(0i32) })
}

/// The failure that a command line and its outcome amount to, for an
/// outcome that is no success. A missing exit code is reported as -1.
pub open spec fn failure_of(line: Seq<char>, outcome: OutcomeView) -> FailureView {
    match outcome {
        OutcomeView::Exited { code } => FailureView::CommandExitFailure {
            command: line,
            code: match code {
                Some(code) => code,
                None => -1i32,
            },
        },
        OutcomeView::SpawnFailed { cause } => FailureView::CommandSpawnFailure { command: line, cause },
    }
}

/// The step at which a run stands when the lines before `index` succeeded:
/// the line at `index` is next, or the run is over with success.
pub open spec fn step_at(lines: Seq<Seq<char>>, cwd: Seq<char>, index: int) -> StepView {
    if 0 <= index < lines.len() {
        StepView::Spawn(StepRunView { lines, cwd, next: index })
    } else {
        StepView::Finish(Ok(()))
    }
}

/// The step that follows the outcome of the current line: the next line
/// after a success, the end with that line's failure otherwise.
pub open spec fn step_after(run: StepRunView, outcome: OutcomeView) -> StepView {
    if succeeded(outcome) {
        step_at(run.lines, run.cwd, run.next + 1)
    } else {
        StepView::Finish(Err(failure_of(run.lines[run.next], outcome)))
    }
}

/// What a run has done once a number of outcomes have come in: the lines
/// it handed out, in order, and its result where it is over.
pub struct Trace {
    pub spawned: Seq<Seq<char>>,
    pub end: Option<Result<(), FailureView>>,
}

/// The run from `step` on, answered with `outcomes` one after the other.
/// Outcomes that are left when the run is over are never asked for.
pub open spec fn trace_from(step: StepView, outcomes: Seq<OutcomeView>) -> Trace
    decreases outcomes.len(),
{
    match step {
        StepView::Finish(result) => Trace { spawned: Seq::empty(), end: Some(result) },
        StepView::Spawn(run) => if outcomes.len() == 0 {
            Trace { spawned: seq![run.lines[run.next]], end: None }
        } else {
            let rest = trace_from(step_after(run, outcomes[0]), outcomes.skip(1));
            Trace { spawned: seq![run.lines[run.next]] + rest.spawned, end: rest.end }
        },
    }
}

impl Default for Steps {
    /// No steps: what an operation that a file does not define resolves to.
    fn default() -> (steps: Steps)
        ensures
            steps@ == Seq::<Seq<char>>::empty(),
    {
        let steps = Steps { values: Vec::new() };
        assert(steps@ =~= Seq::<Seq<char>>::empty());
        steps
    }
}

impl Steps {
    /// Whether there is at least one command line.
    pub fn any(&self) -> (some: bool)
        ensures
            some == (self@.len() > 0),
    {
        !self.values.is_empty()
    }

    /// A copy with the same command lines.
    pub fn duplicate(&self) -> (copy: Steps)
        ensures
            copy@ == self@,
    {
        let mut values: Vec<String> = Vec::new();
        let mut i: usize = 0;
        while i < self.values.len()
            invariant
                i <= self.values.len(),
                values.len() == i,
                forall|j: int| 0 <= j < i ==> values[j]@ == self.values[j]@,
            decreases self.values.len() - i,
        {
            values.push(self.values[i].clone());
            i += 1;
        }
        let copy = Steps { values };
        assert(copy@ =~= self@);
        copy
    }

    /// Decodes the value of one operation. A single text gives one command
    /// line, a sequence of texts gives them in the same order (none for an
    /// empty sequence), and every other shape is refused with words that
    /// name both accepted shapes.
    pub fn parse(raw: &RawValue) -> (result: Result<Steps, Failure>)
        ensures
            raw@ is Text ==> result is Ok && result->Ok_0@ == seq![raw@->Text_0],
            raw@ is List && all_text(raw@->List_0) ==> result is Ok && result->Ok_0@ == texts_of(
                raw@->List_0,
            ),
            match result {
                Ok(steps) => steps_of(raw@) == Some(steps@),
                Err(failure) => steps_of(raw@).is_none() && failure@ == (FailureView::ParseFailure {
                    detail: expected_shapes(),
                }),
            },
    {
        match raw {
            RawValue::Text(line) => {
                let mut values: Vec<String> = Vec::new();
                values.push(line.clone());
                let steps = Steps { values };
                assert(steps@ =~= seq![line@]);
                Ok(steps)
            },
            RawValue::List(items) => {
                let mut values: Vec<String> = Vec::new();
                let mut i: usize = 0;
                while i < items.len()
                    invariant
                        raw@ == RawValueView::List(item_views(items@)),
                        i <= items.len(),
                        values.len() == i,
                        forall|j: int| 0 <= j < i ==> item_views(items@)[j] is Text,
                        forall|j: int| 0 <= j < i ==> values[j]@ == item_views(items@)[j]->Text_0,
                    decreases items.len() - i,
                {
                    match &items[i] {
                        RawItem::Text(line) => {
                            values.push(line.clone());
                        },
                        RawItem::Other => {
                            assert(!(item_views(items@)[i as int] is Text));
                            return Err(mismatch());
                        },
                    }
                    i += 1;
                }
                let steps = Steps { values };
                assert(steps@ =~= texts_of(item_views(items@)));
                Ok(steps)
            },
            RawValue::Other => Err(mismatch()),
        }
    }

    /// Starts running the command lines in `cwd`: the first line is to be
    /// spawned, or the run is over with success where there is none.
    pub fn run_all(self, cwd: String) -> (step: Step)
        ensures
            step@ == step_at(self@, cwd@, 0),
    {
        resume(self, cwd, 0)
    }
}

/// The step of a run whose lines before `index` succeeded.
fn resume(steps: Steps, cwd: String, index: usize) -> (step: Step)
    requires
        index <= steps.values.len(),
    ensures
        step@ == step_at(steps@, cwd@, index as int),
{
    if index < steps.values.len() {
        Step::Spawn(StepRun { steps, cwd, next: index })
    } else {
        Step::Finish(Ok(()))
    }
}

impl View for StepRun {
    type V = StepRunView;

    closed spec fn view(&self) -> StepRunView {
        StepRunView { lines: self.steps@, cwd: self.cwd@, next: self.next as int }
    }
}

impl StepRun {
    #[verifier::type_invariant]
    spec fn in_range(&self) -> bool {
        self.next < self.steps.values.len()
    }

    /// The command line that is to be run now.
    pub fn line(&self) -> (line: &String)
        ensures
            0 <= self@.next < self@.lines.len(),
            line@ == self@.lines[self@.next],
    {
        proof {
            use_type_invariant(self);
        }
        &self.steps.values[self.next]
    }

    /// The directory in which the command lines run.
    pub fn cwd(&self) -> (cwd: &String)
        ensures
            cwd@ == self@.cwd,
    {
        &self.cwd
    }

    /// Takes the outcome of the current line. After a success the next
    /// line is to be spawned, or the run is over with success where that
    /// was the last one. After anything else the run is over at once with
    /// the failure of the current line, and no later line is handed out.
    pub fn advance(self, outcome: Outcome) -> (step: Step)
        ensures
            step@ == step_after(self@, outcome@),
    {
        proof {
            use_type_invariant(&self);
        }
        let StepRun { steps, cwd, next } = self;
        match outcome {
            Outcome::Exited { code: Some(0) } => resume(steps, cwd, next + 1),
            Outcome::Exited { code } => {
                let code: i32 = match code {
                    Some(code) => code,
                    None => -1,
                };
                let command = steps.values[next].clone();
                Step::Finish(Err(Failure::CommandExitFailure { command, code }))
            },
            Outcome::SpawnFailed { cause } => Step::Finish(
                Err(Failure::CommandSpawnFailure { command: steps.values[next].clone(), cause }),
            ),
        }
    }
}

/// A run in which the line at position `k` (counted from 1) is the first
/// to fail hands out exactly the first `k` lines, in their order, and ends
/// with the failure of that line; the lines after it are never handed out.
pub proof fn lemma_first_failure_ends_run(
    lines: Seq<Seq<char>>,
    cwd: Seq<char>,
    outcomes: Seq<OutcomeView>,
    k: int,
)
    requires
        1 <= k <= lines.len(),
        k <= outcomes.len(),
        forall|i: int| 0 <= i < k - 1 ==> succeeded(#[trigger] outcomes[i]),
        !succeeded(outcomes[k - 1]),
    ensures
        trace_from(step_at(lines, cwd, 0), outcomes).spawned == lines.take(k),
        trace_from(step_at(lines, cwd, 0), outcomes).end == Some(
            Err::<(), FailureView>(failure_of(lines[k - 1], outcomes[k - 1])),
        ),
{
    lemma_failure_from(lines, cwd, outcomes, k, 0);
    assert(lines.subrange(0, k) =~= lines.take(k));
}

/// A run in which every line succeeds hands out all its lines, in their
/// order, and ends with success.
pub proof fn lemma_all_succeed(lines: Seq<Seq<char>>, cwd: Seq<char>, outcomes: Seq<OutcomeView>)
    requires
        lines.len() <= outcomes.len(),
        forall|i: int| 0 <= i < lines.len() ==> succeeded(#[trigger] outcomes[i]),
    ensures
        trace_from(step_at(lines, cwd, 0), outcomes).spawned == lines,
        trace_from(step_at(lines, cwd, 0), outcomes).end == Some(Ok::<(), FailureView>(())),
{
    lemma_success_from(lines, cwd, outcomes, 0);
    assert(lines.subrange(0, lines.len() as int) =~= lines);
}

proof fn lemma_failure_from(
    lines: Seq<Seq<char>>,
    cwd: Seq<char>,
    outcomes: Seq<OutcomeView>,
    k: int,
    done: int,
)
    requires
        0 <= done < k <= lines.len(),
        k - done <= outcomes.len(),
        forall|i: int| 0 <= i < k - 1 - done ==> succeeded(#[trigger] outcomes[i]),
        !succeeded(outcomes[k - 1 - done]),
    ensures
        trace_from(step_at(lines, cwd, done), outcomes).spawned == lines.subrange(done, k),
        trace_from(step_at(lines, cwd, done), outcomes).end == Some(
            Err::<(), FailureView>(failure_of(lines[k - 1], outcomes[k - 1 - done])),
        ),
    decreases k - done,
{
    let run = StepRunView { lines, cwd, next: done };
    let rest = outcomes.skip(1);
    if done == k - 1 {
        assert(trace_from(step_after(run, outcomes[0]), rest).spawned =~= Seq::empty());
        assert(seq![lines[done]] + Seq::<Seq<char>>::empty() =~= lines.subrange(done, k));
    } else {
        assert(succeeded(outcomes[0]));
        assert forall|i: int| 0 <= i < k - 1 - (done + 1) implies succeeded(#[trigger] rest[i]) by {
            assert(rest[i] == outcomes[i + 1]);
        }
        assert(rest[k - 1 - (done + 1)] == outcomes[k - 1 - done]);
        lemma_failure_from(lines, cwd, rest, k, done + 1);
        assert(seq![lines[done]] + lines.subrange(done + 1, k) =~= lines.subrange(done, k));
    }
}

proof fn lemma_success_from(
    lines: Seq<Seq<char>>,
    cwd: Seq<char>,
    outcomes: Seq<OutcomeView>,
    done: int,
)
    requires
        0 <= done <= lines.len(),
        lines.len() - done <= outcomes.len(),
        forall|i: int| 0 <= i < lines.len() - done ==> succeeded(#[trigger] outcomes[i]),
    ensures
        trace_from(step_at(lines, cwd, done), outcomes).spawned == lines.subrange(
            done,
            lines.len() as int,
        ),
        trace_from(step_at(lines, cwd, done), outcomes).end == Some(Ok::<(), FailureView>(())),
    decreases lines.len() - done,
{
    if done == lines.len() {
        assert(lines.subrange(done, lines.len() as int) =~= Seq::empty());
    } else {
        let rest = outcomes.skip(1);
        assert(succeeded(outcomes[0]));
        assert forall|i: int| 0 <= i < lines.len() - (done + 1) implies succeeded(
            #[trigger] rest[i],
        ) by {
            assert(rest[i] == outcomes[i + 1]);
        }
        lemma_success_from(lines, cwd, rest, done + 1);
        assert(seq![lines[done]] + lines.subrange(done + 1, lines.len() as int)
            =~= lines.subrange(done, lines.len() as int));
    }
}

/// The failure for a value that has neither accepted shape.
fn mismatch() -> (failure: Failure)
    ensures
        failure@ == (FailureView::ParseFailure { detail: expected_shapes() }),
{
    Failure::ParseFailure { detail: "expected either single string or sequence of strings".to_owned() }
}

} // verus!
