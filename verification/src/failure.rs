//! The ways in which a run can end without success.

use vstd::prelude::*;

verus! {

/// Why a run ended without success.
#[derive(Debug, Clone, PartialEq, Eq)]
pub enum Failure {
    /// The one file expected in the current directory does not exist.
    NoFileFoundHere,
    /// The walk of the tree selected no file at all.
    NoFilesFoundAnywhere,
    /// The file exists but could not be read.
    Unreadable { cause: String },
    /// The file exists but is not a mapping from operation names to a
    /// command line or a list of command lines.
    ParseFailure { detail: String },
    /// The shell for a command line could not be started.
    CommandSpawnFailure { command: String, cause: String },
    /// The shell ran the command line and it ended with a non-zero status.
    CommandExitFailure { command: String, code: i32 },
    /// The location of a file has no parent directory to run commands in.
    NoParentDirectory,
}

/// A `Failure` with its texts as sequences of characters.
pub enum FailureView {
    NoFileFoundHere,
    NoFilesFoundAnywhere,
    Unreadable { cause: Seq<char> },
    ParseFailure { detail: Seq<char> },
    CommandSpawnFailure { command: Seq<char>, cause: Seq<char> },
    CommandExitFailure { command: Seq<char>, code: i32 },
    NoParentDirectory,
}

impl View for Failure {
    type V = FailureView;

    open spec fn view(&self) -> FailureView {
        match *self {
            Failure::NoFileFoundHere => FailureView::NoFileFoundHere,
            Failure::NoFilesFoundAnywhere => FailureView::NoFilesFoundAnywhere,
            Failure::Unreadable { cause } => FailureView::Unreadable { cause: cause@ },
            Failure::ParseFailure { detail } => FailureView::ParseFailure { detail: detail@ },
            Failure::CommandSpawnFailure { command, cause } => FailureView::CommandSpawnFailure {
                command: command@,
                cause: cause@,
            },
            Failure::CommandExitFailure { command, code } => FailureView::CommandExitFailure {
                command: command@,
                code,
            },
            Failure::NoParentDirectory => FailureView::NoParentDirectory,
        }
    }
}

/// The character of a decimal digit.
pub open spec fn digit(d: int) -> char {
    if d == 0 {
        '0'
    } else if d == 1 {
        '1'
    } else if d == 2 {
        '2'
    } else if d == 3 {
        '3'
    } else if d == 4 {
        '4'
    } else if d == 5 {
        '5'
    } else if d == 6 {
        '6'
    } else if d == 7 {
        '7'
    } else if d == 8 {
        '8'
    } else {
        '9'
    }
}

/// A natural number in decimal digits, without leading zeros.
pub open spec fn digits(n: nat) -> Seq<char>
    decreases n,
{
    if n < 10 {
        seq![digit(n as int)]
    } else {
        digits(n / 10).push(digit((n % 10) as int))
    }
}

/// An integer in decimal digits, with a minus sign where it is negative.
pub open spec fn decimal(n: int) -> Seq<char> {
    if n < 0 {
        seq!['-'] + digits((-n) as nat)
    } else {
        digits(n as nat)
    }
}

/// What is said of a failure in one line.
pub open spec fn message_of(failure: FailureView) -> Seq<char> {
    match failure {
        FailureView::NoFileFoundHere => "Did not find a fern.yaml file in here"@,
        FailureView::NoFilesFoundAnywhere => "Did not find any fern.yaml files"@,
        FailureView::Unreadable { cause } => cause,
        FailureView::ParseFailure { detail } => "There was an error when reading the file"@,
        FailureView::CommandSpawnFailure { command, cause } => "Did not find "@ + command,
        FailureView::CommandExitFailure { command, code } => "Failed to execute command '"@ + command
            + "': exit code "@ + decimal(code as int),
        FailureView::NoParentDirectory => "Unable to get parent directory to run command in"@,
    }
}

/// What lies behind a failure, where more is known than its message says:
/// the reader's or the decoder's words on a file, or the system's on a
/// command line that could not be started.
pub open spec fn cause_of(failure: FailureView) -> Option<Seq<char>> {
    match failure {
        FailureView::ParseFailure { detail } => Some(detail),
        FailureView::CommandSpawnFailure { command, cause } => Some(cause),
        _ => None,
    }
}

fn digit_text(d: u64) -> (text: &'static str)
    requires
        d < 10,
    ensures
        text@ == seq![digit(d as int)],
{
    proof {
        reveal_strlit("0");
        reveal_strlit("1");
        reveal_strlit("2");
        reveal_strlit("3");
        reveal_strlit("4");
        reveal_strlit("5");
        reveal_strlit("6");
        reveal_strlit("7");
        reveal_strlit("8");
        reveal_strlit("9");
    }
    let text = if d == 0 {
        "0"
    } else if d == 1 {
        "1"
    } else if d == 2 {
        "2"
    } else if d == 3 {
        "3"
    } else if d == 4 {
        "4"
    } else if d == 5 {
        "5"
    } else if d == 6 {
        "6"
    } else if d == 7 {
        "7"
    } else if d == 8 {
        "8"
    } else {
        "9"
    };
    assert(text@ =~= seq![digit(d as int)]);
    text
}

fn digits_text(n: u64) -> (text: String)
    ensures
        text@ == digits(n as nat),
    decreases n,
{
    if n < 10 {
        digit_text(n).to_owned()
    } else {
        let text = digits_text(n / 10).concat(digit_text(n % 10));
        assert(text@ =~= digits((n / 10) as nat).push(digit((n % 10) as int)));
        text
    }
}

/// An exit code in decimal digits.
pub fn decimal_text(code: i32) -> (text: String)
    ensures
        text@ == decimal(code as int),
{
    if code < 0 {
        let size: u64 = (-(code as i64)) as u64;
        let text = "-".to_owned().concat(digits_text(size).as_str());
        proof {
            reveal_strlit("-");
            assert(text@ =~= seq!['-'] + digits((-(code as int)) as nat));
        }
        text
    } else {
        digits_text(code as u64)
    }
}

impl Failure {
    /// What is said of the failure in one line.
    pub fn message(&self) -> (text: String)
        ensures
            text@ == message_of(self@),
    {
        match self {
            Failure::NoFileFoundHere => "Did not find a fern.yaml file in here".to_owned(),
            Failure::NoFilesFoundAnywhere => "Did not find any fern.yaml files".to_owned(),
            Failure::Unreadable { cause } => cause.clone(),
            Failure::ParseFailure { detail: _ } => "There was an error when reading the file".to_owned(),
            Failure::CommandSpawnFailure { command, cause: _ } => "Did not find ".to_owned().concat(
                command.as_str(),
            ),
            Failure::CommandExitFailure { command, code } => {
                let start = "Failed to execute command '".to_owned();
                let named = start.concat(command.as_str()).concat("': exit code ");
                named.concat(decimal_text(*code).as_str())
            },
            Failure::NoParentDirectory => {
                "Unable to get parent directory to run command in".to_owned()
            },
        }
    }

    /// What lies behind the failure, where more is known than its message
    /// says.
    pub fn cause(&self) -> (text: Option<String>)
        ensures
            match text {
                Some(text) => cause_of(self@) == Some(text@),
                None => cause_of(self@).is_none(),
            },
    {
        match self {
            Failure::ParseFailure { detail } => Some(detail.clone()),
            Failure::CommandSpawnFailure { command: _, cause } => Some(cause.clone()),
            _ => None,
        }
    }
}

/// The view of a result that carries nothing on success.
pub open spec fn outcome_view(result: Result<(), Failure>) -> Result<(), FailureView> {
    match result {
        Ok(()) => Ok(()),
        Err(failure) => Err(failure@),
    }
}

} // verus!
