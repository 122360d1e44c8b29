//! What the command line asks for.

use vstd::prelude::*;

use crate::engine::{Depth, ExecOptions};
use crate::leaf::Operation;
use crate::listing::PrintStyle;
use crate::steps::texts;

verus! {

/// What one invocation asks for.
#[derive(Debug)]
pub enum Options {
    /// Run an operation.
    Exec(Operation, ExecOptions),
    /// List the task files of the tree.
    Leaves(PrintStyle),
    /// List the operations that the task files of the tree offer.
    List(PrintStyle),
    /// Write a new task file for a language, where one is named.
    Seed(Option<String>),
    /// Print the help text.
    Help,
    /// Print the version.
    Version,
}

/// An `Options` with its texts as sequences of characters.
pub enum OptionsView {
    Exec(Seq<char>, ExecOptions),
    Leaves(PrintStyle),
    List(PrintStyle),
    Seed(Option<Seq<char>>),
    Help,
    Version,
}

impl View for Options {
    type V = OptionsView;

    open spec fn view(&self) -> OptionsView {
        match *self {
            Options::Exec(operation, options) => OptionsView::Exec(operation@, options),
            Options::Leaves(style) => OptionsView::Leaves(style),
            Options::List(style) => OptionsView::List(style),
            Options::Seed(language) => OptionsView::Seed(
                match language {
                    Some(language) => Some(language@),
                    None => None,
                },
            ),
            Options::Help => OptionsView::Help,
            Options::Version => OptionsView::Version,
        }
    }
}

/// `pico_args::Arguments`, the parser that holds the arguments which have
/// not been taken yet. Nothing is known of what is inside but through
/// `remaining`.
#[verifier::external_type_specification]
#[verifier::external_body]
pub struct ExArguments(pico_args::Arguments);

/// The arguments that a parser still holds, in their order. Every parser
/// of this library is made of texts and holds nothing else.
pub uninterp spec fn remaining(arguments: pico_args::Arguments) -> Seq<Seq<char>>;

/// The arguments without the first one that equals `key`.
pub open spec fn without_first(args: Seq<Seq<char>>, key: Seq<char>) -> Seq<Seq<char>>
    decreases args.len(),
{
    if args.len() == 0 {
        args
    } else if args[0] == key {
        args.skip(1)
    } else {
        seq![args[0]] + without_first(args.skip(1), key)
    }
}

/// Looking for a flag: whether it is there, in its short form or else in
/// its long form, and the arguments that are left when its first
/// occurrence is taken out.
pub open spec fn take_flag(args: Seq<Seq<char>>, short: Seq<char>, long: Seq<char>) -> (
    bool,
    Seq<Seq<char>>,
) {
    if args.contains(short) {
        (true, without_first(args, short))
    } else if args.contains(long) {
        (true, without_first(args, long))
    } else {
        (false, args)
    }
}

/// Looking for a subcommand: the first argument, unless there is none or
/// it starts with a dash, and the arguments that are left.
pub open spec fn take_subcommand(args: Seq<Seq<char>>) -> (Option<Seq<char>>, Seq<Seq<char>>) {
    if args.len() == 0 || (args[0].len() > 0 && args[0][0] == '-') {
        (None, args)
    } else {
        (Some(args[0]), args.skip(1))
    }
}

/// Whether a pair of texts can name a flag: a dash and one other
/// character, and two dashes and more.
pub open spec fn flag_keys(short: Seq<char>, long: Seq<char>) -> bool {
    &&& short.len() == 2
    &&& short[0] == '-'
    &&& short[1] != '-'
    &&& long.len() > 2
    &&& long[0] == '-'
    &&& long[1] == '-'
}

/// Makes a parser with `pico_args::Arguments::from_vec`, which keeps the
/// arguments as they are given.
#[verifier::external_body]
fn arguments_of(args: Vec<String>) -> (arguments: pico_args::Arguments)
    ensures
        remaining(arguments) == texts(args@),
{
    pico_args::Arguments::from_vec(args.into_iter().map(Into::into).collect())
}

/// Calls `pico_args::Arguments::contains` with a short and a long key. It
/// looks for the short key among all arguments, then for the long one,
/// takes the first occurrence of the one it finds out of the parser, and
/// says whether it found any.
#[verifier::external_body]
fn contains_flag(
    arguments: &mut pico_args::Arguments,
    short: &'static str,
    long: &'static str,
) -> (found: bool)
    requires
        flag_keys(short@, long@),
    ensures
        (found, remaining(*final(arguments))) == take_flag(
            remaining(*old(arguments)),
            short@,
            long@,
        ),
{
    arguments.contains([short, long])
}

/// Calls `pico_args::Arguments::subcommand`. It takes the first argument
/// out of the parser and gives it back, unless there is none or it starts
/// with a dash; then the parser stays as it is. Its only error is for an
/// argument that is no text, which a parser made by `arguments_of` never
/// holds; it would come back as nothing.
#[verifier::external_body]
fn subcommand(arguments: &mut pico_args::Arguments) -> (name: Option<String>)
    ensures
        match name {
            Some(name) => take_subcommand(remaining(*old(arguments))) == (
                Some(name@),
                remaining(*final(arguments)),
            ),
            None => take_subcommand(remaining(*old(arguments))) == (
                None::<Seq<char>>,
                remaining(*final(arguments)),
            ),
        },
{
    arguments.subcommand().ok().flatten()
}

/// The style that the arguments after `leaves` or `list` ask for.
pub open spec fn style_of(args: Seq<Seq<char>>) -> PrintStyle {
    if take_flag(args, "-p"@, "--porcelain"@).0 {
        PrintStyle::Porcelain
    } else {
        PrintStyle::Pretty
    }
}

/// The way of running that the arguments after an operation ask for: the
/// word `here` right after it for the current directory only, and the flag
/// for quiet among what follows.
pub open spec fn opts_of(args: Seq<Seq<char>>) -> ExecOptions {
    let (word, rest) = take_subcommand(args);
    ExecOptions {
        depth: if word == Some("here"@) {
            Depth::Here
        } else {
            Depth::Recursive
        },
        quiet: take_flag(rest, "-q"@, "--quiet"@).0,
    }
}

/// What the arguments of an invocation, without the program's name, ask
/// for. The flag for the version wins wherever it stands. Else the first
/// argument decides: `help`, `leaves`, `list` and `seed` are commands, and
/// every other word is an operation to run. Without a first word, or with
/// a flag in its place, the help is asked for.
pub open spec fn parsed(args: Seq<Seq<char>>) -> OptionsView {
    let (version, rest) = take_flag(args, "-v"@, "--version"@);
    if version {
        OptionsView::Version
    } else {
        match take_subcommand(rest) {
            (None, _) => OptionsView::Help,
            (Some(command), rest) => if command == "help"@ {
                OptionsView::Help
            } else if command == "leaves"@ {
                OptionsView::Leaves(style_of(rest))
            } else if command == "seed"@ {
                OptionsView::Seed(take_subcommand(rest).0)
            } else if command == "list"@ {
                OptionsView::List(style_of(rest))
            } else {
                OptionsView::Exec(command, opts_of(rest))
            },
        }
    }
}

fn is_word(text: &String, word: &str) -> (same: bool)
    ensures
        same == (text@ == word@),
{
    *text == word.to_owned()
}

fn opts(arguments: pico_args::Arguments) -> (options: ExecOptions)
    ensures
        options == opts_of(remaining(arguments)),
{
    let mut arguments = arguments;
    let depth = match subcommand(&mut arguments) {
        Some(word) => if is_word(&word, "here") {
            Depth::Here
        } else {
            Depth::Recursive
        },
        None => Depth::Recursive,
    };
    proof {
        reveal_strlit("-q");
        reveal_strlit("--quiet");
    }
    let quiet = contains_flag(&mut arguments, "-q", "--quiet");
    ExecOptions { depth, quiet }
}

fn style(arguments: pico_args::Arguments) -> (style: PrintStyle)
    ensures
        style == style_of(remaining(arguments)),
{
    let mut arguments = arguments;
    proof {
        reveal_strlit("-p");
        reveal_strlit("--porcelain");
    }
    if contains_flag(&mut arguments, "-p", "--porcelain") {
        PrintStyle::Porcelain
    } else {
        PrintStyle::Pretty
    }
}

/// Reads what the arguments of an invocation, without the program's name,
/// ask for.
pub fn parse(args: Vec<String>) -> (options: Options)
    ensures
        options@ == parsed(texts(args@)),
{
    let mut arguments = arguments_of(args);
    proof {
        reveal_strlit("-v");
        reveal_strlit("--version");
    }
    if contains_flag(&mut arguments, "-v", "--version") {
        return Options::Version;
    }
    match subcommand(&mut arguments) {
        Some(command) => {
            if is_word(&command, "help") {
                Options::Help
            } else if is_word(&command, "leaves") {
                Options::Leaves(style(arguments))
            } else if is_word(&command, "seed") {
                Options::Seed(subcommand(&mut arguments))
            } else if is_word(&command, "list") {
                Options::List(style(arguments))
            } else {
                Options::Exec(Operation(command), opts(arguments))
            }
        },
        None => Options::Help,
    }
}

} // verus!
