//! The command line: from the arguments of an invocation to what is to be
//! searched, for what, and how.
//!
//! The last one or two arguments choose the mode. The first argument is the
//! program's own name, the second the pattern, and what follows names the
//! files or the directory to search.

use crate::options::SearchOptions;
use crate::text::{ends_with, has_suffix, same_text};
use vstd::prelude::*;

verus! {

/// How far a search reaches from a path.
#[derive(Clone, Copy, Debug, PartialEq, Eq, Structural)]
pub enum Reach {
    /// The path names one file.
    File,
    /// Every file directly inside the directory, and no deeper.
    Directory,
    /// Every file below the directory, at any depth.
    Tree,
}

/// One thing to search.
#[derive(Debug, PartialEq, Eq)]
pub struct Target {
    pub path: String,
    pub reach: Reach,
}

/// A target as the contracts see it.
pub ghost struct TargetView {
    pub path: Seq<char>,
    pub reach: Reach,
}

impl View for Target {
    type V = TargetView;

    open spec fn view(&self) -> TargetView {
        TargetView { path: self.path@, reach: self.reach }
    }
}

/// What an invocation asks for.
#[derive(Debug, PartialEq, Eq)]
pub enum Command {
    /// Print the usage text and do nothing else.
    Help,
    /// Search the targets, in order, for the pattern.
    Search { options: SearchOptions, pattern: String, targets: Vec<Target> },
}

/// A command as the contracts see it.
pub ghost enum CommandView {
    Help,
    Search { options: SearchOptions, pattern: Seq<char>, targets: Seq<TargetView> },
}

impl View for Command {
    type V = CommandView;

    open spec fn view(&self) -> CommandView {
        match self {
            Command::Help => CommandView::Help,
            Command::Search { options, pattern, targets } => CommandView::Search {
                options: *options,
                pattern: pattern@,
                targets: targets@.map_values(|t: Target| t@),
            },
        }
    }
}

/// Why an argument list names no command.
#[derive(Clone, Copy, Debug, PartialEq, Eq, Structural)]
pub enum UsageError {
    /// The pattern, or the path that the mode needs, is not there.
    MissingArguments,
}

/// The texts of an argument list.
pub open spec fn arg_texts(args: Seq<String>) -> Seq<Seq<char>> {
    args.map_values(|a: String| a@)
}

/// The argument asks for the usage text.
pub open spec fn is_help_flag(arg: Seq<char>) -> bool {
    arg == "-h"@ || arg == "--help"@
}

/// The mode that a closing flag chooses: the options of the search and how
/// far it reaches from the one path it takes. `before` is the argument that
/// stands before the flag.
pub open spec fn flag_mode(flag: Seq<char>, before: Seq<char>) -> Option<(SearchOptions, Reach)> {
    let plain = SearchOptions::plain();
    if flag == "-i"@ {
        Some((SearchOptions { case_insensitive: true, ..plain }, Reach::File))
    } else if flag == "-n"@ {
        Some((SearchOptions { show_line_number: true, ..plain }, Reach::File))
    } else if flag == "-v"@ {
        Some((SearchOptions { invert: true, ..plain }, Reach::File))
    } else if flag == "-r"@ {
        Some((plain, Reach::Tree))
    } else if flag == "-f"@ {
        Some(
            (
                SearchOptions { show_filename: true, highlight: before == "-c"@, ..plain },
                Reach::Tree,
            ),
        )
    } else {
        None
    }
}

/// The target that a path of the plain mode names: the directory before a
/// closing `/*`, searched one level deep, or else the path as one file.
pub open spec fn listed_target(path: Seq<char>) -> TargetView {
    if ends_with(path, "/*"@) {
        TargetView { path: path.take(path.len() - 2), reach: Reach::Directory }
    } else {
        TargetView { path, reach: Reach::File }
    }
}

/// What an argument list asks for.
///
/// A closing `-h` or `--help` asks for the usage text, whatever stands before
/// it. A closing `-i`, `-n`, `-v`, `-r` or `-f` chooses a mode with one path:
/// the third argument. Any other list is the plain mode: every argument after
/// the pattern is a path of its own.
pub open spec fn resolved(args: Seq<Seq<char>>) -> Result<CommandView, UsageError> {
    if args.len() == 0 {
        Err(UsageError::MissingArguments)
    } else if is_help_flag(args.last()) {
        Ok(CommandView::Help)
    } else if args.len() < 2 {
        Err(UsageError::MissingArguments)
    } else {
        match flag_mode(args.last(), args[args.len() - 2]) {
            Some((options, reach)) => if args.len() < 3 {
                Err(UsageError::MissingArguments)
            } else {
                Ok(
                    CommandView::Search {
                        options,
                        pattern: args[1],
                        targets: seq![TargetView { path: args[2], reach }],
                    },
                )
            },
            None => Ok(
                CommandView::Search {
                    options: SearchOptions::plain(),
                    pattern: args[1],
                    targets: Seq::new(
                        (args.len() - 2) as nat,
                        |i: int| listed_target(args[i + 2]),
                    ),
                },
            ),
        }
    }
}

/// The view of what `resolve` returns.
pub open spec fn outcome_view(outcome: Result<Command, UsageError>) -> Result<
    CommandView,
    UsageError,
> {
    match outcome {
        Ok(command) => Ok(command@),
        Err(error) => Err(error),
    }
}

/// Reads the mode that a closing flag chooses.
pub fn read_flag(flag: &str, before: &str) -> (mode: Option<(SearchOptions, Reach)>)
    ensures
        mode == flag_mode(flag@, before@),
{
    let plain = SearchOptions::default();
    if same_text(flag, "-i") {
        Some((SearchOptions { case_insensitive: true, ..plain }, Reach::File))
    } else if same_text(flag, "-n") {
        Some((SearchOptions { show_line_number: true, ..plain }, Reach::File))
    } else if same_text(flag, "-v") {
        Some((SearchOptions { invert: true, ..plain }, Reach::File))
    } else if same_text(flag, "-r") {
        Some((plain, Reach::Tree))
    } else if same_text(flag, "-f") {
        let highlight = same_text(before, "-c");
        Some((SearchOptions { show_filename: true, highlight, ..plain }, Reach::Tree))
    } else {
        None
    }
}

/// Reads one path of the plain mode.
pub fn read_target(path: &str) -> (target: Target)
    ensures
        target@ == listed_target(path@),
{
    if has_suffix(path, "/*") {
        proof {
            reveal_strlit("/*");
        }
        let len = path.unicode_len();
        let directory = path.substring_char(0, len - 2);
        Target { path: String::from_str(directory), reach: Reach::Directory }
    } else {
        Target { path: String::from_str(path), reach: Reach::File }
    }
}

/// Reads an argument list, the program's own name first.
pub fn resolve(args: &Vec<String>) -> (outcome: Result<Command, UsageError>)
    ensures
        outcome_view(outcome) == resolved(arg_texts(args@)),
{
    let ghost texts = arg_texts(args@);
    let count = args.len();
    if count == 0 {
        return Err(UsageError::MissingArguments);
    }
    let last = args[count - 1].as_str();
    assert(last@ == texts.last());
    if same_text(last, "-h") || same_text(last, "--help") {
        return Ok(Command::Help);
    }
    if count < 2 {
        return Err(UsageError::MissingArguments);
    }
    assert(args@[1]@ == texts[1]);
    assert(args@[count - 2]@ == texts[count - 2]);
    match read_flag(last, args[count - 2].as_str()) {
        Some((options, reach)) => {
            if count < 3 {
                return Err(UsageError::MissingArguments);
            }
            assert(args@[2]@ == texts[2]);
            let mut targets: Vec<Target> = Vec::new();
            targets.push(Target { path: args[2].clone(), reach });
            let command = Command::Search { options, pattern: args[1].clone(), targets };
            assert(targets@.map_values(|t: Target| t@) =~= seq![
                TargetView { path: texts[2], reach },
            ]);
            Ok(command)
        },
        None => {
            let mut targets: Vec<Target> = Vec::new();
            let mut at: usize = 2;
            while at < count
                invariant
                    2 <= at <= count,
                    count == args.len(),
                    texts == arg_texts(args@),
                    targets.len() == at - 2,
                    forall|i: int|
                        0 <= i < targets.len() ==> (#[trigger] targets@[i])@ == listed_target(
                            texts[i + 2],
                        ),
                decreases count - at,
            {
                assert(args@[at as int]@ == texts[at as int]);
                targets.push(read_target(args[at].as_str()));
                at += 1;
            }
            assert(targets@.map_values(|t: Target| t@) =~= Seq::new(
                (texts.len() - 2) as nat,
                |i: int| listed_target(texts[i + 2]),
            ));
            Ok(
                Command::Search {
                    options: SearchOptions::default(),
                    pattern: args[1].clone(),
                    targets,
                },
            )
        },
    }
}

} // verus!
