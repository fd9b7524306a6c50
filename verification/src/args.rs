//! The command line: which file holds the payload and which the carrier.
//!
//! Parsing decides and reports; printing a message and ending the program
//! is left to the caller.

use vstd::prelude::*;
use vstd::string::*;

use crate::text::is_literal;

verus! {

/// The paths that the command line names.
#[derive(Clone, Debug, PartialEq, Eq)]
pub struct Options {
    /// Path of the file that holds the payload.
    pub path_to_input: String,
    /// Path of the carrier file.
    pub path_to_medium: String,
}

/// The text of the paths in an `Options` value.
pub struct OptionsView {
    pub path_to_input: Seq<char>,
    pub path_to_medium: Seq<char>,
}

impl View for Options {
    type V = OptionsView;

    open spec fn view(&self) -> OptionsView {
        OptionsView { path_to_input: self.path_to_input@, path_to_medium: self.path_to_medium@ }
    }
}

/// Why a command line gave no options. `index` is the place of the
/// argument at fault, counted from the program's name at 0.
#[derive(Clone, Copy, Debug, PartialEq, Eq, Structural)]
pub enum ArgsError {
    /// Nothing but the program's name was given.
    NoArguments,
    /// `-h` or `--help` was given.
    HelpRequested,
    /// An argument is the empty text.
    EmptyArgument { index: usize },
    /// An argument does not begin with `-` where a flag is expected.
    UnknownArgument { index: usize },
    /// An argument begins with `-` and is none of the known flags.
    UnknownFlag { index: usize },
    /// A flag for the payload's path is the last argument.
    MissingInputPath { index: usize },
    /// A flag for the carrier's path is the last argument.
    MissingMediumPath { index: usize },
}

/// Whether `arg` asks for help.
pub open spec fn is_help_flag(arg: Seq<char>) -> bool {
    arg == "-h"@ || arg == "--help"@
}

/// Whether `arg` announces the payload's path.
pub open spec fn is_input_flag(arg: Seq<char>) -> bool {
    arg == "-i"@ || arg == "--input"@ || arg == "--decode"@
}

/// Whether `arg` announces the carrier's path.
pub open spec fn is_medium_flag(arg: Seq<char>) -> bool {
    arg == "-m"@ || arg == "--medium"@
}

/// The text of each argument.
pub open spec fn arg_texts(args: Seq<String>) -> Seq<Seq<char>> {
    Seq::new(args.len(), |i: int| args[i]@)
}

/// What the arguments from place `i` on make of the paths `so_far`.
///
/// Arguments are read in order. Each has to be a flag; a flag for a path
/// takes the next argument as that path and appends it to what was given
/// for that path before. The first argument at fault ends the reading.
pub open spec fn parse_from(args: Seq<Seq<char>>, i: int, so_far: OptionsView) -> Result<
    OptionsView,
    ArgsError,
>
    decreases args.len() - i,
{
    if i < 0 || i >= args.len() {
        Ok(so_far)
    } else if args[i].len() == 0 {
        Err(ArgsError::EmptyArgument { index: i as usize })
    } else if args[i][0] != '-' {
        Err(ArgsError::UnknownArgument { index: i as usize })
    } else if is_help_flag(args[i]) {
        Err(ArgsError::HelpRequested)
    } else if is_input_flag(args[i]) {
        if i + 1 >= args.len() {
            Err(ArgsError::MissingInputPath { index: i as usize })
        } else {
            parse_from(
                args,
                i + 2,
                OptionsView { path_to_input: so_far.path_to_input + args[i + 1], ..so_far },
            )
        }
    } else if is_medium_flag(args[i]) {
        if i + 1 >= args.len() {
            Err(ArgsError::MissingMediumPath { index: i as usize })
        } else {
            parse_from(
                args,
                i + 2,
                OptionsView { path_to_medium: so_far.path_to_medium + args[i + 1], ..so_far },
            )
        }
    } else {
        Err(ArgsError::UnknownFlag { index: i as usize })
    }
}

/// What a whole command line means. The first argument is the program's
/// name and is passed over; a command line of that name alone is refused.
pub open spec fn parsed(args: Seq<Seq<char>>) -> Result<OptionsView, ArgsError> {
    if args.len() == 1 {
        Err(ArgsError::NoArguments)
    } else {
        parse_from(
            args,
            1,
            OptionsView { path_to_input: Seq::empty(), path_to_medium: Seq::empty() },
        )
    }
}

/// Reads the command line `args`, whose first entry is the program's name.
///
/// Known flags: `-h`, `--help`; `-i`, `--input`, `--decode`, each followed
/// by the payload's path; `-m`, `--medium`, each followed by the carrier's
/// path. A path that no flag names stays empty.
pub fn parse_args(args: Vec<String>) -> (r: Result<Options, ArgsError>)
    ensures
        parsed(arg_texts(args@)) matches Ok(paths) ==> r is Ok && r->Ok_0@ == paths,
        parsed(arg_texts(args@)) matches Err(e) ==> r is Err && r->Err_0 == e,
{
    if args.len() == 1 {
        return Err(ArgsError::NoArguments);
    }
    let ghost texts = arg_texts(args@);
    let mut input = String::new();
    let mut medium = String::new();
    let mut i: usize = 1;
    while i < args.len()
        invariant
            texts == arg_texts(args@),
            parse_from(
                texts,
                i as int,
                OptionsView { path_to_input: input@, path_to_medium: medium@ },
            ) == parsed(texts),
        decreases args.len() - i,
    {
        let arg = &args[i];
        if arg.as_str().is_empty() {
            return Err(ArgsError::EmptyArgument { index: i });
        }
        if arg.as_str().get_char(0) != '-' {
            return Err(ArgsError::UnknownArgument { index: i });
        }
        if is_literal(arg, "-h") || is_literal(arg, "--help") {
            return Err(ArgsError::HelpRequested);
        } else if is_literal(arg, "-i") || is_literal(arg, "--input") || is_literal(
            arg,
            "--decode",
        ) {
            if i + 1 >= args.len() {
                return Err(ArgsError::MissingInputPath { index: i });
            }
            input.append(args[i + 1].as_str());
        } else if is_literal(arg, "-m") || is_literal(arg, "--medium") {
            if i + 1 >= args.len() {
                return Err(ArgsError::MissingMediumPath { index: i });
            }
            medium.append(args[i + 1].as_str());
        } else {
            return Err(ArgsError::UnknownFlag { index: i });
        }
        i += 2;
    }
    Ok(Options { path_to_input: input, path_to_medium: medium })
}

} // verus!
