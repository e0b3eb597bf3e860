//! What an invocation asks for: the usage text, the lookup of some names, or
//! nothing that can be served.

use vstd::prelude::*;
use vstd::string::*;

use crate::names::texts;

verus! {

/// How the program is called.
pub const USAGE: &'static str = "getver [options] crate...";

/// An argument that begins with `-` is an option, not a name.
pub open spec fn is_option(arg: Seq<char>) -> bool {
    arg.len() > 0 && arg[0] == '-'
}

/// The two spellings of the option that asks for the usage text.
pub open spec fn is_help(arg: Seq<char>) -> bool {
    arg == seq!['-', 'h'] || arg == seq!['-', '-', 'h', 'e', 'l', 'p']
}

/// `args[at]` is an option and no argument before it is one.
pub open spec fn is_first_option(args: Seq<Seq<char>>, at: int) -> bool {
    &&& 0 <= at < args.len()
    &&& is_option(args[at])
    &&& forall|j: int| 0 <= j < at ==> !is_option(#[trigger] args[j])
}

/// What the arguments after the program's name ask for.
#[derive(Debug, Clone, PartialEq, Eq)]
pub enum Invocation {
    /// The usage text was asked for.
    Help,
    /// An option that the program does not know.
    Unexpected(String),
    /// The latest versions of these names, repeats included.
    Lookup(Vec<String>),
}

impl Invocation {
    /// The status with which the process ends once the invocation is served:
    /// zero unless an unknown option was given.
    pub open spec fn spec_exit_code(&self) -> i32 {
        match self {
            Invocation::Unexpected(_) => 1,
            _ => 0,
        }
    }

    /// The status with which the process ends once the invocation is served.
    pub fn exit_code(&self) -> (code: i32)
        ensures
            code == self.spec_exit_code(),
    {
        match self {
            Invocation::Unexpected(_) => 1,
            _ => 0,
        }
    }
}

/// Whether `arg` begins with `-`.
pub fn starts_with_dash(arg: &str) -> (dash: bool)
    ensures
        dash == is_option(arg@),
{
    !arg.is_empty() && arg.get_char(0) == '-'
}

/// Whether `arg` is `-h` or `--help`.
pub fn is_help_flag(arg: &str) -> (help: bool)
    ensures
        help == is_help(arg@),
{
    let n: usize = arg.unicode_len();
    if n == 2 {
        let help = arg.get_char(0) == '-' && arg.get_char(1) == 'h';
        assert(help == (arg@ =~= seq!['-', 'h']));
        help
    } else if n == 6 {
        let help = arg.get_char(0) == '-' && arg.get_char(1) == '-' && arg.get_char(2) == 'h'
            && arg.get_char(3) == 'e' && arg.get_char(4) == 'l' && arg.get_char(5) == 'p';
        assert(help == (arg@ =~= seq!['-', '-', 'h', 'e', 'l', 'p']));
        help
    } else {
        false
    }
}

/// Reads the arguments that follow the program's name. The first option among
/// them decides: a help option asks for the usage text, any other option is
/// unexpected. Without an option every argument is a name to look up.
pub fn parse_arguments(args: Vec<String>) -> (invocation: Invocation)
    ensures
        match invocation {
            Invocation::Help => exists|at: int|
                is_first_option(texts(args@), at) && is_help(#[trigger] texts(args@)[at]),
            Invocation::Unexpected(arg) => exists|at: int|
                is_first_option(texts(args@), at) && !is_help(#[trigger] texts(args@)[at])
                    && arg@ == texts(args@)[at],
            Invocation::Lookup(names) => names == args && forall|j: int|
                0 <= j < args.len() ==> !is_option(#[trigger] texts(args@)[j]),
        },
{
    let mut at: usize = 0;
    while at < args.len()
        invariant
            at <= args.len(),
            forall|j: int| 0 <= j < at ==> !is_option(#[trigger] texts(args@)[j]),
        decreases args.len() - at,
    {
        let arg = &args[at];
        if starts_with_dash(arg.as_str()) {
            assert(is_first_option(texts(args@), at as int));
            if is_help_flag(arg.as_str()) {
                return Invocation::Help;
            }
            return Invocation::Unexpected(arg.clone());
        }
        at += 1;
    }
    Invocation::Lookup(args)
}

} // verus!
