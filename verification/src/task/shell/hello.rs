//! `hello`: a greeting, to see that the shell works.

use vstd::prelude::*;
use vstd::string::StringExecFns;
use crate::text::views_of;

verus! {

/// The name by which a line calls the command.
pub const CMD: &'static str = "hello";

/// How the command is called.
pub const USAGE: &'static str = "hello [name]";

/// What the command does, in a line.
pub const DES: &'static str = "displays a hello message for testing";

/// What `hello` writes: a greeting, to the first argument if there is one.
pub open spec fn output(args: Seq<Seq<char>>) -> Seq<char> {
    if args.len() == 0 {
        "\nHi :)\n"@
    } else {
        "\nHi "@ + args[0] + " :)\n"@
    }
}

/// Runs `hello`.
pub fn main(args: &[&str]) -> (text: String)
    ensures
        text@ == output(views_of(args@)),
{
    if args.len() == 0 {
        String::from_str("\nHi :)\n")
    } else {
        String::from_str("\nHi ").concat(args[0]).concat(" :)\n")
    }
}

} // verus!
