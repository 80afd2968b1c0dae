//! `clear`: an empty screen.

use vstd::prelude::*;
use super::ShellAction;

verus! {

/// The name by which a line calls the command.
pub const CMD: &'static str = "clear";

/// How the command is called.
pub const USAGE: &'static str = "clear";

/// What the command does, in a line.
pub const DES: &'static str = "Clears the shell";

/// Runs `clear`: the screen is to be cleared, whatever the arguments.
pub fn main(_args: &[&str]) -> (action: ShellAction)
    ensures
        action == ShellAction::ClearScreen,
{
    ShellAction::ClearScreen
}

} // verus!
