//! `test`: demonstrations of what the display can do.

pub mod anim;
pub mod graphics;

use vstd::prelude::*;
use vstd::string::StringExecFns;
use crate::text::{same_text, views_of};
use super::{only, Effect, ShellAction, effects_of};

verus! {

/// The name by which a line calls the command.
pub const CMD: &'static str = "test";

/// How the command is called.
pub const USAGE: &'static str = "test [test]";

/// What the command does, in a line.
pub const DES: &'static str = "tests some features like: VGA graphics mode";

/// What `test` asks for: the demonstration that its first argument names,
/// nothing for a name that it does not know, and its usage without one.
pub open spec fn effects(args: Seq<Seq<char>>) -> Seq<Effect> {
    if args.len() == 0 {
        seq![Effect::Print("Usage: "@ + USAGE@)]
    } else if args[0] == "anim"@ {
        seq![Effect::PlayAnimation]
    } else if args[0] == "graphics"@ {
        seq![Effect::PlayGraphics]
    } else {
        Seq::empty()
    }
}

/// Runs `test`.
pub fn main(args: &[&str]) -> (actions: Vec<ShellAction>)
    ensures
        effects_of(actions@) == effects(views_of(args@)),
{
    if args.len() == 0 {
        only(ShellAction::Print(String::from_str("Usage: ").concat(USAGE)))
    } else if same_text(args[0], "anim") {
        only(ShellAction::PlayAnimation)
    } else if same_text(args[0], "graphics") {
        only(ShellAction::PlayGraphics)
    } else {
        let actions: Vec<ShellAction> = Vec::new();
        proof {
            assert(effects_of(actions@) =~= Seq::<Effect>::empty());
        }
        actions
    }
}

} // verus!
