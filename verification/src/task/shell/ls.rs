//! `ls`: the names in a directory.

use vstd::prelude::*;
use vstd::string::StringExecFns;
use crate::fs::tree::{names_of, Tree};
use crate::fs::{list_in, Filesystem};
use crate::text::views_of;
use super::{absolute, absolute_path};

verus! {

/// The name by which a line calls the command.
pub const CMD: &'static str = "ls";

/// How the command is called.
pub const USAGE: &'static str = "ls [path]";

/// What the command does, in a line.
pub const DES: &'static str = "Lists directory contents";

/// `names`, each on a line of its own.
pub open spec fn lines(names: Seq<Seq<char>>) -> Seq<char>
    decreases names.len(),
{
    if names.len() == 0 {
        Seq::empty()
    } else {
        lines(names.drop_last()) + "\n"@ + names.last()
    }
}

/// What `ls` writes: the names in the directory that its first argument
/// names, or in the working directory without one, in their order; a word
/// in their place where there are none; or why the directory cannot be
/// listed.
pub open spec fn output(fs: Option<Tree>, pwd: Seq<char>, args: Seq<Seq<char>>) -> Seq<char> {
    let path = if args.len() == 0 {
        pwd
    } else {
        args[0]
    };
    let full_path = absolute(pwd, path);
    match list_in(fs, full_path) {
        Ok(names) => if names.len() == 0 {
            "\n(empty directory)"@
        } else {
            lines(names)
        },
        Err(failure) => "\nError listing '"@ + full_path + "': "@ + failure.message(),
    }
}

/// Runs `ls`.
pub fn main(fs: &Filesystem, pwd: &str, args: &[&str]) -> (text: String)
    ensures
        text@ == output(fs@, pwd@, views_of(args@)),
{
    let path = if args.len() == 0 {
        pwd
    } else {
        args[0]
    };
    let full_path = absolute_path(pwd, path);
    match crate::fs::list_dir(fs, full_path.as_str()) {
        Ok(contents) => {
            if contents.len() == 0 {
                String::from_str("\n(empty directory)")
            } else {
                let mut text = String::new();
                let mut i: usize = 0;
                while i < contents.len()
                    invariant
                        i <= contents@.len(),
                        text@ == lines(names_of(contents@).take(i as int)),
                    decreases contents@.len() - i,
                {
                    proof {
                        let all = names_of(contents@);
                        assert(all.take(i + 1).drop_last() =~= all.take(i as int));
                        assert(all.take(i + 1).last() == contents@[i as int]@);
                    }
                    text.append("\n");
                    text.append(contents[i].as_str());
                    i = i + 1;
                }
                proof {
                    assert(names_of(contents@).take(contents@.len() as int) =~= names_of(
                        contents@,
                    ));
                }
                text
            }
        },
        Err(error) => String::from_str("\nError listing '").concat(full_path.as_str()).concat(
            "': ",
        ).concat(error.message().as_str()),
    }
}

} // verus!
