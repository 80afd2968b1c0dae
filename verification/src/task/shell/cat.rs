//! `cat`: the content of a file, as text.

use vstd::prelude::*;
use vstd::string::StringExecFns;
use vstd::utf8::{decode_utf8, valid_utf8};
use crate::fs::tree::Tree;
use crate::fs::{read_in, Filesystem};
use crate::text::{starts_with_char, string_from_utf8, utf8_error_text, views_of};

verus! {

/// The name by which a line calls the command.
pub const CMD: &'static str = "cat";

/// How the command is called.
pub const USAGE: &'static str = "cat (path)";

/// What the command does, in a line.
pub const DES: &'static str = "displays the content of a file";

/// The text of the file at `path`, or in words why there is none: the
/// file cannot be read, or its bytes are no UTF-8.
pub open spec fn file_text(fs: Option<Tree>, path: Seq<char>) -> Result<Seq<char>, Seq<char>> {
    match read_in(fs, path) {
        Ok(data) => if valid_utf8(data) {
            Ok(decode_utf8(data))
        } else {
            Err("Invalid UTF-8: "@ + utf8_error_text(data))
        },
        Err(failure) => Err(failure.message()),
    }
}

/// The path that `cat` reads for `arg`: `arg` itself where it begins at the
/// root, else `arg` below the working directory.
pub open spec fn target(pwd: Seq<char>, arg: Seq<char>) -> Seq<char> {
    if arg.len() > 0 && arg[0] == '/' {
        arg
    } else {
        pwd + "/"@ + arg
    }
}

/// What `cat` writes: the text of the one file that it is given, or why it
/// has none, or its usage where it is not given one path.
pub open spec fn output(fs: Option<Tree>, pwd: Seq<char>, args: Seq<Seq<char>>) -> Seq<char> {
    if args.len() != 1 {
        "\nUSAGE: cat (path)"@
    } else {
        match file_text(fs, target(pwd, args[0])) {
            Ok(content) => "\n"@ + content,
            Err(reason) => "\ncat: "@ + reason,
        }
    }
}

/// Reads the file at `path` as text.
pub fn read_file(fs: &Filesystem, path: &str) -> (text: Result<String, String>)
    ensures
        match file_text(fs@, path@) {
            Ok(content) => text is Ok && text->Ok_0@ == content,
            Err(reason) => text is Err && text->Err_0@ == reason,
        },
{
    match crate::fs::read(fs, path) {
        Ok(data) => match string_from_utf8(data) {
            Ok(content) => Ok(content),
            Err(reason) => Err(String::from_str("Invalid UTF-8: ").concat(reason.as_str())),
        },
        Err(error) => Err(error.message()),
    }
}

/// Runs `cat`. An argument must not be empty.
pub fn main(fs: &Filesystem, pwd: &str, args: &[&str]) -> (text: String)
    requires
        args@.len() == 1 ==> args@[0]@.len() > 0,
    ensures
        text@ == output(fs@, pwd@, views_of(args@)),
{
    if args.len() == 0 || args.len() > 1 {
        String::from_str("\nUSAGE: cat (path)")
    } else {
        let path = if starts_with_char(args[0], '/') {
            String::from_str(args[0])
        } else {
            String::from_str(pwd).concat("/").concat(args[0])
        };
        match read_file(fs, path.as_str()) {
            Ok(content) => String::from_str("\n").concat(content.as_str()),
            Err(reason) => String::from_str("\ncat: ").concat(reason.as_str()),
        }
    }
}

} // verus!
