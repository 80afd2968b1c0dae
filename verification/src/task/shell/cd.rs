//! `cd`: another working directory.
//!
//! The filesystem takes `.` and `..` for names like any other; what they
//! mean is worked out here, before the filesystem is asked.

use vstd::prelude::*;
use vstd::slice::slice_subrange;
use vstd::string::{StringExecFns, StrSliceExecFns};
use crate::fs::path::{path_segments, split_path};
use crate::fs::tree::Tree;
use crate::fs::{list_in, Filesystem};
use crate::text::{
    chars_of, join, joined, same_text, starts_with_char, trim_leading, views_of,
    without_leading,
};

verus! {

/// The name by which a line calls the command.
pub const CMD: &'static str = "cd";

/// How the command is called.
pub const USAGE: &'static str = "cd <path>";

/// What the command does, in a line.
pub const DES: &'static str = "Changes the current working directory";

/// The directory that holds `path`: the root for the root and for what
/// lies in the root.
pub open spec fn parent_of(path: Seq<char>) -> Seq<char> {
    let parts = path_segments(path);
    if path == "/"@ || parts.len() <= 1 {
        "/"@
    } else {
        "/"@ + joined(parts.drop_last(), "/"@)
    }
}

/// `parts` without the names `.`, and without each `..` and the name that
/// is left before it, if one is.
pub open spec fn resolved_names(parts: Seq<Seq<char>>) -> Seq<Seq<char>>
    decreases parts.len(),
{
    if parts.len() == 0 {
        Seq::empty()
    } else {
        let before = resolved_names(parts.drop_last());
        if parts.last() == "."@ {
            before
        } else if parts.last() == ".."@ {
            if before.len() > 0 {
                before.drop_last()
            } else {
                before
            }
        } else {
            before.push(parts.last())
        }
    }
}

/// `path` in its plain form: from the root, one separator between names,
/// no `.` and no `..`.
pub open spec fn normal_form(path: Seq<char>) -> Seq<char> {
    let names = resolved_names(path_segments(path));
    if path == "/"@ || names.len() == 0 {
        "/"@
    } else {
        "/"@ + joined(names, "/"@)
    }
}

/// Whether `path` begins with two dots.
pub open spec fn begins_with_dots(path: Seq<char>) -> bool {
    path.len() >= 2 && path[0] == '.' && path[1] == '.'
}

/// The path that `path` stands for in the working directory `pwd`.
pub open spec fn resolved(pwd: Seq<char>, path: Seq<char>) -> Seq<char> {
    if path.len() > 0 && path[0] == '/' {
        path
    } else if path == "."@ {
        pwd
    } else if path == ".."@ {
        parent_of(pwd)
    } else if begins_with_dots(path) {
        let remaining = without_leading(path.skip(2), '/');
        if remaining.len() == 0 {
            parent_of(pwd)
        } else {
            parent_of(pwd) + "/"@ + remaining
        }
    } else if pwd == "/"@ {
        "/"@ + path
    } else {
        pwd + "/"@ + path
    }
}

/// The directory that `cd` is asked for: the root without an argument.
pub open spec fn target(args: Seq<Seq<char>>) -> Seq<char> {
    if args.len() == 0 {
        "/"@
    } else {
        args[0]
    }
}

/// The working directory after `cd`: the target in its plain form where
/// the target is a directory, the old one where it is not.
pub open spec fn pwd_after(fs: Option<Tree>, pwd: Seq<char>, args: Seq<Seq<char>>) -> Seq<char> {
    let path = resolved(pwd, target(args));
    if list_in(fs, path) is Ok {
        normal_form(path)
    } else {
        pwd
    }
}

/// What `cd` writes: nothing where it changed the directory.
pub open spec fn output(fs: Option<Tree>, pwd: Seq<char>, args: Seq<Seq<char>>) -> Seq<char> {
    if list_in(fs, resolved(pwd, target(args))) is Ok {
        Seq::empty()
    } else {
        "cd: "@ + target(args) + ": No such directory\n"@
    }
}

/// The directory that holds `path`.
pub fn get_parent_dir(path: &str) -> (parent: String)
    ensures
        parent@ == parent_of(path@),
{
    if same_text(path, "/") {
        return String::from_str("/");
    }
    let parts = split_path(path);
    if parts.len() == 0 {
        return String::from_str("/");
    }
    if parts.len() == 1 {
        return String::from_str("/");
    }
    let before = slice_subrange(parts.as_slice(), 0, parts.len() - 1);
    proof {
        assert(views_of(before@) =~= path_segments(path@).drop_last());
    }
    String::from_str("/").concat(join(before, "/").as_str())
}

/// Brings `path` into its plain form.
pub fn normalize_path(path: &str) -> (normal: String)
    ensures
        normal@ == normal_form(path@),
{
    if same_text(path, "/") {
        return String::from_str("/");
    }
    let parts = split_path(path);
    let mut normalized: Vec<&str> = Vec::new();
    let mut i: usize = 0;
    proof {
        assert(views_of(parts@).take(0) =~= Seq::<Seq<char>>::empty());
        assert(views_of(normalized@) =~= Seq::<Seq<char>>::empty());
    }
    while i < parts.len()
        invariant
            i <= parts@.len(),
            views_of(normalized@) == resolved_names(views_of(parts@).take(i as int)),
        decreases parts@.len() - i,
    {
        let part = parts[i];
        proof {
            let all = views_of(parts@);
            assert(all.take(i + 1).drop_last() =~= all.take(i as int));
            assert(all.take(i + 1).last() == part@);
        }
        let ghost before = normalized@;
        if same_text(part, ".") {
        } else if same_text(part, "..") {
            normalized.pop();
            proof {
                if before.len() > 0 {
                    assert(views_of(normalized@) =~= views_of(before).drop_last());
                }
            }
        } else {
            normalized.push(part);
            proof {
                assert(views_of(normalized@) =~= views_of(before).push(part@));
            }
        }
        i = i + 1;
    }
    proof {
        assert(views_of(parts@).take(parts@.len() as int) =~= views_of(parts@));
    }
    if normalized.len() == 0 {
        String::from_str("/")
    } else {
        String::from_str("/").concat(join(normalized.as_slice(), "/").as_str())
    }
}

/// The path that `path` stands for in the working directory `pwd`.
pub fn resolve_path(pwd: &str, path: &str) -> (full: String)
    ensures
        full@ == resolved(pwd@, path@),
{
    if starts_with_char(path, '/') {
        String::from_str(path)
    } else if same_text(path, ".") {
        String::from_str(pwd)
    } else if same_text(path, "..") {
        get_parent_dir(pwd)
    } else {
        let chars = chars_of(path);
        if chars.len() >= 2 && chars[0] == '.' && chars[1] == '.' {
            proof {
                assert(path@.subrange(2, path@.len() as int) =~= path@.skip(2));
            }
            let remaining = trim_leading(path.substring_char(2, chars.len()), '/');
            let parent = get_parent_dir(pwd);
            if remaining.is_empty() {
                parent
            } else {
                parent.concat("/").concat(remaining)
            }
        } else if same_text(pwd, "/") {
            String::from_str("/").concat(path)
        } else {
            String::from_str(pwd).concat("/").concat(path)
        }
    }
}

/// Runs `cd`: the working directory becomes the directory that the first
/// argument names, or the root without one. Where that is no directory
/// the working directory stays, and the text returned says so.
pub fn main(fs: &Filesystem, pwd: &mut String, args: &[&str]) -> (text: String)
    ensures
        final(pwd)@ == pwd_after(fs@, old(pwd)@, views_of(args@)),
        text@ == output(fs@, old(pwd)@, views_of(args@)),
{
    let target = if args.len() == 0 {
        "/"
    } else {
        args[0]
    };
    let target_path = resolve_path(pwd.as_str(), target);
    match crate::fs::list_dir(fs, target_path.as_str()) {
        Ok(_) => {
            *pwd = normalize_path(target_path.as_str());
            String::new()
        },
        Err(_) => String::from_str("cd: ").concat(target).concat(": No such directory\n"),
    }
}

} // verus!
