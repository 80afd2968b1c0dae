//! `mkdir`: directories, with the directories above them.
//!
//! Every directory along a path is created in turn, and creating puts an
//! empty directory in the place of whatever had the name. So `mkdir` of a
//! path below a directory that is there already empties that directory.

use vstd::prelude::*;
use vstd::string::StringExecFns;
use crate::fs::error::Failure;
use crate::fs::path::{
    is_name, lemma_segments_are_names, lemma_segments_concat, lemma_single_segment,
    path_segments, split_path,
};
use crate::fs::tree::Tree;
use crate::fs::{store_in, Filesystem};
use crate::text::{same_text, starts_with_char, views_of};

verus! {

/// The name by which a line calls the command.
pub const CMD: &'static str = "mkdir";

/// How the command is called.
pub const USAGE: &'static str = "mkdir <path>";

/// What the command does, in a line.
pub const DES: &'static str = "creates one or multiple new directories";

/// The path of `part` in the directory `current`.
pub open spec fn below(current: Seq<char>, part: Seq<char>) -> Seq<char> {
    if current.len() == 0 || current == "/"@ {
        "/"@ + part
    } else {
        current + "/"@ + part
    }
}

/// The filesystem after a directory has been created for each of `parts`,
/// each in the one before and the first in `current`. A directory that
/// cannot be created is passed over.
pub open spec fn made(fs: Option<Tree>, current: Seq<char>, parts: Seq<Seq<char>>) -> Option<Tree>
    decreases parts.len(),
{
    if parts.len() == 0 {
        fs
    } else {
        let next = below(current, parts[0]);
        let after = match store_in(fs, next, Tree::empty()) {
            Ok(changed) => Some(changed),
            Err(_) => fs,
        };
        made(after, next, parts.drop_first())
    }
}

/// Why `mkdir` will not try `path`, if it will not.
pub open spec fn refusal(path: Seq<char>) -> Option<Seq<char>> {
    if path.len() == 0 {
        Some("path cannot be empty"@)
    } else if path_segments(path).len() == 0 {
        Some("invalid path"@)
    } else {
        None
    }
}

/// The filesystem after the directories along `path` have been created,
/// from the root where `path` begins there, else from the working
/// directory.
pub open spec fn tree_after(fs: Option<Tree>, pwd: Seq<char>, path: Seq<char>) -> Option<Tree> {
    if refusal(path) is Some {
        fs
    } else {
        let start = if path[0] == '/' {
            Seq::empty()
        } else {
            pwd
        };
        made(fs, start, path_segments(path))
    }
}

/// What `mkdir` does for `args`, one after the other: the filesystem at the
/// end, and a line for each path that it did not try.
pub open spec fn all_made(fs: Option<Tree>, pwd: Seq<char>, args: Seq<Seq<char>>) -> (
    Option<Tree>,
    Seq<char>,
)
    decreases args.len(),
{
    if args.len() == 0 {
        (fs, Seq::empty())
    } else {
        let line = match refusal(args[0]) {
            Some(reason) => "Error creating '"@ + args[0] + "': "@ + reason + "\n"@,
            None => Seq::empty(),
        };
        let (last, lines) = all_made(tree_after(fs, pwd, args[0]), pwd, args.drop_first());
        (last, line + lines)
    }
}

/// What `mkdir` does: its usage where it is given no path; else as
/// `all_made` says.
pub open spec fn result(fs: Option<Tree>, pwd: Seq<char>, args: Seq<Seq<char>>) -> (
    Option<Tree>,
    Seq<char>,
) {
    if args.len() == 0 {
        (fs, "\nUSAGE: "@ + USAGE@ + "\n"@)
    } else {
        all_made(fs, pwd, args)
    }
}

/// The path of a name in a directory leads through the directory to the
/// name.
proof fn lemma_below_names(current: Seq<char>, part: Seq<char>)
    requires
        is_name(part),
    ensures
        path_segments(below(current, part)) == path_segments(current).push(part),
        path_segments(below(current, part)).len() > 0,
{
    reveal_strlit("/");
    lemma_single_segment(part);
    let empty = Seq::<char>::empty();
    if current.len() == 0 || current == "/"@ {
        lemma_segments_concat(empty, part);
        lemma_segments_concat(empty, empty);
        assert(empty + seq!['/'] + part =~= "/"@ + part);
        assert(empty + seq!['/'] + empty =~= "/"@);
        assert(path_segments(empty) =~= Seq::<Seq<char>>::empty());
        assert(path_segments(current) =~= Seq::<Seq<char>>::empty());
        assert(path_segments(empty) + seq![part] =~= path_segments(current).push(part));
    } else {
        lemma_segments_concat(current, part);
        assert(current + seq!['/'] + part =~= current + "/"@ + part);
        assert(path_segments(current) + seq![part] =~= path_segments(current).push(part));
    }
}

/// Creating directories one in the other, from a directory that is there,
/// leaves the last of them empty, and alone in the one before it.
proof fn lemma_made(tree: Tree, current: Seq<char>, parts: Seq<Seq<char>>)
    requires
        tree is Dir,
        tree.lookup(path_segments(current)) is Ok,
        tree.lookup(path_segments(current))->Ok_0 is Dir,
        parts.len() > 0,
        forall|k: int| 0 <= k < parts.len() ==> is_name(#[trigger] parts[k]),
    ensures
        made(Some(tree), current, parts) is Some,
        made(Some(tree), current, parts)->Some_0.lookup(path_segments(current) + parts) == Ok::<
            Tree,
            Failure,
        >(Tree::empty()),
        parts.len() >= 2 ==> made(Some(tree), current, parts)->Some_0.list(
            path_segments(current) + parts.drop_last(),
        ) == Ok::<Set<Seq<char>>, Failure>(set![parts.last()]),
    decreases parts.len(),
{
    let prefix = path_segments(current);
    let next = below(current, parts[0]);
    let names = prefix.push(parts[0]);
    lemma_below_names(current, parts[0]);
    assert(names.drop_last() =~= prefix);
    tree.lemma_store_needs_parent(names, Tree::empty());
    let first = tree.store(names, Tree::empty())->Ok_0;
    tree.lemma_lookup_after_store(names, Tree::empty());
    tree.lemma_store_keeps_directory(names, Tree::empty());
    if parts.len() == 1 {
        assert(prefix + parts =~= names);
        assert(made(Some(first), next, parts.drop_first()) == Some(first));
    } else {
        let rest = parts.drop_first();
        assert forall|k: int| 0 <= k < rest.len() implies is_name(#[trigger] rest[k]) by {
            assert(rest[k] == parts[k + 1]);
        }
        lemma_made(first, next, rest);
        let last = made(Some(first), next, rest)->Some_0;
        assert(names + rest =~= prefix + parts);
        if rest.len() >= 2 {
            assert(names + rest.drop_last() =~= prefix + parts.drop_last());
            assert(rest.last() == parts.last());
        } else {
            // The directory just made held nothing before the last was
            // put into it.
            let inner = names.push(rest[0]);
            lemma_below_names(next, rest[0]);
            assert(inner.drop_last() =~= names);
            first.lemma_store_needs_parent(inner, Tree::empty());
            let after = first.store(inner, Tree::empty())->Ok_0;
            assert(made(Some(after), below(next, rest[0]), rest.drop_first()) == Some(after));
            first.lemma_stored_is_listed(inner, Tree::empty());
            assert(Set::<Seq<char>>::empty().insert(rest[0]) =~= set![rest[0]]);
            assert(prefix + parts.drop_last() =~= names);
            assert(inner.last() == parts.last());
        }
    }
}

/// After `mkdir` of a path from the root, in a filesystem that is set up,
/// the directory that the path names is there and empty, and the
/// directory above it, if the path names one, holds it and nothing else.
pub proof fn lemma_made_from_root(tree: Tree, pwd: Seq<char>, path: Seq<char>)
    requires
        tree is Dir,
        path.len() > 0,
        path[0] == '/',
        path_segments(path).len() > 0,
    ensures
        tree_after(Some(tree), pwd, path) is Some,
        tree_after(Some(tree), pwd, path)->Some_0.lookup(path_segments(path)) == Ok::<
            Tree,
            Failure,
        >(Tree::empty()),
        path_segments(path).len() >= 2 ==> tree_after(Some(tree), pwd, path)->Some_0.list(
            path_segments(path).drop_last(),
        ) == Ok::<Set<Seq<char>>, Failure>(set![path_segments(path).last()]),
{
    let empty = Seq::<char>::empty();
    let names = path_segments(path);
    lemma_segments_are_names(path);
    assert(path_segments(empty) =~= Seq::<Seq<char>>::empty());
    lemma_made(tree, empty, names);
    assert(path_segments(empty) + names =~= names);
    assert(path_segments(empty) + names.drop_last() =~= names.drop_last());
}

/// Creates the directories along `path`, each in the one before. The path
/// is taken from the working directory `pwd` unless it begins at the root.
/// A directory that cannot be created is passed over in silence.
pub fn create_directory(fs: &mut Filesystem, pwd: &str, path: &str) -> (done: Result<
    (),
    &'static str,
>)
    ensures
        final(fs)@ == tree_after(old(fs)@, pwd@, path@),
        match refusal(path@) {
            Some(reason) => done is Err && done->Err_0@ == reason,
            None => done is Ok,
        },
{
    if path.is_empty() {
        return Err("path cannot be empty");
    }
    let is_absolute = starts_with_char(path, '/');
    let parts = split_path(path);
    if parts.len() == 0 {
        return Err("invalid path");
    }
    let mut current_dir = if is_absolute {
        String::new()
    } else {
        String::from_str(pwd)
    };
    let ghost names = path_segments(path@);
    let mut i: usize = 0;
    proof {
        assert(names.skip(0) =~= names);
        lemma_segments_are_names(path@);
    }
    while i < parts.len()
        invariant
            i <= parts@.len(),
            names == views_of(parts@),
            forall|k: int| 0 <= k < names.len() ==> is_name(#[trigger] names[k]),
            tree_after(old(fs)@, pwd@, path@) == made(fs@, current_dir@, names.skip(i as int)),
        decreases parts@.len() - i,
    {
        let part = parts[i];
        proof {
            let rest = names.skip(i as int);
            assert(rest[0] == part@);
            assert(rest.drop_first() =~= names.skip(i + 1));
            assert(is_name(names[i as int]));
            lemma_below_names(current_dir@, part@);
        }
        current_dir = if current_dir.as_str().is_empty() || same_text(current_dir.as_str(), "/") {
            String::from_str("/").concat(part)
        } else {
            current_dir.concat("/").concat(part)
        };
        let _ = crate::fs::create_dir(fs, current_dir.as_str());
        i = i + 1;
    }
    Ok(())
}

/// Runs `mkdir`: each argument is a path whose directories are created.
pub fn main(fs: &mut Filesystem, pwd: &str, args: &[&str]) -> (text: String)
    ensures
        final(fs)@ == result(old(fs)@, pwd@, views_of(args@)).0,
        text@ == result(old(fs)@, pwd@, views_of(args@)).1,
{
    if args.len() == 0 {
        return String::from_str("\nUSAGE: ").concat(USAGE).concat("\n");
    }
    let ghost all = views_of(args@);
    let mut text = String::new();
    let mut i: usize = 0;
    proof {
        assert(all.skip(0) =~= all);
        assert(text@ + all_made(fs@, pwd@, all).1 =~= all_made(fs@, pwd@, all).1);
    }
    while i < args.len()
        invariant
            i <= args@.len(),
            all == views_of(args@),
            all_made(old(fs)@, pwd@, all).0 == all_made(fs@, pwd@, all.skip(i as int)).0,
            all_made(old(fs)@, pwd@, all).1 == text@ + all_made(fs@, pwd@, all.skip(i as int)).1,
        decreases args@.len() - i,
    {
        let ghost rest = all.skip(i as int);
        let ghost before = fs@;
        let ghost written = text@;
        proof {
            assert(rest[0] == args@[i as int]@);
            assert(rest.drop_first() =~= all.skip(i + 1));
        }
        if let Err(reason) = create_directory(fs, pwd, args[i]) {
            text.append("Error creating '");
            text.append(args[i]);
            text.append("': ");
            text.append(reason);
            text.append("\n");
        }
        proof {
            let line = match refusal(rest[0]) {
                Some(reason) => "Error creating '"@ + rest[0] + "': "@ + reason + "\n"@,
                None => Seq::<char>::empty(),
            };
            assert(text@ =~= written + line);
            let tail = all_made(fs@, pwd@, rest.drop_first()).1;
            assert(written + (line + tail) =~= (written + line) + tail);
        }
        i = i + 1;
    }
    proof {
        assert(text@ + all_made(fs@, pwd@, all.skip(args@.len() as int)).1 =~= text@);
    }
    text
}

} // verus!
