//! `touch`: a file with the content given, in place of what was there.

use vstd::prelude::*;
use vstd::slice::slice_subrange;
use vstd::string::{StrSliceExecFns, StringExecFns};
use vstd::utf8::encode_utf8;
use crate::fs::path::{path_segments, split_path};
use crate::fs::tree::Tree;
use crate::fs::{store_in, Filesystem};
use crate::text::{chars_of, join, joined, starts_with_char, views_of};
use super::{absolute, absolute_path};

verus! {

/// The name by which a line calls the command.
pub const CMD: &'static str = "touch";

/// How the command is called.
pub const USAGE: &'static str = "touch <path> [\"content\"]";

/// What the command does, in a line.
pub const DES: &'static str = "creates a new file or updates timestamp, optionally with content";

/// The content that the arguments after the path stand for: the words
/// with one blank between them, without the pair of quotes around the
/// whole if there is one.
pub open spec fn content_of(args: Seq<Seq<char>>) -> Seq<char> {
    let text = joined(args, " "@);
    if text.len() >= 2 && ((text[0] == '"' && text.last() == '"') || (text[0] == '\''
        && text.last() == '\'')) {
        text.subrange(1, text.len() - 1)
    } else {
        text
    }
}

/// Whether `path` names a file: a path that is not empty names
/// something, which one of slashes alone does not.
pub open spec fn names_a_file(pwd: Seq<char>, path: Seq<char>) -> bool {
    path.len() > 0 ==> path_segments(absolute(pwd, path)).len() > 0
}

/// Whether `touch` can be asked for `path` in `fs`: where a filesystem is
/// set up, the path must name a file. Where none is set up, `touch` says
/// so for every path.
pub open spec fn can_touch(fs: Option<Tree>, pwd: Seq<char>, path: Seq<char>) -> bool {
    fs is Some ==> names_a_file(pwd, path)
}

/// What creating the file `path` with `content` gives: the changed tree,
/// or in words why nothing has changed.
pub open spec fn created(fs: Option<Tree>, pwd: Seq<char>, path: Seq<char>, content: Seq<u8>)
    -> Result<Tree, Seq<char>> {
    if path.len() == 0 {
        Err("path cannot be empty"@)
    } else {
        match store_in(fs, absolute(pwd, path), Tree::File(content)) {
            Ok(changed) => Ok(changed),
            Err(failure) => Err(failure.message()),
        }
    }
}

/// The filesystem after `touch`.
pub open spec fn tree_after(fs: Option<Tree>, pwd: Seq<char>, args: Seq<Seq<char>>) -> Option<
    Tree,
> {
    if args.len() == 0 {
        fs
    } else {
        match created(fs, pwd, args[0], encode_utf8(content_of(args.skip(1)))) {
            Ok(changed) => Some(changed),
            Err(_) => fs,
        }
    }
}

/// What `touch` writes: nothing where the file was made, why where it was
/// not, and its usage where it is given no path.
pub open spec fn output(fs: Option<Tree>, pwd: Seq<char>, args: Seq<Seq<char>>) -> Seq<char> {
    if args.len() == 0 {
        "\nUSAGE: "@ + USAGE@ + "\n"@
    } else {
        match created(fs, pwd, args[0], encode_utf8(content_of(args.skip(1)))) {
            Ok(_) => Seq::empty(),
            Err(reason) => "Error creating '"@ + args[0] + "': "@ + reason + "\n"@,
        }
    }
}

/// Whether `touch` can be asked for `path` in `fs`.
pub fn can_be_asked(fs: &Filesystem, pwd: &str, path: &str) -> (can: bool)
    ensures
        can == can_touch(fs@, pwd@, path@),
{
    !fs.is_initialized() || can_name_a_file(pwd, path)
}

/// Whether `path` names a file.
pub fn can_name_a_file(pwd: &str, path: &str) -> (can: bool)
    ensures
        can == names_a_file(pwd@, path@),
{
    if path.is_empty() {
        true
    } else {
        let full_path = absolute_path(pwd, path);
        split_path(full_path.as_str()).len() > 0
    }
}

/// The content that `args` stand for.
pub fn parse_content(args: &[&str]) -> (content: String)
    ensures
        content@ == content_of(views_of(args@)),
{
    let text = join(args, " ");
    let chars = chars_of(text.as_str());
    let n = chars.len();
    if n >= 2 && ((chars[0] == '"' && chars[n - 1] == '"') || (chars[0] == '\'' && chars[n - 1]
        == '\'')) {
        String::from_str(text.as_str().substring_char(1, n - 1))
    } else {
        text
    }
}

/// Makes `content` the content of the file at `path`, which is taken from
/// the working directory `pwd` unless it begins at the root.
pub fn create_file(fs: &mut Filesystem, pwd: &str, path: &str, content: &[u8]) -> (done: Result<
    (),
    String,
>)
    requires
        can_touch(old(fs)@, pwd@, path@),
    ensures
        match created(old(fs)@, pwd@, path@, content@) {
            Ok(changed) => done is Ok && final(fs)@ == Some(changed),
            Err(reason) => done is Err && done->Err_0@ == reason && final(fs)@ == old(fs)@,
        },
{
    if path.is_empty() {
        return Err(String::from_str("path cannot be empty"));
    }
    let full_path = absolute_path(pwd, path);
    match crate::fs::write(fs, full_path.as_str(), content) {
        Ok(()) => Ok(()),
        Err(error) => Err(error.message()),
    }
}

/// Runs `touch`: the first argument is the path, the others are the
/// content.
pub fn main(fs: &mut Filesystem, pwd: &str, args: &[&str]) -> (text: String)
    requires
        args@.len() > 0 ==> can_touch(old(fs)@, pwd@, args@[0]@),
    ensures
        final(fs)@ == tree_after(old(fs)@, pwd@, views_of(args@)),
        text@ == output(old(fs)@, pwd@, views_of(args@)),
{
    if args.len() == 0 {
        return String::from_str("\nUSAGE: ").concat(USAGE).concat("\n");
    }
    let path = args[0];
    let content = if args.len() > 1 {
        parse_content(slice_subrange(args, 1, args.len()))
    } else {
        String::new()
    };
    proof {
        let rest = views_of(args@).skip(1);
        assert(views_of(args@.subrange(1, args@.len() as int)) =~= rest);
        if args@.len() == 1 {
            assert(rest =~= Seq::<Seq<char>>::empty());
            assert(content_of(rest) =~= Seq::<char>::empty());
        }
    }
    match create_file(fs, pwd, path, content.as_str().as_bytes()) {
        Ok(()) => String::new(),
        Err(reason) => String::from_str("Error creating '").concat(path).concat("': ").concat(
            reason.as_str(),
        ).concat("\n"),
    }
}

/// Whether `arg` begins with a quote.
pub open spec fn is_quoted(arg: Seq<char>) -> bool {
    arg.len() > 0 && (arg[0] == '"' || arg[0] == '\'')
}

/// How many arguments stand before the first that begins with a quote.
pub open spec fn paths_before_content(args: Seq<Seq<char>>) -> nat
    decreases args.len(),
{
    if args.len() == 0 || is_quoted(args[0]) {
        0
    } else {
        1 + paths_before_content(args.drop_first())
    }
}

/// What creating a file with `content` at each of `paths`, one after the
/// other, gives: the filesystem at the end, and a line for each file that
/// could not be made.
pub open spec fn all_created(
    fs: Option<Tree>,
    pwd: Seq<char>,
    paths: Seq<Seq<char>>,
    content: Seq<u8>,
) -> (Option<Tree>, Seq<char>)
    decreases paths.len(),
{
    if paths.len() == 0 {
        (fs, Seq::empty())
    } else {
        let (next, line) = match created(fs, pwd, paths[0], content) {
            Ok(changed) => (Some(changed), Seq::empty()),
            Err(reason) => (fs, "Error creating '"@ + paths[0] + "': "@ + reason + "\n"@),
        };
        let (last, lines) = all_created(next, pwd, paths.drop_first(), content);
        (last, line + lines)
    }
}

/// What `touch` for several files does: the arguments up to the first that
/// begins with a quote are paths, the others are the content of them all.
pub open spec fn multi_result(fs: Option<Tree>, pwd: Seq<char>, args: Seq<Seq<char>>) -> (
    Option<Tree>,
    Seq<char>,
) {
    if args.len() == 0 {
        (fs, "\nUSAGE: "@ + USAGE@ + "\n"@)
    } else {
        let n = paths_before_content(args) as int;
        let content = if n < args.len() {
            content_of(args.skip(n))
        } else {
            Seq::empty()
        };
        all_created(fs, pwd, args.take(n), encode_utf8(content))
    }
}

proof fn lemma_paths_before_content(args: Seq<Seq<char>>, n: int)
    requires
        0 <= n <= args.len(),
        forall|i: int| 0 <= i < n ==> !is_quoted(args[i]),
        n < args.len() ==> is_quoted(args[n]),
    ensures
        paths_before_content(args) == n,
    decreases n,
{
    if n > 0 {
        let rest = args.drop_first();
        assert forall|i: int| 0 <= i < n - 1 implies !is_quoted(rest[i]) by {
            assert(rest[i] == args[i + 1]);
        }
        lemma_paths_before_content(rest, n - 1);
    }
}

/// Runs `touch` for several files with one content. Each of the
/// arguments that are paths must be one that `touch` can be asked for.
pub fn main_multi(fs: &mut Filesystem, pwd: &str, args: &[&str]) -> (text: String)
    requires
        forall|i: int|
            0 <= i < paths_before_content(views_of(args@)) ==> can_touch(
                old(fs)@,
                pwd@,
                (#[trigger] args@[i])@,
            ),
    ensures
        final(fs)@ == multi_result(old(fs)@, pwd@, views_of(args@)).0,
        text@ == multi_result(old(fs)@, pwd@, views_of(args@)).1,
{
    if args.len() == 0 {
        return String::from_str("\nUSAGE: ").concat(USAGE).concat("\n");
    }
    let ghost all = views_of(args@);
    let mut n: usize = 0;
    while n < args.len() && !(starts_with_char(args[n], '"') || starts_with_char(args[n], '\''))
        invariant
            n <= args@.len(),
            all == views_of(args@),
            forall|i: int| 0 <= i < n ==> !is_quoted(all[i]),
        decreases args@.len() - n,
    {
        n = n + 1;
    }
    proof {
        lemma_paths_before_content(all, n as int);
        assert(views_of(args@.subrange(n as int, args@.len() as int)) =~= all.skip(n as int));
        assert(views_of(args@.subrange(0, n as int)) =~= all.take(n as int));
    }
    let content = if n < args.len() {
        parse_content(slice_subrange(args, n, args.len()))
    } else {
        String::new()
    };
    let paths = slice_subrange(args, 0, n);
    let mut text = String::new();
    let mut i: usize = 0;
    proof {
        assert forall|k: int| 0 <= k < paths@.len() implies can_touch(
            fs@,
            pwd@,
            (#[trigger] paths@[k])@,
        ) by {
            assert(paths@[k] == args@[k]);
        }
        assert(views_of(paths@).skip(0) =~= views_of(paths@));
        let whole = all_created(fs@, pwd@, views_of(paths@), encode_utf8(content@));
        assert(text@ + whole.1 =~= whole.1);
    }
    while i < paths.len()
        invariant
            i <= paths@.len(),
            fs@ is Some == old(fs)@ is Some,
            forall|k: int|
                0 <= k < paths@.len() ==> can_touch(old(fs)@, pwd@, (#[trigger] paths@[k])@),
            all_created(old(fs)@, pwd@, views_of(paths@), encode_utf8(content@)).0 == all_created(
                fs@,
                pwd@,
                views_of(paths@).skip(i as int),
                encode_utf8(content@),
            ).0,
            all_created(old(fs)@, pwd@, views_of(paths@), encode_utf8(content@)).1 == text@
                + all_created(
                fs@,
                pwd@,
                views_of(paths@).skip(i as int),
                encode_utf8(content@),
            ).1,
        decreases paths@.len() - i,
    {
        let ghost rest = views_of(paths@).skip(i as int);
        let ghost before = fs@;
        let ghost written = text@;
        proof {
            assert(rest[0] == paths@[i as int]@);
            assert(rest.drop_first() =~= views_of(paths@).skip(i + 1));
        }
        if let Err(reason) = create_file(fs, pwd, paths[i], content.as_str().as_bytes()) {
            text.append("Error creating '");
            text.append(paths[i]);
            text.append("': ");
            text.append(reason.as_str());
            text.append("\n");
        }
        proof {
            let line = match created(before, pwd@, rest[0], encode_utf8(content@)) {
                Ok(changed) => Seq::<char>::empty(),
                Err(reason) => "Error creating '"@ + rest[0] + "': "@ + reason + "\n"@,
            };
            assert(text@ =~= written + line);
            let tail = all_created(fs@, pwd@, rest.drop_first(), encode_utf8(content@)).1;
            assert(written + (line + tail) =~= (written + line) + tail);
        }
        i = i + 1;
    }
    proof {
        let tail = all_created(
            fs@,
            pwd@,
            views_of(paths@).skip(paths@.len() as int),
            encode_utf8(content@),
        );
        assert(text@ + tail.1 =~= text@);
    }
    text
}

} // verus!
