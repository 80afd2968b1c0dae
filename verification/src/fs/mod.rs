//! The in-memory filesystem: one tree, set up once at boot and then read
//! and changed through paths.

pub mod error;
pub mod path;
pub mod ramfs;
pub mod tree;

use vstd::prelude::*;
use vstd::string::StringSliceAdditionalSpecFns;
use self::error::{Failure, FsError};
use self::path::{
    lemma_redundant_separators, lemma_segments_concat, lemma_single_segment, path_segments,
};
use self::ramfs::RamFs;
use self::tree::{is_listing, lemma_listing_is, listing, names_of, Tree};

verus! {

/// The directory that is there from the start.
pub const WELCOME_DIR: &'static str = "/welcome";

/// The file that is there from the start.
pub const GREETING_FILE: &'static str = "/welcome/hello.txt";

/// What the file that is there from the start says.
pub const GREETING: &'static str =
    "hello! welcome to unsafeOS! this filesystem only runs on your memmory!";

/// The place of the one filesystem: empty until `init` has run.
pub struct Filesystem {
    root: Option<RamFs>,
}

impl View for Filesystem {
    type V = Option<Tree>;

    closed spec fn view(&self) -> Option<Tree> {
        match self.root {
            Some(fs) => Some(fs@),
            None => None,
        }
    }
}

impl Filesystem {
    /// The place before any filesystem is set up.
    pub fn new() -> (fs: Filesystem)
        ensures
            fs@ is None,
    {
        Filesystem { root: None }
    }

    /// Whether a filesystem has been set up.
    pub fn is_initialized(&self) -> (initialized: bool)
        ensures
            initialized == self@ is Some,
    {
        self.root.is_some()
    }
}

/// The root of a filesystem that is set up is a directory.
pub open spec fn rooted(fs: Option<Tree>) -> bool {
    fs matches Some(tree) ==> tree is Dir
}

/// Whether something can be put at `path` in `fs`: where a filesystem is
/// set up, the path must name something, which a path of slashes alone
/// does not. Where none is set up, every path is refused in the same way.
pub open spec fn can_store(fs: Option<Tree>, path: Seq<char>) -> bool {
    fs is Some ==> path_segments(path).len() > 0
}

/// The tree that `init` sets up: the welcome directory with the greeting
/// file in it.
pub open spec fn seeded_tree() -> Tree {
    Tree::Dir(
        Map::empty().insert(
            "welcome"@,
            Tree::Dir(Map::empty().insert("hello.txt"@, Tree::File(GREETING.spec_bytes()))),
        ),
    )
}

/// What reading `path` gives in `fs`.
pub open spec fn read_in(fs: Option<Tree>, path: Seq<char>) -> Result<Seq<u8>, Failure> {
    match fs {
        Some(tree) => tree.read(path_segments(path)),
        None => Err(Failure::NotInitialized),
    }
}

/// What listing `path` gives in `fs`: the names in their order.
pub open spec fn list_in(fs: Option<Tree>, path: Seq<char>) -> Result<Seq<Seq<char>>, Failure> {
    match fs {
        Some(tree) => match tree.list(path_segments(path)) {
            Ok(all) => Ok(listing(all)),
            Err(failure) => Err(failure),
        },
        None => Err(Failure::NotInitialized),
    }
}

/// What putting `new` at `path` gives in `fs`.
pub open spec fn store_in(fs: Option<Tree>, path: Seq<char>, new: Tree) -> Result<Tree, Failure> {
    match fs {
        Some(tree) => tree.store(path_segments(path), new),
        None => Err(Failure::NotInitialized),
    }
}

/// Paths that differ only in that one has a separator twice where the
/// other has it once, or in a separator in front or at the end, lead to the
/// same place, whatever is asked of the filesystem.
pub proof fn lemma_equivalent_paths(fs: Option<Tree>, a: Seq<char>, b: Seq<char>, new: Tree)
    ensures
        read_in(fs, a + seq!['/', '/'] + b) == read_in(fs, a + seq!['/'] + b),
        list_in(fs, a + seq!['/', '/'] + b) == list_in(fs, a + seq!['/'] + b),
        store_in(fs, a + seq!['/', '/'] + b, new) == store_in(fs, a + seq!['/'] + b, new),
        read_in(fs, seq!['/'] + b) == read_in(fs, b),
        list_in(fs, seq!['/'] + b) == list_in(fs, b),
        store_in(fs, seq!['/'] + b, new) == store_in(fs, b, new),
        read_in(fs, a + seq!['/']) == read_in(fs, a),
        list_in(fs, a + seq!['/']) == list_in(fs, a),
        store_in(fs, a + seq!['/'], new) == store_in(fs, a, new),
{
    lemma_redundant_separators(a, b);
}

/// The segments of the two paths that `init` uses.
proof fn lemma_seed_paths()
    ensures
        path_segments(WELCOME_DIR@) == seq!["welcome"@],
        path_segments(GREETING_FILE@) == seq!["welcome"@, "hello.txt"@],
{
    reveal_strlit("/welcome");
    reveal_strlit("/welcome/hello.txt");
    reveal_strlit("welcome");
    reveal_strlit("hello.txt");
    let empty = Seq::<char>::empty();
    assert(path_segments(empty) =~= Seq::<Seq<char>>::empty());
    lemma_single_segment("welcome"@);
    lemma_single_segment("hello.txt"@);
    lemma_segments_concat(empty, "welcome"@);
    lemma_segments_concat("welcome"@, "hello.txt"@);
    lemma_segments_concat(empty, "welcome"@ + seq!['/'] + "hello.txt"@);
    assert(WELCOME_DIR@ =~= empty + seq!['/'] + "welcome"@);
    assert(GREETING_FILE@ =~= empty + seq!['/'] + ("welcome"@ + seq!['/'] + "hello.txt"@));
}

/// Sets up the filesystem as it is after every boot: the welcome directory
/// with the greeting file in it. What was there before is gone.
pub fn init(fs: &mut Filesystem)
    ensures
        final(fs)@ == Some(seeded_tree()),
        rooted(final(fs)@),
{
    let mut ram = RamFs::new();
    proof {
        lemma_seed_paths();
        reveal_with_fuel(Tree::store, 3);
        let names = seq!["welcome"@, "hello.txt"@];
        assert(names.drop_first() =~= seq!["hello.txt"@]);
    }
    let made = ram.create_dir(WELCOME_DIR);
    made.unwrap();
    let written = ram.write(GREETING_FILE, GREETING.as_bytes());
    written.unwrap();
    proof {
        let inner = Map::<Seq<char>, Tree>::empty().insert("welcome"@, Tree::empty());
        assert(inner.insert(
            "welcome"@,
            Tree::Dir(Map::empty().insert("hello.txt"@, Tree::File(GREETING.spec_bytes()))),
        ) =~= Map::<Seq<char>, Tree>::empty().insert(
            "welcome"@,
            Tree::Dir(Map::empty().insert("hello.txt"@, Tree::File(GREETING.spec_bytes()))),
        ));
    }
    fs.root = Some(ram);
}

/// The bytes of the file at `path`.
pub fn read(fs: &Filesystem, path: &str) -> (result: Result<Vec<u8>, FsError>)
    ensures
        rooted(fs@),
        match read_in(fs@, path@) {
            Ok(data) => result is Ok && result->Ok_0@ == data,
            Err(failure) => result is Err && result->Err_0@ == failure,
        },
{
    match &fs.root {
        Some(ram) => ram.read(path),
        None => Err(FsError::NotInitialized),
    }
}

/// Makes `data` the content of the file at `path`: the file is created if
/// it is not there, and what it held is replaced, never added to. The
/// directory that is to hold it must exist. When this fails nothing has
/// changed.
pub fn write(fs: &mut Filesystem, path: &str, data: &[u8]) -> (result: Result<(), FsError>)
    requires
        can_store(old(fs)@, path@),
    ensures
        rooted(old(fs)@),
        rooted(final(fs)@),
        match store_in(old(fs)@, path@, Tree::File(data@)) {
            Ok(changed) => result is Ok && final(fs)@ == Some(changed),
            Err(failure) => result is Err && result->Err_0@ == failure && final(fs)@ == old(fs)@,
        },
{
    match &mut fs.root {
        Some(ram) => ram.write(path, data),
        None => Err(FsError::NotInitialized),
    }
}

/// Puts an empty directory at `path`. Whatever had that name, a file or a
/// directory with all that was in it, is replaced. The directory that is to
/// hold it must exist. When this fails nothing has changed.
pub fn create_dir(fs: &mut Filesystem, path: &str) -> (result: Result<(), FsError>)
    requires
        can_store(old(fs)@, path@),
    ensures
        rooted(old(fs)@),
        rooted(final(fs)@),
        match store_in(old(fs)@, path@, Tree::empty()) {
            Ok(changed) => result is Ok && final(fs)@ == Some(changed),
            Err(failure) => result is Err && result->Err_0@ == failure && final(fs)@ == old(fs)@,
        },
{
    match &mut fs.root {
        Some(ram) => ram.create_dir(path),
        None => Err(FsError::NotInitialized),
    }
}

/// The names in the directory at `path`, in their order.
pub fn list_dir(fs: &Filesystem, path: &str) -> (result: Result<Vec<String>, FsError>)
    ensures
        rooted(fs@),
        match list_in(fs@, path@) {
            Ok(names) => result is Ok && names_of(result->Ok_0@) == names && is_listing(
                names,
                fs@->Some_0.list(path_segments(path@))->Ok_0,
            ),
            Err(failure) => result is Err && result->Err_0@ == failure,
        },
{
    match &fs.root {
        Some(ram) => {
            let result = ram.list_dir(path);
            proof {
                if result is Ok {
                    lemma_listing_is(
                        names_of(result->Ok_0@),
                        ram@.list(path_segments(path@))->Ok_0,
                    );
                }
            }
            result
        },
        None => Err(FsError::NotInitialized),
    }
}

} // verus!
