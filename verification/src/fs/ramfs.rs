//! The directory tree as it lies in memory: files hold bytes, directories
//! hold their entries in the order of the names, each name once.

use vstd::prelude::*;
use vstd::string::StringExecFns;
use vstd::slice::slice_to_vec;
use crate::text::{
    chars_of, compare_chars, lemma_name_lt_irreflexive, lemma_name_lt_transitive, name_lt,
    NameOrder,
};
use super::error::{Failure, FsError};
use crate::text::views_of;
use super::path::{path_segments, split_path};
use super::tree::{is_listing, names_of, Tree};

verus! {

struct Entry {
    name: String,
    node: Node,
}

enum Node {
    File(Vec<u8>),
    Directory(Vec<Entry>),
}

spec fn names_sorted(entries: Seq<Entry>) -> bool {
    forall|i: int, j: int|
        0 <= i < j < entries.len() ==> name_lt(
            (#[trigger] entries[i]).name@,
            (#[trigger] entries[j]).name@,
        )
}

spec fn has_name(entries: Seq<Entry>, name: Seq<char>) -> bool {
    exists|i: int| 0 <= i < entries.len() && (#[trigger] entries[i]).name@ == name
}

spec fn index_of_name(entries: Seq<Entry>, name: Seq<char>) -> int {
    choose|i: int| 0 <= i < entries.len() && (#[trigger] entries[i]).name@ == name
}

spec fn has_entry(entries: Seq<Entry>, name: Seq<char>, tree: Tree) -> bool {
    exists|i: int|
        0 <= i < entries.len() && (#[trigger] entries[i]).name@ == name && entries[i].node.view()
            == tree
}

impl Node {
    spec fn view(&self) -> Tree
        decreases self,
    {
        match self {
            Node::File(data) => Tree::File(data@),
            Node::Directory(entries) => Tree::Dir(
                Map::new(
                    |name: Seq<char>| has_name(entries@, name),
                    |name: Seq<char>|
                        {
                            let i = index_of_name(entries@, name);
                            if 0 <= i < entries@.len() {
                                entries@[i].node.view()
                            } else {
                                arbitrary()
                            }
                        },
                ),
            ),
        }
    }

    /// A directory without entries.
    fn empty_directory() -> (node: Node)
        ensures
            node.wf(),
            node is Directory,
            node.view() == Tree::empty(),
    {
        let entries: Vec<Entry> = Vec::new();
        proof {
            lemma_directory_view(entries);
            assert(Node::Directory(entries).view()->Dir_0 =~= Map::<Seq<char>, Tree>::empty()) by {
                assert forall|name: Seq<char>| !has_name(entries@, name) by {}
            }
        }
        Node::Directory(entries)
    }

    /// In every directory the entries stand in the strict order of their
    /// names.
    spec fn wf(&self) -> bool
        decreases self,
    {
        match self {
            Node::File(_) => true,
            Node::Directory(entries) => {
                &&& names_sorted(entries@)
                &&& forall|i: int| 0 <= i < entries@.len() ==> (#[trigger] entries@[i]).node.wf()
            },
        }
    }
}

/// In a sorted directory a name stands at one place only.
proof fn lemma_name_once(entries: Seq<Entry>, i: int, j: int)
    requires
        names_sorted(entries),
        0 <= i < entries.len(),
        0 <= j < entries.len(),
        entries[i].name@ == entries[j].name@,
    ensures
        i == j,
{
    lemma_name_lt_irreflexive(entries[i].name@);
}

/// The view of a sorted directory maps each entry's name to the view of its
/// node, and nothing else.
proof fn lemma_directory_view(entries: Vec<Entry>)
    requires
        names_sorted(entries@),
    ensures
        Node::Directory(entries).view() is Dir,
        forall|name: Seq<char>| #[trigger]
            Node::Directory(entries).view()->Dir_0.dom().contains(name) <==> has_name(
                entries@,
                name,
            ),
        forall|i: int|
            0 <= i < entries@.len() ==> {
                &&& Node::Directory(entries).view()->Dir_0.dom().contains(
                    (#[trigger] entries@[i]).name@,
                )
                &&& Node::Directory(entries).view()->Dir_0[entries@[i].name@]
                    == entries@[i].node.view()
            },
{
    assert forall|i: int| 0 <= i < entries@.len() implies {
        &&& Node::Directory(entries).view()->Dir_0.dom().contains((#[trigger] entries@[i]).name@)
        &&& Node::Directory(entries).view()->Dir_0[entries@[i].name@] == entries@[i].node.view()
    } by {
        let name = entries@[i].name@;
        assert(has_name(entries@, name));
        lemma_name_once(entries@, i, index_of_name(entries@, name));
    }
}

/// A directory whose entries are those of another, but for one name that is
/// now bound to `child`, views as the other's map with that name inserted.
proof fn lemma_directory_updated(
    before: Vec<Entry>,
    after: Vec<Entry>,
    name: Seq<char>,
    child: Tree,
)
    requires
        names_sorted(before@),
        names_sorted(after@),
        has_entry(after@, name, child),
        forall|j: int|
            0 <= j < before@.len() && (#[trigger] before@[j]).name@ != name ==> has_entry(
                after@,
                before@[j].name@,
                before@[j].node.view(),
            ),
        forall|j: int|
            0 <= j < after@.len() && (#[trigger] after@[j]).name@ != name ==> has_entry(
                before@,
                after@[j].name@,
                after@[j].node.view(),
            ),
    ensures
        Node::Directory(after).view() == Tree::Dir(
            Node::Directory(before).view()->Dir_0.insert(name, child),
        ),
{
    lemma_directory_view(before);
    lemma_directory_view(after);
    let old_map = Node::Directory(before).view()->Dir_0;
    let new_map = Node::Directory(after).view()->Dir_0;
    let expected = old_map.insert(name, child);
    assert forall|key: Seq<char>| new_map.dom().contains(key) implies expected.dom().contains(
        key,
    ) && new_map[key] == expected[key] by {
        let j = index_of_name(after@, key);
        assert(after@[j].name@ == key);
        if key != name {
            let k = choose|k: int|
                0 <= k < before@.len() && (#[trigger] before@[k]).name@ == key
                    && before@[k].node.view() == after@[j].node.view();
            assert(has_name(before@, key));
        } else {
            let k = choose|k: int|
                0 <= k < after@.len() && (#[trigger] after@[k]).name@ == name
                    && after@[k].node.view() == child;
            lemma_name_once(after@, j, k);
        }
    }
    assert forall|key: Seq<char>| expected.dom().contains(key) implies new_map.dom().contains(
        key,
    ) by {
        if key != name {
            let j = index_of_name(before@, key);
            assert(before@[j].name@ == key);
            let k = choose|k: int|
                0 <= k < after@.len() && (#[trigger] after@[k]).name@ == key
                    && after@[k].node.view() == before@[j].node.view();
            assert(has_name(after@, key));
        } else {
            let k = choose|k: int|
                0 <= k < after@.len() && (#[trigger] after@[k]).name@ == name
                    && after@[k].node.view() == child;
            assert(has_name(after@, name));
        }
    }
    assert(new_map =~= expected);
}

/// Where `name` stands in a sorted directory (`Ok`), or where it would have
/// to be put (`Err`).
fn find(entries: &Vec<Entry>, name: &str) -> (place: Result<usize, usize>)
    requires
        names_sorted(entries@),
    ensures
        match place {
            Ok(i) => i < entries@.len() && entries@[i as int].name@ == name@,
            Err(i) => {
                &&& i <= entries@.len()
                &&& !has_name(entries@, name@)
                &&& forall|j: int| 0 <= j < i ==> name_lt((#[trigger] entries@[j]).name@, name@)
                &&& forall|j: int|
                    i <= j < entries@.len() ==> name_lt(name@, (#[trigger] entries@[j]).name@)
            },
        },
{
    let wanted = chars_of(name);
    let mut i: usize = 0;
    while i < entries.len()
        invariant
            i <= entries@.len(),
            wanted@ == name@,
            names_sorted(entries@),
            forall|j: int| 0 <= j < i ==> name_lt((#[trigger] entries@[j]).name@, name@),
        decreases entries@.len() - i,
    {
        let here = chars_of(entries[i].name.as_str());
        match compare_chars(&here, &wanted) {
            NameOrder::Before => {
                i = i + 1;
            },
            NameOrder::Same => {
                return Ok(i);
            },
            NameOrder::After => {
                proof {
                    assert forall|j: int| i <= j < entries@.len() implies name_lt(
                        name@,
                        (#[trigger] entries@[j]).name@,
                    ) by {
                        if j > i {
                            lemma_name_lt_transitive(
                                name@,
                                entries@[i as int].name@,
                                entries@[j].name@,
                            );
                        }
                    }
                    lemma_not_present(entries@, name@, i as int);
                }
                return Err(i);
            },
        }
    }
    proof {
        lemma_not_present(entries@, name@, i as int);
    }
    Err(i)
}

/// A name that lies strictly between the entries before `i` and those from
/// `i` on is not in the directory.
proof fn lemma_not_present(entries: Seq<Entry>, name: Seq<char>, i: int)
    requires
        0 <= i <= entries.len(),
        forall|j: int| 0 <= j < i ==> name_lt((#[trigger] entries[j]).name@, name),
        forall|j: int| i <= j < entries.len() ==> name_lt(name, (#[trigger] entries[j]).name@),
    ensures
        !has_name(entries, name),
{
    lemma_name_lt_irreflexive(name);
}

/// Walks from `root` along `parts`.
fn resolve<'a>(root: &'a Node, parts: &Vec<&str>) -> (found: Result<&'a Node, FsError>)
    requires
        root.wf(),
    ensures
        match found {
            Ok(node) => node.wf() && root.view().lookup(views_of(parts@)) == Ok::<Tree, Failure>(
                node.view(),
            ),
            Err(error) => root.view().lookup(views_of(parts@)) == Err::<Tree, Failure>(error@),
        },
{
    let ghost names = views_of(parts@);
    let mut node = root;
    let mut i: usize = 0;
    proof {
        assert(names.skip(0) =~= names);
    }
    while i < parts.len()
        invariant
            i <= parts@.len(),
            names == views_of(parts@),
            node.wf(),
            root.view().lookup(names) == node.view().lookup(names.skip(i as int)),
        decreases parts@.len() - i,
    {
        let ghost rest = names.skip(i as int);
        proof {
            assert(rest[0] == parts@[i as int]@);
            assert(rest.drop_first() =~= names.skip(i + 1));
        }
        match node {
            Node::Directory(entries) => {
                proof {
                    lemma_directory_view(*entries);
                }
                match find(entries, parts[i]) {
                    Ok(at) => {
                        node = &entries[at].node;
                    },
                    Err(_) => {
                        return Err(FsError::PathSegmentNotFound(String::from_str(parts[i])));
                    },
                }
            },
            Node::File(_) => {
                return Err(FsError::NotADirectory);
            },
        }
        i = i + 1;
    }
    Ok(node)
}

/// Puts `new` at `parts[from..]` below `node`.
fn insert_at(node: &mut Node, parts: &Vec<&str>, from: usize, new: Node) -> (done: Result<
    (),
    FsError,
>)
    requires
        old(node).wf(),
        new.wf(),
        from < parts@.len(),
    ensures
        final(node).wf(),
        *old(node) is Directory ==> *final(node) is Directory,
        match old(node).view().store(views_of(parts@).skip(from as int), new.view()) {
            Ok(tree) => done is Ok && final(node).view() == tree,
            Err(failure) => done is Err && done->Err_0@ == failure && final(node).view() == old(
                node,
            ).view(),
        },
    decreases parts@.len() - from,
{
    let ghost names = views_of(parts@).skip(from as int);
    let ghost child = new.view();
    let last = from == parts.len() - 1;
    proof {
        assert(names[0] == parts@[from as int]@);
        assert(names.drop_first() =~= views_of(parts@).skip(from + 1));
    }
    match node {
        Node::File(_) => {
            if last {
                Err(FsError::ParentNotADirectory)
            } else {
                Err(FsError::NotADirectory)
            }
        },
        Node::Directory(entries) => {
            let ghost before = *entries;
            proof {
                lemma_directory_view(before);
            }
            let place = find(entries, parts[from]);
            if last {
                match place {
                    Ok(at) => {
                        entries[at].node = new;
                        proof {
                            lemma_entry_replaced(before, *entries, at as int, child);
                        }
                    },
                    Err(at) => {
                        let entry = Entry { name: String::from_str(parts[from]), node: new };
                        entries.insert(at, entry);
                        proof {
                            lemma_entry_inserted(before, *entries, at as int, child);
                        }
                    },
                }
                Ok(())
            } else {
                match place {
                    Ok(at) => {
                        let done = insert_at(&mut entries[at].node, parts, from + 1, new);
                        proof {
                            lemma_entry_replaced(
                                before,
                                *entries,
                                at as int,
                                entries@[at as int].node.view(),
                            );
                            if done is Err {
                                assert(Node::Directory(before).view()->Dir_0.insert(
                                    names[0],
                                    before@[at as int].node.view(),
                                ) =~= Node::Directory(before).view()->Dir_0);
                            }
                        }
                        done
                    },
                    Err(_) => Err(FsError::PathSegmentNotFound(String::from_str(parts[from]))),
                }
            }
        },
    }
}

/// Giving the entry at `at` another node keeps the directory sorted and
/// rebinds its name.
proof fn lemma_entry_replaced(before: Vec<Entry>, after: Vec<Entry>, at: int, child: Tree)
    requires
        names_sorted(before@),
        forall|i: int| 0 <= i < before@.len() ==> (#[trigger] before@[i]).node.wf(),
        0 <= at < before@.len(),
        after@.len() == before@.len(),
        after@[at].name@ == before@[at].name@,
        after@[at].node.view() == child,
        after@[at].node.wf(),
        forall|i: int| 0 <= i < before@.len() && i != at ==> after@[i] == before@[i],
    ensures
        Node::Directory(after).wf(),
        Node::Directory(after).view() == Tree::Dir(
            Node::Directory(before).view()->Dir_0.insert(before@[at].name@, child),
        ),
{
    assert forall|i: int, j: int| 0 <= i < j < after@.len() implies name_lt(
        (#[trigger] after@[i]).name@,
        (#[trigger] after@[j]).name@,
    ) by {
        assert(after@[i].name@ == before@[i].name@);
        assert(after@[j].name@ == before@[j].name@);
    }
    assert forall|i: int| 0 <= i < after@.len() implies (#[trigger] after@[i]).node.wf() by {
        if i != at {
            assert(after@[i] == before@[i]);
        }
    }
    let name = before@[at].name@;
    assert forall|j: int|
        0 <= j < before@.len() && (#[trigger] before@[j]).name@ != name implies has_entry(
        after@,
        before@[j].name@,
        before@[j].node.view(),
    ) by {
        assert(after@[j] == before@[j]);
    }
    assert forall|j: int|
        0 <= j < after@.len() && (#[trigger] after@[j]).name@ != name implies has_entry(
        before@,
        after@[j].name@,
        after@[j].node.view(),
    ) by {
        assert(after@[j] == before@[j]);
    }
    assert(after@[at].name@ == name);
    lemma_directory_updated(before, after, name, child);
}

/// Putting a new entry at the place that `find` gave keeps the directory
/// sorted and binds its name.
proof fn lemma_entry_inserted(before: Vec<Entry>, after: Vec<Entry>, at: int, child: Tree)
    requires
        names_sorted(before@),
        forall|i: int| 0 <= i < before@.len() ==> (#[trigger] before@[i]).node.wf(),
        0 <= at <= before@.len(),
        after@.len() == before@.len() + 1,
        after@[at].node.view() == child,
        after@[at].node.wf(),
        forall|i: int| 0 <= i < at ==> after@[i] == before@[i],
        forall|i: int| at <= i < before@.len() ==> after@[i + 1] == before@[i],
        forall|j: int| 0 <= j < at ==> name_lt((#[trigger] before@[j]).name@, after@[at].name@),
        forall|j: int|
            at <= j < before@.len() ==> name_lt(after@[at].name@, (#[trigger] before@[j]).name@),
    ensures
        Node::Directory(after).wf(),
        Node::Directory(after).view() == Tree::Dir(
            Node::Directory(before).view()->Dir_0.insert(after@[at].name@, child),
        ),
{
    let name = after@[at].name@;
    let origin = |i: int| if i < at { i } else { i - 1 };
    assert forall|i: int, j: int| 0 <= i < j < after@.len() implies name_lt(
        (#[trigger] after@[i]).name@,
        (#[trigger] after@[j]).name@,
    ) by {
        if i != at {
            assert(after@[i] == before@[origin(i)]);
        }
        if j != at {
            assert(after@[j] == before@[origin(j)]);
        }
    }
    assert forall|i: int| 0 <= i < after@.len() implies (#[trigger] after@[i]).node.wf() by {
        if i != at {
            assert(after@[i] == before@[origin(i)]);
        }
    }
    lemma_name_lt_irreflexive(name);
    assert forall|j: int|
        0 <= j < before@.len() && (#[trigger] before@[j]).name@ != name implies has_entry(
        after@,
        before@[j].name@,
        before@[j].node.view(),
    ) by {
        let k = if j < at { j } else { j + 1 };
        assert(after@[k] == before@[j]);
    }
    assert forall|j: int|
        0 <= j < after@.len() && (#[trigger] after@[j]).name@ != name implies has_entry(
        before@,
        after@[j].name@,
        after@[j].node.view(),
    ) by {
        assert(after@[j] == before@[origin(j)]);
    }
    lemma_directory_updated(before, after, name, child);
}

/// A filesystem in memory: one tree, rooted in a directory.
pub struct RamFs {
    root: Node,
}

impl View for RamFs {
    type V = Tree;

    closed spec fn view(&self) -> Tree {
        self.root.view()
    }
}

impl RamFs {
    #[verifier::type_invariant]
    spec fn well_formed(&self) -> bool {
        self.root.wf() && self.root is Directory
    }

    /// A filesystem whose root directory is empty.
    pub fn new() -> (fs: RamFs)
        ensures
            fs@ == Tree::empty(),
    {
        RamFs { root: Node::empty_directory() }
    }

    /// Puts `new` at `path`.
    fn put(&mut self, path: &str, new: Node) -> (result: Result<(), FsError>)
        requires
            new.wf(),
            path_segments(path@).len() > 0,
        ensures
            final(self)@ is Dir,
            match old(self)@.store(path_segments(path@), new.view()) {
                Ok(tree) => result is Ok && final(self)@ == tree,
                Err(failure) => result is Err && result->Err_0@ == failure && final(self)@ == old(
                    self,
                )@,
            },
    {
        proof {
            use_type_invariant(&*self);
        }
        let parts = split_path(path);
        proof {
            assert(views_of(parts@).skip(0) =~= views_of(parts@));
        }
        // The root is worked on outside `self`, which holds an empty
        // directory meanwhile.
        let mut root = Node::empty_directory();
        core::mem::swap(&mut self.root, &mut root);
        let result = insert_at(&mut root, &parts, 0, new);
        self.root = root;
        result
    }

    /// The names along `path`.
    pub fn split_path<'a>(path: &'a str) -> (parts: Vec<&'a str>)
        ensures
            views_of(parts@) == path_segments(path@),
    {
        split_path(path)
    }

    /// The bytes of the file at `path`.
    pub fn read(&self, path: &str) -> (result: Result<Vec<u8>, FsError>)
        ensures
            self@ is Dir,
            match self@.read(path_segments(path@)) {
                Ok(data) => result is Ok && result->Ok_0@ == data,
                Err(failure) => result is Err && result->Err_0@ == failure,
            },
    {
        proof {
            use_type_invariant(self);
        }
        let parts = split_path(path);
        match resolve(&self.root, &parts) {
            Ok(node) => match node {
                Node::File(data) => Ok(data.clone()),
                Node::Directory(_) => Err(FsError::NotAFile),
            },
            Err(error) => Err(error),
        }
    }

    /// Makes `data` the content of the file at `path`, creating the file if
    /// it is not there and replacing what was. The directory that is to hold
    /// it must exist.
    pub fn write(&mut self, path: &str, data: &[u8]) -> (result: Result<(), FsError>)
        requires
            path_segments(path@).len() > 0,
        ensures
            final(self)@ is Dir,
            match old(self)@.store(path_segments(path@), Tree::File(data@)) {
                Ok(tree) => result is Ok && final(self)@ == tree,
                Err(failure) => result is Err && result->Err_0@ == failure && final(self)@ == old(
                    self,
                )@,
            },
    {
        proof {
            use_type_invariant(&*self);
        }
        self.put(path, Node::File(slice_to_vec(data)))
    }

    /// Puts an empty directory at `path`, replacing what was there. The
    /// directory that is to hold it must exist.
    pub fn create_dir(&mut self, path: &str) -> (result: Result<(), FsError>)
        requires
            path_segments(path@).len() > 0,
        ensures
            final(self)@ is Dir,
            match old(self)@.store(path_segments(path@), Tree::empty()) {
                Ok(tree) => result is Ok && final(self)@ == tree,
                Err(failure) => result is Err && result->Err_0@ == failure && final(self)@ == old(
                    self,
                )@,
            },
    {
        proof {
            use_type_invariant(&*self);
        }
        self.put(path, Node::empty_directory())
    }

    /// The names in the directory at `path`, in their order.
    pub fn list_dir(&self, path: &str) -> (result: Result<Vec<String>, FsError>)
        ensures
            self@ is Dir,
            match self@.list(path_segments(path@)) {
                Ok(all) => result is Ok && is_listing(names_of(result->Ok_0@), all),
                Err(failure) => result is Err && result->Err_0@ == failure,
            },
    {
        proof {
            use_type_invariant(self);
        }
        let parts = split_path(path);
        match resolve(&self.root, &parts) {
            Ok(node) => match node {
                Node::Directory(entries) => {
                    let mut names: Vec<String> = Vec::new();
                    let mut i: usize = 0;
                    while i < entries.len()
                        invariant
                            i <= entries@.len(),
                            names@.len() == i,
                            forall|j: int| 0 <= j < i ==> (#[trigger] names@[j])@ == entries@[j].name@,
                        decreases entries@.len() - i,
                    {
                        names.push(entries[i].name.clone());
                        i = i + 1;
                    }
                    proof {
                        lemma_directory_view(*entries);
                        let listed = names_of(names@);
                        let all = Node::Directory(*entries).view()->Dir_0.dom();
                        assert forall|name: Seq<char>| listed.contains(name) <==> all.contains(
                            name,
                        ) by {
                            if listed.contains(name) {
                                let j = choose|j: int| 0 <= j < listed.len() && listed[j] == name;
                                assert(entries@[j].name@ == name);
                            }
                            if all.contains(name) {
                                let j = index_of_name(entries@, name);
                                assert(listed[j] == name);
                            }
                        }
                    }
                    Ok(names)
                },
                Node::File(_) => Err(FsError::TargetNotADirectory),
            },
            Err(error) => Err(error),
        }
    }
}

} // verus!
