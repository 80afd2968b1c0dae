//! What a filesystem holds, as a mathematical value, and what the
//! operations on paths mean for it.

use vstd::prelude::*;
use crate::text::{lemma_name_lt_irreflexive, lemma_name_lt_total, name_lt};
use super::error::Failure;

verus! {

/// What a filesystem holds, as a mathematical value.
pub enum Tree {
    File(Seq<u8>),
    Dir(Map<Seq<char>, Tree>),
}

impl Tree {
    /// The empty directory.
    pub open spec fn empty() -> Tree {
        Tree::Dir(Map::empty())
    }

    /// The node reached from `self` by following `names`, one directory
    /// entry after the other. The walk stops at the first name that is not
    /// there, and at a file that it would have to pass through.
    pub open spec fn lookup(self, names: Seq<Seq<char>>) -> Result<Tree, Failure>
        decreases names.len(),
    {
        if names.len() == 0 {
            Ok(self)
        } else {
            match self {
                Tree::Dir(children) => if children.dom().contains(names[0]) {
                    children[names[0]].lookup(names.drop_first())
                } else {
                    Err(Failure::PathSegmentNotFound(names[0]))
                },
                Tree::File(_) => Err(Failure::NotADirectory),
            }
        }
    }

    /// The tree with `new` put under the last of `names`, in the directory
    /// that the names before it lead to. Whatever had that name is replaced.
    pub open spec fn store(self, names: Seq<Seq<char>>, new: Tree) -> Result<Tree, Failure>
        recommends
            names.len() > 0,
        decreases names.len(),
    {
        if names.len() == 0 {
            Ok(new)
        } else {
            match self {
                Tree::Dir(children) => if names.len() == 1 {
                    Ok(Tree::Dir(children.insert(names[0], new)))
                } else if children.dom().contains(names[0]) {
                    match children[names[0]].store(names.drop_first(), new) {
                        Ok(child) => Ok(Tree::Dir(children.insert(names[0], child))),
                        Err(failure) => Err(failure),
                    }
                } else {
                    Err(Failure::PathSegmentNotFound(names[0]))
                },
                Tree::File(_) => if names.len() == 1 {
                    Err(Failure::ParentNotADirectory)
                } else {
                    Err(Failure::NotADirectory)
                },
            }
        }
    }

    /// The bytes of the file at `names`.
    pub open spec fn read(self, names: Seq<Seq<char>>) -> Result<Seq<u8>, Failure> {
        match self.lookup(names) {
            Ok(Tree::File(data)) => Ok(data),
            Ok(Tree::Dir(_)) => Err(Failure::NotAFile),
            Err(failure) => Err(failure),
        }
    }

    /// The names in the directory at `names`.
    pub open spec fn list(self, names: Seq<Seq<char>>) -> Result<Set<Seq<char>>, Failure> {
        match self.lookup(names) {
            Ok(Tree::Dir(children)) => Ok(children.dom()),
            Ok(Tree::File(_)) => Err(Failure::TargetNotADirectory),
            Err(failure) => Err(failure),
        }
    }
}

/// `first` is where `second` begins.
pub open spec fn is_prefix(first: Seq<Seq<char>>, second: Seq<Seq<char>>) -> bool {
    first.len() <= second.len() && second.take(first.len() as int) == first
}

/// `names` runs through `all` in the order of the names, each once.
pub open spec fn is_listing(names: Seq<Seq<char>>, all: Set<Seq<char>>) -> bool {
    &&& forall|i: int, j: int| 0 <= i < j < names.len() ==> name_lt(names[i], names[j])
    &&& forall|name: Seq<char>| names.contains(name) <==> all.contains(name)
}

/// The listing of `all`: its names in their order.
pub open spec fn listing(all: Set<Seq<char>>) -> Seq<Seq<char>> {
    choose|names: Seq<Seq<char>>| is_listing(names, all)
}

/// The views of the strings in `names`.
pub open spec fn names_of(names: Seq<String>) -> Seq<Seq<char>> {
    names.map_values(|name: String| name@)
}


impl Tree {
    /// The tree after `news` have been stored at `names`, one after the
    /// other; the first failure ends it.
    pub open spec fn store_all(self, names: Seq<Seq<char>>, news: Seq<Tree>) -> Result<
        Tree,
        Failure,
    >
        decreases news.len(),
    {
        if news.len() == 0 {
            Ok(self)
        } else {
            match self.store(names, news[0]) {
                Ok(tree) => tree.store_all(names, news.drop_first()),
                Err(failure) => Err(failure),
            }
        }
    }

    /// What was stored at a path is found there.
    pub proof fn lemma_lookup_after_store(self, names: Seq<Seq<char>>, new: Tree)
        requires
            self.store(names, new) is Ok,
        ensures
            self.store(names, new)->Ok_0.lookup(names) == Ok::<Tree, Failure>(new),
        decreases names.len(),
    {
        reveal_with_fuel(Tree::lookup, 2);
        if names.len() > 1 {
            let children = self->Dir_0;
            children[names[0]].lemma_lookup_after_store(names.drop_first(), new);
        }
    }

    /// Of two things stored at one path the second alone counts.
    pub proof fn lemma_last_store_wins(self, names: Seq<Seq<char>>, first: Tree, second: Tree)
        requires
            names.len() > 0,
            self.store(names, first) is Ok,
        ensures
            self.store(names, first)->Ok_0.store(names, second) == self.store(names, second),
        decreases names.len(),
    {
        let children = self->Dir_0;
        let name = names[0];
        if names.len() == 1 {
            assert(children.insert(name, first).insert(name, second) =~= children.insert(
                name,
                second,
            ));
        } else {
            let rest = names.drop_first();
            let child = children[name].store(rest, first)->Ok_0;
            children[name].lemma_last_store_wins(rest, first, second);
            if child.store(rest, second) is Ok {
                let last = child.store(rest, second)->Ok_0;
                assert(children.insert(name, child).insert(name, last) =~= children.insert(
                    name,
                    last,
                ));
            }
        }
    }

    /// After any number of things stored at one path, one after the other,
    /// the last of them is found there.
    pub proof fn lemma_last_of_all_is_found(self, names: Seq<Seq<char>>, news: Seq<Tree>)
        requires
            names.len() > 0,
            news.len() > 0,
            self.store_all(names, news) is Ok,
        ensures
            self.store_all(names, news)->Ok_0.lookup(names) == Ok::<Tree, Failure>(news.last()),
        decreases news.len(),
    {
        let next = self.store(names, news[0])->Ok_0;
        if news.len() == 1 {
            assert(next.store_all(names, news.drop_first()) == Ok::<Tree, Failure>(next));
            self.lemma_lookup_after_store(names, news[0]);
        } else {
            assert(news.drop_first().last() == news.last());
            next.lemma_last_of_all_is_found(names, news.drop_first());
        }
    }

    /// After any number of writes to one path, one after the other, reading
    /// the path gives the bytes of the last write.
    pub proof fn lemma_read_returns_last_write(self, names: Seq<Seq<char>>, writes: Seq<Seq<u8>>)
        requires
            names.len() > 0,
            writes.len() > 0,
            self.store_all(names, writes.map_values(|data: Seq<u8>| Tree::File(data))) is Ok,
        ensures
            self.store_all(names, writes.map_values(|data: Seq<u8>| Tree::File(data)))->Ok_0.read(
                names,
            ) == Ok::<Seq<u8>, Failure>(writes.last()),
    {
        let files = writes.map_values(|data: Seq<u8>| Tree::File(data));
        self.lemma_last_of_all_is_found(names, files);
    }

    /// Storing succeeds where the names before the last lead to a
    /// directory, and fails as the walk to that directory fails; where they
    /// lead to a file, the parent is no directory.
    pub proof fn lemma_store_needs_parent(self, names: Seq<Seq<char>>, new: Tree)
        requires
            names.len() > 0,
        ensures
            match self.lookup(names.drop_last()) {
                Ok(Tree::Dir(_)) => self.store(names, new) is Ok,
                Ok(Tree::File(_)) => self.store(names, new) == Err::<Tree, Failure>(
                    Failure::ParentNotADirectory,
                ),
                Err(failure) => self.store(names, new) == Err::<Tree, Failure>(failure),
            },
        decreases names.len(),
    {
        if names.len() > 1 {
            assert(names.drop_last()[0] == names[0]);
            assert(names.drop_last().drop_first() =~= names.drop_first().drop_last());
            if let Tree::Dir(children) = self {
                if children.dom().contains(names[0]) {
                    children[names[0]].lemma_store_needs_parent(names.drop_first(), new);
                }
            }
        }
    }

    /// After a store the directory that holds the new entry lists what it
    /// listed before, and the new name.
    pub proof fn lemma_stored_is_listed(self, names: Seq<Seq<char>>, new: Tree)
        requires
            names.len() > 0,
            self.store(names, new) is Ok,
        ensures
            self.list(names.drop_last()) is Ok,
            self.store(names, new)->Ok_0.list(names.drop_last()) == Ok::<
                Set<Seq<char>>,
                Failure,
            >(self.list(names.drop_last())->Ok_0.insert(names.last())),
        decreases names.len(),
    {
        let children = self->Dir_0;
        if names.len() == 1 {
            assert(names.drop_last() =~= Seq::<Seq<char>>::empty());
            assert(children.insert(names[0], new).dom() =~= children.dom().insert(names[0]));
        } else {
            assert(names.drop_last()[0] == names[0]);
            assert(names.drop_last().drop_first() =~= names.drop_first().drop_last());
            assert(names.drop_first().last() == names.last());
            children[names[0]].lemma_stored_is_listed(names.drop_first(), new);
        }
    }

    /// A store changes what lies at its path, below it and above it, and
    /// nothing else: a path that neither leads to the place of the store
    /// nor through it finds what it found before.
    pub proof fn lemma_store_leaves_others(
        self,
        names: Seq<Seq<char>>,
        new: Tree,
        other: Seq<Seq<char>>,
    )
        requires
            names.len() > 0,
            self.store(names, new) is Ok,
            !is_prefix(names, other),
            !is_prefix(other, names),
        ensures
            self.store(names, new)->Ok_0.lookup(other) == self.lookup(other),
        decreases names.len(),
    {
        let children = self->Dir_0;
        if other.len() == 0 {
            assert(names.take(0) =~= other);
        } else if other[0] == names[0] {
            let rest = names.drop_first();
            let beyond = other.drop_first();
            if names.len() == 1 {
                assert(other.take(1) =~= names);
            } else if other.len() == 1 {
                assert(names.take(1) =~= other);
            } else {
                if is_prefix(rest, beyond) {
                    assert(other.take(names.len() as int) =~= names) by {
                        assert forall|i: int| 0 <= i < names.len() implies other.take(
                            names.len() as int,
                        )[i] == names[i] by {
                            if i > 0 {
                                assert(beyond.take(rest.len() as int)[i - 1] == rest[i - 1]);
                            }
                        }
                    }
                }
                if is_prefix(beyond, rest) {
                    assert(names.take(other.len() as int) =~= other) by {
                        assert forall|i: int| 0 <= i < other.len() implies names.take(
                            other.len() as int,
                        )[i] == other[i] by {
                            if i > 0 {
                                assert(rest.take(beyond.len() as int)[i - 1] == beyond[i - 1]);
                            }
                        }
                    }
                }
                children[names[0]].lemma_store_leaves_others(rest, new, beyond);
            }
        }
    }

    /// A store into a directory leaves a directory.
    pub proof fn lemma_store_keeps_directory(self, names: Seq<Seq<char>>, new: Tree)
        requires
            names.len() > 0,
            self.store(names, new) is Ok,
        ensures
            self is Dir,
            self.store(names, new)->Ok_0 is Dir,
    {
    }
}

/// A set of names has one listing only.
pub proof fn lemma_listing_unique(first: Seq<Seq<char>>, second: Seq<Seq<char>>, all: Set<Seq<char>>)
    requires
        is_listing(first, all),
        is_listing(second, all),
    ensures
        first == second,
    decreases first.len(),
{
    if first.len() == 0 {
        if second.len() > 0 {
            assert(second.contains(second[0]));
            assert(first.contains(second[0]));
        }
        assert(first =~= second);
    } else if second.len() == 0 {
        assert(first.contains(first[0]));
        assert(second.contains(first[0]));
    } else {
        // The least name stands first in both.
        let a = first[0];
        let b = second[0];
        assert(first.contains(a));
        assert(second.contains(b));
        assert(second.contains(a));
        assert(first.contains(b));
        let i = choose|i: int| 0 <= i < second.len() && second[i] == a;
        let j = choose|j: int| 0 <= j < first.len() && first[j] == b;
        lemma_name_lt_total(a, b);
        lemma_name_lt_irreflexive(a);
        assert(a == b);
        let rest = all.remove(a);
        assert forall|name: Seq<char>| first.drop_first().contains(name) <==> rest.contains(
            name,
        ) by {
            lemma_listing_tail(first, all, name);
        }
        assert forall|name: Seq<char>| second.drop_first().contains(name) <==> rest.contains(
            name,
        ) by {
            lemma_listing_tail(second, all, name);
        }
        assert(is_listing(first.drop_first(), rest)) by {
            assert forall|i: int, j: int| 0 <= i < j < first.drop_first().len() implies name_lt(
                first.drop_first()[i],
                first.drop_first()[j],
            ) by {
                assert(first.drop_first()[i] == first[i + 1]);
                assert(first.drop_first()[j] == first[j + 1]);
            }
        }
        assert(is_listing(second.drop_first(), rest)) by {
            assert forall|i: int, j: int| 0 <= i < j < second.drop_first().len() implies name_lt(
                second.drop_first()[i],
                second.drop_first()[j],
            ) by {
                assert(second.drop_first()[i] == second[i + 1]);
                assert(second.drop_first()[j] == second[j + 1]);
            }
        }
        lemma_listing_unique(first.drop_first(), second.drop_first(), rest);
        assert(first =~= seq![a] + first.drop_first());
        assert(second =~= seq![b] + second.drop_first());
    }
}

/// A listing of a set is the listing of that set.
pub proof fn lemma_listing_is(names: Seq<Seq<char>>, all: Set<Seq<char>>)
    requires
        is_listing(names, all),
    ensures
        names == listing(all),
{
    lemma_listing_unique(names, listing(all), all);
}

/// What follows the first name of a listing lists the other names.
proof fn lemma_listing_tail(names: Seq<Seq<char>>, all: Set<Seq<char>>, name: Seq<char>)
    requires
        is_listing(names, all),
        names.len() > 0,
    ensures
        names.drop_first().contains(name) <==> all.remove(names[0]).contains(name),
{
    let tail = names.drop_first();
    lemma_name_lt_irreflexive(names[0]);
    if tail.contains(name) {
        let i = choose|i: int| 0 <= i < tail.len() && tail[i] == name;
        assert(names[i + 1] == name);
        assert(names.contains(name));
        assert(name_lt(names[0], names[i + 1]));
    }
    if all.remove(names[0]).contains(name) {
        assert(names.contains(name));
        let i = choose|i: int| 0 <= i < names.len() && names[i] == name;
        assert(tail[i - 1] == name);
    }
}

} // verus!
