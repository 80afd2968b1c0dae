//! Paths: strings cut at `/` into the names that a walk through the tree
//! follows. Empty pieces are dropped, so leading, trailing and repeated
//! separators do not matter; `.` and `..` are names like any other.

use vstd::prelude::*;
use crate::text::{
    is_word, lemma_pieces_are_words, lemma_pieces_concat, lemma_single_piece, pieces, split,
    views_of, Separator,
};

verus! {

/// The names along `path`: its maximal runs of characters other than `/`.
pub open spec fn path_segments(path: Seq<char>) -> Seq<Seq<char>> {
    pieces(path, Separator::Slash)
}

/// A name as it can stand in a directory: not empty, and without `/`.
pub open spec fn is_name(name: Seq<char>) -> bool {
    is_word(name, Separator::Slash)
}

/// Every segment of a path is a name.
pub proof fn lemma_segments_are_names(path: Seq<char>)
    ensures
        forall|i: int|
            0 <= i < path_segments(path).len() ==> is_name(#[trigger] path_segments(path)[i]),
{
    lemma_pieces_are_words(path, Separator::Slash);
}

/// A name is the one segment of itself.
pub proof fn lemma_single_segment(name: Seq<char>)
    requires
        is_name(name),
    ensures
        path_segments(name) == seq![name],
{
    lemma_single_piece(name, Separator::Slash);
}

/// Cutting a path at a separator cuts its segments in the same place.
pub proof fn lemma_segments_concat(a: Seq<char>, b: Seq<char>)
    ensures
        path_segments(a + seq!['/'] + b) == path_segments(a) + path_segments(b),
{
    lemma_pieces_concat(a, '/', b, Separator::Slash);
}

/// Paths that differ only by a repeated, a leading or a trailing separator
/// have the same segments.
pub proof fn lemma_redundant_separators(a: Seq<char>, b: Seq<char>)
    ensures
        path_segments(a + seq!['/', '/'] + b) == path_segments(a + seq!['/'] + b),
        path_segments(seq!['/'] + b) == path_segments(b),
        path_segments(a + seq!['/']) == path_segments(a),
{
    let empty = Seq::<char>::empty();
    lemma_segments_concat(a, b);
    lemma_segments_concat(a, seq!['/'] + b);
    lemma_segments_concat(empty, b);
    lemma_segments_concat(a, empty);
    assert(a + seq!['/', '/'] + b =~= a + seq!['/'] + (seq!['/'] + b));
    assert(empty + seq!['/'] + b =~= seq!['/'] + b);
    assert(a + seq!['/'] + empty =~= a + seq!['/']);
    assert(path_segments(empty) + path_segments(b) =~= path_segments(b));
    assert(path_segments(a) + path_segments(empty) =~= path_segments(a));
}

/// Cuts `path` into its segments.
pub fn split_path<'a>(path: &'a str) -> (parts: Vec<&'a str>)
    ensures
        views_of(parts@) == path_segments(path@),
{
    split(path, Separator::Slash)
}

} // verus!
