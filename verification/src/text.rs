//! Strings seen as sequences of characters: conversion, and the order in
//! which names are kept.

use vstd::prelude::*;
use vstd::string::StringExecFns;
use vstd::utf8::{decode_utf8, valid_utf8};

verus! {

/// The characters of `s`, in order.
pub fn chars_of(s: &str) -> (chars: Vec<char>)
    ensures
        chars@ == s@,
{
    let mut chars: Vec<char> = Vec::new();
    for c in it: s.chars()
        invariant
            chars@ == it.seq().take(it.index()),
    {
        chars.push(c);
    }
    chars
}

/// `String::push`: the character is added at the end.
#[verifier::external_body]
pub(crate) fn push_char(text: &mut String, c: char)
    ensures
        final(text)@ == old(text)@.push(c),
{
    text.push(c)
}

/// `String::pop`: the last character is taken off and returned, or `None`
/// where the string is empty.
#[verifier::external_body]
pub(crate) fn pop_char(text: &mut String) -> (last: Option<char>)
    ensures
        old(text)@.len() == 0 ==> last is None && final(text)@ == old(text)@,
        old(text)@.len() > 0 ==> last == Some(old(text)@.last()) && final(text)@ == old(
            text,
        )@.drop_last(),
{
    text.pop()
}

/// Lexicographic order by code point: `a` comes strictly before `b`.
pub open spec fn name_lt(a: Seq<char>, b: Seq<char>) -> bool
    decreases a.len(),
{
    if b.len() == 0 {
        false
    } else if a.len() == 0 {
        true
    } else if a[0] == b[0] {
        name_lt(a.drop_first(), b.drop_first())
    } else {
        (a[0] as int) < (b[0] as int)
    }
}

/// How two names stand to each other in the order of `name_lt`.
#[derive(Clone, Copy, Debug, PartialEq, Eq, Structural)]
pub enum NameOrder {
    Before,
    Same,
    After,
}

/// No name comes before itself.
pub proof fn lemma_name_lt_irreflexive(a: Seq<char>)
    ensures
        !name_lt(a, a),
    decreases a.len(),
{
    if a.len() > 0 {
        lemma_name_lt_irreflexive(a.drop_first());
    }
}

/// The order is transitive.
pub proof fn lemma_name_lt_transitive(a: Seq<char>, b: Seq<char>, c: Seq<char>)
    requires
        name_lt(a, b),
        name_lt(b, c),
    ensures
        name_lt(a, c),
    decreases a.len(),
{
    if a.len() > 0 && a[0] == b[0] && b[0] == c[0] {
        lemma_name_lt_transitive(a.drop_first(), b.drop_first(), c.drop_first());
    }
}

/// Of two different names exactly one comes first.
pub proof fn lemma_name_lt_total(a: Seq<char>, b: Seq<char>)
    ensures
        name_lt(a, b) || a == b || name_lt(b, a),
        !(name_lt(a, b) && name_lt(b, a)),
    decreases a.len(),
{
    if a.len() > 0 && b.len() > 0 {
        if a[0] == b[0] {
            lemma_name_lt_total(a.drop_first(), b.drop_first());
            if a.drop_first() == b.drop_first() {
                assert(a =~= seq![a[0]] + a.drop_first());
                assert(b =~= seq![b[0]] + b.drop_first());
            }
        }
    } else if a.len() == 0 && b.len() == 0 {
        assert(a =~= b);
    }
}

/// Beyond a common prefix, the order of two names is that of what follows it.
proof fn lemma_name_lt_skip(a: Seq<char>, b: Seq<char>, n: int)
    requires
        0 <= n <= a.len(),
        n <= b.len(),
        a.take(n) == b.take(n),
    ensures
        name_lt(a, b) == name_lt(a.skip(n), b.skip(n)),
    decreases n,
{
    if n > 0 {
        assert(a[0] == a.take(n)[0]);
        assert(b[0] == b.take(n)[0]);
        assert(a.drop_first().take(n - 1) =~= a.take(n).drop_first());
        assert(b.drop_first().take(n - 1) =~= b.take(n).drop_first());
        lemma_name_lt_skip(a.drop_first(), b.drop_first(), n - 1);
        assert(a.drop_first().skip(n - 1) =~= a.skip(n));
        assert(b.drop_first().skip(n - 1) =~= b.skip(n));
    } else {
        assert(a.skip(0) =~= a);
        assert(b.skip(0) =~= b);
    }
}

/// Compares two names given by their characters.
pub fn compare_chars(left: &Vec<char>, right: &Vec<char>) -> (order: NameOrder)
    ensures
        order == NameOrder::Before <==> name_lt(left@, right@),
        order == NameOrder::Same <==> left@ == right@,
        order == NameOrder::After <==> name_lt(right@, left@),
{
    let mut i: usize = 0;
    while i < left.len() && i < right.len() && left[i] == right[i]
        invariant
            i <= left.len(),
            i <= right.len(),
            left@.take(i as int) == right@.take(i as int),
        decreases left.len() - i,
    {
        assert(left@.take(i + 1) =~= left@.take(i as int).push(left@[i as int]));
        assert(right@.take(i + 1) =~= right@.take(i as int).push(right@[i as int]));
        i = i + 1;
    }
    proof {
        lemma_name_lt_skip(left@, right@, i as int);
        lemma_name_lt_skip(right@, left@, i as int);
        lemma_name_lt_total(left@, right@);
        if i == left.len() && i == right.len() {
            assert(left@ =~= left@.take(i as int));
            assert(right@ =~= right@.take(i as int));
        }
    }
    if i == left.len() {
        if i == right.len() {
            NameOrder::Same
        } else {
            NameOrder::Before
        }
    } else if i == right.len() {
        NameOrder::After
    } else if left[i] < right[i] {
        NameOrder::Before
    } else {
        NameOrder::After
    }
}

/// Compares two names.
pub fn compare_names(a: &str, b: &str) -> (order: NameOrder)
    ensures
        order == NameOrder::Before <==> name_lt(a@, b@),
        order == NameOrder::Same <==> a@ == b@,
        order == NameOrder::After <==> name_lt(b@, a@),
{
    let left = chars_of(a);
    let right = chars_of(b);
    compare_chars(&left, &right)
}

/// What cuts a text into pieces.
#[derive(Clone, Copy, Debug, PartialEq, Eq, Structural)]
pub enum Separator {
    /// The character `/`, which parts the names of a path.
    Slash,
    /// Any white space, which parts the words of a line.
    Whitespace,
}

/// The characters that Unicode counts as white space.
pub open spec fn is_whitespace(c: char) -> bool {
    let code = c as int;
    ||| 0x09 <= code <= 0x0d
    ||| code == 0x20
    ||| code == 0x85
    ||| code == 0xa0
    ||| code == 0x1680
    ||| 0x2000 <= code <= 0x200a
    ||| code == 0x2028
    ||| code == 0x2029
    ||| code == 0x202f
    ||| code == 0x205f
    ||| code == 0x3000
}

impl Separator {
    /// Whether `c` is a separator of this kind.
    pub open spec fn separates(self, c: char) -> bool {
        match self {
            Separator::Slash => c == '/',
            Separator::Whitespace => is_whitespace(c),
        }
    }

    /// Whether `c` is a separator of this kind.
    pub fn cuts(self, c: char) -> (cut: bool)
        ensures
            cut == self.separates(c),
    {
        match self {
            Separator::Slash => c == '/',
            Separator::Whitespace => {
                let code = c as u32;
                (0x09 <= code && code <= 0x0d) || code == 0x20 || code == 0x85 || code == 0xa0
                    || code == 0x1680 || (0x2000 <= code && code <= 0x200a) || code == 0x2028
                    || code == 0x2029 || code == 0x202f || code == 0x205f || code == 0x3000
            },
        }
    }
}

/// The views of the pieces in `parts`.
pub open spec fn views_of(parts: Seq<&str>) -> Seq<Seq<char>> {
    parts.map_values(|part: &str| part@)
}

/// A word: not empty, and without separator.
pub open spec fn is_word(word: Seq<char>, sep: Separator) -> bool {
    word.len() > 0 && forall|i: int| 0 <= i < word.len() ==> !sep.separates(word[i])
}

/// Length of the longest prefix of `s` that holds no separator.
pub open spec fn run_length(s: Seq<char>, sep: Separator) -> nat
    decreases s.len(),
{
    if s.len() == 0 || sep.separates(s[0]) {
        0
    } else {
        1 + run_length(s.drop_first(), sep)
    }
}

/// The pieces of `path` between separators: its maximal runs of characters
/// that are none.
pub open spec fn pieces(path: Seq<char>, sep: Separator) -> Seq<Seq<char>>
    decreases path.len(),
    via pieces_decreases
{
    if path.len() == 0 {
        Seq::empty()
    } else if sep.separates(path[0]) {
        pieces(path.drop_first(), sep)
    } else {
        let n = run_length(path, sep) as int;
        seq![path.take(n)] + pieces(path.skip(n), sep)
    }
}

#[via_fn]
proof fn pieces_decreases(path: Seq<char>, sep: Separator) {
    if path.len() > 0 && !sep.separates(path[0]) {
        lemma_run_length_bounds(path, sep);
    }
}

pub proof fn lemma_run_length_bounds(s: Seq<char>, sep: Separator)
    ensures
        run_length(s, sep) <= s.len(),
        s.len() > 0 && !sep.separates(s[0]) ==> run_length(s, sep) >= 1,
        forall|i: int| 0 <= i < run_length(s, sep) ==> !sep.separates(s[i]),
        run_length(s, sep) < s.len() ==> sep.separates(s[run_length(s, sep) as int]),
    decreases s.len(),
{
    if s.len() > 0 && !sep.separates(s[0]) {
        let rest = s.drop_first();
        lemma_run_length_bounds(rest, sep);
        assert forall|i: int| 0 <= i < run_length(s, sep) implies !sep.separates(s[i]) by {
            if i > 0 {
                assert(s[i] == rest[i - 1]);
            }
        }
        if run_length(s, sep) < s.len() {
            assert(s[run_length(s, sep) as int] == rest[run_length(rest, sep) as int]);
        }
    }
}

/// A run that is known to end at `n` has length `n`.
pub proof fn lemma_run_length_is(s: Seq<char>, sep: Separator, n: int)
    requires
        0 <= n <= s.len(),
        forall|i: int| 0 <= i < n ==> !sep.separates(s[i]),
        n < s.len() ==> sep.separates(s[n]),
    ensures
        run_length(s, sep) == n,
    decreases n,
{
    if n > 0 {
        let rest = s.drop_first();
        assert forall|i: int| 0 <= i < n - 1 implies !sep.separates(rest[i]) by {
            assert(rest[i] == s[i + 1]);
        }
        lemma_run_length_is(rest, sep, n - 1);
    }
}

/// Every piece is a word: not empty, and without separator.
pub proof fn lemma_pieces_are_words(path: Seq<char>, sep: Separator)
    ensures
        forall|i: int| 0 <= i < pieces(path, sep).len() ==> is_word(#[trigger] pieces(path, sep)[i], sep),
    decreases path.len(),
{
    if path.len() == 0 {
        assert(pieces(path, sep).len() == 0);
    } else if sep.separates(path[0]) {
        lemma_pieces_are_words(path.drop_first(), sep);
        assert(pieces(path, sep) == pieces(path.drop_first(), sep));
    } else {
        let n = run_length(path, sep) as int;
        lemma_run_length_bounds(path, sep);
        lemma_pieces_are_words(path.skip(n), sep);
        assert(is_word(path.take(n), sep));
        let rest = pieces(path.skip(n), sep);
        assert(pieces(path, sep) == seq![path.take(n)] + rest);
        assert forall|i: int| 0 <= i < pieces(path, sep).len() implies is_word(
            #[trigger] pieces(path, sep)[i],
            sep,
        ) by {
            if i > 0 {
                assert(pieces(path, sep)[i] == rest[i - 1]);
            } else {
                assert(pieces(path, sep)[i] == path.take(n));
            }
        }
    }
}

/// A word is the one piece of itself.
pub proof fn lemma_single_piece(name: Seq<char>, sep: Separator)
    requires
        is_word(name, sep),
    ensures
        pieces(name, sep) == seq![name],
{
    lemma_run_length_is(name, sep, name.len() as int);
    assert(name.take(name.len() as int) =~= name);
    assert(pieces(name.skip(name.len() as int), sep) =~= Seq::<Seq<char>>::empty());
    assert(seq![name] + Seq::<Seq<char>>::empty() =~= seq![name]);
}

/// Cutting a text at a separator cuts its pieces in the same place.
pub proof fn lemma_pieces_concat(a: Seq<char>, c: char, b: Seq<char>, sep: Separator)
    requires
        sep.separates(c),
    ensures
        pieces(a + seq![c] + b, sep) == pieces(a, sep) + pieces(b, sep),
    decreases a.len(),
{
    let whole = a + seq![c] + b;
    if a.len() == 0 {
        assert(whole.drop_first() =~= b);
        assert(pieces(a, sep) + pieces(b, sep) =~= pieces(b, sep));
    } else if sep.separates(a[0]) {
        assert(whole.drop_first() =~= a.drop_first() + seq![c] + b);
        lemma_pieces_concat(a.drop_first(), c, b, sep);
    } else {
        let n = run_length(a, sep) as int;
        lemma_run_length_bounds(a, sep);
        lemma_run_length_is(whole, sep, n);
        assert(whole.take(n) =~= a.take(n));
        assert(whole.skip(n) =~= a.skip(n) + seq![c] + b);
        lemma_pieces_concat(a.skip(n), c, b, sep);
        assert(seq![a.take(n)] + (pieces(a.skip(n), sep) + pieces(b, sep)) =~= (seq![a.take(n)]
            + pieces(a.skip(n), sep)) + pieces(b, sep));
    }
}

/// Cuts `path` at the separators into its pieces.
pub fn split<'a>(path: &'a str, sep: Separator) -> (parts: Vec<&'a str>)
    ensures
        views_of(parts@) == pieces(path@, sep),
{
    let chars = chars_of(path);
    let n = chars.len();
    let mut parts: Vec<&'a str> = Vec::new();
    let mut i: usize = 0;
    proof {
        assert(path@.skip(0) =~= path@);
        assert(views_of(parts@) + pieces(path@, sep) =~= pieces(path@, sep));
    }
    while i < n
        invariant
            i <= n,
            n == chars.len(),
            chars@ == path@,
            pieces(path@, sep) == views_of(parts@) + pieces(path@.skip(i as int), sep),
        decreases n - i,
    {
        let ghost rest = path@.skip(i as int);
        if sep.cuts(chars[i]) {
            proof {
                assert(rest.drop_first() =~= path@.skip(i + 1));
            }
            i = i + 1;
        } else {
            let start = i;
            let mut end = i + 1;
            while end < n && !sep.cuts(chars[end])
                invariant
                    start < end <= n,
                    n == chars.len(),
                    forall|k: int| start <= k < end ==> !sep.separates(chars@[k]),
                decreases n - end,
            {
                end = end + 1;
            }
            let part = path.substring_char(start, end);
            proof {
                lemma_run_length_is(rest, sep, end - start);
                assert(rest.take(end - start) =~= path@.subrange(start as int, end as int));
                assert(rest.skip(end - start) =~= path@.skip(end as int));
                assert(views_of(parts@.push(part)) =~= views_of(parts@).push(part@));
                assert(views_of(parts@).push(part@) + pieces(path@.skip(end as int), sep)
                    =~= views_of(parts@) + (seq![part@] + pieces(path@.skip(end as int), sep)));
            }
            parts.push(part);
            i = end;
        }
    }
    proof {
        assert(views_of(parts@) + Seq::<Seq<char>>::empty() =~= views_of(parts@));
    }
    parts
}


/// Whether `text` begins with `c`.
pub fn starts_with_char(text: &str, c: char) -> (starts: bool)
    ensures
        starts == (text@.len() > 0 && text@[0] == c),
{
    !text.is_empty() && text.get_char(0) == c
}

/// Whether two strings hold the same characters.
pub fn same_text(a: &str, b: &str) -> (same: bool)
    ensures
        same == (a@ == b@),
{
    compare_names(a, b) == NameOrder::Same
}

/// `parts` in a row, with `between` between one and the next.
pub open spec fn joined(parts: Seq<Seq<char>>, between: Seq<char>) -> Seq<char>
    decreases parts.len(),
{
    if parts.len() == 0 {
        Seq::empty()
    } else if parts.len() == 1 {
        parts[0]
    } else {
        joined(parts.drop_last(), between) + between + parts.last()
    }
}

/// Puts `parts` in a row, with `between` between one and the next.
pub fn join(parts: &[&str], between: &str) -> (text: String)
    ensures
        text@ == joined(views_of(parts@), between@),
{
    let mut text = String::new();
    let mut i: usize = 0;
    while i < parts.len()
        invariant
            i <= parts@.len(),
            text@ == joined(views_of(parts@).take(i as int), between@),
        decreases parts@.len() - i,
    {
        proof {
            let all = views_of(parts@);
            assert(all.take(i + 1).drop_last() =~= all.take(i as int));
            assert(all.take(i + 1).last() == parts@[i as int]@);
            if i == 0 {
                assert(text@ + parts@[0]@ =~= parts@[0]@);
            }
        }
        if i > 0 {
            text.append(between);
        }
        text.append(parts[i]);
        i = i + 1;
    }
    proof {
        assert(views_of(parts@).take(parts@.len() as int) =~= views_of(parts@));
    }
    text
}

/// `text` without the run of `c` that it begins with.
pub open spec fn without_leading(text: Seq<char>, c: char) -> Seq<char>
    decreases text.len(),
{
    if text.len() > 0 && text[0] == c {
        without_leading(text.drop_first(), c)
    } else {
        text
    }
}

/// Takes off the run of `c` that `text` begins with.
pub fn trim_leading<'a>(text: &'a str, c: char) -> (rest: &'a str)
    ensures
        rest@ == without_leading(text@, c),
{
    let chars = chars_of(text);
    let mut i: usize = 0;
    proof {
        assert(text@.skip(0) =~= text@);
    }
    while i < chars.len() && chars[i] == c
        invariant
            i <= chars@.len(),
            chars@ == text@,
            without_leading(text@, c) == without_leading(text@.skip(i as int), c),
        decreases chars@.len() - i,
    {
        proof {
            assert(text@.skip(i as int).drop_first() =~= text@.skip(i + 1));
        }
        i = i + 1;
    }
    proof {
        assert(text@.subrange(i as int, text@.len() as int) =~= text@.skip(i as int));
    }
    text.substring_char(i, chars.len())
}

/// What the standard library says of a byte sequence that is no UTF-8.
pub uninterp spec fn utf8_error_text(bytes: Seq<u8>) -> Seq<char>;

/// `String::from_utf8`: the text that the bytes encode, or, where they are
/// no UTF-8, the error; its `Display` text stands in its place here.
#[verifier::external_body]
pub(crate) fn string_from_utf8(bytes: Vec<u8>) -> (text: Result<String, String>)
    ensures
        valid_utf8(bytes@) ==> text is Ok && text->Ok_0@ == decode_utf8(bytes@),
        !valid_utf8(bytes@) ==> text is Err && text->Err_0@ == utf8_error_text(bytes@),
{
    match String::from_utf8(bytes) {
        Ok(text) => Ok(text),
        Err(error) => Err(error.to_string()),
    }
}

} // verus!
