use kernel_core::text::{
    chars_of, compare_chars, compare_names, join, same_text, split, starts_with_char,
    trim_leading, NameOrder, Separator,
};

#[test]
fn chars_of_gives_the_characters() {
    assert_eq!(chars_of("héllo"), vec!['h', 'é', 'l', 'l', 'o']);
    assert_eq!(chars_of(""), Vec::<char>::new());
}

#[test]
fn names_compare_by_code_point() {
    assert_eq!(compare_names("a", "b"), NameOrder::Before);
    assert_eq!(compare_names("b", "a"), NameOrder::After);
    assert_eq!(compare_names("abc", "abc"), NameOrder::Same);
    assert_eq!(compare_names("ab", "abc"), NameOrder::Before);
    assert_eq!(compare_names("abc", "ab"), NameOrder::After);
    assert_eq!(compare_names("", ""), NameOrder::Same);
    assert_eq!(compare_names("", "a"), NameOrder::Before);
    assert_eq!(compare_names("Z", "a"), NameOrder::Before);
    assert_eq!(compare_names("z", "é"), NameOrder::Before);
    assert_eq!(compare_chars(&vec!['x', 'y'], &vec!['x', 'z']), NameOrder::Before);
}

#[test]
fn names_compare_as_strings_do() {
    let names = ["", "a", "ab", "b", "B", "é", "zz", "a/b", "\u{10000}", "\u{ffff}", "~"];
    for a in names {
        for b in names {
            let expected = if a < b {
                NameOrder::Before
            } else if a == b {
                NameOrder::Same
            } else {
                NameOrder::After
            };
            assert_eq!(compare_names(a, b), expected, "{:?} against {:?}", a, b);
            assert_eq!(same_text(a, b), a == b);
        }
    }
}

#[test]
fn split_drops_empty_pieces() {
    assert_eq!(split("/a//b/", Separator::Slash), vec!["a", "b"]);
    assert_eq!(split("a b", Separator::Slash), vec!["a b"]);
    assert_eq!(split("", Separator::Slash), Vec::<&str>::new());
    assert_eq!(split("////", Separator::Slash), Vec::<&str>::new());
    assert_eq!(split("é/ü", Separator::Slash), vec!["é", "ü"]);
    assert_eq!(
        split("  touch\t/f.txt \u{a0}hi\u{3000}there\n", Separator::Whitespace),
        vec!["touch", "/f.txt", "hi", "there"]
    );
    assert_eq!(split(" \t ", Separator::Whitespace), Vec::<&str>::new());
}

#[test]
fn white_space_is_what_the_standard_library_says() {
    for code in 0..0x11_0000u32 {
        if let Some(c) = char::from_u32(code) {
            assert_eq!(Separator::Whitespace.cuts(c), c.is_whitespace(), "U+{:04X}", code);
            assert_eq!(Separator::Slash.cuts(c), c == '/');
        }
    }
}

#[test]
fn split_is_split_whitespace() {
    for line in ["", "a", " a", "a ", "mkdir  /a/b", "\ttouch /f \"x  y\" ", "é ü"] {
        let expected: Vec<&str> = line.split_whitespace().collect();
        assert_eq!(split(line, Separator::Whitespace), expected);
    }
}

#[test]
fn join_puts_the_separator_between() {
    assert_eq!(join(&["a", "b", "c"], "/"), "a/b/c");
    assert_eq!(join(&["a"], "/"), "a");
    assert_eq!(join(&[], "/"), "");
    assert_eq!(join(&["", ""], ", "), ", ");
}

#[test]
fn first_characters() {
    assert!(starts_with_char("/a", '/'));
    assert!(!starts_with_char("a/", '/'));
    assert!(!starts_with_char("", '/'));
    assert!(starts_with_char("é", 'é'));
}

#[test]
fn trim_leading_takes_the_whole_run() {
    assert_eq!(trim_leading("///a/b", '/'), "a/b");
    assert_eq!(trim_leading("a//", '/'), "a//");
    assert_eq!(trim_leading("//", '/'), "");
    assert_eq!(trim_leading("", '/'), "");
}
