use kernel_core::fs::Filesystem;
use kernel_core::task::keyboard::{Key, KeyCallbacks};
use kernel_core::task::shell::{
    absolute_path, cat, cd, clear, commands, find_command, hello, help, ls, mkdir, test as demo,
    touch, CommandKind, Shell, ShellAction,
};
use pc_keyboard::KeyCode;

fn seeded() -> Filesystem {
    let mut disk = Filesystem::new();
    kernel_core::fs::init(&mut disk);
    disk
}

fn started() -> Shell {
    let mut registry: KeyCallbacks<u8> = KeyCallbacks::new();
    let (shell, actions) = kernel_core::task::shell::init(&mut registry, 0u8);
    assert_eq!(
        actions,
        vec![ShellAction::ClearScreen, ShellAction::Print("$ ".to_string())]
    );
    shell
}

/// Types `line` and the end of the line; gives what was written, without
/// the echo of the keys and the new prompt.
fn run(shell: &mut Shell, disk: &mut Filesystem, line: &str) -> String {
    for c in line.chars() {
        assert!(shell.accepts(disk, Key::Unicode(c)));
        assert_eq!(
            shell.key_pressed(disk, Key::Unicode(c)),
            vec![ShellAction::Print(c.to_string())]
        );
    }
    assert_eq!(shell.typed(), line);
    assert!(shell.accepts(disk, Key::Unicode('\n')));
    let mut actions = shell.key_pressed(disk, Key::Unicode('\n'));
    assert_eq!(shell.typed(), "");
    assert_eq!(actions.pop(), Some(ShellAction::SetColumn(2)));
    assert_eq!(actions.pop(), Some(ShellAction::Print("\n$ ".to_string())));
    let mut written = String::new();
    for action in actions {
        match action {
            ShellAction::Print(text) => written.push_str(&text),
            other => panic!("unexpected {:?}", other),
        }
    }
    written
}

#[test]
fn end_to_end() {
    let mut disk = seeded();
    let mut shell = started();
    assert_eq!(
        kernel_core::fs::read(&disk, "/welcome/hello.txt").unwrap(),
        b"hello! welcome to unsafeOS! this filesystem only runs on your memmory!".to_vec()
    );
    assert_eq!(run(&mut shell, &mut disk, "mkdir /a/b"), "");
    assert_eq!(run(&mut shell, &mut disk, "ls /a"), "\nb");
    assert_eq!(run(&mut shell, &mut disk, "touch /f.txt hi"), "");
    assert_eq!(run(&mut shell, &mut disk, "cat /f.txt"), "\nhi");
    assert_eq!(
        run(&mut shell, &mut disk, "cat /welcome/hello.txt"),
        "\nhello! welcome to unsafeOS! this filesystem only runs on your memmory!"
    );
    assert_eq!(run(&mut shell, &mut disk, "ls"), "\na\nf.txt\nwelcome");
    assert_eq!(run(&mut shell, &mut disk, "ls a/b"), "\n(empty directory)");
}

#[test]
fn line_editing() {
    let mut disk = seeded();
    let mut shell = started();
    assert_eq!(shell.pwd(), "/");
    assert!(shell.key_pressed(&mut disk, Key::Unicode('\x08')).is_empty());
    assert!(shell.key_pressed(&mut disk, Key::Unicode('\x7f')).is_empty());
    for c in "helloo".chars() {
        shell.key_pressed(&mut disk, Key::Unicode(c));
    }
    assert_eq!(
        shell.key_pressed(&mut disk, Key::Unicode('\x08')),
        vec![ShellAction::Backspace]
    );
    assert_eq!(shell.typed(), "hello");
    assert!(shell.key_pressed(&mut disk, Key::RawKey(KeyCode::F5)).is_empty());
    assert_eq!(shell.typed(), "hello");
    assert_eq!(
        shell.key_pressed(&mut disk, Key::Unicode('\x7f')),
        vec![ShellAction::Backspace]
    );
    assert_eq!(shell.typed(), "hell");
    shell.key_pressed(&mut disk, Key::Unicode('o'));
    assert_eq!(
        shell.key_pressed(&mut disk, Key::Unicode('\n')),
        vec![
            ShellAction::Print("\nHi :)\n".to_string()),
            ShellAction::Print("\n$ ".to_string()),
            ShellAction::SetColumn(2),
        ]
    );
    assert_eq!(shell.typed(), "");
    assert_eq!(
        shell.key_pressed(&mut disk, Key::Unicode('\n')),
        vec![ShellAction::Print("\n$ ".to_string()), ShellAction::SetColumn(2)]
    );
}

#[test]
fn lines_are_split_at_white_space() {
    let mut disk = seeded();
    let mut shell = started();
    assert_eq!(run(&mut shell, &mut disk, "   hello   world  again "), "\nHi world :)\n");
    assert_eq!(run(&mut shell, &mut disk, "   "), "");
    assert_eq!(run(&mut shell, &mut disk, "frobnicate now"), "\nUnknown command: frobnicate");
    assert_eq!(run(&mut shell, &mut disk, "cd /welcome"), "\nUnknown command: cd");
    assert_eq!(run(&mut shell, &mut disk, "Hello"), "\nUnknown command: Hello");
}

#[test]
fn help_lists_the_table() {
    let mut disk = seeded();
    let mut shell = started();
    let expected = "\n\n-- help list --\n\n\
        -- hello --\nUSAGE: hello [name]\nDESCRIPTION: displays a hello message for testing\n\
        -- clear --\nUSAGE: clear\nDESCRIPTION: Clears the shell\n\
        -- cat --\nUSAGE: cat (path)\nDESCRIPTION: displays the content of a file\n\
        -- mkdir --\nUSAGE: mkdir <path>\nDESCRIPTION: creates one or multiple new directories\n\
        -- touch --\nUSAGE: touch <path> [\"content\"]\nDESCRIPTION: creates a new file or updates timestamp, optionally with content\n\
        -- ls --\nUSAGE: ls [path]\nDESCRIPTION: Lists directory contents\n\
        -- test --\nUSAGE: test [test]\nDESCRIPTION: tests some features like: VGA graphics mode\n";
    assert_eq!(help(), expected);
    assert_eq!(run(&mut shell, &mut disk, "help me"), expected);
    assert_eq!(
        commands(),
        vec![
            CommandKind::Hello,
            CommandKind::Clear,
            CommandKind::Cat,
            CommandKind::Mkdir,
            CommandKind::Touch,
            CommandKind::Ls,
            CommandKind::Test,
        ]
    );
    for kind in commands() {
        assert_eq!(find_command(kind.name()), Some(kind));
    }
    assert_eq!(find_command("help"), None);
    assert_eq!(CommandKind::Ls.usage(), ls::USAGE);
    assert_eq!(CommandKind::Ls.description(), ls::DES);
    assert_eq!((cd::CMD, cd::USAGE, cd::DES), ("cd", "cd <path>", "Changes the current working directory"));
}

#[test]
fn clear_and_the_demonstrations_are_actions() {
    let mut disk = seeded();
    let mut shell = started();
    let mut ask = |line: &str| {
        for c in line.chars() {
            shell.key_pressed(&mut disk, Key::Unicode(c));
        }
        let mut actions = shell.key_pressed(&mut disk, Key::Unicode('\n'));
        actions.truncate(actions.len() - 2);
        actions
    };
    assert_eq!(ask("clear"), vec![ShellAction::ClearScreen]);
    assert_eq!(ask("clear the screen"), vec![ShellAction::ClearScreen]);
    assert_eq!(ask("test anim"), vec![ShellAction::PlayAnimation]);
    assert_eq!(ask("test graphics now"), vec![ShellAction::PlayGraphics]);
    assert_eq!(ask("test"), vec![ShellAction::Print("Usage: test [test]".to_string())]);
    assert_eq!(ask("test sound"), Vec::<ShellAction>::new());
    assert_eq!(clear::main(&[]), ShellAction::ClearScreen);
    assert_eq!(demo::main(&["anim"]), vec![ShellAction::PlayAnimation]);
}

#[test]
fn hello_greets() {
    assert_eq!(hello::main(&[]), "\nHi :)\n");
    assert_eq!(hello::main(&["you", "two"]), "\nHi you :)\n");
}

#[test]
fn cat_shows_text_or_says_why_not() {
    let mut disk = seeded();
    assert_eq!(cat::main(&disk, "/", &[]), "\nUSAGE: cat (path)");
    assert_eq!(cat::main(&disk, "/", &["/a", "/b"]), "\nUSAGE: cat (path)");
    assert_eq!(
        cat::main(&disk, "/", &["welcome/hello.txt"]),
        "\nhello! welcome to unsafeOS! this filesystem only runs on your memmory!"
    );
    assert_eq!(
        cat::main(&disk, "/welcome", &["hello.txt"]),
        "\nhello! welcome to unsafeOS! this filesystem only runs on your memmory!"
    );
    assert_eq!(cat::main(&disk, "/welcome", &["/hello.txt"]), "\ncat: Path not found: hello.txt");
    assert_eq!(cat::main(&disk, "/", &["/welcome"]), "\ncat: Path is not a file");
    assert_eq!(
        cat::main(&disk, "/", &["/welcome/hello.txt/x"]),
        "\ncat: Not a directory"
    );
    kernel_core::fs::write(&mut disk, "/bin", &[b'o', b'k', 0xff, b'!']).unwrap();
    let shown = cat::main(&disk, "/", &["/bin"]);
    assert_eq!(
        shown,
        format!("\ncat: Invalid UTF-8: {}", String::from_utf8(vec![b'o', b'k', 0xff, b'!']).unwrap_err())
    );
    assert_eq!(shown, "\ncat: Invalid UTF-8: invalid utf-8 sequence of 1 bytes from index 2");
    kernel_core::fs::write(&mut disk, "/utf", "grüße ✓".as_bytes()).unwrap();
    assert_eq!(cat::read_file(&disk, "/utf"), Ok("grüße ✓".to_string()));
    assert_eq!(
        cat::read_file(&Filesystem::new(), "/utf"),
        Err("Filesystem not initialized".to_string())
    );
}

#[test]
fn ls_lists_or_says_why_not() {
    let mut disk = seeded();
    assert_eq!(ls::main(&disk, "/", &[]), "\nwelcome");
    assert_eq!(ls::main(&disk, "/welcome", &[]), "\nhello.txt");
    assert_eq!(ls::main(&disk, "/", &["welcome"]), "\nhello.txt");
    assert_eq!(ls::main(&disk, "/nowhere", &["/welcome", "ignored"]), "\nhello.txt");
    assert_eq!(
        ls::main(&disk, "/", &["nope"]),
        "\nError listing '/nope': Path not found: nope"
    );
    assert_eq!(
        ls::main(&disk, "/welcome", &["hello.txt"]),
        "\nError listing '/welcome/hello.txt': Path is not a directory"
    );
    kernel_core::fs::create_dir(&mut disk, "/empty").unwrap();
    assert_eq!(ls::main(&disk, "/", &["/empty"]), "\n(empty directory)");
    assert_eq!(
        ls::main(&Filesystem::new(), "/", &[]),
        "\nError listing '/': Filesystem not initialized"
    );
    assert_eq!(absolute_path("/", "x"), "/x");
    assert_eq!(absolute_path("/a", "x"), "/a/x");
    assert_eq!(absolute_path("/a", "/x"), "/x");
    assert_eq!(absolute_path("/a", ""), "/a/");
}

#[test]
fn mkdir_makes_the_directories_above() {
    let mut disk = seeded();
    assert_eq!(mkdir::main(&mut disk, "/", &[]), "\nUSAGE: mkdir <path>\n");
    assert_eq!(mkdir::main(&mut disk, "/", &["/a/b/c", "x/y"]), "");
    assert_eq!(ls::main(&disk, "/", &[]), "\na\nwelcome\nx");
    assert_eq!(ls::main(&disk, "/", &["/a/b"]), "\nc");
    assert_eq!(ls::main(&disk, "/", &["/x"]), "\ny");
    assert_eq!(
        mkdir::main(&mut disk, "/", &["", "//", "/ok"]),
        "Error creating '': path cannot be empty\nError creating '//': invalid path\n"
    );
    assert_eq!(ls::main(&disk, "/", &["/ok"]), "\n(empty directory)");
    assert_eq!(mkdir::create_directory(&mut disk, "/", ""), Err("path cannot be empty"));
    assert_eq!(mkdir::create_directory(&mut disk, "/", "///"), Err("invalid path"));
    assert_eq!(mkdir::create_directory(&mut disk, "/a", "rel"), Ok(()));
    assert_eq!(ls::main(&disk, "/", &["/a"]), "\nb\nrel");
}

#[test]
fn mkdir_empties_what_it_passes_through() {
    let mut disk = seeded();
    assert_eq!(mkdir::create_directory(&mut disk, "/", "/welcome/new"), Ok(()));
    assert_eq!(ls::main(&disk, "/", &["/welcome"]), "\nnew");
    kernel_core::fs::write(&mut disk, "/file", b"x").unwrap();
    assert_eq!(mkdir::create_directory(&mut disk, "/", "/file/below"), Ok(()));
    assert_eq!(ls::main(&disk, "/", &["/file"]), "\nbelow");
}

#[test]
fn mkdir_passes_over_what_it_cannot_create() {
    let mut disk = Filesystem::new();
    assert_eq!(mkdir::create_directory(&mut disk, "/", "/a/b"), Ok(()));
    assert_eq!(ls::main(&disk, "/", &[]), "\nError listing '/': Filesystem not initialized");
    let mut disk = seeded();
    assert_eq!(mkdir::create_directory(&mut disk, "/not/there", "a/b"), Ok(()));
    assert_eq!(ls::main(&disk, "/", &[]), "\nwelcome");
}

#[test]
fn touch_writes_the_content() {
    let mut disk = seeded();
    assert_eq!(
        touch::main(&mut disk, "/", &[]),
        "\nUSAGE: touch <path> [\"content\"]\n"
    );
    assert_eq!(touch::main(&mut disk, "/", &["/f"]), "");
    assert_eq!(cat::main(&disk, "/", &["/f"]), "\n");
    assert_eq!(touch::main(&mut disk, "/", &["/f", "\"two", "words\""]), "");
    assert_eq!(cat::main(&disk, "/", &["/f"]), "\ntwo words");
    assert_eq!(touch::main(&mut disk, "/welcome", &["g", "plain", "text"]), "");
    assert_eq!(cat::main(&disk, "/", &["/welcome/g"]), "\nplain text");
    assert_eq!(
        touch::main(&mut disk, "/", &["/no/such/f", "x"]),
        "Error creating '/no/such/f': Path not found: no\n"
    );
    assert_eq!(
        touch::main(&mut disk, "/", &["/f/g", "x"]),
        "Error creating '/f/g': Parent is not a directory\n"
    );
    assert_eq!(
        touch::create_file(&mut disk, "/", "", b"x"),
        Err("path cannot be empty".to_string())
    );
    assert_eq!(touch::create_file(&mut disk, "/", "rel", b"x"), Ok(()));
    assert_eq!(cat::main(&disk, "/", &["/rel"]), "\nx");
}

#[test]
fn touch_of_the_root_is_refused_beforehand() {
    let mut disk = seeded();
    let mut shell = started();
    assert!(touch::can_name_a_file("/", "/a"));
    assert!(touch::can_name_a_file("/", "a"));
    assert!(touch::can_name_a_file("/", ""));
    assert!(!touch::can_name_a_file("/", "/"));
    assert!(!touch::can_name_a_file("/a", "///"));
    for c in "touch / x".chars() {
        shell.key_pressed(&mut disk, Key::Unicode(c));
    }
    assert!(!shell.accepts(&disk, Key::Unicode('\n')));
    assert!(shell.accepts(&disk, Key::Unicode('y')));
    assert!(shell.accepts(&disk, Key::RawKey(KeyCode::Escape)));
    assert!(touch::can_be_asked(&disk, "/", "/a"));
    assert!(!touch::can_be_asked(&disk, "/", "//"));
    shell.key_pressed(&mut disk, Key::Unicode('\x08'));
    shell.key_pressed(&mut disk, Key::Unicode('\x08'));
    shell.key_pressed(&mut disk, Key::Unicode('\x08'));
    assert_eq!(shell.typed(), "touch ");
    assert!(shell.accepts(&disk, Key::Unicode('\n')));
}

#[test]
fn without_a_filesystem_every_path_is_refused_alike() {
    let mut nothing = Filesystem::new();
    assert!(!nothing.is_initialized());
    assert!(touch::can_be_asked(&nothing, "/", "/"));
    for path in ["/", "", "//", "/a", "a/b"] {
        assert_eq!(
            kernel_core::fs::write(&mut nothing, path, b"x"),
            Err(kernel_core::fs::error::FsError::NotInitialized)
        );
        assert_eq!(
            kernel_core::fs::create_dir(&mut nothing, path),
            Err(kernel_core::fs::error::FsError::NotInitialized)
        );
        assert_eq!(
            kernel_core::fs::read(&nothing, path),
            Err(kernel_core::fs::error::FsError::NotInitialized)
        );
        assert_eq!(
            kernel_core::fs::list_dir(&nothing, path),
            Err(kernel_core::fs::error::FsError::NotInitialized)
        );
    }
    assert!(!nothing.is_initialized());
    assert_eq!(
        touch::create_file(&mut nothing, "/", "/", b"x"),
        Err("Filesystem not initialized".to_string())
    );
    assert_eq!(
        touch::main(&mut nothing, "/", &["//", "x"]),
        "Error creating '//': Filesystem not initialized\n"
    );
    let mut shell = started();
    assert_eq!(
        run(&mut shell, &mut nothing, "touch / x"),
        "Error creating '/': Filesystem not initialized\n"
    );
    assert_eq!(shell.typed(), "");
    assert!(seeded().is_initialized());
}

#[test]
fn content_may_be_made_of_slashes() {
    let mut disk = seeded();
    assert_eq!(touch::main_multi(&mut disk, "/", &["/s", "'/'"]), "");
    assert_eq!(cat::main(&disk, "/", &["/s"]), "\n/");
    assert_eq!(touch::main_multi(&mut disk, "/", &["/t", "\"//", "/", "//\""]), "");
    assert_eq!(cat::main(&disk, "/", &["/t"]), "\n// / //");
    assert_eq!(
        touch::main_multi(&mut Filesystem::new(), "/", &["/", "/a", "'x'"]),
        "Error creating '/': Filesystem not initialized\n\
         Error creating '/a': Filesystem not initialized\n"
    );
}

#[test]
fn content_loses_one_pair_of_quotes() {
    assert_eq!(touch::parse_content(&["hi"]), "hi");
    assert_eq!(touch::parse_content(&["\"hi", "there\""]), "hi there");
    assert_eq!(touch::parse_content(&["'hi'"]), "hi");
    assert_eq!(touch::parse_content(&["\"hi'"]), "\"hi'");
    assert_eq!(touch::parse_content(&["\""]), "\"");
    assert_eq!(touch::parse_content(&["\"\""]), "");
    assert_eq!(touch::parse_content(&["\"\"x\"\""]), "\"x\"");
    assert_eq!(touch::parse_content(&[]), "");
    assert_eq!(touch::parse_content(&["'é", "ü'"]), "é ü");
}

#[test]
fn touch_can_make_several_files() {
    let mut disk = seeded();
    assert_eq!(
        touch::main_multi(&mut disk, "/", &[]),
        "\nUSAGE: touch <path> [\"content\"]\n"
    );
    assert_eq!(
        touch::main_multi(&mut disk, "/", &["/a", "b", "/no/c", "\"same", "text\""]),
        "Error creating '/no/c': Path not found: no\n"
    );
    assert_eq!(cat::main(&disk, "/", &["/a"]), "\nsame text");
    assert_eq!(cat::main(&disk, "/", &["/b"]), "\nsame text");
    assert_eq!(touch::main_multi(&mut disk, "/", &["/a", "/d"]), "");
    assert_eq!(cat::main(&disk, "/", &["/a"]), "\n");
    assert_eq!(cat::main(&disk, "/", &["/d"]), "\n");
    assert_eq!(touch::main_multi(&mut disk, "/", &["'only", "content'"]), "");
    assert_eq!(ls::main(&disk, "/", &[]), "\na\nb\nd\nwelcome");
}

#[test]
fn cd_changes_the_working_directory() {
    let mut disk = seeded();
    let mut shell = started();
    kernel_core::fs::create_dir(&mut disk, "/welcome/deep").unwrap();
    assert!(shell.change_directory(&disk, &["welcome"]).is_empty());
    assert_eq!(shell.pwd(), "/welcome");
    assert_eq!(run(&mut shell, &mut disk, "ls"), "\ndeep\nhello.txt");
    assert_eq!(run(&mut shell, &mut disk, "cat hello.txt").len(), 71);
    assert_eq!(run(&mut shell, &mut disk, "touch note remember"), "");
    assert_eq!(kernel_core::fs::read(&disk, "/welcome/note"), Ok(b"remember".to_vec()));
    assert!(shell.change_directory(&disk, &["//welcome//deep/"]).is_empty());
    assert_eq!(shell.pwd(), "/welcome/deep");
    assert_eq!(
        shell.change_directory(&disk, &["nowhere"]),
        vec![ShellAction::Print("cd: nowhere: No such directory\n".to_string())]
    );
    assert_eq!(shell.pwd(), "/welcome/deep");
    assert_eq!(
        shell.change_directory(&disk, &["/welcome/hello.txt"]),
        vec![ShellAction::Print("cd: /welcome/hello.txt: No such directory\n".to_string())]
    );
    assert!(shell.change_directory(&disk, &["."]).is_empty());
    assert_eq!(shell.pwd(), "/welcome/deep");
    assert!(shell.change_directory(&disk, &[".."]).is_empty());
    assert_eq!(shell.pwd(), "/welcome");
    assert_eq!(
        shell.change_directory(&disk, &["..//deep"]),
        vec![ShellAction::Print("cd: ..//deep: No such directory\n".to_string())]
    );
    // The filesystem is asked before the dots are worked out.
    assert_eq!(
        shell.change_directory(&disk, &["deep/../deep"]),
        vec![ShellAction::Print("cd: deep/../deep: No such directory\n".to_string())]
    );
    assert!(shell.change_directory(&disk, &["deep"]).is_empty());
    assert_eq!(shell.pwd(), "/welcome/deep");
}

#[test]
fn cd_without_argument_goes_to_the_root() {
    let disk = seeded();
    let mut pwd = "/welcome".to_string();
    assert_eq!(cd::main(&disk, &mut pwd, &[]), "");
    assert_eq!(pwd, "/");
    assert_eq!(cd::main(&Filesystem::new(), &mut pwd, &[]), "cd: /: No such directory\n");
}

#[test]
fn paths_are_resolved_and_normalized() {
    assert_eq!(cd::get_parent_dir("/"), "/");
    assert_eq!(cd::get_parent_dir("/a"), "/");
    assert_eq!(cd::get_parent_dir("/a/b/c"), "/a/b");
    assert_eq!(cd::get_parent_dir("a//b/"), "/a");
    assert_eq!(cd::get_parent_dir(""), "/");
    assert_eq!(cd::get_parent_dir("//"), "/");

    assert_eq!(cd::normalize_path("/"), "/");
    assert_eq!(cd::normalize_path("/a/./b/../c"), "/a/c");
    assert_eq!(cd::normalize_path("/../.."), "/");
    assert_eq!(cd::normalize_path("/a/.."), "/");
    assert_eq!(cd::normalize_path("a//b/"), "/a/b");
    assert_eq!(cd::normalize_path("/a/b/../../../c"), "/c");
    assert_eq!(cd::normalize_path(""), "/");
    assert_eq!(cd::normalize_path("/..a/.b"), "/..a/.b");

    assert_eq!(cd::resolve_path("/x/y", "/abs"), "/abs");
    assert_eq!(cd::resolve_path("/x/y", "."), "/x/y");
    assert_eq!(cd::resolve_path("/x/y", ".."), "/x");
    assert_eq!(cd::resolve_path("/x/y", "../z"), "/x/z");
    assert_eq!(cd::resolve_path("/x/y", "..//"), "/x");
    assert_eq!(cd::resolve_path("/x/y", "..z"), "/x/z");
    assert_eq!(cd::resolve_path("/x", "../z"), "//z");
    assert_eq!(cd::resolve_path("/", "z"), "/z");
    assert_eq!(cd::resolve_path("/x/y", "z/w"), "/x/y/z/w");
    assert_eq!(cd::resolve_path("/x/y", "./z"), "/x/y/./z");
}
