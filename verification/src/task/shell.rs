//! The line-mode shell: keys are gathered into a line, and at the end of
//! the line the command that it names is run.
//!
//! The shell does no output of its own. What is to appear on the screen
//! comes back from every step as a list of actions, which the caller
//! performs in order.

pub mod cat;
pub mod cd;
pub mod clear;
pub mod hello;
pub mod ls;
pub mod mkdir;
pub mod test;
pub mod touch;

use vstd::prelude::*;
use vstd::slice::slice_subrange;
use vstd::string::{StrSliceExecFns, StringExecFns};
use vstd::utf8::{encode_utf8, encode_utf8_decode_utf8, encode_utf8_valid_utf8};
use crate::fs::path::path_segments;
use crate::fs::tree::{is_listing, lemma_listing_is, Tree};
use crate::fs::Filesystem;
use crate::text::{
    lemma_pieces_are_words, pieces, pop_char, push_char, same_text, split, starts_with_char,
    views_of, Separator,
};
use crate::vga_buffer::{DisplayOp, DisplayState, Writer, GLYPH_WIDTH};
use super::keyboard::{register_key_callback, Key, KeyCallbacks};

verus! {

/// Something that the shell wants done on the screen.
#[derive(Debug, PartialEq, Eq)]
pub enum ShellAction {
    /// Write the text at the cursor.
    Print(String),
    /// Take back the character before the cursor.
    Backspace,
    /// Put the cursor into the column.
    SetColumn(usize),
    /// Clear the screen and put the cursor into the corner.
    ClearScreen,
    /// Show the text-mode animation.
    PlayAnimation,
    /// Show the graphics-mode demonstration.
    PlayGraphics,
}

/// A `ShellAction` with its text as a sequence of characters.
pub enum Effect {
    Print(Seq<char>),
    Backspace,
    SetColumn(usize),
    ClearScreen,
    PlayAnimation,
    PlayGraphics,
}

impl View for ShellAction {
    type V = Effect;

    open spec fn view(&self) -> Effect {
        match self {
            ShellAction::Print(text) => Effect::Print(text@),
            ShellAction::Backspace => Effect::Backspace,
            ShellAction::SetColumn(column) => Effect::SetColumn(*column),
            ShellAction::ClearScreen => Effect::ClearScreen,
            ShellAction::PlayAnimation => Effect::PlayAnimation,
            ShellAction::PlayGraphics => Effect::PlayGraphics,
        }
    }
}

/// The views of `actions`.
pub open spec fn effects_of(actions: Seq<ShellAction>) -> Seq<Effect> {
    actions.map_values(|action: ShellAction| action@)
}

/// The one action `action`.
pub fn only(action: ShellAction) -> (actions: Vec<ShellAction>)
    ensures
        effects_of(actions@) == seq![action@],
{
    let mut actions: Vec<ShellAction> = Vec::new();
    actions.push(action);
    proof {
        assert(effects_of(actions@) =~= seq![action@]);
    }
    actions
}

/// `path` as a path from the root: itself where it begins there, else
/// below the working directory `pwd`.
pub open spec fn absolute(pwd: Seq<char>, path: Seq<char>) -> Seq<char> {
    if path.len() > 0 && path[0] == '/' {
        path
    } else if pwd == "/"@ {
        "/"@ + path
    } else {
        pwd + "/"@ + path
    }
}

/// Makes `path` a path from the root.
pub fn absolute_path(pwd: &str, path: &str) -> (full: String)
    ensures
        full@ == absolute(pwd@, path@),
{
    if starts_with_char(path, '/') {
        String::from_str(path)
    } else if same_text(pwd, "/") {
        String::from_str("/").concat(path)
    } else {
        String::from_str(pwd).concat("/").concat(path)
    }
}

/// The commands that a line can name, besides `help`.
#[derive(Clone, Copy, Debug, PartialEq, Eq, Structural)]
pub enum CommandKind {
    Hello,
    Clear,
    Cat,
    Mkdir,
    Touch,
    Ls,
    Test,
}

/// The table of commands, in the order in which `help` shows them.
pub open spec fn command_table() -> Seq<CommandKind> {
    seq![
        CommandKind::Hello,
        CommandKind::Clear,
        CommandKind::Cat,
        CommandKind::Mkdir,
        CommandKind::Touch,
        CommandKind::Ls,
        CommandKind::Test,
    ]
}

impl CommandKind {
    /// The name by which a line calls the command.
    pub open spec fn spec_name(self) -> Seq<char> {
        match self {
            CommandKind::Hello => hello::CMD@,
            CommandKind::Clear => clear::CMD@,
            CommandKind::Cat => cat::CMD@,
            CommandKind::Mkdir => mkdir::CMD@,
            CommandKind::Touch => touch::CMD@,
            CommandKind::Ls => ls::CMD@,
            CommandKind::Test => test::CMD@,
        }
    }

    /// How the command is called.
    pub open spec fn spec_usage(self) -> Seq<char> {
        match self {
            CommandKind::Hello => hello::USAGE@,
            CommandKind::Clear => clear::USAGE@,
            CommandKind::Cat => cat::USAGE@,
            CommandKind::Mkdir => mkdir::USAGE@,
            CommandKind::Touch => touch::USAGE@,
            CommandKind::Ls => ls::USAGE@,
            CommandKind::Test => test::USAGE@,
        }
    }

    /// What the command does, in a line.
    pub open spec fn spec_description(self) -> Seq<char> {
        match self {
            CommandKind::Hello => hello::DES@,
            CommandKind::Clear => clear::DES@,
            CommandKind::Cat => cat::DES@,
            CommandKind::Mkdir => mkdir::DES@,
            CommandKind::Touch => touch::DES@,
            CommandKind::Ls => ls::DES@,
            CommandKind::Test => test::DES@,
        }
    }

    /// The name by which a line calls the command.
    pub fn name(self) -> (name: &'static str)
        ensures
            name@ == self.spec_name(),
    {
        match self {
            CommandKind::Hello => hello::CMD,
            CommandKind::Clear => clear::CMD,
            CommandKind::Cat => cat::CMD,
            CommandKind::Mkdir => mkdir::CMD,
            CommandKind::Touch => touch::CMD,
            CommandKind::Ls => ls::CMD,
            CommandKind::Test => test::CMD,
        }
    }

    /// How the command is called.
    pub fn usage(self) -> (usage: &'static str)
        ensures
            usage@ == self.spec_usage(),
    {
        match self {
            CommandKind::Hello => hello::USAGE,
            CommandKind::Clear => clear::USAGE,
            CommandKind::Cat => cat::USAGE,
            CommandKind::Mkdir => mkdir::USAGE,
            CommandKind::Touch => touch::USAGE,
            CommandKind::Ls => ls::USAGE,
            CommandKind::Test => test::USAGE,
        }
    }

    /// What the command does, in a line.
    pub fn description(self) -> (description: &'static str)
        ensures
            description@ == self.spec_description(),
    {
        match self {
            CommandKind::Hello => hello::DES,
            CommandKind::Clear => clear::DES,
            CommandKind::Cat => cat::DES,
            CommandKind::Mkdir => mkdir::DES,
            CommandKind::Touch => touch::DES,
            CommandKind::Ls => ls::DES,
            CommandKind::Test => test::DES,
        }
    }
}

/// The table of commands.
pub fn commands() -> (table: Vec<CommandKind>)
    ensures
        table@ == command_table(),
{
    let mut table: Vec<CommandKind> = Vec::new();
    table.push(CommandKind::Hello);
    table.push(CommandKind::Clear);
    table.push(CommandKind::Cat);
    table.push(CommandKind::Mkdir);
    table.push(CommandKind::Touch);
    table.push(CommandKind::Ls);
    table.push(CommandKind::Test);
    proof {
        assert(table@ =~= command_table());
    }
    table
}

/// The actions for writing `text`: none where there is nothing to write.
pub open spec fn printed(text: Seq<char>) -> Seq<Effect> {
    if text.len() == 0 {
        Seq::empty()
    } else {
        seq![Effect::Print(text)]
    }
}

/// What `help` writes for one command.
pub open spec fn help_entry(kind: CommandKind) -> Seq<char> {
    "-- "@ + kind.spec_name() + " --\n"@ + "USAGE: "@ + kind.spec_usage() + "\n"@
        + "DESCRIPTION: "@ + kind.spec_description() + "\n"@
}

/// What `help` writes for `kinds`, in their order.
pub open spec fn help_entries(kinds: Seq<CommandKind>) -> Seq<char>
    decreases kinds.len(),
{
    if kinds.len() == 0 {
        Seq::empty()
    } else {
        help_entries(kinds.drop_last()) + help_entry(kinds.last())
    }
}

/// What `help` writes: a heading, and name, usage and description of every
/// command of the table.
pub open spec fn help_text() -> Seq<char> {
    "\n\n-- help list --\n\n"@ + help_entries(command_table())
}

/// The first of `kinds` that goes by `name`.
pub open spec fn command_named(kinds: Seq<CommandKind>, name: Seq<char>) -> Option<CommandKind>
    decreases kinds.len(),
{
    if kinds.len() == 0 {
        None
    } else if kinds[0].spec_name() == name {
        Some(kinds[0])
    } else {
        command_named(kinds.drop_first(), name)
    }
}

/// The command found for a name goes by that name.
pub proof fn lemma_command_named(kinds: Seq<CommandKind>, name: Seq<char>)
    ensures
        command_named(kinds, name) matches Some(kind) ==> kind.spec_name() == name,
    decreases kinds.len(),
{
    if kinds.len() > 0 && kinds[0].spec_name() != name {
        lemma_command_named(kinds.drop_first(), name);
    }
}

/// What running the command `kind` with `args` does: the filesystem after
/// it, and what is to happen on the screen.
pub open spec fn run_command(
    kind: CommandKind,
    fs: Option<Tree>,
    pwd: Seq<char>,
    args: Seq<Seq<char>>,
) -> (Option<Tree>, Seq<Effect>) {
    match kind {
        CommandKind::Hello => (fs, printed(hello::output(args))),
        CommandKind::Clear => (fs, seq![Effect::ClearScreen]),
        CommandKind::Cat => (fs, printed(cat::output(fs, pwd, args))),
        CommandKind::Mkdir => (
            mkdir::result(fs, pwd, args).0,
            printed(mkdir::result(fs, pwd, args).1),
        ),
        CommandKind::Touch => (
            touch::tree_after(fs, pwd, args),
            printed(touch::output(fs, pwd, args)),
        ),
        CommandKind::Ls => (fs, printed(ls::output(fs, pwd, args))),
        CommandKind::Test => (fs, test::effects(args)),
    }
}

/// What running `line` does: nothing for a line without words; for `help`
/// the help text; for the name of a command what the command does with
/// the words after it; and a complaint for any other first word.
pub open spec fn run_line(fs: Option<Tree>, pwd: Seq<char>, line: Seq<char>) -> (
    Option<Tree>,
    Seq<Effect>,
) {
    let words = pieces(line, Separator::Whitespace);
    if words.len() == 0 {
        (fs, Seq::empty())
    } else if words[0] == "help"@ {
        (fs, printed(help_text()))
    } else {
        match command_named(command_table(), words[0]) {
            Some(kind) => run_command(kind, fs, pwd, words.skip(1)),
            None => (fs, printed("\nUnknown command: "@ + words[0])),
        }
    }
}

/// Whether `line` can be run in `fs`: a line that asks `touch` for a path
/// must give one that `touch` can be asked for.
pub open spec fn can_run(fs: Option<Tree>, pwd: Seq<char>, line: Seq<char>) -> bool {
    let words = pieces(line, Separator::Whitespace);
    words.len() >= 2 && words[0] == touch::CMD@ ==> touch::can_touch(fs, pwd, words[1])
}

/// The actions for writing `text`.
pub fn print(text: String) -> (actions: Vec<ShellAction>)
    ensures
        effects_of(actions@) == printed(text@),
{
    let mut actions: Vec<ShellAction> = Vec::new();
    if !text.as_str().is_empty() {
        actions.push(ShellAction::Print(text));
    }
    proof {
        assert(effects_of(actions@) =~= printed(text@));
    }
    actions
}

/// The command of the table that goes by `name`.
pub fn find_command(name: &str) -> (found: Option<CommandKind>)
    ensures
        found == command_named(command_table(), name@),
{
    let table = commands();
    let mut i: usize = 0;
    proof {
        assert(table@.skip(0) =~= table@);
    }
    while i < table.len()
        invariant
            i <= table@.len(),
            table@ == command_table(),
            command_named(command_table(), name@) == command_named(table@.skip(i as int), name@),
        decreases table@.len() - i,
    {
        proof {
            assert(table@.skip(i as int).drop_first() =~= table@.skip(i + 1));
        }
        if same_text(name, table[i].name()) {
            return Some(table[i]);
        }
        i = i + 1;
    }
    None
}

/// The text that `help` writes.
pub fn help() -> (text: String)
    ensures
        text@ == help_text(),
{
    let table = commands();
    let mut entries = String::new();
    let mut i: usize = 0;
    proof {
        assert(table@.take(0) =~= Seq::<CommandKind>::empty());
    }
    while i < table.len()
        invariant
            i <= table@.len(),
            table@ == command_table(),
            entries@ == help_entries(table@.take(i as int)),
        decreases table@.len() - i,
    {
        let ghost before = entries@;
        let kind = table[i];
        entries.append("-- ");
        entries.append(kind.name());
        entries.append(" --\n");
        entries.append("USAGE: ");
        entries.append(kind.usage());
        entries.append("\n");
        entries.append("DESCRIPTION: ");
        entries.append(kind.description());
        entries.append("\n");
        proof {
            assert(table@.take(i + 1).drop_last() =~= table@.take(i as int));
            assert(table@.take(i + 1).last() == kind);
            assert(entries@ =~= before + help_entry(kind));
        }
        i = i + 1;
    }
    proof {
        assert(table@.take(table@.len() as int) =~= table@);
    }
    String::from_str("\n\n-- help list --\n\n").concat(entries.as_str())
}

/// What the shell remembers between keys.
pub struct ShellState {
    /// The line typed so far.
    pub typed: Seq<char>,
    /// The working directory.
    pub pwd: Seq<char>,
}

/// The shell.
pub struct Shell {
    typed: String,
    pwd: String,
}

impl View for Shell {
    type V = ShellState;

    closed spec fn view(&self) -> ShellState {
        ShellState { typed: self.typed@, pwd: self.pwd@ }
    }
}

/// The prompt.
pub const PROMPT: &'static str = "$ ";

/// The column behind the prompt.
pub const PROMPT_WIDTH: usize = 2;

impl ShellState {
    /// Whether the shell can be given the character `c`: the end of a line
    /// asks for a line that can be run in `fs`.
    pub open spec fn accepts(self, fs: Option<Tree>, c: char) -> bool {
        c == '\n' ==> can_run(fs, self.pwd, self.typed)
    }

    /// The shell after the character `c`: the end of a line empties the
    /// line, backspace and delete take its last character off, and any
    /// other character is added to it.
    pub open spec fn after(self, c: char) -> ShellState {
        if c == '\n' {
            ShellState { typed: Seq::empty(), ..self }
        } else if c == '\x08' || c == '\x7f' {
            if self.typed.len() > 0 {
                ShellState { typed: self.typed.drop_last(), ..self }
            } else {
                self
            }
        } else {
            ShellState { typed: self.typed.push(c), ..self }
        }
    }

    /// The filesystem after the character `c`: it changes at the end of a
    /// line, as the line says.
    pub open spec fn tree_after(self, fs: Option<Tree>, c: char) -> Option<Tree> {
        if c == '\n' {
            run_line(fs, self.pwd, self.typed).0
        } else {
            fs
        }
    }

    /// What is to happen on the screen for the character `c`. At the end of
    /// a line: what the line asks for, then a new prompt with the cursor
    /// behind it. For backspace and delete: the last character is taken
    /// back, if there is one. Any other character is echoed.
    pub open spec fn effects(self, fs: Option<Tree>, c: char) -> Seq<Effect> {
        if c == '\n' {
            run_line(fs, self.pwd, self.typed).1 + seq![
                Effect::Print("\n"@ + PROMPT@),
                Effect::SetColumn(PROMPT_WIDTH),
            ]
        } else if c == '\x08' || c == '\x7f' {
            if self.typed.len() > 0 {
                seq![Effect::Backspace]
            } else {
                Seq::empty()
            }
        } else {
            seq![Effect::Print(seq![c])]
        }
    }
}

/// Starts the shell: the screen is cleared, `callback` is registered for
/// the keys, and the prompt is written.
pub fn init<F>(registry: &mut KeyCallbacks<F>, callback: F) -> (started: (Shell, Vec<ShellAction>))
    ensures
        final(registry)@ == old(registry)@.push(callback),
        started.0@.typed.len() == 0,
        started.0@.pwd == "/"@,
        effects_of(started.1@) == seq![Effect::ClearScreen, Effect::Print(PROMPT@)],
{
    let mut actions: Vec<ShellAction> = Vec::new();
    actions.push(ShellAction::ClearScreen);
    register_key_callback(registry, callback);
    actions.push(ShellAction::Print(String::from_str(PROMPT)));
    proof {
        assert(effects_of(actions@) =~= seq![Effect::ClearScreen, Effect::Print(PROMPT@)]);
    }
    (Shell { typed: String::new(), pwd: String::from_str("/") }, actions)
}

impl Shell {
    /// Whether the shell can be given `key`. The one key that it cannot
    /// take is the end of a line that asks `touch` for a path of slashes
    /// alone, while a filesystem is set up.
    pub fn accepts(&self, fs: &Filesystem, key: Key) -> (accepted: bool)
        ensures
            accepted == (key matches Key::Unicode(c) ==> self@.accepts(fs@, c)),
    {
        match key {
            Key::Unicode(c) => {
                if c == '\n' {
                    let words = split(self.typed.as_str(), Separator::Whitespace);
                    if words.len() >= 2 && same_text(words[0], touch::CMD) {
                        touch::can_be_asked(fs, self.pwd.as_str(), words[1])
                    } else {
                        true
                    }
                } else {
                    true
                }
            },
            Key::RawKey(_) => true,
        }
    }

    /// Runs the line typed so far.
    pub fn handle_cmd(&self, fs: &mut Filesystem) -> (actions: Vec<ShellAction>)
        requires
            can_run(old(fs)@, self@.pwd, self@.typed),
        ensures
            final(fs)@ == run_line(old(fs)@, self@.pwd, self@.typed).0,
            effects_of(actions@) == run_line(old(fs)@, self@.pwd, self@.typed).1,
    {
        let parts = split(self.typed.as_str(), Separator::Whitespace);
        if parts.len() == 0 {
            let actions: Vec<ShellAction> = Vec::new();
            proof {
                assert(effects_of(actions@) =~= Seq::<Effect>::empty());
            }
            return actions;
        }
        let cmd = parts[0];
        let args = slice_subrange(parts.as_slice(), 1, parts.len());
        proof {
            let words = pieces(self@.typed, Separator::Whitespace);
            assert(views_of(args@) =~= words.skip(1));
            lemma_pieces_are_words(self@.typed, Separator::Whitespace);
            lemma_command_named(command_table(), words[0]);
            if words.len() >= 2 {
                assert(args@[0]@ == words[1]);
                assert(words[1].len() > 0);
            }
        }
        if same_text(cmd, "help") {
            return print(help());
        }
        let pwd = self.pwd.as_str();
        match find_command(cmd) {
            Some(kind) => match kind {
                CommandKind::Hello => print(hello::main(args)),
                CommandKind::Clear => only(clear::main(args)),
                CommandKind::Cat => print(cat::main(fs, pwd, args)),
                CommandKind::Mkdir => print(mkdir::main(fs, pwd, args)),
                CommandKind::Touch => print(touch::main(fs, pwd, args)),
                CommandKind::Ls => print(ls::main(fs, pwd, args)),
                CommandKind::Test => test::main(args),
            },
            None => print(String::from_str("\nUnknown command: ").concat(cmd)),
        }
    }

    /// Takes one character from the keyboard.
    pub fn handle_unicode(&mut self, fs: &mut Filesystem, c: char) -> (actions: Vec<ShellAction>)
        requires
            old(self)@.accepts(old(fs)@, c),
        ensures
            final(self)@ == old(self)@.after(c),
            final(fs)@ == old(self)@.tree_after(old(fs)@, c),
            effects_of(actions@) == old(self)@.effects(old(fs)@, c),
    {
        if c == '\n' {
            let mut actions = self.handle_cmd(fs);
            let ghost ran = effects_of(actions@);
            actions.push(ShellAction::Print(String::from_str("\n").concat(PROMPT)));
            actions.push(ShellAction::SetColumn(PROMPT_WIDTH));
            self.typed = String::new();
            proof {
                assert(effects_of(actions@) =~= ran + seq![
                    Effect::Print("\n"@ + PROMPT@),
                    Effect::SetColumn(PROMPT_WIDTH),
                ]);
            }
            actions
        } else if c == '\x08' || c == '\x7f' {
            let mut actions: Vec<ShellAction> = Vec::new();
            if !self.typed.as_str().is_empty() {
                pop_char(&mut self.typed);
                actions.push(ShellAction::Backspace);
                proof {
                    assert(effects_of(actions@) =~= seq![Effect::Backspace]);
                }
            } else {
                proof {
                    assert(effects_of(actions@) =~= Seq::<Effect>::empty());
                }
            }
            actions
        } else {
            push_char(&mut self.typed, c);
            let mut echo = String::new();
            push_char(&mut echo, c);
            only(ShellAction::Print(echo))
        }
    }

    /// Takes one key from the keyboard: a character goes to
    /// `handle_unicode`, and any other key is passed over.
    pub fn key_pressed(&mut self, fs: &mut Filesystem, key: Key) -> (actions: Vec<ShellAction>)
        requires
            key matches Key::Unicode(c) ==> old(self)@.accepts(old(fs)@, c),
        ensures
            match key {
                Key::Unicode(c) => {
                    &&& final(self)@ == old(self)@.after(c)
                    &&& final(fs)@ == old(self)@.tree_after(old(fs)@, c)
                    &&& effects_of(actions@) == old(self)@.effects(old(fs)@, c)
                },
                Key::RawKey(_) => {
                    &&& final(self)@ == old(self)@
                    &&& final(fs)@ == old(fs)@
                    &&& actions@.len() == 0
                },
            },
    {
        match key {
            Key::Unicode(c) => self.handle_unicode(fs, c),
            Key::RawKey(_) => Vec::new(),
        }
    }

    /// Runs `cd` with `args`: the working directory changes as `cd` says.
    pub fn change_directory(&mut self, fs: &Filesystem, args: &[&str]) -> (actions: Vec<
        ShellAction,
    >)
        ensures
            final(self)@.typed == old(self)@.typed,
            final(self)@.pwd == cd::pwd_after(fs@, old(self)@.pwd, views_of(args@)),
            effects_of(actions@) == printed(cd::output(fs@, old(self)@.pwd, views_of(args@))),
    {
        print(cd::main(fs, &mut self.pwd, args))
    }

    /// The working directory.
    pub fn pwd(&self) -> (pwd: &str)
        ensures
            pwd@ == self@.pwd,
    {
        self.pwd.as_str()
    }

    /// The line typed so far.
    pub fn typed(&self) -> (typed: &str)
        ensures
            typed@ == self@.typed,
    {
        self.typed.as_str()
    }
}

impl Effect {
    /// Whether the display in state `display` can do this: what is written
    /// must not take the cursor out of the numbers.
    pub open spec fn fits(self, display: DisplayState) -> bool {
        match self {
            Effect::Print(text) => display.has_room_for(text.len()),
            Effect::SetColumn(column) => column * GLYPH_WIDTH <= usize::MAX,
            Effect::PlayAnimation => display.has_room_for(test::anim::length()),
            _ => true,
        }
    }

    /// The display after this has been done on it.
    pub open spec fn display_after(self, display: DisplayState) -> DisplayState {
        match self {
            Effect::Print(text) => display.after_string(text),
            Effect::Backspace => display.after_backspace(),
            Effect::SetColumn(column) => display.with_column(column),
            Effect::ClearScreen => display.after_clear(),
            Effect::PlayAnimation => test::anim::played(display).0,
            Effect::PlayGraphics => crate::vga_buffer::DisplayState::Text(
                crate::vga_buffer::TextState {
                    foreground: crate::vga_buffer::Color::White,
                    background: crate::vga_buffer::Color::Black,
                    column: 0,
                    row: 0,
                },
            ),
        }
    }

    /// The steps on the hardware that do this.
    pub open spec fn display_ops(self, display: DisplayState) -> Seq<DisplayOp> {
        match self {
            Effect::Print(text) => display.string_ops(text),
            Effect::Backspace => display.backspace_ops(),
            Effect::SetColumn(column) => display.column_ops(column),
            Effect::ClearScreen => display.clear_ops(),
            Effect::PlayAnimation => test::anim::played(display).1,
            Effect::PlayGraphics => test::graphics::play_ops(),
        }
    }
}

/// Whether `writer` can do `action`.
pub fn can_perform(writer: &Writer, action: &ShellAction) -> (can: bool)
    ensures
        can == action@.fits(writer@),
{
    match action {
        ShellAction::Print(text) => writer.has_room_for(text.as_str().unicode_len()),
        ShellAction::SetColumn(column) => *column <= usize::MAX / GLYPH_WIDTH,
        ShellAction::PlayAnimation => {
            proof {
                reveal_strlit("###############\n");
                reveal_strlit(" #  #  #  #  #\n");
            }
            writer.has_room_for(
                test::anim::FRAMES * (test::anim::BAR.unicode_len() + test::anim::TEETH.unicode_len())
                    + test::anim::BAR.unicode_len(),
            )
        },
        _ => true,
    }
}

/// Does `action` on `writer`: the writer keeps track of the cursor, and
/// the steps for the hardware come back.
pub fn perform(writer: &mut Writer, action: &ShellAction) -> (ops: Vec<DisplayOp>)
    requires
        action@.fits(old(writer)@),
    ensures
        final(writer)@ == action@.display_after(old(writer)@),
        ops@ == action@.display_ops(old(writer)@),
{
    match action {
        ShellAction::Print(text) => writer.write_string(text.as_str()),
        ShellAction::Backspace => writer.backspace(),
        ShellAction::SetColumn(column) => writer.set_column_position(*column),
        ShellAction::ClearScreen => writer.clear_buffer(),
        ShellAction::PlayAnimation => test::anim::play(writer),
        ShellAction::PlayGraphics => test::graphics::play(writer),
    }
}

/// After `mkdir` of a path from the root that names a directory in a
/// directory, `ls` of the directory above writes the name of the new one
/// and no other.
pub proof fn lemma_ls_after_mkdir(tree: Tree, pwd: Seq<char>, path: Seq<char>, above: Seq<char>)
    requires
        tree is Dir,
        path.len() > 0,
        path[0] == '/',
        above.len() > 0,
        above[0] == '/',
        path_segments(path).len() >= 2,
        path_segments(above) == path_segments(path).drop_last(),
    ensures
        ls::output(mkdir::tree_after(Some(tree), pwd, path), pwd, seq![above]) == "\n"@
            + path_segments(path).last(),
{
    mkdir::lemma_made_from_root(tree, pwd, path);
    let name = path_segments(path).last();
    let names = seq![name];
    assert(is_listing(names, set![name])) by {
        assert forall|other: Seq<char>| names.contains(other) <==> set![name].contains(other) by {
            if other == name {
                assert(names[0] == name);
            }
        }
    }
    lemma_listing_is(names, set![name]);
    assert(names.drop_last() =~= Seq::<Seq<char>>::empty());
    assert(ls::lines(names.drop_last()) =~= Seq::<char>::empty());
    assert(ls::lines(names) =~= "\n"@ + name);
}

/// After `touch` has made a file at a path from the root, `cat` of the path
/// writes the content that `touch` was given.
pub proof fn lemma_cat_after_touch(
    fs: Option<Tree>,
    pwd: Seq<char>,
    path: Seq<char>,
    words: Seq<Seq<char>>,
)
    requires
        path.len() > 0,
        path[0] == '/',
        touch::created(fs, pwd, path, encode_utf8(touch::content_of(words))) is Ok,
    ensures
        cat::output(touch::tree_after(fs, pwd, seq![path] + words), pwd, seq![path]) == "\n"@
            + touch::content_of(words),
{
    let args = seq![path] + words;
    let content = touch::content_of(words);
    assert(args.skip(1) =~= words);
    assert(args[0] == path);
    fs->Some_0.lemma_lookup_after_store(path_segments(path), Tree::File(encode_utf8(content)));
    encode_utf8_valid_utf8(content);
    encode_utf8_decode_utf8(content);
}

} // verus!
