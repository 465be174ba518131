//! The command line of the soundboard, and what each command does to the
//! table.
//!
//! ```text
//! soundboard bind <name> <path> <hotkey>
//! soundboard unbind <hotkey>
//! soundboard ls
//! soundboard run
//! ```
//!
//! Without a command the soundboard runs.

use crate::board::{
    bind_action, bound, played, sound_view, unbind_action, unbound, Binding, HookAction,
    Soundboard, Table,
};
use crate::hotkey::{describe_hotkey, hotkey_named, parse_hotkey, text_of_hotkey};
use crate::sound::{path_of_text, Sound, SoundView};
use livesplit_hotkey::Hotkey;
use vstd::prelude::*;
use vstd::string::StringExecFns;

verus! {

/// Why a command line was refused.
#[derive(Debug, Clone, Copy, PartialEq, Eq)]
pub enum Refusal {
    /// `bind` came with fewer than a name, a path and a hotkey.
    BindNeedsMore,
    /// `unbind` came without a hotkey.
    UnbindNeedsMore,
    /// The text given for the hotkey names none.
    NoSuchHotkey,
    /// The first word is no command.
    UnknownCommand,
}

/// What the user asks for.
#[derive(Debug, PartialEq, Eq)]
pub enum Command {
    /// Bind a hotkey to a sound.
    Bind { name: String, path: String, hotkey: Hotkey },
    /// Unbind a hotkey.
    Unbind { hotkey: Hotkey },
    /// Print the table.
    List,
    /// Run the soundboard until the user ends it.
    Run,
    /// Nothing that can be done.
    Refused(Refusal),
}

/// A [`Command`] as the contracts see it.
pub enum CommandView {
    Bind { name: Seq<char>, path: Seq<char>, hotkey: Hotkey },
    Unbind { hotkey: Hotkey },
    List,
    Run,
    Refused(Refusal),
}

impl View for Command {
    type V = CommandView;

    open spec fn view(&self) -> CommandView {
        match *self {
            Command::Bind { name, path, hotkey } => CommandView::Bind {
                name: name@,
                path: path@,
                hotkey,
            },
            Command::Unbind { hotkey } => CommandView::Unbind { hotkey },
            Command::List => CommandView::List,
            Command::Run => CommandView::Run,
            Command::Refused(refusal) => CommandView::Refused(refusal),
        }
    }
}

/// The `bind` command for a name, a path and what was read of the hotkey.
pub open spec fn bind_command(name: Seq<char>, path: Seq<char>, parsed: Option<Hotkey>) -> CommandView {
    match parsed {
        Some(hotkey) => CommandView::Bind { name, path, hotkey },
        None => CommandView::Refused(Refusal::NoSuchHotkey),
    }
}

/// The `unbind` command for what was read of the hotkey.
pub open spec fn unbind_command(parsed: Option<Hotkey>) -> CommandView {
    match parsed {
        Some(hotkey) => CommandView::Unbind { hotkey },
        None => CommandView::Refused(Refusal::NoSuchHotkey),
    }
}

/// The command that a command line spells. The line starts with the name of
/// the program; the word after it says what to do, and the words after that
/// are what it is done with. Words beyond those are not looked at.
pub open spec fn command_of(args: Seq<Seq<char>>) -> CommandView {
    if args.len() < 2 {
        CommandView::Run
    } else if args[1] == "run"@ {
        CommandView::Run
    } else if args[1] == "ls"@ {
        CommandView::List
    } else if args[1] == "bind"@ {
        if args.len() < 5 {
            CommandView::Refused(Refusal::BindNeedsMore)
        } else {
            bind_command(args[2], args[3], hotkey_named(args[4]))
        }
    } else if args[1] == "unbind"@ {
        if args.len() < 3 {
            CommandView::Refused(Refusal::UnbindNeedsMore)
        } else {
            unbind_command(hotkey_named(args[2]))
        }
    } else {
        CommandView::Refused(Refusal::UnknownCommand)
    }
}

/// A list of texts as the contracts see it.
pub open spec fn texts(args: Seq<String>) -> Seq<Seq<char>> {
    Seq::new(args.len(), |i: int| args[i]@)
}

/// Whether a word of the command line is the given one.
fn is_word(text: &String, word: &str) -> (same: bool)
    ensures
        same == (text@ == word@),
{
    let word = String::from_str(word);
    *text == word
}

/// Makes the `bind` command of a name, a path and what was read of the
/// hotkey.
pub fn bind_from(name: String, path: String, parsed: Option<Hotkey>) -> (command: Command)
    ensures
        command@ == bind_command(name@, path@, parsed),
{
    match parsed {
        Some(hotkey) => Command::Bind { name, path, hotkey },
        None => Command::Refused(Refusal::NoSuchHotkey),
    }
}

/// Makes the `unbind` command of what was read of the hotkey.
pub fn unbind_from(parsed: Option<Hotkey>) -> (command: Command)
    ensures
        command@ == unbind_command(parsed),
{
    match parsed {
        Some(hotkey) => Command::Unbind { hotkey },
        None => Command::Refused(Refusal::NoSuchHotkey),
    }
}

/// Reads a command line, the program's name first.
pub fn parse_command(args: &Vec<String>) -> (command: Command)
    ensures
        command@ == command_of(texts(args@)),
{
    if args.len() < 2 {
        return Command::Run;
    }
    let word = &args[1];
    if is_word(word, "run") {
        Command::Run
    } else if is_word(word, "ls") {
        Command::List
    } else if is_word(word, "bind") {
        if args.len() < 5 {
            Command::Refused(Refusal::BindNeedsMore)
        } else {
            bind_from(args[2].clone(), args[3].clone(), parse_hotkey(args[4].as_str()))
        }
    } else if is_word(word, "unbind") {
        if args.len() < 3 {
            Command::Refused(Refusal::UnbindNeedsMore)
        } else {
            unbind_from(parse_hotkey(args[2].as_str()))
        }
    } else {
        Command::Refused(Refusal::UnknownCommand)
    }
}

/// The line to print for a command line that was refused.
pub fn refusal_notice(refusal: Refusal) -> (notice: &'static str)
    ensures
        refusal == Refusal::BindNeedsMore ==> notice@ == "Not enough arguments for bind mode!"@,
        refusal == Refusal::UnbindNeedsMore ==> notice@
            == "Not enough arguments for unbind mode!"@,
        refusal == Refusal::NoSuchHotkey ==> notice@ == "The hotkey could not be read!"@,
        refusal == Refusal::UnknownCommand ==> notice@ == "Unknown command!"@,
{
    match refusal {
        Refusal::BindNeedsMore => "Not enough arguments for bind mode!",
        Refusal::UnbindNeedsMore => "Not enough arguments for unbind mode!",
        Refusal::NoSuchHotkey => "The hotkey could not be read!",
        Refusal::UnknownCommand => "Unknown command!",
    }
}

/// The line that `ls` prints for a binding: the sound's name, an arrow and
/// the hotkey.
pub open spec fn line_text(name: Seq<char>, hotkey: Seq<char>) -> Seq<char> {
    name + " -> "@ + hotkey
}

/// Writes the line of a binding from the sound's name and the hotkey's text.
pub fn listing_line(name: &str, hotkey: &str) -> (line: String)
    ensures
        line@ == line_text(name@, hotkey@),
{
    let mut line = String::from_str(name);
    line.append(" -> ");
    line.append(hotkey);
    line
}

/// The lines that `ls` prints: one for each binding, in the order of the
/// list.
pub open spec fn listing_text(bindings: Seq<Binding>) -> Seq<Seq<char>> {
    Seq::new(
        bindings.len(),
        |i: int| line_text(bindings[i].sound@.name, text_of_hotkey(bindings[i].hotkey)),
    )
}

/// Writes the lines that `ls` prints.
pub fn listing(bindings: &[Binding]) -> (printed: Vec<String>)
    ensures
        texts(printed@) == listing_text(bindings@),
{
    let mut printed: Vec<String> = Vec::new();
    let mut at: usize = 0;
    while at < bindings.len()
        invariant
            at <= bindings@.len(),
            printed@.len() == at,
            forall|i: int| 0 <= i < at ==> printed@[i]@ == listing_text(bindings@)[i],
        decreases bindings@.len() - at,
    {
        let text = describe_hotkey(&bindings[at].hotkey);
        printed.push(listing_line(bindings[at].sound.name(), text.as_str()));
        at += 1;
    }
    printed
}

/// What is left to do once a command has been applied to the table.
#[derive(Debug, PartialEq, Eq)]
pub enum Step {
    /// Have the hook carry out the action for the hotkey, then save the
    /// table. `previous` is what the hotkey played before: where the hook
    /// refuses, [`Soundboard::after_refusal`] takes it.
    Hook { hotkey: Hotkey, action: HookAction, previous: Option<Sound> },
    /// Print the lines, then save the table.
    Print { lines: Vec<String> },
    /// Relay the microphone and serve the hotkeys until the user ends it,
    /// then save the table.
    Serve,
    /// Report the refusal. Nothing is saved.
    Complain { refusal: Refusal },
}

/// A [`Step`] as the contracts see it.
pub enum StepView {
    Hook { hotkey: Hotkey, action: HookAction, previous: Option<SoundView> },
    Print { lines: Seq<Seq<char>> },
    Serve,
    Complain { refusal: Refusal },
}

impl View for Step {
    type V = StepView;

    open spec fn view(&self) -> StepView {
        match *self {
            Step::Hook { hotkey, action, previous } => StepView::Hook {
                hotkey,
                action,
                previous: sound_view(previous),
            },
            Step::Print { lines } => StepView::Print { lines: texts(lines@) },
            Step::Serve => StepView::Serve,
            Step::Complain { refusal } => StepView::Complain { refusal },
        }
    }
}

/// The table after a command was applied to it: `bind` and `unbind` change
/// it, nothing else does.
pub open spec fn table_after(table: Table, command: CommandView) -> Table {
    match command {
        CommandView::Bind { name, path, hotkey } => bound(
            table,
            hotkey,
            SoundView { name, path: path_of_text(path) },
        ),
        CommandView::Unbind { hotkey } => unbound(table, hotkey),
        _ => table,
    }
}

/// What is left to do once a command has been applied to a table, which was
/// listed as `listed` before.
pub open spec fn step_after(table: Table, listed: Seq<Binding>, command: CommandView) -> StepView {
    match command {
        CommandView::Bind { name, path, hotkey } => StepView::Hook {
            hotkey,
            action: bind_action(table, hotkey),
            previous: played(table, hotkey),
        },
        CommandView::Unbind { hotkey } => StepView::Hook {
            hotkey,
            action: unbind_action(table, hotkey),
            previous: played(table, hotkey),
        },
        CommandView::List => StepView::Print { lines: listing_text(listed) },
        CommandView::Run => StepView::Serve,
        CommandView::Refused(refusal) => StepView::Complain { refusal },
    }
}

/// Whether the table is saved once the step is done: after every command
/// that was understood.
pub fn saves(step: &Step) -> (saved: bool)
    ensures
        saved <==> !(step is Complain),
{
    match step {
        Step::Complain { .. } => false,
        _ => true,
    }
}

/// Applies a command to the table and says what is left to do.
pub fn apply(board: &mut Soundboard, command: Command) -> (step: Step)
    requires
        old(board).wf(),
    ensures
        final(board).wf(),
        final(board)@ == table_after(old(board)@, command@),
        step@ == step_after(old(board)@, old(board).listed(), command@),
{
    match command {
        Command::Bind { name, path, hotkey } => {
            let previous = board.copy_of(hotkey);
            let action = board.bind_new(Sound::at(name, path), hotkey);
            Step::Hook { hotkey, action, previous }
        },
        Command::Unbind { hotkey } => {
            let previous = board.copy_of(hotkey);
            let action = board.unbind(hotkey);
            Step::Hook { hotkey, action, previous }
        },
        Command::List => {
            Step::Print { lines: listing(board.sounds().as_slice()) }
        },
        Command::Run => Step::Serve,
        Command::Refused(refusal) => Step::Complain { refusal },
    }
}

} // verus!
