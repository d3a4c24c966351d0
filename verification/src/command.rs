//! Commands that sessions run.

use portable_pty::CommandBuilder;
use std::path::PathBuf;
use vstd::prelude::*;
use crate::config::ResolvedTerminalSettings;

verus! {

/// `portable_pty::CommandBuilder`, a command that is yet to be run.
#[verifier::external_type_specification]
#[verifier::external_body]
pub struct ExCommandBuilder(portable_pty::CommandBuilder);

/// The program and the arguments that a `CommandBuilder` holds.
pub uninterp spec fn command_line(command: CommandBuilder) -> Seq<Seq<char>>;

/// The directory that a `CommandBuilder` was given.
pub uninterp spec fn command_dir(command: CommandBuilder) -> Option<PathBuf>;

/// The environment variables that a `CommandBuilder` was given beside those of the
/// process.
pub uninterp spec fn command_vars(command: CommandBuilder) -> Map<Seq<char>, Seq<char>>;

/// No keys with values.
pub open spec fn nothing_set() -> Map<Seq<char>, Seq<char>> {
    Map::empty()
}

/// `CommandBuilder::new`: a command that is the program without arguments, with neither
/// a directory nor variables of its own. The environment of the process is taken over,
/// of which nothing is said here.
#[verifier::external_body]
pub(crate) fn new_command(program: &str) -> (command: CommandBuilder)
    ensures
        command_line(command) == seq![program@],
        command_dir(command) is None,
        command_vars(command) == nothing_set(),
{
    CommandBuilder::new(program)
}

/// `CommandBuilder::args`: the arguments are appended in order, and nothing else changes.
/// The command has to have a program.
#[verifier::external_body]
pub(crate) fn add_args(command: &mut CommandBuilder, args: Vec<String>)
    requires
        command_line(*old(command)).len() > 0,
    ensures
        command_line(*final(command)) == command_line(*old(command)) + args.deep_view(),
        command_dir(*final(command)) == command_dir(*old(command)),
        command_vars(*final(command)) == command_vars(*old(command)),
{
    command.args(args)
}

/// `CommandBuilder::cwd`: the directory is set, and nothing else changes.
#[verifier::external_body]
fn set_dir(command: &mut CommandBuilder, dir: PathBuf)
    ensures
        command_dir(*final(command)) == Some(dir),
        command_line(*final(command)) == command_line(*old(command)),
        command_vars(*final(command)) == command_vars(*old(command)),
{
    command.cwd(dir)
}

/// `CommandBuilder::env` on a command without variables of its own: the variable is set,
/// and nothing else changes.
#[verifier::external_body]
fn set_var(command: &mut CommandBuilder, name: &str, value: &str)
    requires
        command_vars(*old(command)) == nothing_set(),
    ensures
        command_vars(*final(command)) == nothing_set().insert(name@, value@),
        command_line(*final(command)) == command_line(*old(command)),
        command_dir(*final(command)) == command_dir(*old(command)),
{
    command.env(name, value)
}

/// The command of a local session: the shell in the given directory, which is told the
/// type of the terminal.
pub fn build_local_command(shell: &str, dir: PathBuf, settings: &ResolvedTerminalSettings) -> (command:
    CommandBuilder)
    ensures
        command_line(command) == seq![shell@],
        command_dir(command) == Some(dir),
        command_vars(command) == nothing_set().insert("TERM"@, settings@.terminal_type),
{
    let mut command = new_command(shell);
    set_dir(&mut command, dir);
    set_var(&mut command, "TERM", settings.terminal_type.as_str());
    command
}

/// A local session runs the shell alone, in the given directory, and is told the type of
/// the terminal and nothing else.
pub proof fn local_commands_run_the_shell(
    shell: &str,
    dir: PathBuf,
    settings: &ResolvedTerminalSettings,
    command: CommandBuilder,
    name: Seq<char>,
)
    requires
        call_ensures(build_local_command, (shell, dir, settings), command),
    ensures
        command_line(command).len() == 1 && command_line(command)[0] == shell@,
        command_dir(command) == Some(dir),
        command_vars(command).contains_key(name) <==> name == "TERM"@,
        command_vars(command)["TERM"@] == settings.terminal_type@,
{
}

} // verus!
