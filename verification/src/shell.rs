//! Shell detection and the command a side task prepares for execution.

use vstd::prelude::*;
use crate::text::{has_sub, str_contains};

verus! {

/// The shell families the command runner distinguishes.
#[derive(Clone, Copy, PartialEq, Eq, Structural, Debug)]
pub enum ShellType {
    Bash,
    Zsh,
    Fish,
    PowerShell,
    Cmd,
}

/// The shell family a shell path or name denotes, tested in order;
/// unknown names fall back to Bash.
pub open spec fn shell_type_of(name: Seq<char>) -> ShellType {
    if has_sub(name, "bash"@) {
        ShellType::Bash
    } else if has_sub(name, "zsh"@) {
        ShellType::Zsh
    } else if has_sub(name, "fish"@) {
        ShellType::Fish
    } else if has_sub(name, "powershell"@) {
        ShellType::PowerShell
    } else if has_sub(name, "cmd"@) {
        ShellType::Cmd
    } else {
        ShellType::Bash
    }
}

/// Model of a prepared shell command.
pub struct ShellCommandView {
    pub shell: ShellType,
    pub command: Seq<char>,
}

/// A shell command prepared for execution: the detected shell family
/// and the command text.  Running the command is the embedding
/// application's concern.
#[derive(Debug)]
pub struct ShellCommand {
    shell_type: ShellType,
    command: String,
}

impl View for ShellCommand {
    type V = ShellCommandView;

    closed spec fn view(&self) -> ShellCommandView {
        ShellCommandView { shell: self.shell_type, command: self.command@ }
    }
}

impl ShellCommand {
    /// A command runner for the shell the given name denotes — the
    /// caller reads the name from its environment — with no command
    /// text yet.
    pub fn new(shell_name: &str) -> (s: ShellCommand)
        ensures
            s@.shell == shell_type_of(shell_name@),
            s@.command == Seq::<char>::empty(),
    {
        let shell_type = if str_contains(shell_name, "bash") {
            ShellType::Bash
        } else if str_contains(shell_name, "zsh") {
            ShellType::Zsh
        } else if str_contains(shell_name, "fish") {
            ShellType::Fish
        } else if str_contains(shell_name, "powershell") {
            ShellType::PowerShell
        } else if str_contains(shell_name, "cmd") {
            ShellType::Cmd
        } else {
            ShellType::Bash
        };
        ShellCommand { shell_type, command: String::new() }
    }

    /// Installs the command text to run, keeping the detected shell.
    pub fn set_command(&mut self, command: String)
        ensures
            final(self)@.shell == old(self)@.shell,
            final(self)@.command == command@,
    {
        self.command = command;
    }

    /// The detected shell family.
    pub fn shell_type(&self) -> (t: ShellType)
        ensures
            t == self@.shell,
    {
        self.shell_type
    }

    /// The prepared command text.
    pub fn command(&self) -> (c: &String)
        ensures
            c@ == self@.command,
    {
        &self.command
    }
}

} // verus!
