//! The command tree: what one input line asks for.

use vstd::prelude::*;
use vstd::string::StringExecFns;
pub use crate::engine::{RunResult, IO};
use crate::parser::{Redirection, RedirectType};
use crate::text::{file_name, path_file_name, trim, trimmed};

verus! {

/// One parsed input line.
#[derive(Debug, PartialEq, Eq)]
pub enum Command {
    /// Leave the interpreter.
    Exit,
    /// The words to print.
    Echo(Vec<String>),
    /// The commands to classify; each is the resolution of one name.
    Type(Vec<Command>),
    /// Print the working directory.
    PWD,
    /// No argument (go home) or the directory to change to.
    CD(Vec<String>),
    /// The path of the program and its arguments.
    Executable(String, Vec<String>),
    /// The name that resolved to nothing.
    InvalidCommand(String),
    /// A pipeline and the stage that reads what it writes.
    Pipe(Box<Command>, Box<Command>),
    /// Where standard output goes, where standard error goes, and the
    /// pipeline they are bound to.
    Redirect(RedirectType, RedirectType, Box<Command>),
}

/// A command tree as a mathematical value.
pub enum CommandTree {
    Exit,
    Echo(Seq<Seq<char>>),
    Type(Seq<CommandTree>),
    Pwd,
    Cd(Seq<Seq<char>>),
    Executable(Seq<char>, Seq<Seq<char>>),
    InvalidCommand(Seq<char>),
    Pipe(Box<CommandTree>, Box<CommandTree>),
    Redirect(Redirection, Redirection, Box<CommandTree>),
}

/// The tree that a command stands for.
pub open spec fn tree_of(command: Command) -> CommandTree
    decreases command,
{
    match command {
        Command::Exit => CommandTree::Exit,
        Command::Echo(args) => CommandTree::Echo(args.deep_view()),
        Command::Type(targets) => CommandTree::Type(
            Seq::new(
                targets.len() as nat,
                |i: int|
                    if 0 <= i < targets.len() {
                        tree_of(targets[i])
                    } else {
                        CommandTree::Exit
                    },
            ),
        ),
        Command::PWD => CommandTree::Pwd,
        Command::CD(args) => CommandTree::Cd(args.deep_view()),
        Command::Executable(path, args) => CommandTree::Executable(path@, args.deep_view()),
        Command::InvalidCommand(name) => CommandTree::InvalidCommand(name@),
        Command::Pipe(left, right) => CommandTree::Pipe(
            Box::new(tree_of(*left)),
            Box::new(tree_of(*right)),
        ),
        Command::Redirect(out, err, inner) => CommandTree::Redirect(
            out@,
            err@,
            Box::new(tree_of(*inner)),
        ),
    }
}

impl View for Command {
    type V = CommandTree;

    open spec fn view(&self) -> CommandTree {
        tree_of(*self)
    }
}

/// The name a command goes by: a builtin's own name, a program's file name.
/// A pipe or a redirect has none, nor has a program whose path has no file
/// name.
pub open spec fn name_of(tree: CommandTree) -> Option<Seq<char>> {
    match tree {
        CommandTree::Exit => Some("exit"@),
        CommandTree::Echo(_) => Some("echo"@),
        CommandTree::Type(_) => Some("type"@),
        CommandTree::Pwd => Some("pwd"@),
        CommandTree::Cd(_) => Some("cd"@),
        CommandTree::Executable(path, _) => file_name(path),
        CommandTree::InvalidCommand(_) => Some("invalid_command"@),
        CommandTree::Pipe(_, _) => None,
        CommandTree::Redirect(_, _, _) => None,
    }
}

/// Whether the command is one of the builtins.
pub open spec fn is_builtin(tree: CommandTree) -> bool {
    tree is Exit || tree is Echo || tree is Type || tree is Pwd || tree is Cd
}

/// The line by which `type` classifies a command: a builtin as a shell
/// builtin, a program by its path, an unresolved name as not found. A pipe
/// or a redirect is not classified.
pub open spec fn type_line(tree: CommandTree) -> Option<Seq<char>> {
    match tree {
        CommandTree::Executable(path, _) => match file_name(path) {
            Some(name) => Some(name + " is "@ + path),
            None => None,
        },
        CommandTree::InvalidCommand(input) => Some(trimmed(input) + ": not found"@),
        CommandTree::Pipe(_, _) => None,
        CommandTree::Redirect(_, _, _) => None,
        _ => Some(name_of(tree)->0 + " is a shell builtin"@),
    }
}

impl Command {
    /// The name the command goes by.
    pub fn name(&self) -> (name: &str)
        requires
            name_of(self@) is Some,
        ensures
            name_of(self@) == Some(name@),
    {
        match self {
            Command::Exit => "exit",
            Command::Echo(_) => "echo",
            Command::Type(_) => "type",
            Command::PWD => "pwd",
            Command::CD(_) => "cd",
            Command::Executable(path, _) => match path_file_name(path.as_str()) {
                Some(name) => name,
                None => "",
            },
            Command::InvalidCommand(_) => "invalid_command",
            Command::Pipe(_, _) => "",
            Command::Redirect(_, _, _) => "",
        }
    }

    /// Whether `type` can classify the command.
    pub fn has_type_description(&self) -> (can: bool)
        ensures
            can == type_line(self@) is Some,
    {
        match self {
            Command::Executable(path, _) => path_file_name(path.as_str()).is_some(),
            Command::Pipe(_, _) => false,
            Command::Redirect(_, _, _) => false,
            _ => true,
        }
    }

    /// The line by which `type` classifies the command.
    pub fn type_description(&self) -> (line: String)
        requires
            type_line(self@) is Some,
        ensures
            type_line(self@) == Some(line@),
    {
        match self {
            Command::Executable(path, _) => {
                let mut line = String::from_str(self.name());
                line.append(" is ");
                line.append(path.as_str());
                line
            },
            Command::InvalidCommand(input) => {
                let mut line = String::from_str(trim(input.as_str()));
                line.append(": not found");
                line
            },
            _ => {
                let mut line = String::from_str(self.name());
                line.append(" is a shell builtin");
                line
            },
        }
    }

    /// The line by which `type` classifies the command, if it can.
    pub fn try_type_description(&self) -> (line: Option<String>)
        ensures
            match line {
                Some(l) => type_line(self@) == Some(l@),
                None => type_line(self@) is None,
            },
    {
        if self.has_type_description() {
            Some(self.type_description())
        } else {
            None
        }
    }
}

} // verus!
