//! The command line, once the options are taken out: a directive and its
//! arguments.

use vstd::prelude::*;

use crate::change::Direction;
use crate::error::{Error, UsageError};
use crate::project::Timing;
use crate::text::{str_eq, strings_from};

verus! {

/// What is done to a project.
#[derive(Clone, Copy, Debug, PartialEq, Eq, Structural)]
pub enum Operation {
    /// Add a change with this timing.
    Add(Timing),
    /// Remove a change.
    Remove,
    /// List the changes.
    List,
    /// Remove every change.
    Clear,
    /// Edit the scripts of a change.
    Edit,
    /// Show what a run would execute.
    Simulate,
    /// Package the project and publish it.
    Package,
}

/// What the operator asked for.
#[derive(Debug, PartialEq, Eq)]
pub enum Command {
    /// Set up a new project.
    Init { name: String },
    /// Run published projects; the arguments are the timing and the names.
    Run { direction: Direction, args: Vec<String> },
    /// Work on the project `name`; the arguments are those of the operation.
    Project { name: String, operation: Operation, args: Vec<String> },
}

/// What the operator asked for, the strings as sequences of characters.
pub enum CommandView {
    Init { name: Seq<char> },
    Run { direction: Direction, args: Seq<Seq<char>> },
    Project { name: Seq<char>, operation: Operation, args: Seq<Seq<char>> },
}

impl View for Command {
    type V = CommandView;

    open spec fn view(&self) -> CommandView {
        match self {
            Command::Init { name } => CommandView::Init { name: name@ },
            Command::Run { direction, args } => CommandView::Run {
                direction: *direction,
                args: args.deep_view(),
            },
            Command::Project { name, operation, args } => CommandView::Project {
                name: name@,
                operation: *operation,
                args: args.deep_view(),
            },
        }
    }
}

impl Operation {
    /// The operation that `word` names, if it names one.
    pub open spec fn parse(word: Seq<char>) -> Option<Operation> {
        if word == "pre"@ {
            Some(Operation::Add(Timing::Pre))
        } else if word == "post"@ {
            Some(Operation::Add(Timing::Post))
        } else if word == "rm"@ {
            Some(Operation::Remove)
        } else if word == "ls"@ {
            Some(Operation::List)
        } else if word == "clear"@ {
            Some(Operation::Clear)
        } else if word == "edit"@ {
            Some(Operation::Edit)
        } else if word == "simulate"@ {
            Some(Operation::Simulate)
        } else if word == "package"@ {
            Some(Operation::Package)
        } else {
            None
        }
    }

    /// Whether the operation changes the project, so that its document is
    /// to be written anew.
    pub open spec fn changes_project(self) -> bool {
        self is Add || self is Remove || self is Clear
    }

    /// Whether the operation changes the project, so that its document is
    /// to be written anew.
    pub fn persists(&self) -> (out: bool)
        ensures
            out == self.changes_project(),
    {
        match self {
            Operation::Add(_) | Operation::Remove | Operation::Clear => true,
            Operation::List | Operation::Edit | Operation::Simulate | Operation::Package => false,
        }
    }

    /// Reads an operation from its name. Any other word is refused.
    pub fn from_str(word: &str) -> (out: Result<Operation, Error>)
        ensures
            out == match Operation::parse(word@) {
                Some(operation) => Ok::<Operation, Error>(operation),
                None => Err(Error::Usage(UsageError::UnknownCommand)),
            },
    {
        if str_eq(word, "pre") {
            Ok(Operation::Add(Timing::Pre))
        } else if str_eq(word, "post") {
            Ok(Operation::Add(Timing::Post))
        } else if str_eq(word, "rm") {
            Ok(Operation::Remove)
        } else if str_eq(word, "ls") {
            Ok(Operation::List)
        } else if str_eq(word, "clear") {
            Ok(Operation::Clear)
        } else if str_eq(word, "edit") {
            Ok(Operation::Edit)
        } else if str_eq(word, "simulate") {
            Ok(Operation::Simulate)
        } else if str_eq(word, "package") {
            Ok(Operation::Package)
        } else {
            Err(Error::Usage(UsageError::UnknownCommand))
        }
    }
}

impl CommandView {
    /// Why a directive with its arguments is refused, if it is.
    pub open spec fn refusal(directive: Seq<char>, args: Seq<Seq<char>>) -> Option<Error> {
        if directive == "init"@ {
            if args.len() == 0 {
                Some(Error::Usage(UsageError::MissingProjectName))
            } else {
                None
            }
        } else if Direction::parse(directive) is Some {
            None
        } else if args.len() == 0 {
            Some(Error::Usage(UsageError::MissingCommand))
        } else if Operation::parse(args[0]) is None {
            Some(Error::Usage(UsageError::UnknownCommand))
        } else {
            None
        }
    }

    /// The command that a directive with its arguments stands for: `init`
    /// with a name, `up` or `down` with the arguments of a run, or the name
    /// of a project with an operation and its arguments.
    pub open spec fn of(directive: Seq<char>, args: Seq<Seq<char>>) -> CommandView
        recommends
            CommandView::refusal(directive, args) is None,
    {
        if directive == "init"@ {
            CommandView::Init { name: args[0] }
        } else if Direction::parse(directive) is Some {
            CommandView::Run { direction: Direction::parse(directive)->0, args }
        } else {
            CommandView::Project {
                name: directive,
                operation: Operation::parse(args[0])->0,
                args: args.skip(1),
            }
        }
    }
}

impl Command {
    /// Reads a command from a directive and its arguments.
    pub fn parse(directive: &str, args: &[String]) -> (out: Result<Command, Error>)
        ensures
            match out {
                Ok(command) => {
                    &&& CommandView::refusal(directive@, args.deep_view()) is None
                    &&& command@ == CommandView::of(directive@, args.deep_view())
                },
                Err(error) => CommandView::refusal(directive@, args.deep_view()) == Some(error),
            },
    {
        if str_eq(directive, "init") {
            if args.len() == 0 {
                return Err(Error::Usage(UsageError::MissingProjectName));
            }
            return Ok(Command::Init { name: args[0].clone() });
        }
        match Direction::from_str(directive) {
            Ok(direction) => {
                let rest = strings_from(args, 0);
                assert(args.deep_view().skip(0) =~= args.deep_view());
                return Ok(Command::Run { direction, args: rest });
            },
            Err(_) => {},
        }
        if args.len() == 0 {
            return Err(Error::Usage(UsageError::MissingCommand));
        }
        let operation = match Operation::from_str(args[0].as_str()) {
            Ok(operation) => operation,
            Err(error) => {
                return Err(error);
            },
        };
        Ok(Command::Project { name: directive.to_owned(), operation, args: strings_from(args, 1) })
    }
}

} // verus!
