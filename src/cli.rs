use vstd::prelude::*;
use vstd::string::StringExecFns;

verus! {

/// Printed for arguments that name no subcommand.
pub const USAGE: &'static str = "Usage: cmdy <command>. Use 'cmdy help' for details.";

/// Printed for `help`.
pub const HELP_TEXT: &'static str = "
cmdy CLI - Command Manager
------------------------------------
cmdy run         - Run a command set
cmdy list        - List all command sets
cmdy logs        - View execution logs
cmdy delete <name> - Delete a command set
cmdy help        - Show this help message
";

/// A subcommand, read from the arguments after the program's name.
#[derive(PartialEq, Eq, Debug)]
pub enum CliCommand {
    /// Pick a directory and a command set, then run the set.
    Run,
    /// Print the stored command sets.
    List,
    /// Print the run log.
    Logs,
    /// Remove the command sets with this name.
    Delete(String),
    /// Print the help text.
    Help,
    /// Anything else: print a one-line usage hint.
    Usage,
}

/// The subcommand that the arguments ask for, as a value of the model.
pub enum CliCommandView {
    Run,
    List,
    Logs,
    Delete(Seq<char>),
    Help,
    Usage,
}

impl View for CliCommand {
    type V = CliCommandView;

    open spec fn view(&self) -> CliCommandView {
        match self {
            CliCommand::Run => CliCommandView::Run,
            CliCommand::List => CliCommandView::List,
            CliCommand::Logs => CliCommandView::Logs,
            CliCommand::Delete(n) => CliCommandView::Delete(n@),
            CliCommand::Help => CliCommandView::Help,
            CliCommand::Usage => CliCommandView::Usage,
        }
    }
}

/// The subcommand for `args`, where `args[0]` is the program's name.
/// `delete` needs a name after it; `help` and `--help` are the same.
pub open spec fn command_spec(args: Seq<Seq<char>>) -> CliCommandView {
    if args.len() < 2 {
        CliCommandView::Usage
    } else if args[1] == "run"@ {
        CliCommandView::Run
    } else if args[1] == "list"@ {
        CliCommandView::List
    } else if args[1] == "logs"@ {
        CliCommandView::Logs
    } else if args[1] == "delete"@ && args.len() > 2 {
        CliCommandView::Delete(args[2])
    } else if args[1] == "help"@ || args[1] == "--help"@ {
        CliCommandView::Help
    } else {
        CliCommandView::Usage
    }
}

fn is_word(arg: &String, word: &str) -> (r: bool)
    ensures
        r == (arg@ == word@),
{
    *arg == String::from_str(word)
}

/// Reads the subcommand from the command line.
pub fn parse_args(args: &Vec<String>) -> (r: CliCommand)
    ensures
        r@ == command_spec(args.deep_view()),
{
    if args.len() < 2 {
        return CliCommand::Usage;
    }
    let first = &args[1];
    if is_word(first, "run") {
        CliCommand::Run
    } else if is_word(first, "list") {
        CliCommand::List
    } else if is_word(first, "logs") {
        CliCommand::Logs
    } else if is_word(first, "delete") && args.len() > 2 {
        CliCommand::Delete(args[2].clone())
    } else if is_word(first, "help") || is_word(first, "--help") {
        CliCommand::Help
    } else {
        CliCommand::Usage
    }
}

} // verus!
