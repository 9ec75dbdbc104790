//! The greeting addon: `hello` and `hello <name>`.

use vstd::prelude::*;
use crate::command::{
    call_help, commands_view, help_requested, join_args, joined, strings_view, CommandInputsHelp, MyToolsAddon,
    MyToolsAddonCommand, ParseOutcome,
};
use crate::error::MyToolsError;

verus! {

/// Prints "Hello, world!".
pub struct HelloWorldCommand {}

impl MyToolsAddonCommand for HelloWorldCommand {
    open spec fn executes_to(&self, r: Result<String, MyToolsError>) -> bool {
        r matches Ok(s) && s@ == "Hello, world!"@
    }

    fn execute(&self) -> (r: Result<String, MyToolsError>) {
        Ok(String::from_str("Hello, world!"))
    }

    open spec fn inputs() -> Seq<Seq<char>> {
        seq![Seq::<char>::empty()]
    }

    open spec fn help() -> Seq<char> {
        "Print \"Hello, world!\""@
    }

    fn get_command_input() -> (r: Vec<String>) {
        let mut inputs: Vec<String> = Vec::new();
        inputs.push(String::new());
        assert(strings_view(inputs@) =~= Self::inputs());
        inputs
    }

    fn get_command_help() -> (r: String) {
        String::from_str("Print \"Hello, world!\"")
    }
}

/// Prints "Hello, <name>!".
pub struct HelloInputCommand {
    pub name: String,
}

impl MyToolsAddonCommand for HelloInputCommand {
    open spec fn executes_to(&self, r: Result<String, MyToolsError>) -> bool {
        r matches Ok(s) && s@ == "Hello, "@ + self.name@ + "!"@
    }

    fn execute(&self) -> (r: Result<String, MyToolsError>) {
        Ok(String::from_str("Hello, ").concat(self.name.as_str()).concat("!"))
    }

    open spec fn inputs() -> Seq<Seq<char>> {
        seq!["<name>"@]
    }

    open spec fn help() -> Seq<char> {
        "Print \"Hello, <name>!\""@
    }

    fn get_command_input() -> (r: Vec<String>) {
        let mut inputs: Vec<String> = Vec::new();
        inputs.push(String::from_str("<name>"));
        assert(strings_view(inputs@) =~= Self::inputs());
        inputs
    }

    fn get_command_help() -> (r: String) {
        String::from_str("Print \"Hello, <name>!\"")
    }
}

/// A command of the greeting addon.
pub enum HelloCommand {
    World(HelloWorldCommand),
    Input(HelloInputCommand),
}

impl MyToolsAddonCommand for HelloCommand {
    open spec fn executes_to(&self, r: Result<String, MyToolsError>) -> bool {
        match self {
            HelloCommand::World(c) => c.executes_to(r),
            HelloCommand::Input(c) => c.executes_to(r),
        }
    }

    fn execute(&self) -> (r: Result<String, MyToolsError>) {
        match self {
            HelloCommand::World(c) => c.execute(),
            HelloCommand::Input(c) => c.execute(),
        }
    }

    open spec fn inputs() -> Seq<Seq<char>> {
        <HelloWorldCommand as MyToolsAddonCommand>::inputs() + <HelloInputCommand as MyToolsAddonCommand>::inputs()
    }

    open spec fn help() -> Seq<char> {
        "Print a greeting"@
    }

    fn get_command_input() -> (r: Vec<String>) {
        let mut inputs = HelloWorldCommand::get_command_input();
        let mut more = HelloInputCommand::get_command_input();
        let ghost a = inputs@;
        let ghost b = more@;
        inputs.append(&mut more);
        assert(strings_view(inputs@) =~= strings_view(a) + strings_view(b));
        inputs
    }

    fn get_command_help() -> (r: String) {
        String::from_str("Print a greeting")
    }
}

/// The greeting addon, selected by the keyword `hello`.
pub struct HelloWorldAddon;

impl MyToolsAddon for HelloWorldAddon {
    type Command = HelloCommand;

    open spec fn keyword(&self) -> Seq<char> {
        "hello"@
    }

    /// No argument greets the world, one argument greets that name, and
    /// more are refused.
    open spec fn parses_to(
        &self,
        args: Seq<Seq<char>>,
        r: Result<ParseOutcome<HelloCommand>, MyToolsError>,
    ) -> bool {
        if help_requested(args) {
            r matches Ok(ParseOutcome::HelpRequested)
        } else if args.len() == 0 {
            r matches Ok(ParseOutcome::Command(HelloCommand::World(_)))
        } else if args.len() == 1 {
            r matches Ok(ParseOutcome::Command(HelloCommand::Input(c))) && c.name@ == args[0]
        } else {
            r matches Err(MyToolsError::InvalidCommand(m)) && m@ == joined(args, " "@)
        }
    }

    /// Greeting the world, then greeting a name.
    open spec fn commands(&self) -> Seq<(Seq<Seq<char>>, Seq<char>)> {
        seq![
            (
                <HelloWorldCommand as MyToolsAddonCommand>::inputs(),
                <HelloWorldCommand as MyToolsAddonCommand>::help(),
            ),
            (
                <HelloInputCommand as MyToolsAddonCommand>::inputs(),
                <HelloInputCommand as MyToolsAddonCommand>::help(),
            ),
        ]
    }

    fn get_keyword(&self) -> (r: &'static str) {
        "hello"
    }

    fn get_list_commands(&self) -> (r: Vec<CommandInputsHelp>) {
        let mut cmds: Vec<CommandInputsHelp> = Vec::new();
        cmds.push(
            CommandInputsHelp {
                inputs_msg: HelloWorldCommand::get_command_input(),
                help_msg: HelloWorldCommand::get_command_help(),
            },
        );
        cmds.push(
            CommandInputsHelp {
                inputs_msg: HelloInputCommand::get_command_input(),
                help_msg: HelloInputCommand::get_command_help(),
            },
        );
        assert(commands_view(cmds@) =~= self.commands());
        cmds
    }

    fn parse(&self, args: &[String]) -> (r: Result<ParseOutcome<HelloCommand>, MyToolsError>) {
        if call_help(args) {
            return Ok(ParseOutcome::HelpRequested);
        }
        if args.len() == 0 {
            Ok(ParseOutcome::Command(HelloCommand::World(HelloWorldCommand {  })))
        } else if args.len() == 1 {
            let name = String::from_str(args[0].as_str());
            Ok(ParseOutcome::Command(HelloCommand::Input(HelloInputCommand { name })))
        } else {
            Err(MyToolsError::InvalidCommand(join_args(args, " ")))
        }
    }
}

} // verus!
