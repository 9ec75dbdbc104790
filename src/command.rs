//! The abstractions that every addon and every addon command implement.

use vstd::prelude::*;
use crate::error::MyToolsError;

verus! {

/// The input patterns of a command, with its one-line help message.
pub struct CommandInputsHelp {
    pub inputs_msg: Vec<String>,
    pub help_msg: String,
}

/// What an addon makes of its arguments when they are not refused.
pub enum ParseOutcome<C> {
    /// The arguments name a command, ready to run.
    Command(C),
    /// The arguments ask for the addon's help page.
    HelpRequested,
}

/// A unit of work produced by an addon from its arguments.
pub trait MyToolsAddonCommand {
    /// Holds when `r` is what running this command gives.
    spec fn executes_to(&self, r: Result<String, MyToolsError>) -> bool;

    /// Runs the command.
    fn execute(&self) -> (r: Result<String, MyToolsError>)
        ensures
            self.executes_to(r),
    ;

    /// The input patterns that the command accepts.
    spec fn inputs() -> Seq<Seq<char>>;

    /// The one-line help message of the command.
    spec fn help() -> Seq<char>;

    /// Returns the input patterns that the command accepts.
    fn get_command_input() -> (r: Vec<String>) where Self: Sized
        ensures
            strings_view(r@) == Self::inputs(),
    ;

    /// Returns the one-line help message of the command.
    fn get_command_help() -> (r: String) where Self: Sized
        ensures
            r@ == Self::help(),
    ;
}

/// A pluggable family of commands, reached through its keyword.
pub trait MyToolsAddon {
    /// The commands that this addon produces.
    type Command: MyToolsAddonCommand;

    /// The keyword that selects this addon.
    spec fn keyword(&self) -> Seq<char>;

    /// Holds when `r` is what parsing the arguments `args` gives.
    spec fn parses_to(&self, args: Seq<Seq<char>>, r: Result<ParseOutcome<Self::Command>, MyToolsError>) -> bool;

    /// Returns the keyword that selects this addon.
    fn get_keyword(&self) -> (r: &'static str)
        ensures
            r@ == self.keyword(),
    ;

    /// Every command of the addon, as its input patterns and its help
    /// message, in the order of the help page.
    spec fn commands(&self) -> Seq<(Seq<Seq<char>>, Seq<char>)>;

    /// Lists every command of the addon, for its help page.
    fn get_list_commands(&self) -> (r: Vec<CommandInputsHelp>)
        ensures
            commands_view(r@) == self.commands(),
    ;

    /// Turns the arguments that follow the keyword into a command, a help
    /// request, or an error.
    fn parse(&self, args: &[String]) -> (r: Result<ParseOutcome<Self::Command>, MyToolsError>)
        ensures
            self.parses_to(strings_view(args@), r),
    ;

    /// The help page of the addon, listing each of its commands.
    fn get_help(&self) -> (r: String)
        ensures
            r@ == help_page(self.keyword(), self.commands()),
    {
        let cmds = self.get_list_commands();
        addon_help(self.get_keyword(), &cmds)
    }
}

/// The character sequences of a sequence of strings.
pub open spec fn strings_view(args: Seq<String>) -> Seq<Seq<char>> {
    args.map_values(|s: String| s@)
}

/// The arguments are a lone `--help` or `-h`.
pub open spec fn help_requested(args: Seq<Seq<char>>) -> bool {
    args.len() == 1 && (args[0] == "--help"@ || args[0] == "-h"@)
}

/// The arguments joined by `sep`.
pub open spec fn joined(args: Seq<Seq<char>>, sep: Seq<char>) -> Seq<char>
    decreases args.len(),
{
    if args.len() == 0 {
        Seq::empty()
    } else if args.len() == 1 {
        args[0]
    } else {
        joined(args.drop_last(), sep) + sep + args.last()
    }
}

/// Compares two strings character by character.
pub fn str_eq(a: &str, b: &str) -> (r: bool)
    ensures
        r == (a@ == b@),
{
    let n = a.unicode_len();
    if n != b.unicode_len() {
        return false;
    }
    let mut i: usize = 0;
    while i < n
        invariant
            n == a@.len(),
            n == b@.len(),
            i <= n,
            forall|k: int| 0 <= k < i ==> a@[k] == b@[k],
        decreases n - i,
    {
        if a.get_char(i) != b.get_char(i) {
            return false;
        }
        i = i + 1;
    }
    assert(a@ =~= b@);
    true
}

/// Tells whether the arguments are a lone `--help` or `-h`.
pub fn call_help(args: &[String]) -> (r: bool)
    ensures
        r == help_requested(strings_view(args@)),
{
    if args.len() != 1 {
        return false;
    }
    str_eq(args[0].as_str(), "--help") || str_eq(args[0].as_str(), "-h")
}

/// Joins the arguments with `sep` between each two.
pub fn join_args(args: &[String], sep: &str) -> (r: String)
    ensures
        r@ == joined(strings_view(args@), sep@),
{
    let ghost v = strings_view(args@);
    let mut acc = String::new();
    let mut i: usize = 0;
    while i < args.len()
        invariant
            v == strings_view(args@),
            i <= args@.len(),
            acc@ == joined(v.take(i as int), sep@),
        decreases args@.len() - i,
    {
        proof {
            assert(v.take(i + 1).drop_last() =~= v.take(i as int));
            assert(v.take(i + 1).last() == args@[i as int]@);
        }
        if i > 0 {
            acc.append(sep);
        } else {
            assert(v.take(1) =~= seq![args@[0]@]);
            assert(acc@ =~= Seq::<char>::empty());
        }
        acc.append(args[i].as_str());
        i = i + 1;
    }
    assert(v.take(args@.len() as int) =~= v);
    acc
}


/// One usage line of a help page.
pub open spec fn input_line(keyword: Seq<char>, input: Seq<char>) -> Seq<char> {
    "\t\tmy_tools "@ + keyword + " "@ + input
}

/// The usage lines of a command, one per input pattern.
pub open spec fn input_lines(keyword: Seq<char>, inputs: Seq<Seq<char>>) -> Seq<Seq<char>> {
    inputs.map_values(|i: Seq<char>| input_line(keyword, i))
}

/// A listed command as its input patterns and its help message.
pub open spec fn command_view(c: CommandInputsHelp) -> (Seq<Seq<char>>, Seq<char>) {
    (strings_view(c.inputs_msg@), c.help_msg@)
}

/// The listed commands as their input patterns and help messages.
pub open spec fn commands_view(cmds: Seq<CommandInputsHelp>) -> Seq<(Seq<Seq<char>>, Seq<char>)> {
    cmds.map_values(|c: CommandInputsHelp| command_view(c))
}

/// The block of a help page that describes one command: its help message,
/// then its usage lines.
pub open spec fn command_block(keyword: Seq<char>, cmd: (Seq<Seq<char>>, Seq<char>)) -> Seq<char> {
    "\t"@ + cmd.1 + "\n"@ + joined(input_lines(keyword, cmd.0), "\n"@)
}

/// The help page of an addon with keyword `keyword` and commands `cmds`.
pub open spec fn help_page(keyword: Seq<char>, cmds: Seq<(Seq<Seq<char>>, Seq<char>)>) -> Seq<char> {
    "\n=== Addon: "@ + keyword + " ===\n\nUsage: "@ + keyword + " <COMMAND>\n\nCommands:\n"@
        + joined(cmds.map_values(|c: (Seq<Seq<char>>, Seq<char>)| command_block(keyword, c)), "\n"@)
        + "\n"@
}

/// Builds the block of a help page that describes one command.
fn command_help(keyword: &str, cmd: &CommandInputsHelp) -> (r: String)
    ensures
        r@ == command_block(keyword@, command_view(*cmd)),
{
    let ghost ins = strings_view(cmd.inputs_msg@);
    let mut lines: Vec<String> = Vec::new();
    let mut i: usize = 0;
    while i < cmd.inputs_msg.len()
        invariant
            i <= cmd.inputs_msg@.len(),
            ins == strings_view(cmd.inputs_msg@),
            strings_view(lines@) =~= input_lines(keyword@, ins).take(i as int),
        decreases cmd.inputs_msg@.len() - i,
    {
        let line = String::from_str("\t\tmy_tools ").concat(keyword).concat(" ").concat(
            cmd.inputs_msg[i].as_str(),
        );
        let ghost before = lines@;
        lines.push(line);
        proof {
            assert(strings_view(lines@) =~= strings_view(before).push(line@));
            assert(input_lines(keyword@, ins).take(i + 1) =~= input_lines(keyword@, ins).take(i as int).push(line@));
        }
        i = i + 1;
    }
    assert(input_lines(keyword@, ins).take(i as int) =~= input_lines(keyword@, ins));
    String::from_str("\t").concat(cmd.help_msg.as_str()).concat("\n").concat(
        join_args(lines.as_slice(), "\n").as_str(),
    )
}

/// Builds the help page of an addon from its keyword and its commands.
pub fn addon_help(keyword: &str, cmds: &Vec<CommandInputsHelp>) -> (r: String)
    ensures
        r@ == help_page(keyword@, commands_view(cmds@)),
{
    let ghost blocks = commands_view(cmds@).map_values(
        |c: (Seq<Seq<char>>, Seq<char>)| command_block(keyword@, c),
    );
    let mut parts: Vec<String> = Vec::new();
    let mut i: usize = 0;
    while i < cmds.len()
        invariant
            i <= cmds@.len(),
            blocks == commands_view(cmds@).map_values(
                |c: (Seq<Seq<char>>, Seq<char>)| command_block(keyword@, c),
            ),
            strings_view(parts@) =~= blocks.take(i as int),
        decreases cmds@.len() - i,
    {
        let block = command_help(keyword, &cmds[i]);
        let ghost before = parts@;
        parts.push(block);
        proof {
            assert(strings_view(parts@) =~= strings_view(before).push(block@));
            assert(blocks.take(i + 1) =~= blocks.take(i as int).push(block@));
        }
        i = i + 1;
    }
    assert(blocks.take(i as int) =~= blocks);
    String::from_str("\n=== Addon: ").concat(keyword).concat(" ===\n\nUsage: ").concat(
        keyword,
    ).concat(" <COMMAND>\n\nCommands:\n").concat(join_args(parts.as_slice(), "\n").as_str()).concat(
        "\n",
    )
}

} // verus!
