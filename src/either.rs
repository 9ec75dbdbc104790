//! Combining two kinds of addon into one type, so that a registry can hold
//! addons of different kinds side by side.

use vstd::prelude::*;
use crate::command::{strings_view, CommandInputsHelp, MyToolsAddon, MyToolsAddonCommand, ParseOutcome};
use crate::error::MyToolsError;

verus! {

/// A command of one of two kinds.
pub enum EitherCommand<C, D> {
    First(C),
    Second(D),
}

impl<C: MyToolsAddonCommand, D: MyToolsAddonCommand> MyToolsAddonCommand for EitherCommand<C, D> {
    open spec fn executes_to(&self, r: Result<String, MyToolsError>) -> bool {
        match self {
            EitherCommand::First(c) => c.executes_to(r),
            EitherCommand::Second(d) => d.executes_to(r),
        }
    }

    fn execute(&self) -> (r: Result<String, MyToolsError>) {
        match self {
            EitherCommand::First(c) => c.execute(),
            EitherCommand::Second(d) => d.execute(),
        }
    }

    open spec fn inputs() -> Seq<Seq<char>> {
        C::inputs() + D::inputs()
    }

    open spec fn help() -> Seq<char> {
        C::help() + "; "@ + D::help()
    }

    fn get_command_input() -> (r: Vec<String>) {
        let mut inputs = C::get_command_input();
        let mut more = D::get_command_input();
        let ghost (a, b) = (inputs@, more@);
        inputs.append(&mut more);
        assert(strings_view(inputs@) =~= strings_view(a) + strings_view(b));
        inputs
    }

    fn get_command_help() -> (r: String) {
        C::get_command_help().concat("; ").concat(D::get_command_help().as_str())
    }
}

/// An addon of one of two kinds.
pub enum EitherAddon<A, B> {
    First(A),
    Second(B),
}

/// A parse result of the first kind, as one of the combined type.
pub open spec fn lift_first<C, D>(p: Result<ParseOutcome<C>, MyToolsError>) -> Result<
    ParseOutcome<EitherCommand<C, D>>,
    MyToolsError,
> {
    match p {
        Ok(ParseOutcome::Command(c)) => Ok(ParseOutcome::Command(EitherCommand::First(c))),
        Ok(ParseOutcome::HelpRequested) => Ok(ParseOutcome::HelpRequested),
        Err(e) => Err(e),
    }
}

/// A parse result of the second kind, as one of the combined type.
pub open spec fn lift_second<C, D>(p: Result<ParseOutcome<D>, MyToolsError>) -> Result<
    ParseOutcome<EitherCommand<C, D>>,
    MyToolsError,
> {
    match p {
        Ok(ParseOutcome::Command(d)) => Ok(ParseOutcome::Command(EitherCommand::Second(d))),
        Ok(ParseOutcome::HelpRequested) => Ok(ParseOutcome::HelpRequested),
        Err(e) => Err(e),
    }
}

impl<A: MyToolsAddon, B: MyToolsAddon> MyToolsAddon for EitherAddon<A, B> {
    type Command = EitherCommand<A::Command, B::Command>;

    open spec fn keyword(&self) -> Seq<char> {
        match self {
            EitherAddon::First(a) => a.keyword(),
            EitherAddon::Second(b) => b.keyword(),
        }
    }

    open spec fn commands(&self) -> Seq<(Seq<Seq<char>>, Seq<char>)> {
        match self {
            EitherAddon::First(a) => a.commands(),
            EitherAddon::Second(b) => b.commands(),
        }
    }

    /// Whatever the addon inside makes of the arguments.
    open spec fn parses_to(
        &self,
        args: Seq<Seq<char>>,
        r: Result<ParseOutcome<Self::Command>, MyToolsError>,
    ) -> bool {
        match self {
            EitherAddon::First(a) => exists|p: Result<ParseOutcome<A::Command>, MyToolsError>|
                #[trigger] a.parses_to(args, p) && r == lift_first::<A::Command, B::Command>(p),
            EitherAddon::Second(b) => exists|p: Result<ParseOutcome<B::Command>, MyToolsError>|
                #[trigger] b.parses_to(args, p) && r == lift_second::<A::Command, B::Command>(p),
        }
    }

    fn get_keyword(&self) -> (r: &'static str) {
        match self {
            EitherAddon::First(a) => a.get_keyword(),
            EitherAddon::Second(b) => b.get_keyword(),
        }
    }

    fn get_list_commands(&self) -> (r: Vec<CommandInputsHelp>) {
        match self {
            EitherAddon::First(a) => a.get_list_commands(),
            EitherAddon::Second(b) => b.get_list_commands(),
        }
    }

    fn parse(&self, args: &[String]) -> (r: Result<ParseOutcome<Self::Command>, MyToolsError>) {
        match self {
            EitherAddon::First(a) => {
                let p = a.parse(args);
                let ghost gp = p;
                let r = match p {
                    Ok(ParseOutcome::Command(c)) => Ok(ParseOutcome::Command(EitherCommand::First(c))),
                    Ok(ParseOutcome::HelpRequested) => Ok(ParseOutcome::HelpRequested),
                    Err(e) => Err(e),
                };
                assert(r == lift_first::<A::Command, B::Command>(gp));
                r
            },
            EitherAddon::Second(b) => {
                let p = b.parse(args);
                let ghost gp = p;
                let r = match p {
                    Ok(ParseOutcome::Command(d)) => Ok(
                        ParseOutcome::Command(EitherCommand::Second(d)),
                    ),
                    Ok(ParseOutcome::HelpRequested) => Ok(ParseOutcome::HelpRequested),
                    Err(e) => Err(e),
                };
                assert(r == lift_second::<A::Command, B::Command>(gp));
                r
            },
        }
    }
}

} // verus!
