//! Routing a command line to one of a table of named commands, with a built-in
//! `help`, and the messages printed for lines that run no command.

use vstd::prelude::*;
use crate::cli::args::{parse_args, split_line, string_views, ParseError, MAX_ARGS, MAX_ARG_LEN};
use crate::text::{decimal_chars, decimal_string, pad_right, push_padded, push_text, str_equal, string_of};

verus! {

/// Width of the name column in the help listing.
pub const HELP_NAME_WIDTH: usize = 10;

/// A named command with a one-line description and whatever runs it.
pub struct Command<H> {
    pub name: &'static str,
    pub description: &'static str,
    pub handler: H,
}

impl<H> Command<H> {
    pub fn new(name: &'static str, description: &'static str, handler: H) -> (c: Self)
        ensures
            c.name == name,
            c.description == description,
            c.handler == handler,
    {
        Command { name, description, handler }
    }
}

/// What a command line asks for.
pub enum Route {
    /// The line could not be split into arguments.
    Rejected(ParseError),
    /// The line holds no argument.
    Empty,
    /// The built-in `help`.
    Help,
    /// The command at `index` of the table, with all the line's arguments
    /// (the command's own name first).
    Run { index: usize, args: Vec<String> },
    /// No command has the first argument as its name.
    Unknown { name: String },
}

/// The table entry a name selects: the first command so named.
pub open spec fn first_named<H>(commands: Seq<Command<H>>, name: Seq<char>) -> Option<int> {
    if exists|i: int| 0 <= i < commands.len() && (#[trigger] commands[i]).name@ == name {
        let i = choose|i: int|
            0 <= i < commands.len() && (#[trigger] commands[i]).name@ == name
                && forall|j: int| 0 <= j < i ==> (#[trigger] commands[j]).name@ != name;
        Some(i)
    } else {
        None
    }
}

/// How a line is routed through a table of commands.
pub open spec fn route_spec<H>(commands: Seq<Command<H>>, line: Seq<char>, route: Route) -> bool {
    match split_line(line) {
        Err(e) => route == Route::Rejected(e),
        Ok(args) => if args.len() == 0 {
            route is Empty
        } else if args[0] == "help"@ {
            route is Help
        } else {
            match first_named(commands, args[0]) {
                Some(i) => route matches Route::Run { index, args: a } && index == i
                    && string_views(a@) == args,
                None => route matches Route::Unknown { name } && name@ == args[0],
            }
        },
    }
}

/// One line of the help listing.
pub open spec fn help_line(name: Seq<char>, description: Seq<char>) -> Seq<char> {
    "  "@ + pad_right(name, HELP_NAME_WIDTH as nat) + " - "@ + description
}

/// The help listing of a table of commands.
pub open spec fn help_text<H>(commands: Seq<Command<H>>) -> Seq<Seq<char>> {
    seq!["Available commands:"@, help_line("help"@, "Show this help output"@)] + Seq::new(
        commands.len(),
        |i: int| help_line(commands[i].name@, commands[i].description@),
    )
}

/// The message for a line that could not be split.
pub open spec fn rejection_text(e: ParseError) -> Seq<char> {
    match e {
        ParseError::TooManyArgs => "Too many arguments (max "@ + decimal_chars(MAX_ARGS as nat) + ")."@,
        ParseError::ArgTooLong => "Argument too long (max "@ + decimal_chars(MAX_ARG_LEN as nat)
            + " chars)."@,
        ParseError::UnterminatedQuote => "Unterminated quoted string."@,
    }
}

/// The routing rule applied to a table of commands.
pub struct CommandDispatcher<'a, H> {
    commands: &'a [Command<H>],
}

impl<'a, H> CommandDispatcher<'a, H> {
    pub closed spec fn table(&self) -> Seq<Command<H>> {
        self.commands@
    }

    pub fn new(commands: &'a [Command<H>]) -> (d: Self)
        ensures
            d.table() == commands@,
    {
        CommandDispatcher { commands }
    }

    /// The command at `index` of the table.
    pub fn command(&self, index: usize) -> (c: &Command<H>)
        requires
            index < self.table().len(),
        ensures
            *c == self.table()[index as int],
    {
        &self.commands[index]
    }

    /// Decides what a command line asks for.
    pub fn route(&self, line: &str) -> (r: Route)
        ensures
            route_spec(self.table(), line@, r),
    {
        let args = match parse_args(line) {
            Ok(a) => a,
            Err(e) => return Route::Rejected(e),
        };
        if args.len() == 0 {
            return Route::Empty;
        }
        let first = args[0].as_str();
        proof {
            assert(string_views(args@)[0] == args@[0]@);
        }
        if str_equal(first, "help") {
            return Route::Help;
        }
        let mut i: usize = 0;
        while i < self.commands.len()
            invariant
                i <= self.commands@.len(),
                args@.len() > 0,
                first@ == args@[0]@,
                split_line(line@) == Ok::<Seq<Seq<char>>, ParseError>(string_views(args@)),
                first@ != "help"@,
                forall|j: int| 0 <= j < i ==> (#[trigger] self.commands@[j]).name@ != first@,
            decreases self.commands@.len() - i,
        {
            if str_equal(self.commands[i].name, first) {
                proof {
                    let name = first@;
                    assert(self.commands@[i as int].name@ == name);
                    assert(0 <= i < self.commands@.len() && (self.commands@[i as int]).name@ == name
                        && forall|j: int| 0 <= j < i ==> (#[trigger] self.commands@[j]).name@ != name);
                    let k = choose|k: int|
                        0 <= k < self.commands@.len() && (#[trigger] self.commands@[k]).name@ == name
                            && forall|j: int| 0 <= j < k ==> (#[trigger] self.commands@[j]).name@ != name;
                    assert(k == i) by {
                        if k < i {
                        } else if k > i {
                            assert(self.commands@[i as int].name@ == name);
                        }
                    }
                }
                return Route::Run { index: i, args };
            }
            i = i + 1;
        }
        Route::Unknown { name: string_of(first) }
    }

    /// The lines that `help` prints: a heading, `help` itself, then each
    /// command's name padded to [`HELP_NAME_WIDTH`] and its description.
    pub fn help_lines(&self) -> (lines: Vec<String>)
        ensures
            string_views(lines@) == help_text(self.table()),
    {
        let mut lines: Vec<String> = Vec::new();
        lines.push(string_of("Available commands:"));
        lines.push(help_entry("help", "Show this help output"));
        let mut i: usize = 0;
        while i < self.commands.len()
            invariant
                i <= self.commands@.len(),
                lines@.len() == i + 2,
                lines@[0]@ == "Available commands:"@,
                lines@[1]@ == help_line("help"@, "Show this help output"@),
                forall|k: int| 0 <= k < i ==> (#[trigger] lines@[k + 2])@ == help_line(
                    self.commands@[k].name@,
                    self.commands@[k].description@,
                ),
            decreases self.commands@.len() - i,
        {
            let c = &self.commands[i];
            lines.push(help_entry(c.name, c.description));
            i = i + 1;
        }
        proof {
            let t = help_text(self.table());
            assert forall|k: int| 0 <= k < lines@.len() implies #[trigger] string_views(lines@)[k] == t[k] by {
                if k >= 2 {
                    assert(lines@[(k - 2) + 2]@ == help_line(self.commands@[k - 2].name@, self.commands@[k - 2].description@));
                }
            }
            assert(string_views(lines@) =~= t);
        }
        lines
    }
}

fn help_entry(name: &str, description: &str) -> (s: String)
    ensures
        s@ == help_line(name@, description@),
{
    let mut s = string_of("  ");
    push_padded(&mut s, name, HELP_NAME_WIDTH);
    push_text(&mut s, " - ");
    push_text(&mut s, description);
    s
}

/// The message printed for a line that could not be split.
pub fn rejection_message(e: ParseError) -> (s: String)
    ensures
        s@ == rejection_text(e),
{
    match e {
        ParseError::TooManyArgs => {
            let mut s = string_of("Too many arguments (max ");
            let n = decimal_string(MAX_ARGS as u64);
            push_text(&mut s, n.as_str());
            push_text(&mut s, ").");
            s
        },
        ParseError::ArgTooLong => {
            let mut s = string_of("Argument too long (max ");
            let n = decimal_string(MAX_ARG_LEN as u64);
            push_text(&mut s, n.as_str());
            push_text(&mut s, " chars).");
            s
        },
        ParseError::UnterminatedQuote => string_of("Unterminated quoted string."),
    }
}

/// The lines printed for a route that runs no command of the table.
pub fn route_lines<H>(dispatcher: &CommandDispatcher<'_, H>, route: &Route) -> (lines: Vec<String>)
    ensures
        route is Run ==> lines@.len() == 0,
        route is Help ==> string_views(lines@) == help_text(dispatcher.table()),
        route is Empty ==> lines@.len() == 1 && lines@[0]@ == "No command entered."@,
        route matches Route::Unknown { name } ==> lines@.len() == 1 && lines@[0]@
            == "Unknown command: '"@ + name@ + "'"@,
        route matches Route::Rejected(e) ==> lines@.len() == 1 && lines@[0]@
            == rejection_text(*e),
{
    let mut lines: Vec<String> = Vec::new();
    match route {
        Route::Rejected(e) => {
            lines.push(rejection_message(*e));
        },
        Route::Empty => {
            lines.push(string_of("No command entered."));
        },
        Route::Help => {
            return dispatcher.help_lines();
        },
        Route::Run { .. } => {},
        Route::Unknown { name } => {
            let mut s = string_of("Unknown command: '");
            push_text(&mut s, name.as_str());
            push_text(&mut s, "'");
            lines.push(s);
        },
    }
    lines
}

} // verus!
