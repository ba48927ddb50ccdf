use vstd::prelude::*;
use vstd::string::*;
use crate::error::{CirnoError, ErrorView};
use crate::project::Vector2;
use crate::terminal::EventResult;
use crate::text::{split, split_text, starts_with, texts};

verus! {

/// A command to open a cirno project.
/// Arguments: 1
#[derive(Debug, PartialEq, Eq)]
pub struct Open(pub Vec<String>);

/// A command to quit cirno.
/// Arguments: 0
#[derive(Debug, PartialEq, Eq)]
pub struct Quit(pub Vec<String>);

/// A command to render cirno's splash screen.
/// Arguments: 0
#[derive(Debug, PartialEq, Eq)]
pub struct Splash(pub Vec<String>);

/// A command of the editor with its arguments.
#[derive(Debug, PartialEq, Eq)]
pub enum CommandEnum {
    Open(Open),
    Quit(Quit),
    Splash(Splash),
}

/// The mathematical form of a `CommandEnum`.
pub enum CommandView {
    Open(Seq<Seq<char>>),
    Quit(Seq<Seq<char>>),
    Splash(Seq<Seq<char>>),
}

impl View for CommandEnum {
    type V = CommandView;

    open spec fn view(&self) -> CommandView {
        match *self {
            CommandEnum::Open(c) => CommandView::Open(texts(c.0@)),
            CommandEnum::Quit(c) => CommandView::Quit(texts(c.0@)),
            CommandEnum::Splash(c) => CommandView::Splash(texts(c.0@)),
        }
    }
}

impl CommandView {
    /// The arguments of the command.
    pub open spec fn arguments(self) -> Seq<Seq<char>> {
        match self {
            CommandView::Open(a) => a,
            CommandView::Quit(a) => a,
            CommandView::Splash(a) => a,
        }
    }

    /// How many arguments the command takes.
    pub open spec fn arity(self) -> u16 {
        match self {
            CommandView::Open(_) => 1,
            CommandView::Quit(_) => 0,
            CommandView::Splash(_) => 0,
        }
    }
}

/// Return the names of all editor commands.
pub fn get_all_commands() -> (names: Vec<String>)
    ensures
        texts(names@) == seq!["open"@, "q"@, "splash"@],
{
    let mut names: Vec<String> = Vec::new();
    names.push("open".to_owned());
    names.push("q".to_owned());
    names.push("splash".to_owned());
    proof {
        assert(texts(names@) =~= seq!["open"@, "q"@, "splash"@]);
    }
    names
}

/// The arguments of a line: what follows its first space, split at every
/// space.
pub open spec fn arguments_of(line: Seq<char>) -> Seq<Seq<char>> {
    split(line, ' ').drop_first()
}

/// The command that a line of the bar stands for: the one with whose name
/// the line starts. An empty line stands for none.
pub open spec fn command_of(line: Seq<char>) -> Result<Option<CommandView>, ErrorView> {
    if line.len() == 0 {
        Ok(None)
    } else if "open"@.is_prefix_of(line) {
        Ok(Some(CommandView::Open(arguments_of(line))))
    } else if "q"@.is_prefix_of(line) {
        Ok(Some(CommandView::Quit(arguments_of(line))))
    } else if "splash"@.is_prefix_of(line) {
        Ok(Some(CommandView::Splash(arguments_of(line))))
    } else {
        Err(ErrorView::InvalidCommand(line))
    }
}

fn arguments(line: &str) -> (args: Vec<String>)
    ensures
        texts(args@) == arguments_of(line@),
{
    let mut args = split_text(line, ' ');
    let ghost whole = texts(args@);
    if args.len() > 0 {
        args.remove(0);
        proof {
            assert(texts(args@) =~= whole.drop_first());
        }
    } else {
        proof {
            assert(texts(args@) =~= whole.drop_first());
        }
    }
    args
}

/// Reads a line of the bar as a command.
pub fn parse_command(line: &str) -> (r: Result<Option<CommandEnum>, CirnoError>)
    ensures
        match command_of(line@) {
            Ok(Some(c)) => r is Ok && r->Ok_0 is Some && r->Ok_0->Some_0@ == c,
            Ok(None) => r is Ok && r->Ok_0 is None,
            Err(e) => r is Err && r->Err_0@ == e,
        },
{
    if line.is_empty() {
        Ok(None)
    } else if starts_with(line, "open") {
        Ok(Some(CommandEnum::Open(Open(arguments(line)))))
    } else if starts_with(line, "q") {
        Ok(Some(CommandEnum::Quit(Quit(arguments(line)))))
    } else if starts_with(line, "splash") {
        Ok(Some(CommandEnum::Splash(Splash(arguments(line)))))
    } else {
        Err(CirnoError::InvalidCommand(line.to_owned()))
    }
}

impl CommandEnum {
    /// Checks that the command has as many arguments as it takes.
    pub fn check_arguments(&self) -> (r: Result<(), CirnoError>)
        ensures
            self@.arguments().len() == self@.arity() ==> r is Ok,
            self@.arguments().len() != self@.arity() ==> r is Err && r->Err_0@
                == ErrorView::ArgumentError(self@.arity(), self@.arguments().len() as usize),
    {
        match self {
            CommandEnum::Open(c) => if c.0.len() != 1 {
                Err(CirnoError::ArgumentError(1, c.0.len()))
            } else {
                Ok(())
            },
            CommandEnum::Quit(c) => if c.0.len() != 0 {
                Err(CirnoError::ArgumentError(0, c.0.len()))
            } else {
                Ok(())
            },
            CommandEnum::Splash(c) => if c.0.len() != 0 {
                Err(CirnoError::ArgumentError(0, c.0.len()))
            } else {
                Ok(())
            },
        }
    }
}

impl Open {
    /// The name of the file to open: the one argument of the command.
    pub fn filename(&self) -> (r: Result<String, CirnoError>)
        ensures
            self.0@.len() == 1 ==> r is Ok && r->Ok_0@ == self.0@[0]@,
            self.0@.len() != 1 ==> r is Err && r->Err_0@ == ErrorView::ArgumentError(
                1,
                self.0@.len() as usize,
            ),
    {
        if self.0.len() != 1 {
            return Err(CirnoError::ArgumentError(1, self.0.len()));
        }
        Ok(self.0[0].clone())
    }
}

impl Quit {
    /// What the command comes to: without arguments it ends the editor.
    pub fn outcome(&self) -> (r: Result<EventResult, CirnoError>)
        ensures
            self.0@.len() == 0 ==> r is Ok && r->Ok_0 == EventResult::Exit,
            self.0@.len() != 0 ==> r is Err && r->Err_0@ == ErrorView::ArgumentError(
                0,
                self.0@.len() as usize,
            ),
    {
        if self.0.len() != 0 {
            return Err(CirnoError::ArgumentError(0, self.0.len()));
        }
        Ok(EventResult::Exit)
    }
}

/// Whether a terminal of `columns` by `rows` cells has room for the splash
/// screen.
pub open spec fn splash_fits(columns: u16, rows: u16) -> bool {
    columns >= 30 && rows >= 6
}

/// Where the five lines of the splash screen start on a terminal of
/// `columns` by `rows` cells: around its middle.
pub open spec fn splash_cells(columns: u16, rows: u16) -> Seq<Vector2> {
    seq![
        Vector2 { x: (columns / 2 - 12) as u16, y: (rows / 2 - 2) as u16 },
        Vector2 { x: (columns / 2 - 12) as u16, y: (rows / 2 - 1) as u16 },
        Vector2 { x: (columns / 2 - 12) as u16, y: (rows / 2) as u16 },
        Vector2 { x: (columns / 2 - 15) as u16, y: (rows / 2 + 2) as u16 },
        Vector2 { x: (columns / 2 - 15) as u16, y: (rows / 2 + 3) as u16 },
    ]
}

impl Splash {
    /// Where the lines of the splash screen start. A terminal under 30
    /// columns or 6 rows shows none.
    pub fn layout(&self, columns: u16, rows: u16) -> (r: Result<Vec<Vector2>, CirnoError>)
        ensures
            self.0@.len() != 0 ==> r is Err && r->Err_0@ == ErrorView::ArgumentError(
                0,
                self.0@.len() as usize,
            ),
            self.0@.len() == 0 && !splash_fits(columns, rows) ==> r is Ok && r->Ok_0@.len() == 0,
            self.0@.len() == 0 && splash_fits(columns, rows) ==> r is Ok && r->Ok_0@
                == splash_cells(columns, rows),
    {
        if self.0.len() != 0 {
            return Err(CirnoError::ArgumentError(0, self.0.len()));
        }
        let mut cells: Vec<Vector2> = Vec::new();
        if columns < 30 || rows < 6 {
            return Ok(cells);
        }
        let center_x = columns / 2;
        let center_y = rows / 2;
        cells.push(Vector2 { x: center_x - 12, y: center_y - 2 });
        cells.push(Vector2 { x: center_x - 12, y: center_y - 1 });
        cells.push(Vector2 { x: center_x - 12, y: center_y });
        cells.push(Vector2 { x: center_x - 15, y: center_y + 2 });
        cells.push(Vector2 { x: center_x - 15, y: center_y + 3 });
        proof {
            assert(cells@ =~= splash_cells(columns, rows));
        }
        Ok(cells)
    }
}

} // verus!
