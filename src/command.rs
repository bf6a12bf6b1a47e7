use vstd::prelude::*;

use vstd::string::StringSliceAdditionalSpecFns;

use crate::text::{argument, bytes_equal, push_all, starts_with, trim, trim_bytes};

verus! {

/// Whether `s` starts with `prefix`.
pub fn has_prefix(s: &[u8], prefix: &[u8]) -> (r: bool)
    ensures
        r == starts_with(s@, prefix@),
{
    if prefix.len() > s.len() {
        return false;
    }
    bytes_equal(&s[0..prefix.len()], prefix)
}

/// What follows `prefix` in `line`, trimmed, as a new byte string.
pub fn argument_of(line: &[u8], prefix: &[u8]) -> (r: Vec<u8>)
    requires
        prefix@.len() <= line@.len(),
    ensures
        r@ == argument(line@, prefix@),
{
    let rest = &line[prefix.len()..line.len()];
    assert(rest@ =~= line@.skip(prefix@.len() as int));
    let mut r: Vec<u8> = Vec::new();
    push_all(&mut r, trim_bytes(rest));
    r
}

/// An error that a command reports.
#[derive(Clone, Copy, PartialEq, Eq, Structural, Debug)]
pub enum Fault {
    /// The token to remove is not in the store.
    NotFound,
    /// The store ran full before all of the text was copied.
    StoreFull,
    /// `mv` needs a previous and an updated text.
    MoveUsage,
    /// `color` was given no color.
    NoColor,
    /// `color` was given a name that is not a color.
    InvalidColor,
    /// The line matches no command.
    InvalidCommand,
}

/// The sixteen colors of the text display, in the display's own order.
#[derive(Clone, Copy, PartialEq, Eq, Structural, Debug)]
pub enum Color {
    Black,
    Blue,
    Green,
    Cyan,
    Red,
    Magenta,
    Brown,
    LightGray,
    DarkGray,
    LightBlue,
    LightGreen,
    LightCyan,
    LightRed,
    Pink,
    Yellow,
    White,
}

/// The color that a name stands for.
pub open spec fn color_named(name: Seq<u8>) -> Option<Color> {
    if name == "black".spec_bytes() {
        Some(Color::Black)
    } else if name == "blue".spec_bytes() {
        Some(Color::Blue)
    } else if name == "green".spec_bytes() {
        Some(Color::Green)
    } else if name == "cyan".spec_bytes() {
        Some(Color::Cyan)
    } else if name == "red".spec_bytes() {
        Some(Color::Red)
    } else if name == "magenta".spec_bytes() {
        Some(Color::Magenta)
    } else if name == "brown".spec_bytes() {
        Some(Color::Brown)
    } else if name == "lightgray".spec_bytes() {
        Some(Color::LightGray)
    } else if name == "darkgray".spec_bytes() {
        Some(Color::DarkGray)
    } else if name == "lightblue".spec_bytes() {
        Some(Color::LightBlue)
    } else if name == "lightgreen".spec_bytes() {
        Some(Color::LightGreen)
    } else if name == "lightcyan".spec_bytes() {
        Some(Color::LightCyan)
    } else if name == "lightred".spec_bytes() {
        Some(Color::LightRed)
    } else if name == "pink".spec_bytes() {
        Some(Color::Pink)
    } else if name == "yellow".spec_bytes() {
        Some(Color::Yellow)
    } else if name == "white".spec_bytes() {
        Some(Color::White)
    } else {
        None
    }
}

/// Looks up a color by name.
pub fn color_by_name(name: &[u8]) -> (r: Option<Color>)
    ensures
        r == color_named(name@),
{
    if bytes_equal(name, "black".as_bytes()) {
        Some(Color::Black)
    } else if bytes_equal(name, "blue".as_bytes()) {
        Some(Color::Blue)
    } else if bytes_equal(name, "green".as_bytes()) {
        Some(Color::Green)
    } else if bytes_equal(name, "cyan".as_bytes()) {
        Some(Color::Cyan)
    } else if bytes_equal(name, "red".as_bytes()) {
        Some(Color::Red)
    } else if bytes_equal(name, "magenta".as_bytes()) {
        Some(Color::Magenta)
    } else if bytes_equal(name, "brown".as_bytes()) {
        Some(Color::Brown)
    } else if bytes_equal(name, "lightgray".as_bytes()) {
        Some(Color::LightGray)
    } else if bytes_equal(name, "darkgray".as_bytes()) {
        Some(Color::DarkGray)
    } else if bytes_equal(name, "lightblue".as_bytes()) {
        Some(Color::LightBlue)
    } else if bytes_equal(name, "lightgreen".as_bytes()) {
        Some(Color::LightGreen)
    } else if bytes_equal(name, "lightcyan".as_bytes()) {
        Some(Color::LightCyan)
    } else if bytes_equal(name, "lightred".as_bytes()) {
        Some(Color::LightRed)
    } else if bytes_equal(name, "pink".as_bytes()) {
        Some(Color::Pink)
    } else if bytes_equal(name, "yellow".as_bytes()) {
        Some(Color::Yellow)
    } else if bytes_equal(name, "white".as_bytes()) {
        Some(Color::White)
    } else {
        None
    }
}

/// Parses the argument of `color`: a name, which must be given and known.
pub fn parse_color(name: &[u8]) -> (r: Result<Color, Fault>)
    ensures
        name@.len() == 0 ==> r == Err::<Color, Fault>(Fault::NoColor),
        name@.len() > 0 ==> r == match color_named(name@) {
            Some(c) => Ok::<Color, Fault>(c),
            None => Err(Fault::InvalidColor),
        },
{
    if name.len() == 0 {
        return Err(Fault::NoColor);
    }
    match color_by_name(name) {
        Some(c) => Ok(c),
        None => Err(Fault::InvalidColor),
    }
}

/// A command carried out by the machine around the shell: output of fixed text,
/// hardware probes, screen control and the interactive modes.
#[derive(Clone, Copy, PartialEq, Eq, Structural, Debug)]
pub enum Service {
    Architecture,
    Bootloader,
    Buffer,
    Calculator,
    Clear,
    Cpu,
    Delay,
    Ephemeral,
    Halt,
    Help,
    Info,
    Manual,
    Reboot,
    Time,
    Uptime,
    Vendor,
    Version,
}

/// A parsed command line, arguments as byte strings.
#[derive(Debug, PartialEq, Eq)]
pub enum Command {
    Run(Service),
    Ls,
    Purge,
    Empty,
    Color(Vec<u8>),
    Echo(Vec<u8>),
    Rm(Vec<u8>),
    Touch(Vec<u8>),
    Mv(Vec<u8>),
    Invalid,
}

/// The mathematical form of a `Command`.
pub enum CommandView {
    Run(Service),
    Ls,
    Purge,
    Empty,
    Color(Seq<u8>),
    Echo(Seq<u8>),
    Rm(Seq<u8>),
    Touch(Seq<u8>),
    Mv(Seq<u8>),
    Invalid,
}

impl View for Command {
    type V = CommandView;

    open spec fn view(&self) -> CommandView {
        match self {
            Command::Run(s) => CommandView::Run(*s),
            Command::Ls => CommandView::Ls,
            Command::Purge => CommandView::Purge,
            Command::Empty => CommandView::Empty,
            Command::Color(a) => CommandView::Color(a@),
            Command::Echo(a) => CommandView::Echo(a@),
            Command::Rm(a) => CommandView::Rm(a@),
            Command::Touch(a) => CommandView::Touch(a@),
            Command::Mv(a) => CommandView::Mv(a@),
            Command::Invalid => CommandView::Invalid,
        }
    }
}

/// The command that a line names. The trimmed line is matched whole against the
/// commands without argument; failing that, the line as typed is matched by
/// prefix against the commands with one, whose argument is the rest, trimmed.
pub open spec fn command_of(line: Seq<u8>) -> CommandView {
    let t = trim(line);
    if t == "architecture".spec_bytes() {
        CommandView::Run(Service::Architecture)
    } else if t == "bootloader".spec_bytes() {
        CommandView::Run(Service::Bootloader)
    } else if t == "buffer".spec_bytes() {
        CommandView::Run(Service::Buffer)
    } else if t == "calculator".spec_bytes() {
        CommandView::Run(Service::Calculator)
    } else if t == "clear".spec_bytes() {
        CommandView::Run(Service::Clear)
    } else if t == "cpu".spec_bytes() {
        CommandView::Run(Service::Cpu)
    } else if t == "ephemeral".spec_bytes() {
        CommandView::Run(Service::Ephemeral)
    } else if t == "halt".spec_bytes() {
        CommandView::Run(Service::Halt)
    } else if t == "help".spec_bytes() {
        CommandView::Run(Service::Help)
    } else if t == "info".spec_bytes() {
        CommandView::Run(Service::Info)
    } else if t == "ls".spec_bytes() {
        CommandView::Ls
    } else if t == "manual".spec_bytes() {
        CommandView::Run(Service::Manual)
    } else if t == "purge".spec_bytes() {
        CommandView::Purge
    } else if t == "reboot".spec_bytes() {
        CommandView::Run(Service::Reboot)
    } else if t == "time".spec_bytes() {
        CommandView::Run(Service::Time)
    } else if t == "uptime".spec_bytes() {
        CommandView::Run(Service::Uptime)
    } else if t == "vendor".spec_bytes() {
        CommandView::Run(Service::Vendor)
    } else if t == "version".spec_bytes() {
        CommandView::Run(Service::Version)
    } else if t.len() == 0 {
        CommandView::Empty
    } else if starts_with(line, "color ".spec_bytes()) {
        CommandView::Color(argument(line, "color ".spec_bytes()))
    } else if starts_with(line, "delay ".spec_bytes()) {
        CommandView::Run(Service::Delay)
    } else if starts_with(line, "echo ".spec_bytes()) {
        CommandView::Echo(argument(line, "echo ".spec_bytes()))
    } else if starts_with(line, "rm ".spec_bytes()) {
        CommandView::Rm(argument(line, "rm ".spec_bytes()))
    } else if starts_with(line, "touch ".spec_bytes()) {
        CommandView::Touch(argument(line, "touch ".spec_bytes()))
    } else if starts_with(line, "mv ".spec_bytes()) {
        CommandView::Mv(argument(line, "mv ".spec_bytes()))
    } else {
        CommandView::Invalid
    }
}

/// Parses a command line.
pub fn parse_command(line: &[u8]) -> (r: Command)
    ensures
        r@ == command_of(line@),
{
    let t = trim_bytes(line);
    if bytes_equal(t, "architecture".as_bytes()) {
        Command::Run(Service::Architecture)
    } else if bytes_equal(t, "bootloader".as_bytes()) {
        Command::Run(Service::Bootloader)
    } else if bytes_equal(t, "buffer".as_bytes()) {
        Command::Run(Service::Buffer)
    } else if bytes_equal(t, "calculator".as_bytes()) {
        Command::Run(Service::Calculator)
    } else if bytes_equal(t, "clear".as_bytes()) {
        Command::Run(Service::Clear)
    } else if bytes_equal(t, "cpu".as_bytes()) {
        Command::Run(Service::Cpu)
    } else if bytes_equal(t, "ephemeral".as_bytes()) {
        Command::Run(Service::Ephemeral)
    } else if bytes_equal(t, "halt".as_bytes()) {
        Command::Run(Service::Halt)
    } else if bytes_equal(t, "help".as_bytes()) {
        Command::Run(Service::Help)
    } else if bytes_equal(t, "info".as_bytes()) {
        Command::Run(Service::Info)
    } else if bytes_equal(t, "ls".as_bytes()) {
        Command::Ls
    } else if bytes_equal(t, "manual".as_bytes()) {
        Command::Run(Service::Manual)
    } else if bytes_equal(t, "purge".as_bytes()) {
        Command::Purge
    } else if bytes_equal(t, "reboot".as_bytes()) {
        Command::Run(Service::Reboot)
    } else if bytes_equal(t, "time".as_bytes()) {
        Command::Run(Service::Time)
    } else if bytes_equal(t, "uptime".as_bytes()) {
        Command::Run(Service::Uptime)
    } else if bytes_equal(t, "vendor".as_bytes()) {
        Command::Run(Service::Vendor)
    } else if bytes_equal(t, "version".as_bytes()) {
        Command::Run(Service::Version)
    } else if t.len() == 0 {
        Command::Empty
    } else if has_prefix(line, "color ".as_bytes()) {
        Command::Color(argument_of(line, "color ".as_bytes()))
    } else if has_prefix(line, "delay ".as_bytes()) {
        Command::Run(Service::Delay)
    } else if has_prefix(line, "echo ".as_bytes()) {
        Command::Echo(argument_of(line, "echo ".as_bytes()))
    } else if has_prefix(line, "rm ".as_bytes()) {
        Command::Rm(argument_of(line, "rm ".as_bytes()))
    } else if has_prefix(line, "touch ".as_bytes()) {
        Command::Touch(argument_of(line, "touch ".as_bytes()))
    } else if has_prefix(line, "mv ".as_bytes()) {
        Command::Mv(argument_of(line, "mv ".as_bytes()))
    } else {
        Command::Invalid
    }
}

} // verus!
