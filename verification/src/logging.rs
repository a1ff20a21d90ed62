//! What the log output needs worked out: the width of the column of targets,
//! and the label and colour of each level.

use vstd::prelude::*;

verus! {

/// The log could not be set up.
#[derive(Clone, Copy, Debug)]
pub struct LoggingSetupError;

impl LoggingSetupError {
    /// What this error says.
    pub fn message(&self) -> (s: &'static str)
        ensures
            s@ == "Logging setup error"@,
    {
        "Logging setup error"
    }
}

/// How grave a log record is.
#[derive(Clone, Copy, Debug, PartialEq, Eq, Structural)]
pub enum Level {
    Error,
    Warn,
    Info,
    Debug,
    Trace,
}

/// The colour in which a level is printed.
#[derive(Clone, Copy, Debug, PartialEq, Eq, Structural)]
pub enum Color {
    Magenta,
    Blue,
    Green,
    Yellow,
    Red,
}

/// The colour of a level.
pub open spec fn level_color(level: Level) -> Color {
    match level {
        Level::Trace => Color::Magenta,
        Level::Debug => Color::Blue,
        Level::Info => Color::Green,
        Level::Warn => Color::Yellow,
        Level::Error => Color::Red,
    }
}

/// The label of a level, five characters wide.
pub open spec fn level_label(level: Level) -> Seq<char> {
    match level {
        Level::Trace => "TRACE"@,
        Level::Debug => "DEBUG"@,
        Level::Info => "INFO "@,
        Level::Warn => "WARN "@,
        Level::Error => "ERROR"@,
    }
}

/// The width, in bytes, of the column of targets once `target` is in it: the
/// width so far, or the length of `target` if that is more.
pub open spec fn widened(max_width: usize, target: &str) -> usize {
    if max_width < target.len() {
        target.len()
    } else {
        max_width
    }
}

/// Widens the column of targets to hold `target`, and returns its width.
pub fn max_target_width(max_width: &mut usize, target: &str) -> (width: usize)
    ensures
        width == widened(*old(max_width), target),
        *final(max_width) == width,
        width >= *old(max_width),
        width >= target.len(),
{
    if *max_width < target.len() {
        *max_width = target.len();
    }
    *max_width
}

/// The colour and the label of a level.
pub fn colored_level(level: Level) -> (styled: (Color, &'static str))
    ensures
        styled.0 == level_color(level),
        styled.1@ == level_label(level),
{
    match level {
        Level::Trace => (Color::Magenta, "TRACE"),
        Level::Debug => (Color::Blue, "DEBUG"),
        Level::Info => (Color::Green, "INFO "),
        Level::Warn => (Color::Yellow, "WARN "),
        Level::Error => (Color::Red, "ERROR"),
    }
}

/// Every label is five characters wide, so that the columns line up.
pub proof fn lemma_labels_line_up(level: Level)
    ensures
        level_label(level).len() == 5,
{
    reveal_strlit("TRACE");
    reveal_strlit("DEBUG");
    reveal_strlit("INFO ");
    reveal_strlit("WARN ");
    reveal_strlit("ERROR");
}

} // verus!
