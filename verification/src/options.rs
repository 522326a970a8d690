//! The values that a search works on: the option set, one line of input, and
//! what is written for a line.

use vstd::prelude::*;

verus! {

/// The independent switches of one search. They are fixed before the first
/// line is read and hold for every line.
#[derive(Clone, Copy, Debug, PartialEq, Eq, Structural)]
pub struct SearchOptions {
    /// Compare in lower case on both sides.
    pub case_insensitive: bool,
    /// Emit the lines that do not hold the pattern.
    pub invert: bool,
    /// Put the line's number before the line.
    pub show_line_number: bool,
    /// Put the path of the line's source before the line.
    pub show_filename: bool,
    /// Wrap each occurrence of the pattern in emphasis markup.
    pub highlight: bool,
}

impl SearchOptions {
    /// The option set with every switch off.
    pub open spec fn plain() -> SearchOptions {
        SearchOptions {
            case_insensitive: false,
            invert: false,
            show_line_number: false,
            show_filename: false,
            highlight: false,
        }
    }
}

impl Default for SearchOptions {
    fn default() -> (options: SearchOptions)
        ensures
            options == SearchOptions::plain(),
    {
        SearchOptions {
            case_insensitive: false,
            invert: false,
            show_line_number: false,
            show_filename: false,
            highlight: false,
        }
    }
}

/// One line of input while it is looked at: its number, counted from 1, its
/// text without the line terminator, and the path it was read from, if that
/// is known.
#[derive(Clone, Copy, Debug)]
pub struct LineRecord<'a> {
    pub index: usize,
    pub content: &'a str,
    pub source_path: Option<&'a str>,
}

/// A line as the contracts see it.
pub ghost struct LineView {
    pub index: nat,
    pub content: Seq<char>,
    pub source_path: Option<Seq<char>>,
}

/// The text of a path that may be unknown.
pub open spec fn path_text(source_path: Option<&str>) -> Option<Seq<char>> {
    match source_path {
        Some(path) => Some(path@),
        None => None,
    }
}

impl<'a> View for LineRecord<'a> {
    type V = LineView;

    open spec fn view(&self) -> LineView {
        LineView {
            index: self.index as nat,
            content: self.content@,
            source_path: path_text(self.source_path),
        }
    }
}

/// What is to be written for a line that is emitted.
#[derive(Debug, PartialEq, Eq)]
pub struct EmitInstruction {
    pub emit_text: String,
}

impl View for EmitInstruction {
    type V = Seq<char>;

    open spec fn view(&self) -> Seq<char> {
        self.emit_text@
    }
}

} // verus!
