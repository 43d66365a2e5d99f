//! The errors that the library returns.

use vstd::prelude::*;
use vstd::string::StringExecFns;

verus! {

/// Why an input file is not taken.
#[derive(Debug, Clone, Copy, PartialEq, Eq)]
pub enum AxtcError {
    /// Nothing exists at the path.
    FileNotFound,
    /// The path names a directory, or a file of another kind than a scheme file.
    InvalidFileFormat,
}

impl AxtcError {
    /// The sentence that describes the error.
    pub open spec fn text(self) -> Seq<char> {
        match self {
            AxtcError::FileNotFound => "provided color file does not exist"@,
            AxtcError::InvalidFileFormat => "provided path is not a valid color file"@,
        }
    }

    /// The sentence that describes the error.
    pub fn message(&self) -> (s: String)
        ensures
            s@ == self.text(),
    {
        match self {
            AxtcError::FileNotFound => String::from_str("provided color file does not exist"),
            AxtcError::InvalidFileFormat => String::from_str(
                "provided path is not a valid color file",
            ),
        }
    }
}

/// A field of a scheme document.
#[derive(Debug, Clone, Copy, PartialEq, Eq)]
pub enum Field {
    /// `theme`, the scheme's name.
    Theme,
    /// `color`, the list of the sixteen colours.
    Color,
    /// `background`.
    Background,
    /// `foreground`.
    Foreground,
}

impl Field {
    /// The key under which the field stands in a document.
    pub open spec fn key(self) -> Seq<char> {
        match self {
            Field::Theme => "theme"@,
            Field::Color => "color"@,
            Field::Background => "background"@,
            Field::Foreground => "foreground"@,
        }
    }

    /// The key under which the field stands in a document.
    pub fn name(&self) -> (s: &'static str)
        ensures
            s@ == self.key(),
    {
        match self {
            Field::Theme => "theme",
            Field::Color => "color",
            Field::Background => "background",
            Field::Foreground => "foreground",
        }
    }
}

/// Where a colour stands in a palette.
#[derive(Debug, Clone, Copy, PartialEq, Eq)]
pub enum ColorSlot {
    /// One of the sixteen colours, by its index.
    Indexed(usize),
    /// The background colour.
    Background,
    /// The foreground colour.
    Foreground,
}

/// A place in a document, as the decoder counts. The line is counted from one.
/// The column is an offset in bytes from the start of that line; it is 0 where
/// the decoder gave up before any byte of the line, as in an empty document.
#[derive(Debug, Clone, Copy, PartialEq, Eq)]
pub struct Position {
    pub line: usize,
    pub column: usize,
}

/// Why a document does not have the shape of a scheme.
#[derive(Debug, Clone, Copy, PartialEq, Eq)]
pub enum MalformedCause {
    /// The bytes are no JSON document; the decoder gave up at this place.
    Syntax(Position),
    /// The document is not an object.
    NotAnObject,
    /// The object lacks this field.
    MissingField(Field),
    /// The field holds a value of the wrong type: no string, or, for the colour
    /// list, no array of strings.
    WrongType(Field),
    /// The scheme's name is empty.
    EmptyName,
}

/// Why a document is no palette.
#[derive(Debug, Clone, Copy, PartialEq, Eq)]
pub enum ValidationError {
    /// The document does not have the shape of a scheme.
    Malformed(MalformedCause),
    /// The colour list holds this many entries, not sixteen.
    BadPaletteLength(usize),
    /// The colour in this slot is not `#` and six hexadecimal digits.
    BadColorFormat(ColorSlot),
}

/// Why applying a palette to the targets stopped. Each error names the target at
/// which it arose by its index in the list of targets.
#[derive(Debug, Clone, Copy, PartialEq, Eq)]
pub enum IoError {
    /// The target's file could not be read.
    Read(usize),
    /// The target's file could not be written.
    Write(usize),
    /// No writer exists for the target.
    Unsupported(usize),
}

impl IoError {
    /// The index of the target at which the error arose.
    pub open spec fn at(self) -> usize {
        match self {
            IoError::Read(index) => index,
            IoError::Write(index) => index,
            IoError::Unsupported(index) => index,
        }
    }

    /// The index of the target at which the error arose.
    pub fn target(&self) -> (index: usize)
        ensures
            index == self.at(),
    {
        match self {
            IoError::Read(index) => *index,
            IoError::Write(index) => *index,
            IoError::Unsupported(index) => *index,
        }
    }
}

} // verus!
