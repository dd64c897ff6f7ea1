//! The errors of the transpiler.
//!
//! Every error names what was wrong and the character offset at which it was
//! found. `message` renders an error as the text that callers show.

use vstd::prelude::*;
use crate::text::{decimal, push_decimal, push_str, string_of};

verus! {

/// What the parser was looking for when it met something else.
#[derive(Clone, Copy, Debug)]
pub enum Expected {
    /// This character.
    Char(char),
    /// The value of an attribute: a quoted string or `{`.
    PropValue,
    /// The start of an element, where a closing tag stood.
    Element,
}

/// The TypeScript construct that was found in plain JavaScript.
#[derive(Clone, Debug)]
pub enum TypeScriptSyntax {
    /// A declaration keyword or modifier, such as `interface`.
    Keyword(String),
    /// A type annotation behind a colon.
    TypeAnnotation,
    /// A list of generic parameters.
    Generic,
}

#[derive(Clone, Debug)]
pub enum TranspileError {
    /// Something else stood where a token was expected.
    UnexpectedCharacter { expected: Expected, position: usize },
    /// The input ended inside the element `tag`; `position` is the end of
    /// the input, and so its length.
    UnexpectedEof { tag: String, position: usize },
    /// The closing tag `found` does not close the element `open`.
    MismatchedClosingTag { open: String, found: String, position: usize },
    /// A TypeScript construct in plain JavaScript.
    TypeScriptSyntaxDetected { syntax: TypeScriptSyntax, position: usize },
    /// The diagnostic of another backend.
    BackendFailure { message: String },
}

/// `TypeScriptSyntax` with its text as a sequence.
pub enum SyntaxView {
    Keyword(Seq<char>),
    TypeAnnotation,
    Generic,
}

/// `TranspileError` with its texts as sequences and its offsets as integers.
pub enum ErrorView {
    UnexpectedCharacter { expected: Expected, position: int },
    UnexpectedEof { tag: Seq<char>, position: int },
    MismatchedClosingTag { open: Seq<char>, found: Seq<char>, position: int },
    TypeScriptSyntaxDetected { syntax: SyntaxView, position: int },
    BackendFailure { message: Seq<char> },
}

impl View for TypeScriptSyntax {
    type V = SyntaxView;

    open spec fn view(&self) -> SyntaxView {
        match self {
            TypeScriptSyntax::Keyword(w) => SyntaxView::Keyword(w@),
            TypeScriptSyntax::TypeAnnotation => SyntaxView::TypeAnnotation,
            TypeScriptSyntax::Generic => SyntaxView::Generic,
        }
    }
}

impl View for TranspileError {
    type V = ErrorView;

    open spec fn view(&self) -> ErrorView {
        match self {
            TranspileError::UnexpectedCharacter { expected, position } => {
                ErrorView::UnexpectedCharacter { expected: *expected, position: *position as int }
            },
            TranspileError::UnexpectedEof { tag, position } => {
                ErrorView::UnexpectedEof { tag: tag@, position: *position as int }
            },
            TranspileError::MismatchedClosingTag { open, found, position } => {
                ErrorView::MismatchedClosingTag {
                    open: open@,
                    found: found@,
                    position: *position as int,
                }
            },
            TranspileError::TypeScriptSyntaxDetected { syntax, position } => {
                ErrorView::TypeScriptSyntaxDetected { syntax: syntax@, position: *position as int }
            },
            TranspileError::BackendFailure { message } => {
                ErrorView::BackendFailure { message: message@ }
            },
        }
    }
}

/// The numeral of an offset; offsets are never negative.
pub open spec fn offset_text(position: int) -> Seq<char> {
    decimal(
        if position >= 0 {
            position as nat
        } else {
            0
        },
    )
}

/// The text of an error.
pub open spec fn message_text(e: ErrorView) -> Seq<char> {
    match e {
        ErrorView::UnexpectedCharacter { expected: Expected::Char(c), position } => {
            "Expected '"@ + seq![c] + "' at position "@ + offset_text(position)
        },
        ErrorView::UnexpectedCharacter { expected: Expected::PropValue, position } => {
            "Expected prop value at position "@ + offset_text(position)
        },
        ErrorView::UnexpectedCharacter { expected: Expected::Element, position } => {
            "Unexpected closing tag at position "@ + offset_text(position)
        },
        ErrorView::UnexpectedEof { tag, position } => {
            "Unexpected end of input while parsing children for tag <"@ + tag
                + ">. Current position: "@ + offset_text(position) + ", Total length: "@
                + offset_text(position)
        },
        ErrorView::MismatchedClosingTag { open, found, position } => {
            "Mismatched closing tag: expected </"@ + open + ">  but got </"@ + found
                + "> at position "@ + offset_text(position)
        },
        ErrorView::TypeScriptSyntaxDetected { syntax: SyntaxView::Keyword(word), position } => {
            "Unexpected TypeScript syntax '"@ + word + "' at position "@ + offset_text(position)
        },
        ErrorView::TypeScriptSyntaxDetected { syntax: SyntaxView::TypeAnnotation, position } => {
            "Unexpected TypeScript type annotation at position "@ + offset_text(position)
        },
        ErrorView::TypeScriptSyntaxDetected { syntax: SyntaxView::Generic, position } => {
            "Unexpected TypeScript generic at position "@ + offset_text(position)
        },
        ErrorView::BackendFailure { message } => message,
    }
}

impl TranspileError {
    /// The character offset at which the error was found, if it has one.
    pub fn position(&self) -> (r: Option<usize>)
        ensures
            r == match self@ {
                ErrorView::UnexpectedCharacter { position, .. } => Some(position as usize),
                ErrorView::UnexpectedEof { position, .. } => Some(position as usize),
                ErrorView::MismatchedClosingTag { position, .. } => Some(position as usize),
                ErrorView::TypeScriptSyntaxDetected { position, .. } => Some(position as usize),
                ErrorView::BackendFailure { .. } => None,
            },
    {
        match self {
            TranspileError::UnexpectedCharacter { position, .. } => Some(*position),
            TranspileError::UnexpectedEof { position, .. } => Some(*position),
            TranspileError::MismatchedClosingTag { position, .. } => Some(*position),
            TranspileError::TypeScriptSyntaxDetected { position, .. } => Some(*position),
            TranspileError::BackendFailure { .. } => None,
        }
    }

    /// The text of the error.
    pub fn message(&self) -> (r: String)
        ensures
            r@ == message_text(self@),
    {
        let mut out: Vec<char> = Vec::new();
        match self {
            TranspileError::UnexpectedCharacter { expected, position } => {
                match expected {
                    Expected::Char(c) => {
                        push_str(&mut out, "Expected '");
                        out.push(*c);
                        push_str(&mut out, "' at position ");
                    },
                    Expected::PropValue => {
                        push_str(&mut out, "Expected prop value at position ");
                    },
                    Expected::Element => {
                        push_str(&mut out, "Unexpected closing tag at position ");
                    },
                }
                push_decimal(&mut out, *position);
            },
            TranspileError::UnexpectedEof { tag, position } => {
                push_str(&mut out, "Unexpected end of input while parsing children for tag <");
                push_str(&mut out, tag.as_str());
                push_str(&mut out, ">. Current position: ");
                push_decimal(&mut out, *position);
                push_str(&mut out, ", Total length: ");
                push_decimal(&mut out, *position);
            },
            TranspileError::MismatchedClosingTag { open, found, position } => {
                push_str(&mut out, "Mismatched closing tag: expected </");
                push_str(&mut out, open.as_str());
                push_str(&mut out, ">  but got </");
                push_str(&mut out, found.as_str());
                push_str(&mut out, "> at position ");
                push_decimal(&mut out, *position);
            },
            TranspileError::TypeScriptSyntaxDetected { syntax, position } => {
                match syntax {
                    TypeScriptSyntax::Keyword(word) => {
                        push_str(&mut out, "Unexpected TypeScript syntax '");
                        push_str(&mut out, word.as_str());
                        push_str(&mut out, "' at position ");
                    },
                    TypeScriptSyntax::TypeAnnotation => {
                        push_str(&mut out, "Unexpected TypeScript type annotation at position ");
                    },
                    TypeScriptSyntax::Generic => {
                        push_str(&mut out, "Unexpected TypeScript generic at position ");
                    },
                }
                push_decimal(&mut out, *position);
            },
            TranspileError::BackendFailure { message } => {
                push_str(&mut out, message.as_str());
            },
        }
        let r = string_of(&out);
        r
    }
}

} // verus!
