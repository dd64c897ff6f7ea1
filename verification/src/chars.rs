//! Character classes.
//!
//! Every pass classifies characters through the predicates of this module. On
//! ASCII each class is a fixed set that is spelled out here and decided by
//! verified code. Beyond ASCII the Unicode tables of the standard library
//! decide; the contracts name their answer and say nothing else of it.

use vstd::prelude::*;

verus! {

/// What `char::is_alphabetic` says of a character: whether it has the
/// Unicode property `Alphabetic`.
pub uninterp spec fn unicode_alphabetic(c: char) -> bool;

/// What `char::is_numeric` says of a character: whether it is in one of the
/// Unicode categories of numbers.
pub uninterp spec fn unicode_numeric(c: char) -> bool;

/// What `char::is_whitespace` says of a character: whether it has the
/// Unicode property `White_Space`.
pub uninterp spec fn unicode_whitespace(c: char) -> bool;

/// What `char::is_uppercase` says of a character: whether it has the Unicode
/// property `Uppercase`.
pub uninterp spec fn unicode_uppercase(c: char) -> bool;

/// `char::is_alphabetic` of the standard library. Claimed: its answer
/// depends on the character alone.
#[verifier::external_body]
fn has_unicode_alphabetic(c: char) -> (r: bool)
    ensures
        r == unicode_alphabetic(c),
{
    c.is_alphabetic()
}

/// `char::is_numeric` of the standard library. Claimed: its answer depends
/// on the character alone.
#[verifier::external_body]
fn has_unicode_numeric(c: char) -> (r: bool)
    ensures
        r == unicode_numeric(c),
{
    c.is_numeric()
}

/// `char::is_whitespace` of the standard library. Claimed: its answer
/// depends on the character alone.
#[verifier::external_body]
fn has_unicode_whitespace(c: char) -> (r: bool)
    ensures
        r == unicode_whitespace(c),
{
    c.is_whitespace()
}

/// `char::is_uppercase` of the standard library. Claimed: its answer depends
/// on the character alone.
#[verifier::external_body]
fn has_unicode_uppercase(c: char) -> (r: bool)
    ensures
        r == unicode_uppercase(c),
{
    c.is_uppercase()
}

pub open spec fn is_ascii(c: char) -> bool {
    (c as u32) < 128
}

pub open spec fn is_ascii_letter(c: char) -> bool {
    ('a' <= c && c <= 'z') || ('A' <= c && c <= 'Z')
}

pub open spec fn is_ascii_digit(c: char) -> bool {
    '0' <= c && c <= '9'
}

/// Letters: `a`-`z` and `A`-`Z` in ASCII, the Unicode property beyond it.
pub open spec fn alphabetic(c: char) -> bool {
    if is_ascii(c) {
        is_ascii_letter(c)
    } else {
        unicode_alphabetic(c)
    }
}

/// Numbers: `0`-`9` in ASCII, the Unicode categories of numbers beyond it.
pub open spec fn numeric(c: char) -> bool {
    if is_ascii(c) {
        is_ascii_digit(c)
    } else {
        unicode_numeric(c)
    }
}

/// Letters and numbers.
pub open spec fn alphanumeric(c: char) -> bool {
    alphabetic(c) || numeric(c)
}

/// White space: space and U+0009 to U+000D in ASCII, the Unicode property
/// beyond it.
pub open spec fn whitespace(c: char) -> bool {
    if is_ascii(c) {
        c == ' ' || ('\t' <= c && c <= '\r')
    } else {
        unicode_whitespace(c)
    }
}

/// Upper case: `A`-`Z` in ASCII, the Unicode property beyond it.
pub open spec fn uppercase(c: char) -> bool {
    if is_ascii(c) {
        'A' <= c && c <= 'Z'
    } else {
        unicode_uppercase(c)
    }
}

/// Whether `c` is a letter.
pub fn is_letter(c: char) -> (r: bool)
    ensures
        r == alphabetic(c),
{
    let u = c as u32;
    if u < 128 {
        (97 <= u && u <= 122) || (65 <= u && u <= 90)
    } else {
        has_unicode_alphabetic(c)
    }
}

/// Whether `c` is a letter or a number.
pub fn is_letter_or_number(c: char) -> (r: bool)
    ensures
        r == alphanumeric(c),
{
    let u = c as u32;
    if u < 128 {
        (97 <= u && u <= 122) || (65 <= u && u <= 90) || (48 <= u && u <= 57)
    } else {
        has_unicode_alphabetic(c) || has_unicode_numeric(c)
    }
}

/// Whether `c` is white space.
pub fn is_space(c: char) -> (r: bool)
    ensures
        r == whitespace(c),
{
    let u = c as u32;
    if u < 128 {
        u == 32 || (9 <= u && u <= 13)
    } else {
        has_unicode_whitespace(c)
    }
}

/// Whether `c` is an upper-case letter.
pub fn is_upper(c: char) -> (r: bool)
    ensures
        r == uppercase(c),
{
    let u = c as u32;
    if u < 128 {
        65 <= u && u <= 90
    } else {
        has_unicode_uppercase(c)
    }
}

/// The classes of characters that the passes scan over.
#[derive(Clone, Copy, Debug)]
pub enum CharClass {
    /// White space.
    Whitespace,
    /// Part of an identifier: alphanumeric or `_`.
    Ident,
    /// Part of a word for the purpose of word boundaries: alphanumeric, `_`
    /// or `$`.
    Word,
    /// Part of a JSX tag name: alphanumeric, `-`, `_` or `.`.
    TagName,
    /// Part of a JSX attribute name: alphanumeric, `-` or `_`.
    PropName,
    /// Part of an attribute name when an element is only skipped:
    /// alphanumeric, `-`, `_` or `:`.
    AttrName,
    /// Part of a run of JSX text: anything but `<` and `{`.
    Text,
    /// Anything but a line feed.
    NotNewline,
    /// Part of the right operand of `??`: anything but `;`, `,`, `)`, `}`,
    /// `]` and a line feed.
    Operand,
    /// This character only.
    Only(char),
    /// Anything but this character.
    Except(char),
}

impl CharClass {
    /// Whether `c` belongs to the class.
    pub open spec fn holds(self, c: char) -> bool {
        match self {
            CharClass::Whitespace => whitespace(c),
            CharClass::Ident => alphanumeric(c) || c == '_',
            CharClass::Word => alphanumeric(c) || c == '_' || c == '$',
            CharClass::TagName => alphanumeric(c) || c == '-' || c == '_' || c == '.',
            CharClass::PropName => alphanumeric(c) || c == '-' || c == '_',
            CharClass::AttrName => alphanumeric(c) || c == '-' || c == '_' || c == ':',
            CharClass::Text => c != '<' && c != '{',
            CharClass::NotNewline => c != '\n',
            CharClass::Operand => c != ';' && c != ',' && c != ')' && c != '}' && c != ']' && c
                != '\n',
            CharClass::Only(x) => c == x,
            CharClass::Except(x) => c != x,
        }
    }

    /// Whether `c` belongs to the class.
    pub fn test(self, c: char) -> (r: bool)
        ensures
            r == self.holds(c),
    {
        match self {
            CharClass::Whitespace => is_space(c),
            CharClass::Ident => is_letter_or_number(c) || c == '_',
            CharClass::Word => is_letter_or_number(c) || c == '_' || c == '$',
            CharClass::TagName => is_letter_or_number(c) || c == '-' || c == '_' || c == '.',
            CharClass::PropName => is_letter_or_number(c) || c == '-' || c == '_',
            CharClass::AttrName => is_letter_or_number(c) || c == '-' || c == '_' || c == ':',
            CharClass::Text => c != '<' && c != '{',
            CharClass::NotNewline => c != '\n',
            CharClass::Operand => c != ';' && c != ',' && c != ')' && c != '}' && c != ']' && c
                != '\n',
            CharClass::Only(x) => c == x,
            CharClass::Except(x) => c != x,
        }
    }
}

pub open spec fn is_quote(c: char) -> bool {
    c == '"' || c == '\'' || c == '`'
}

/// Whether `c` opens a string literal: `"`, `'` or a backtick.
pub fn quote(c: char) -> (r: bool)
    ensures
        r == is_quote(c),
{
    c == '"' || c == '\'' || c == '`'
}

} // verus!
