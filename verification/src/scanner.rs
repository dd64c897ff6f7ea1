//! The cursor over a source text, and the scans that the passes share.
//!
//! A scan is a function from a text and an offset to the offset where it
//! stops. Each is given as a specification function and as a method of the
//! cursor that is proved to stop there.

use vstd::prelude::*;
use crate::chars::{alphabetic, CharClass, is_letter, is_quote, is_space, is_upper, quote};
use crate::error::{ErrorView, Expected, TranspileError};
use crate::text::{char_at, chars_of, lemma_scan_end, scan, scan_end, slice_of, string_of};

verus! {

/// `pos + n`, but not beyond the end of the text.
pub open spec fn forward(s: Seq<char>, pos: int, n: int) -> int {
    if pos + n <= s.len() {
        pos + n
    } else if pos <= s.len() {
        s.len() as int
    } else {
        pos
    }
}

/// Where a string literal ends whose body starts at `pos`: behind the first
/// `quote` that no backslash stands in front of, or at the end of the text.
pub open spec fn string_end(s: Seq<char>, pos: int, quote: char) -> int
    decreases s.len() - pos,
{
    if pos < 0 || pos >= s.len() {
        pos
    } else if s[pos] == '\\' {
        string_end(s, forward(s, pos, 2), quote)
    } else if s[pos] == quote {
        pos + 1
    } else {
        string_end(s, pos + 1, quote)
    }
}

pub proof fn lemma_string_end(s: Seq<char>, pos: int, quote: char)
    requires
        0 <= pos <= s.len(),
    ensures
        pos <= string_end(s, pos, quote) <= s.len(),
        pos < s.len() ==> pos < string_end(s, pos, quote),
    decreases s.len() - pos,
{
    if pos >= s.len() {
    } else if s[pos] == '\\' {
        lemma_string_end(s, forward(s, pos, 2), quote);
    } else if s[pos] != quote {
        lemma_string_end(s, pos + 1, quote);
    }
}

/// The offset of the quote that closes a string literal whose body starts at
/// `pos`; the end of the text if none does.
pub open spec fn closing_quote(s: Seq<char>, pos: int, quote: char) -> int
    decreases s.len() - pos,
{
    if pos < 0 || pos >= s.len() {
        pos
    } else if s[pos] == quote {
        pos
    } else if s[pos] == '\\' {
        closing_quote(s, forward(s, pos, 2), quote)
    } else {
        closing_quote(s, pos + 1, quote)
    }
}

pub proof fn lemma_closing_quote(s: Seq<char>, pos: int, quote: char)
    requires
        0 <= pos <= s.len(),
    ensures
        pos <= closing_quote(s, pos, quote) <= s.len(),
    decreases s.len() - pos,
{
    if pos >= s.len() || s[pos] == quote {
    } else if s[pos] == '\\' {
        lemma_closing_quote(s, forward(s, pos, 2), quote);
    } else {
        lemma_closing_quote(s, pos + 1, quote);
    }
}

/// Where a block comment ends that holds `pos`: behind the first `*/` at or
/// after `pos`, or at the end of the text.
pub open spec fn comment_end(s: Seq<char>, pos: int) -> int
    decreases s.len() - pos,
{
    if pos < 0 || pos >= s.len() {
        pos
    } else if s[pos] == '*' && char_at(s, pos + 1) == Some('/') {
        pos + 2
    } else {
        comment_end(s, pos + 1)
    }
}

pub proof fn lemma_comment_end(s: Seq<char>, pos: int)
    requires
        0 <= pos <= s.len(),
    ensures
        pos <= comment_end(s, pos) <= s.len(),
        pos < s.len() ==> pos < comment_end(s, pos),
    decreases s.len() - pos,
{
    if pos < s.len() && !(s[pos] == '*' && char_at(s, pos + 1) == Some('/')) {
        lemma_comment_end(s, pos + 1);
    }
}

/// Where a line ends: behind the first line feed at or after `pos`, or at the
/// end of the text.
pub open spec fn line_end(s: Seq<char>, pos: int) -> int {
    let e = scan_end(s, pos, CharClass::NotNewline);
    if e < s.len() {
        e + 1
    } else {
        e
    }
}

pub proof fn lemma_line_end(s: Seq<char>, pos: int)
    requires
        0 <= pos <= s.len(),
    ensures
        pos <= line_end(s, pos) <= s.len(),
        pos < s.len() ==> pos < line_end(s, pos),
{
    lemma_scan_end(s, pos, CharClass::NotNewline);
}

pub open spec fn is_opening(c: char) -> bool {
    c == '{' || c == '[' || c == '('
}

pub open spec fn is_closing(c: char) -> bool {
    c == '}' || c == ']' || c == ')'
}

/// Where a JavaScript expression ends that is read from `pos` up to
/// `terminator`.
///
/// The expression ends before the first `terminator` that stands outside
/// string literals with as many brackets closed as were opened, or at the end
/// of the text. `depth` counts the brackets open at `pos` and `in_string`
/// holds the quote of the string literal that `pos` is in.
pub open spec fn expression_end(
    s: Seq<char>,
    pos: int,
    terminator: char,
    depth: int,
    in_string: Option<char>,
) -> int
    decreases s.len() - pos,
{
    if pos < 0 || pos >= s.len() {
        pos
    } else {
        let ch = s[pos];
        match in_string {
            Some(q) => {
                if ch == '\\' {
                    expression_end(s, forward(s, pos, 2), terminator, depth, in_string)
                } else if ch == q {
                    expression_end(s, pos + 1, terminator, depth, None)
                } else {
                    expression_end(s, pos + 1, terminator, depth, in_string)
                }
            },
            None => {
                if is_quote(ch) {
                    expression_end(s, pos + 1, terminator, depth, Some(ch))
                } else if is_opening(ch) {
                    expression_end(s, pos + 1, terminator, depth + 1, None)
                } else if is_closing(ch) {
                    if depth == 0 && ch == terminator {
                        pos
                    } else {
                        expression_end(s, pos + 1, terminator, depth - 1, None)
                    }
                } else if depth == 0 && ch == terminator {
                    pos
                } else {
                    expression_end(s, pos + 1, terminator, depth, None)
                }
            },
        }
    }
}

pub proof fn lemma_expression_end(
    s: Seq<char>,
    pos: int,
    terminator: char,
    depth: int,
    in_string: Option<char>,
)
    requires
        0 <= pos <= s.len(),
    ensures
        pos <= expression_end(s, pos, terminator, depth, in_string) <= s.len(),
    decreases s.len() - pos,
{
    if pos < s.len() {
        let ch = s[pos];
        match in_string {
            Some(q) => {
                if ch == '\\' {
                    lemma_expression_end(s, forward(s, pos, 2), terminator, depth, in_string);
                } else if ch == q {
                    lemma_expression_end(s, pos + 1, terminator, depth, None);
                } else {
                    lemma_expression_end(s, pos + 1, terminator, depth, in_string);
                }
            },
            None => {
                if is_quote(ch) {
                    lemma_expression_end(s, pos + 1, terminator, depth, Some(ch));
                } else if is_opening(ch) {
                    lemma_expression_end(s, pos + 1, terminator, depth + 1, None);
                } else if is_closing(ch) {
                    if !(depth == 0 && ch == terminator) {
                        lemma_expression_end(s, pos + 1, terminator, depth - 1, None);
                    }
                } else if !(depth == 0 && ch == terminator) {
                    lemma_expression_end(s, pos + 1, terminator, depth, None);
                }
            },
        }
    }
}

/// Where a type ends that is skipped from `pos` on.
///
/// Outside brackets the type ends before `,`, `;`, `=`, a closing bracket,
/// or a `{` that follows something other than white space; otherwise at the
/// end of the text. `depth` counts the brackets open at `pos`, angle brackets
/// among them, and `seen` says whether anything but white space was passed.
pub open spec fn type_end(s: Seq<char>, pos: int, depth: nat, seen: bool) -> int
    decreases s.len() - pos,
{
    if pos < 0 || pos >= s.len() {
        pos
    } else {
        let ch = s[pos];
        if depth == 0 && (ch == ',' || ch == ';' || ch == '=' || (seen && ch == '{')) {
            pos
        } else if ch == '<' || ch == '{' || ch == '[' || ch == '(' {
            type_end(s, pos + 1, depth + 1, true)
        } else if ch == '>' || ch == '}' || ch == ']' || ch == ')' {
            if depth == 0 {
                pos
            } else {
                type_end(s, pos + 1, (depth - 1) as nat, true)
            }
        } else {
            type_end(s, pos + 1, depth, seen || !CharClass::Whitespace.holds(ch))
        }
    }
}

pub proof fn lemma_type_end(s: Seq<char>, pos: int, depth: nat, seen: bool)
    requires
        0 <= pos <= s.len(),
    ensures
        pos <= type_end(s, pos, depth, seen) <= s.len(),
    decreases s.len() - pos,
{
    if pos < s.len() {
        let ch = s[pos];
        if depth == 0 && (ch == ',' || ch == ';' || ch == '=' || (seen && ch == '{')) {
        } else if ch == '<' || ch == '{' || ch == '[' || ch == '(' {
            lemma_type_end(s, pos + 1, depth + 1, true);
        } else if ch == '>' || ch == '}' || ch == ']' || ch == ')' {
            if depth != 0 {
                lemma_type_end(s, pos + 1, (depth - 1) as nat, true);
            }
        } else {
            lemma_type_end(s, pos + 1, depth, seen || !CharClass::Whitespace.holds(ch));
        }
    }
}

/// Where a `{ }` block ends that is `depth` braces deep at `pos`: behind the
/// brace that closes it, string literals passed over, or at the end of the
/// text.
pub open spec fn braces_end(s: Seq<char>, pos: int, depth: nat) -> int
    decreases s.len() - pos,
{
    if pos < 0 || pos >= s.len() {
        pos
    } else {
        let ch = s[pos];
        if ch == '{' {
            braces_end(s, pos + 1, depth + 1)
        } else if ch == '}' {
            if depth <= 1 {
                pos + 1
            } else {
                braces_end(s, pos + 1, (depth - 1) as nat)
            }
        } else if is_quote(ch) {
            proof {
                lemma_string_end(s, pos + 1, ch);
            }
            braces_end(s, string_end(s, pos + 1, ch), depth)
        } else {
            braces_end(s, pos + 1, depth)
        }
    }
}

pub proof fn lemma_braces_end(s: Seq<char>, pos: int, depth: nat)
    requires
        0 <= pos <= s.len(),
    ensures
        pos <= braces_end(s, pos, depth) <= s.len(),
        pos < s.len() ==> pos < braces_end(s, pos, depth),
    decreases s.len() - pos,
{
    if pos < s.len() {
        let ch = s[pos];
        if ch == '{' {
            lemma_braces_end(s, pos + 1, depth + 1);
        } else if ch == '}' {
            if depth > 1 {
                lemma_braces_end(s, pos + 1, (depth - 1) as nat);
            }
        } else if is_quote(ch) {
            lemma_string_end(s, pos + 1, ch);
            lemma_braces_end(s, string_end(s, pos + 1, ch), depth);
        } else {
            lemma_braces_end(s, pos + 1, depth);
        }
    }
}

/// Whether the `<` at `pos` opens JSX rather than a comparison or a list of
/// generic parameters.
///
/// `</` always does. Otherwise a `<` directly behind a word character never
/// does; `<>` and `</` do; and `<name`, once the name and white space are
/// passed, does if `/`, a letter, or a `>` not followed by `(` comes next.
pub open spec fn jsx_starts_at(s: Seq<char>, pos: int) -> bool {
    if char_at(s, pos) != Some('<') {
        false
    } else if char_at(s, pos + 1) == Some('/') {
        true
    } else if pos > 0 && CharClass::Word.holds(s[pos - 1]) {
        false
    } else {
        match char_at(s, pos + 1) {
            Some(c) => {
                if alphabetic(c) {
                    let j = scan_end(
                        s,
                        scan_end(s, pos + 1, CharClass::TagName),
                        CharClass::Whitespace,
                    );
                    match char_at(s, j) {
                        Some(d) => {
                            if d == '>' {
                                char_at(s, j + 1) != Some('(')
                            } else {
                                d == '/' || alphabetic(d)
                            }
                        },
                        None => false,
                    }
                } else {
                    c == '>'
                }
            },
            None => false,
        }
    }
}

/// Whether a tag names a component rather than a host element: it begins
/// with an upper-case letter or holds a `.`.
pub open spec fn is_component(tag: Seq<char>) -> bool {
    tag.len() > 0 && (crate::chars::uppercase(tag[0]) || tag.contains('.'))
}

/// A cursor over a source text.
#[derive(Debug, Clone)]
pub struct ParseContext {
    pub source: Vec<char>,
    pub pos: usize,
    pub is_typescript: bool,
}

impl ParseContext {
    /// The offset is within the text or at its end.
    pub open spec fn wf(&self) -> bool {
        self.pos <= self.source.len()
    }

    /// A cursor at the start of `source`.
    pub fn new(source: String, is_typescript: bool) -> (ctx: ParseContext)
        ensures
            ctx.source@ == source@,
            ctx.pos == 0,
            ctx.is_typescript == is_typescript,
            ctx.wf(),
    {
        ParseContext { source: chars_of(source.as_str()), pos: 0, is_typescript }
    }

    /// A cursor at the start of the characters `source`.
    pub fn over(source: Vec<char>, is_typescript: bool) -> (ctx: ParseContext)
        ensures
            ctx.source == source,
            ctx.pos == 0,
            ctx.is_typescript == is_typescript,
            ctx.wf(),
    {
        ParseContext { source, pos: 0, is_typescript }
    }

    /// The character at the cursor.
    pub fn current_char(&self) -> (r: Option<char>)
        ensures
            r == char_at(self.source@, self.pos as int),
    {
        if self.pos < self.source.len() {
            Some(self.source[self.pos])
        } else {
            None
        }
    }

    /// The character `offset` places behind the cursor.
    pub fn peek(&self, offset: usize) -> (r: Option<char>)
        ensures
            r == char_at(self.source@, self.pos + offset),
    {
        if offset < self.source.len() && self.pos < self.source.len() - offset {
            Some(self.source[self.pos + offset])
        } else {
            None
        }
    }

    /// Moves the cursor over one character; at the end of the text it stays.
    pub fn advance(&mut self)
        ensures
            final(self).source == old(self).source,
            final(self).is_typescript == old(self).is_typescript,
            final(self).pos == forward(old(self).source@, old(self).pos as int, 1),
    {
        if self.pos < self.source.len() {
            self.pos += 1;
        }
    }

    /// Moves the cursor over `n` characters, but not beyond the end of the
    /// text.
    pub fn advance_by(&mut self, n: usize)
        ensures
            final(self).source == old(self).source,
            final(self).is_typescript == old(self).is_typescript,
            final(self).pos == forward(old(self).source@, old(self).pos as int, n as int),
    {
        if self.pos <= self.source.len() {
            if n <= self.source.len() - self.pos {
                self.pos += n;
            } else {
                self.pos = self.source.len();
            }
        }
    }

    /// Moves the cursor over the characters in `class`.
    pub fn skip_class(&mut self, class: CharClass)
        ensures
            final(self).source == old(self).source,
            final(self).is_typescript == old(self).is_typescript,
            final(self).pos == scan_end(old(self).source@, old(self).pos as int, class),
            final(self).pos >= old(self).pos,
            old(self).wf() ==> final(self).wf(),
    {
        self.pos = scan(&self.source, self.pos, class);
    }

    /// Moves the cursor over white space.
    pub fn skip_whitespace(&mut self)
        ensures
            final(self).source == old(self).source,
            final(self).is_typescript == old(self).is_typescript,
            final(self).pos == scan_end(
                old(self).source@,
                old(self).pos as int,
                CharClass::Whitespace,
            ),
            final(self).pos >= old(self).pos,
            old(self).wf() ==> final(self).wf(),
    {
        self.skip_class(CharClass::Whitespace);
    }

    /// Moves the cursor over `expected`, or fails with `UnexpectedCharacter`
    /// if another character, or none, is at the cursor.
    pub fn consume(&mut self, expected: char) -> (r: Result<(), TranspileError>)
        ensures
            final(self).source == old(self).source,
            final(self).is_typescript == old(self).is_typescript,
            char_at(old(self).source@, old(self).pos as int) == Some(expected) ==> r is Ok
                && final(self).pos == old(self).pos + 1,
            char_at(old(self).source@, old(self).pos as int) != Some(expected) ==> r is Err
                && final(self).pos == old(self).pos && r->Err_0@
                == (ErrorView::UnexpectedCharacter {
                expected: Expected::Char(expected),
                position: old(self).pos as int,
            }),
    {
        if self.pos < self.source.len() && self.source[self.pos] == expected {
            self.pos += 1;
            Ok(())
        } else {
            Err(
                TranspileError::UnexpectedCharacter {
                    expected: Expected::Char(expected),
                    position: self.pos,
                },
            )
        }
    }

    /// The text between two offsets.
    pub fn slice(&self, start: usize, end: usize) -> (r: String)
        requires
            start <= end <= self.source.len(),
        ensures
            r@ == self.source@.subrange(start as int, end as int),
    {
        let v = slice_of(&self.source, start, end);
        string_of(&v)
    }

    /// The characters between two offsets.
    pub fn span(&self, start: usize, end: usize) -> (r: Vec<char>)
        requires
            start <= end <= self.source.len(),
        ensures
            r@ == self.source@.subrange(start as int, end as int),
    {
        slice_of(&self.source, start, end)
    }

    /// Moves the cursor behind the string literal whose body starts at it.
    pub fn skip_string(&mut self, quote: char)
        requires
            old(self).wf(),
        ensures
            final(self).wf(),
            final(self).source == old(self).source,
            final(self).is_typescript == old(self).is_typescript,
            final(self).pos == string_end(old(self).source@, old(self).pos as int, quote),
            final(self).pos >= old(self).pos,
    {
        loop
            invariant_except_break
                string_end(self.source@, self.pos as int, quote) == string_end(
                    old(self).source@,
                    old(self).pos as int,
                    quote,
                ),
            invariant
                self.wf(),
                self.source == old(self).source,
                self.is_typescript == old(self).is_typescript,
                self.pos >= old(self).pos,
            ensures
                self.pos == string_end(old(self).source@, old(self).pos as int, quote),
            decreases self.source.len() - self.pos,
        {
            if self.pos >= self.source.len() {
                break ;
            }
            let c = self.source[self.pos];
            if c == '\\' {
                self.advance_by(2);
            } else if c == quote {
                self.pos += 1;
                break ;
            } else {
                self.pos += 1;
            }
        }
    }

    /// Moves the cursor behind the block comment that it is in.
    pub fn skip_comment(&mut self)
        requires
            old(self).wf(),
        ensures
            final(self).wf(),
            final(self).source == old(self).source,
            final(self).is_typescript == old(self).is_typescript,
            final(self).pos == comment_end(old(self).source@, old(self).pos as int),
            final(self).pos >= old(self).pos,
    {
        loop
            invariant_except_break
                comment_end(self.source@, self.pos as int) == comment_end(
                    old(self).source@,
                    old(self).pos as int,
                ),
            invariant
                self.wf(),
                self.source == old(self).source,
                self.is_typescript == old(self).is_typescript,
                self.pos >= old(self).pos,
            ensures
                self.pos == comment_end(old(self).source@, old(self).pos as int),
            decreases self.source.len() - self.pos,
        {
            if self.pos >= self.source.len() {
                break ;
            }
            if self.source[self.pos] == '*' && self.peek(1) == Some('/') {
                self.pos += 2;
                break ;
            }
            self.pos += 1;
        }
    }

    /// Moves the cursor behind the line that it is in.
    pub fn skip_line(&mut self)
        requires
            old(self).wf(),
        ensures
            final(self).wf(),
            final(self).source == old(self).source,
            final(self).is_typescript == old(self).is_typescript,
            final(self).pos == line_end(old(self).source@, old(self).pos as int),
            final(self).pos >= old(self).pos,
    {
        let e = scan(&self.source, self.pos, CharClass::NotNewline);
        self.pos = if e < self.source.len() {
            e + 1
        } else {
            e
        };
    }

    /// Moves the cursor behind the `{ }` block whose opening brace has just
    /// been read.
    pub fn skip_braces(&mut self)
        requires
            old(self).wf(),
            0 < old(self).pos,
        ensures
            final(self).wf(),
            final(self).source == old(self).source,
            final(self).is_typescript == old(self).is_typescript,
            final(self).pos == braces_end(old(self).source@, old(self).pos as int, 1),
            final(self).pos >= old(self).pos,
    {
        let mut depth: usize = 1;
        loop
            invariant_except_break
                braces_end(self.source@, self.pos as int, depth as nat) == braces_end(
                    old(self).source@,
                    old(self).pos as int,
                    1,
                ),
            invariant
                self.wf(),
                self.source == old(self).source,
                self.is_typescript == old(self).is_typescript,
                0 < old(self).pos <= self.pos,
                1 <= depth <= self.pos - old(self).pos + 1,
            ensures
                self.pos == braces_end(old(self).source@, old(self).pos as int, 1),
            decreases self.source.len() - self.pos,
        {
            if self.pos >= self.source.len() {
                break ;
            }
            let ch = self.source[self.pos];
            if ch == '{' {
                depth += 1;
                self.pos += 1;
            } else if ch == '}' {
                self.pos += 1;
                if depth == 1 {
                    break ;
                }
                depth -= 1;
            } else if quote(ch) {
                self.pos += 1;
                self.skip_string(ch);
            } else {
                self.pos += 1;
            }
        }
    }

    /// Moves the cursor over a type.
    pub fn skip_type_at_pos(&mut self)
        requires
            old(self).wf(),
        ensures
            final(self).wf(),
            final(self).source == old(self).source,
            final(self).is_typescript == old(self).is_typescript,
            final(self).pos == type_end(old(self).source@, old(self).pos as int, 0, false),
            final(self).pos >= old(self).pos,
    {
        let mut depth: usize = 0;
        let mut seen = false;
        loop
            invariant_except_break
                type_end(self.source@, self.pos as int, depth as nat, seen) == type_end(
                    old(self).source@,
                    old(self).pos as int,
                    0,
                    false,
                ),
            invariant
                self.wf(),
                self.source == old(self).source,
                self.is_typescript == old(self).is_typescript,
                self.pos >= old(self).pos,
                depth <= self.pos - old(self).pos,
            ensures
                self.pos == type_end(old(self).source@, old(self).pos as int, 0, false),
            decreases self.source.len() - self.pos,
        {
            if self.pos >= self.source.len() {
                break ;
            }
            let ch = self.source[self.pos];
            if depth == 0 && (ch == ',' || ch == ';' || ch == '=' || (seen && ch == '{')) {
                break ;
            }
            if ch == '<' || ch == '{' || ch == '[' || ch == '(' {
                depth += 1;
                seen = true;
            } else if ch == '>' || ch == '}' || ch == ']' || ch == ')' {
                if depth == 0 {
                    break ;
                }
                depth -= 1;
                seen = true;
            } else if !is_space(ch) {
                seen = true;
            }
            self.pos += 1;
        }
    }

    /// Reads a JavaScript expression up to `terminator` and returns it; the
    /// cursor stops at the terminator, or at the end of the text.
    pub fn parse_js_expression(&mut self, terminator: char) -> (r: Vec<char>)
        requires
            old(self).wf(),
        ensures
            final(self).wf(),
            final(self).source == old(self).source,
            final(self).is_typescript == old(self).is_typescript,
            final(self).pos == expression_end(
                old(self).source@,
                old(self).pos as int,
                terminator,
                0,
                None,
            ),
            final(self).pos >= old(self).pos,
            r@ == old(self).source@.subrange(old(self).pos as int, final(self).pos as int),
    {
        let start = self.pos;
        let mut depth: i128 = 0;
        let mut in_string: Option<char> = None;
        loop
            invariant_except_break
                expression_end(self.source@, self.pos as int, terminator, depth as int, in_string)
                    == expression_end(
                    old(self).source@,
                    old(self).pos as int,
                    terminator,
                    0,
                    None,
                ),
            invariant
                self.wf(),
                self.source == old(self).source,
                self.is_typescript == old(self).is_typescript,
                self.pos >= start,
                start == old(self).pos,
                -(self.pos - start) <= depth <= self.pos - start,
            ensures
                self.pos == expression_end(
                    old(self).source@,
                    old(self).pos as int,
                    terminator,
                    0,
                    None,
                ),
            decreases self.source.len() - self.pos,
        {
            if self.pos >= self.source.len() {
                break ;
            }
            let ch = self.source[self.pos];
            match in_string {
                Some(q) => {
                    if ch == '\\' {
                        self.advance_by(2);
                    } else {
                        if ch == q {
                            in_string = None;
                        }
                        self.pos += 1;
                    }
                },
                None => {
                    if quote(ch) {
                        in_string = Some(ch);
                    } else if ch == '{' || ch == '[' || ch == '(' {
                        depth += 1;
                    } else if ch == '}' || ch == ']' || ch == ')' {
                        if depth == 0 && ch == terminator {
                            break ;
                        }
                        depth -= 1;
                    } else if depth == 0 && ch == terminator {
                        break ;
                    }
                    self.pos += 1;
                },
            }
        }
        slice_of(&self.source, start, self.pos)
    }

    /// Whether the `<` at the cursor opens JSX.
    pub fn is_jsx_start(&self) -> (r: bool)
        ensures
            r == jsx_starts_at(self.source@, self.pos as int),
    {
        if self.pos >= self.source.len() || self.source[self.pos] != '<' {
            return false;
        }
        let next = self.peek(1);
        if next == Some('/') {
            return true;
        }
        if self.pos > 0 && CharClass::Word.test(self.source[self.pos - 1]) {
            return false;
        }
        match next {
            Some(c) => {
                if is_letter(c) {
                    let i = scan(&self.source, self.pos + 1, CharClass::TagName);
                    let j = scan(&self.source, i, CharClass::Whitespace);
                    if j < self.source.len() {
                        let d = self.source[j];
                        if d == '>' {
                            !(j + 1 < self.source.len() && self.source[j + 1] == '(')
                        } else {
                            d == '/' || is_letter(d)
                        }
                    } else {
                        false
                    }
                } else {
                    c == '>'
                }
            },
            None => false,
        }
    }
}

/// Whether a tag names a component rather than a host element.
pub fn is_custom_component(tag: &Vec<char>) -> (r: bool)
    ensures
        r == is_component(tag@),
{
    if tag.len() == 0 {
        return false;
    }
    if is_upper(tag[0]) {
        return true;
    }
    let mut i: usize = 0;
    while i < tag.len()
        invariant
            i <= tag.len(),
            forall|j: int| 0 <= j < i ==> tag@[j] != '.',
        decreases tag.len() - i,
    {
        if tag[i] == '.' {
            return true;
        }
        i += 1;
    }
    false
}

} // verus!
