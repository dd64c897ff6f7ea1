//! Rewriting of newer syntax for legacy engines.
//!
//! One scan over the text, aware of strings, template literals and comments,
//! turns `const` and `let` into `var`, optional chaining `a?.b` into
//! `(a != null ? a.b : undefined)` and nullish coalescing `a ?? b` into
//! `(a != null ? a : b)`. The operands of the two operators are found by
//! scanning backward through the output written so far, so that rewrites
//! compose from left to right.
//!
//! The pass is specified by the functions `normal_step`, `string_body`,
//! `interpolation`, `line_comment_end`, `block_comment_end` and `run`, which
//! say for every text, offset and output what the next offset and output are.
//! The executable `Transpiler` is proved to follow them.

use vstd::prelude::*;
use crate::chars::{CharClass, is_quote, is_space, quote, whitespace};
use crate::text::{
    char_at, chars_of, has_prefix_at, lemma_scan_end, push_all, push_range, push_str, scan,
    scan_back, scan_backward, scan_end, slice_of, starts_with_at, Step, string_of, trim, trim_end,
    trim_start, trimmed, trimmed_end, trimmed_start,
};
use crate::error::TranspileError;
use crate::progress::lemma_downlevel_step_advances;

verus! {

/// What the character at the current offset begins.
#[derive(Clone, Copy, Debug)]
pub enum ParserState {
    Normal,
    /// A string literal, with its quote character.
    InString(char),
    InLineComment,
    InBlockComment,
}

/// What begins at `pos`: a comment, a string literal or ordinary code.
pub open spec fn lex_state(input: Seq<char>, pos: int) -> ParserState {
    if !(0 <= pos < input.len()) {
        ParserState::Normal
    } else if input[pos] == '/' && char_at(input, pos + 1) == Some('/') {
        ParserState::InLineComment
    } else if input[pos] == '/' && char_at(input, pos + 1) == Some('*') {
        ParserState::InBlockComment
    } else if is_quote(input[pos]) {
        ParserState::InString(input[pos])
    } else {
        ParserState::Normal
    }
}

/// No word runs across offset `i`: there is no character there, or one that
/// cannot be part of a word.
pub open spec fn word_boundary_at(input: Seq<char>, i: int) -> bool {
    match char_at(input, i) {
        Some(c) => !CharClass::Word.holds(c),
        None => true,
    }
}

/// The word `kw` stands at `pos`, with a word boundary on both sides.
pub open spec fn keyword_at(input: Seq<char>, pos: int, kw: Seq<char>) -> bool {
    word_boundary_at(input, pos - 1) && has_prefix_at(input, pos, kw) && word_boundary_at(
        input,
        pos + kw.len(),
    )
}

/// Whether a `?.` at `pos` follows an object: the nearest character before
/// it that is not white space is part of an identifier, `)` or `]`.
pub open spec fn chain_context(input: Seq<char>, pos: int) -> bool {
    let i = scan_back(input, pos, CharClass::Whitespace) - 1;
    0 <= i < input.len() && (CharClass::Ident.holds(input[i]) || input[i] == ')' || input[i]
        == ']')
}

/// The backward scan for the start of the object of an optional chain, with
/// `n` characters of `out` still to look at and `depth` brackets open.
pub open spec fn object_start_from(out: Seq<char>, n: int, depth: nat) -> int
    decreases n,
{
    if n <= 0 || n > out.len() {
        0
    } else {
        let ch = out[n - 1];
        if ch == ')' || ch == ']' {
            object_start_from(out, n - 1, depth + 1)
        } else if ch == '(' || ch == '[' {
            if depth > 0 {
                object_start_from(out, n - 1, (depth - 1) as nat)
            } else {
                n
            }
        } else if depth > 0 || CharClass::Ident.holds(ch) {
            object_start_from(out, n - 1, depth)
        } else {
            n
        }
    }
}

/// Where the object of an optional chain starts in the output written so
/// far. Trailing white space is passed over. Then the scan goes back over
/// bracketed groups, each taken whole with both of its brackets, and over
/// the characters of identifiers, and stops behind the first character
/// outside a group that is neither: an opening bracket without a partner
/// is such a character.
pub open spec fn object_start(out: Seq<char>) -> int {
    let e = scan_back(out, out.len() as int, CharClass::Whitespace);
    if e <= 0 {
        0
    } else if out[e - 1] == ')' || out[e - 1] == ']' {
        object_start_from(out, e - 1, 1)
    } else if CharClass::Ident.holds(out[e - 1]) {
        object_start_from(out, e - 1, 0)
    } else {
        e
    }
}

/// The backward scan for the start of the left operand of `??`, with `n`
/// characters of `out` still to look at.
pub open spec fn operand_start_from(out: Seq<char>, n: int, parens: nat, brackets: nat) -> int
    decreases n,
{
    if n <= 0 || n > out.len() {
        0
    } else {
        let ch = out[n - 1];
        if ch == ')' {
            operand_start_from(out, n - 1, parens + 1, brackets)
        } else if ch == '(' {
            if parens > 0 {
                operand_start_from(out, n - 1, (parens - 1) as nat, brackets)
            } else {
                n
            }
        } else if ch == ']' {
            operand_start_from(out, n - 1, parens, brackets + 1)
        } else if ch == '[' {
            if brackets > 0 {
                operand_start_from(out, n - 1, parens, (brackets - 1) as nat)
            } else {
                n
            }
        } else if (ch == ';' || ch == ',' || ch == '=' || ch == '{' || ch == '}') && parens == 0
            && brackets == 0 {
            n
        } else {
            operand_start_from(out, n - 1, parens, brackets)
        }
    }
}

/// Where the left operand of `??` starts in the output written so far: after
/// the nearest `;`, `,`, `=`, `{` or `}` outside brackets, or after an
/// unmatched opening bracket.
pub open spec fn operand_start(out: Seq<char>) -> int {
    operand_start_from(out, out.len() as int, 0, 0)
}

/// Whether `obj` begins with the word `kw` followed by white space, `(` or
/// `{`.
pub open spec fn leads_with(obj: Seq<char>, kw: Seq<char>) -> bool {
    has_prefix_at(obj, 0, kw) && kw.len() < obj.len() && (whitespace(obj[kw.len() as int])
        || obj[kw.len() as int] == '(' || obj[kw.len() as int] == '{')
}

/// The length of the keyword (`return`, `throw`, `await`, `yield`) that
/// `obj` begins with; 0 if it begins with none.
pub open spec fn leading_keyword_len(obj: Seq<char>) -> nat {
    if leads_with(obj, "return"@) {
        "return"@.len()
    } else if leads_with(obj, "throw"@) {
        "throw"@.len()
    } else if leads_with(obj, "await"@) {
        "await"@.len()
    } else if leads_with(obj, "yield"@) {
        "yield"@.len()
    } else {
        0
    }
}

/// `obj` after its leading keyword and the white space behind it.
pub open spec fn after_keyword(obj: Seq<char>) -> Seq<char> {
    trim_start(obj.subrange(leading_keyword_len(obj) as int, obj.len() as int))
}

/// The keywords that `obj` begins with, each followed by one space.
pub open spec fn hoisted(obj: Seq<char>) -> Seq<char>
    decreases obj.len(),
{
    let k = leading_keyword_len(obj);
    if 0 < k <= obj.len() {
        proof {
            lemma_scan_end(obj.subrange(k as int, obj.len() as int), 0, CharClass::Whitespace);
        }
        obj.subrange(0, k as int) + seq![' '] + hoisted(after_keyword(obj))
    } else {
        Seq::empty()
    }
}

/// `obj` without the keywords that it begins with.
pub open spec fn unhoisted(obj: Seq<char>) -> Seq<char>
    decreases obj.len(),
{
    let k = leading_keyword_len(obj);
    if 0 < k <= obj.len() {
        proof {
            lemma_scan_end(obj.subrange(k as int, obj.len() as int), 0, CharClass::Whitespace);
        }
        unhoisted(after_keyword(obj))
    } else {
        obj
    }
}

/// Where a bracketed group ends that is `depth` levels deep at `p`: behind
/// the closing bracket that brings the depth to 0, or at the end of the
/// input.
pub open spec fn balanced_end(input: Seq<char>, p: int, open: char, close: char, depth: nat) -> int
    decreases input.len() - p,
{
    if depth == 0 || p < 0 || p >= input.len() {
        p
    } else if input[p] == open {
        balanced_end(input, p + 1, open, close, depth + 1)
    } else if input[p] == close {
        balanced_end(input, p + 1, open, close, (depth - 1) as nat)
    } else {
        balanced_end(input, p + 1, open, close, depth)
    }
}

pub proof fn lemma_balanced_end(input: Seq<char>, p: int, open: char, close: char, depth: nat)
    requires
        0 <= p <= input.len(),
    ensures
        p <= balanced_end(input, p, open, close, depth) <= input.len(),
    decreases input.len() - p,
{
    if depth == 0 || p >= input.len() {
    } else if input[p] == open {
        lemma_balanced_end(input, p + 1, open, close, depth + 1);
    } else if input[p] == close {
        lemma_balanced_end(input, p + 1, open, close, (depth - 1) as nat);
    } else {
        lemma_balanced_end(input, p + 1, open, close, depth);
    }
}

/// The rewrite of the optional chain whose `?.` stands at `pos`.
///
/// The object is cut off the end of the output; keywords caught with it are
/// put back in front. Then `(obj != null ? obj` is written, the member, index
/// or call that follows the `?.` is copied, and ` : undefined)` closes the
/// expression.
pub open spec fn optional_chain(input: Seq<char>, pos: int, out: Seq<char>) -> Step {
    let start = object_start(out);
    let t = trim_end(out.subrange(start, out.len() as int));
    let lead = scan_end(t, 0, CharClass::Whitespace);
    let obj = unhoisted(t.subrange(lead, t.len() as int));
    let head = out.subrange(0, start) + t.subrange(0, lead) + hoisted(
        t.subrange(lead, t.len() as int),
    ) + "("@ + obj + " != null ? "@ + obj;
    if char_at(input, pos + 2) == Some('[') {
        let end = balanced_end(input, pos + 3, '[', ']', 1);
        Step { pos: end, out: head + seq!['['] + input.subrange(pos + 3, end) + " : undefined)"@ }
    } else if char_at(input, pos + 2) == Some('(') {
        let end = balanced_end(input, pos + 3, '(', ')', 1);
        Step { pos: end, out: head + seq!['('] + input.subrange(pos + 3, end) + " : undefined)"@ }
    } else {
        let end = scan_end(input, pos + 2, CharClass::Ident);
        Step { pos: end, out: head + seq!['.'] + input.subrange(pos + 2, end) + " : undefined)"@ }
    }
}

/// The rewrite of the `??` that stands at `pos`.
///
/// The left operand is cut off the end of the output and the right operand is
/// read up to the next `;`, `,`, `)`, `}`, `]`, line feed or the end of the
/// input; both are trimmed. White space in front of the left operand stays
/// where it was.
pub open spec fn nullish(input: Seq<char>, pos: int, out: Seq<char>) -> Step {
    let start = operand_start(out);
    let seg = out.subrange(start, out.len() as int);
    let lead = scan_end(seg, 0, CharClass::Whitespace);
    let left = trim(seg);
    let end = scan_end(input, pos + 2, CharClass::Operand);
    let right = trim(input.subrange(pos + 2, end));
    Step {
        pos: end,
        out: out.subrange(0, start) + seg.subrange(0, lead) + "("@ + left + " != null ? "@ + left
            + " : "@ + right + seq![')'],
    }
}

/// One step of the scan in ordinary code.
pub open spec fn normal_step(input: Seq<char>, pos: int, out: Seq<char>) -> Step {
    if keyword_at(input, pos, "const"@) {
        Step { pos: pos + "const"@.len(), out: out + "var"@ }
    } else if keyword_at(input, pos, "let"@) {
        Step { pos: pos + "let"@.len(), out: out + "var"@ }
    } else if has_prefix_at(input, pos, "?."@) && chain_context(input, pos) {
        optional_chain(input, pos, out)
    } else if has_prefix_at(input, pos, "??"@) {
        nullish(input, pos, out)
    } else {
        Step { pos: pos + 1, out: out.push(input[pos]) }
    }
}

/// Where the line comment that holds `pos` ends: behind its line feed, or at
/// the end of the input.
pub open spec fn line_comment_end(input: Seq<char>, pos: int) -> int {
    let e = scan_end(input, pos, CharClass::NotNewline);
    if e < input.len() {
        e + 1
    } else {
        e
    }
}

/// Where the copy of a block comment stops whose text starts at `p`: behind
/// the first `*/`, or, if there is none, before the last character of the
/// input.
pub open spec fn block_comment_end(input: Seq<char>, p: int) -> int
    decreases input.len() - p,
{
    if 0 <= p && p + 1 < input.len() {
        if input[p] == '*' && input[p + 1] == '/' {
            p + 2
        } else {
            block_comment_end(input, p + 1)
        }
    } else {
        p
    }
}

pub proof fn lemma_block_comment_end(input: Seq<char>, p: int)
    requires
        0 <= p <= input.len(),
    ensures
        p <= block_comment_end(input, p) <= input.len(),
    decreases input.len() - p,
{
    if p + 1 < input.len() && !(input[p] == '*' && input[p + 1] == '/') {
        lemma_block_comment_end(input, p + 1);
    }
}

/// The scan inside a string literal opened by `quote`, from `pos` on.
///
/// The text is copied up to and with the closing quote; a backslash takes the
/// next character with it. In a template literal the code of each `${ }` is
/// rewritten as code; the scan of it never goes back
/// (`lemma_interpolation_bounds`), so the test for it never fails.
pub open spec fn string_body(input: Seq<char>, pos: int, out: Seq<char>, quote: char) -> Step
    decreases input.len() - pos,
{
    if pos < 0 || pos >= input.len() {
        Step { pos, out }
    } else if input[pos] == '\\' && pos + 1 < input.len() {
        string_body(input, pos + 2, out.push('\\').push(input[pos + 1]), quote)
    } else if input[pos] == quote {
        Step { pos: pos + 1, out: out.push(quote) }
    } else if quote == '`' && input[pos] == '$' && char_at(input, pos + 1) == Some('{') {
        let st = interpolation(input, pos + 2, out.push('$').push('{'), 1);
        if pos < st.pos <= input.len() {
            string_body(input, st.pos, st.out, quote)
        } else {
            st
        }
    } else {
        string_body(input, pos + 1, out.push(input[pos]), quote)
    }
}

/// The scan inside the `${ }` of a template literal, `depth` braces deep.
///
/// It ends behind the brace that closes the interpolation, or at the end of
/// the input. Strings and comments in it are passed over; `?.` and `??` are
/// rewritten. Every step in it moves forward (`lemma_interpolation_bounds`),
/// so the test for it never fails.
pub open spec fn interpolation(input: Seq<char>, pos: int, out: Seq<char>, depth: nat) -> Step
    decreases input.len() - pos,
{
    if pos < 0 || pos >= input.len() {
        Step { pos, out }
    } else {
        let st = match lex_state(input, pos) {
            ParserState::Normal => {
                if input[pos] == '{' {
                    Step { pos: pos + 1, out: out.push('{') }
                } else if input[pos] == '}' {
                    Step { pos: pos + 1, out: out.push('}') }
                } else if has_prefix_at(input, pos, "?."@) {
                    if chain_context(input, pos) {
                        optional_chain(input, pos, out)
                    } else {
                        Step { pos: pos + 1, out: out.push('?') }
                    }
                } else if has_prefix_at(input, pos, "??"@) {
                    nullish(input, pos, out)
                } else {
                    Step { pos: pos + 1, out: out.push(input[pos]) }
                }
            },
            ParserState::InString(q) => string_body(input, pos + 1, out.push(q), q),
            ParserState::InLineComment => {
                let end = line_comment_end(input, pos);
                Step { pos: end, out: out + input.subrange(pos, end) }
            },
            ParserState::InBlockComment => {
                let end = block_comment_end(input, pos + 2);
                Step { pos: end, out: out + input.subrange(pos, end) }
            },
        };
        let closes = lex_state(input, pos) is Normal && input[pos] == '}';
        let opens = lex_state(input, pos) is Normal && input[pos] == '{';
        if closes && depth <= 1 {
            st
        } else if pos < st.pos <= input.len() {
            interpolation(
                input,
                st.pos,
                st.out,
                if closes {
                    (depth - 1) as nat
                } else if opens {
                    depth + 1
                } else {
                    depth
                },
            )
        } else {
            st
        }
    }
}

/// One step of the scan at the top level: a string literal, a comment or a
/// step in ordinary code.
pub open spec fn step(input: Seq<char>, pos: int, out: Seq<char>) -> Step {
    match lex_state(input, pos) {
        ParserState::Normal => normal_step(input, pos, out),
        ParserState::InString(q) => string_body(input, pos + 1, out.push(q), q),
        ParserState::InLineComment => {
            let end = line_comment_end(input, pos);
            Step { pos: end, out: out + input.subrange(pos, end) }
        },
        ParserState::InBlockComment => {
            let end = block_comment_end(input, pos + 2);
            Step { pos: end, out: out + input.subrange(pos, end) }
        },
    }
}

/// The output of the scan that stands at `pos` with `out` written.
pub open spec fn run(input: Seq<char>, pos: int, out: Seq<char>) -> Seq<char>
    decreases input.len() - pos,
{
    if pos < 0 || pos >= input.len() {
        out
    } else {
        proof {
            lemma_downlevel_step_advances(input, pos, out);
        }
        run(input, step(input, pos, out).pos, step(input, pos, out).out)
    }
}

/// The text that the pass makes of `source`.
pub open spec fn downleveled(source: Seq<char>) -> Seq<char> {
    run(source, 0, Seq::empty())
}

/// A text that stands at `pos` begins with the character at `pos`.
pub proof fn lemma_first_chars(input: Seq<char>, pos: int, lit: Seq<char>)
    requires
        lit.len() > 0,
        has_prefix_at(input, pos, lit),
    ensures
        input[pos] == lit[0],
{
}

/// `?.` stands at `pos` exactly if `?` is there and `.` behind it; likewise
/// `??`.
pub proof fn lemma_operators_at(input: Seq<char>, pos: int)
    ensures
        has_prefix_at(input, pos, "?."@) <==> (char_at(input, pos) == Some('?') && char_at(
            input,
            pos + 1,
        ) == Some('.')),
        has_prefix_at(input, pos, "??"@) <==> (char_at(input, pos) == Some('?') && char_at(
            input,
            pos + 1,
        ) == Some('?')),
{
    reveal_strlit("?.");
    reveal_strlit("??");
    if has_prefix_at(input, pos, "?."@) {
        assert(input.subrange(pos, pos + 2)[0] == '?');
        assert(input.subrange(pos, pos + 2)[1] == '.');
    }
    if has_prefix_at(input, pos, "??"@) {
        assert(input.subrange(pos, pos + 2)[0] == '?');
        assert(input.subrange(pos, pos + 2)[1] == '?');
    }
    if char_at(input, pos) == Some('?') && char_at(input, pos + 1) == Some('.') {
        assert(input.subrange(pos, pos + 2) =~= "?."@);
    }
    if char_at(input, pos) == Some('?') && char_at(input, pos + 1) == Some('?') {
        assert(input.subrange(pos, pos + 2) =~= "??"@);
    }
}

/// The scanner of the pass: the input, the output written so far and the
/// offset of the next character to read.
pub struct Transpiler {
    pub input: Vec<char>,
    pub output: Vec<char>,
    pub pos: usize,
}

impl Transpiler {
    /// The offset never passes the end of the input.
    pub open spec fn wf(&self) -> bool {
        self.pos <= self.input.len()
    }

    /// The offset and the output as one value.
    pub open spec fn at(&self) -> Step {
        Step { pos: self.pos as int, out: self.output@ }
    }

    /// A scanner at the start of `input`, with nothing written.
    pub fn new(input: &str) -> (t: Transpiler)
        ensures
            t.input@ == input@,
            t.output@ == Seq::<char>::empty(),
            t.pos == 0,
            t.wf(),
    {
        Transpiler { input: chars_of(input), output: Vec::new(), pos: 0 }
    }

    /// The character at the current offset.
    pub fn current_char(&self) -> (r: Option<char>)
        ensures
            r == char_at(self.input@, self.pos as int),
    {
        if self.pos < self.input.len() {
            Some(self.input[self.pos])
        } else {
            None
        }
    }

    /// The character `offset` places after the current one.
    pub fn peek(&self, offset: usize) -> (r: Option<char>)
        ensures
            r == char_at(self.input@, self.pos + offset),
    {
        if offset < self.input.len() && self.pos < self.input.len() - offset {
            Some(self.input[self.pos + offset])
        } else {
            None
        }
    }

    /// Whether no word runs across offset `pos`.
    pub fn is_word_boundary_at(&self, pos: usize) -> (r: bool)
        ensures
            r == word_boundary_at(self.input@, pos as int),
    {
        if pos < self.input.len() {
            !CharClass::Word.test(self.input[pos])
        } else {
            true
        }
    }

    /// Whether a word can begin at the current offset.
    pub fn has_valid_word_prefix(&self) -> (r: bool)
        ensures
            r == word_boundary_at(self.input@, self.pos - 1),
    {
        if self.pos == 0 {
            true
        } else {
            self.is_word_boundary_at(self.pos - 1)
        }
    }

    /// What begins at the current offset.
    pub fn current_state(&self) -> (r: ParserState)
        ensures
            r == lex_state(self.input@, self.pos as int),
    {
        if self.pos >= self.input.len() {
            return ParserState::Normal;
        }
        let ch = self.input[self.pos];
        if ch == '/' {
            let next = self.peek(1);
            if next == Some('/') {
                return ParserState::InLineComment;
            }
            if next == Some('*') {
                return ParserState::InBlockComment;
            }
        }
        if quote(ch) {
            return ParserState::InString(ch);
        }
        ParserState::Normal
    }

    /// Whether a `?.` at the current offset follows an object.
    pub fn is_optional_chaining_context(&self) -> (r: bool)
        requires
            self.wf(),
        ensures
            r == chain_context(self.input@, self.pos as int),
    {
        let e = scan_backward(&self.input, self.pos, CharClass::Whitespace);
        if e == 0 {
            return false;
        }
        let ch = self.input[e - 1];
        CharClass::Ident.test(ch) || ch == ')' || ch == ']'
    }

    /// Where the object of an optional chain starts in the output.
    pub fn find_object_start(&self) -> (start: usize)
        ensures
            start == object_start(self.output@),
            start <= self.output.len(),
    {
        let e = scan_backward(&self.output, self.output.len(), CharClass::Whitespace);
        if e == 0 {
            return 0;
        }
        let c = self.output[e - 1];
        let mut depth: usize = 0;
        if c == ')' || c == ']' {
            depth = 1;
        } else if !CharClass::Ident.test(c) {
            return e;
        }
        let mut n: usize = e - 1;
        while n > 0
            invariant
                n < e <= self.output.len(),
                depth <= e - n,
                object_start_from(self.output@, n as int, depth as nat) == object_start(
                    self.output@,
                ),
            decreases n,
        {
            let ch = self.output[n - 1];
            if ch == ')' || ch == ']' {
                depth += 1;
            } else if ch == '(' || ch == '[' {
                if depth > 0 {
                    depth -= 1;
                } else {
                    return n;
                }
            } else if !(depth > 0 || CharClass::Ident.test(ch)) {
                return n;
            }
            n -= 1;
        }
        0
    }

    /// Where the left operand of `??` starts in the output.
    pub fn find_operator_left_operand(&self) -> (start: usize)
        ensures
            start == operand_start(self.output@),
            start <= self.output.len(),
    {
        let mut parens: usize = 0;
        let mut brackets: usize = 0;
        let mut n: usize = self.output.len();
        while n > 0
            invariant
                n <= self.output.len(),
                parens + brackets <= self.output.len() - n,
                operand_start_from(self.output@, n as int, parens as nat, brackets as nat)
                    == operand_start(self.output@),
            decreases n,
        {
            let ch = self.output[n - 1];
            if ch == ')' {
                parens += 1;
            } else if ch == '(' {
                if parens > 0 {
                    parens -= 1;
                } else {
                    return n;
                }
            } else if ch == ']' {
                brackets += 1;
            } else if ch == '[' {
                if brackets > 0 {
                    brackets -= 1;
                } else {
                    return n;
                }
            } else if (ch == ';' || ch == ',' || ch == '=' || ch == '{' || ch == '}') && parens
                == 0 && brackets == 0 {
                return n;
            }
            n -= 1;
        }
        0
    }

    /// Copies a bracketed group whose opening bracket has just been read, up
    /// to and with its closing bracket.
    fn copy_balanced(&mut self, open: char, close: char)
        requires
            old(self).wf(),
            0 < old(self).pos,
        ensures
            final(self).wf(),
            final(self).input == old(self).input,
            final(self).pos == balanced_end(
                old(self).input@,
                old(self).pos as int,
                open,
                close,
                1,
            ),
            final(self).pos >= old(self).pos,
            final(self).output@ == old(self).output@ + old(self).input@.subrange(
                old(self).pos as int,
                final(self).pos as int,
            ),
    {
        let start = self.pos;
        let mut depth: usize = 1;
        while depth > 0 && self.pos < self.input.len()
            invariant
                0 < start <= self.pos <= self.input.len(),
                depth <= self.pos - start + 1,
                self.input == old(self).input,
                self.output == old(self).output,
                balanced_end(self.input@, self.pos as int, open, close, depth as nat)
                    == balanced_end(self.input@, start as int, open, close, 1),
            decreases self.input.len() - self.pos,
        {
            let ch = self.input[self.pos];
            if ch == open {
                depth += 1;
            } else if ch == close {
                depth -= 1;
            }
            self.pos += 1;
        }
        push_range(&mut self.output, &self.input, start, self.pos);
    }

    /// Rewrites the optional chain whose `?.` stands at the current offset.
    pub fn transform_optional_chaining(&mut self)
        requires
            old(self).wf(),
            has_prefix_at(old(self).input@, old(self).pos as int, "?."@),
        ensures
            final(self).wf(),
            final(self).input == old(self).input,
            final(self).at() == optional_chain(
                old(self).input@,
                old(self).pos as int,
                old(self).output@,
            ),
            final(self).pos >= old(self).pos + 2,
    {
        proof {
            reveal_strlit("?.");
        }
        let start = self.find_object_start();
        let seg = slice_of(&self.output, start, self.output.len());
        let t = trimmed_end(&seg);
        let lead = scan(&t, 0, CharClass::Whitespace);
        let mut obj = slice_of(&t, lead, t.len());
        let ghost obj0 = obj@;
        self.output.truncate(start);
        push_range(&mut self.output, &t, 0, lead);
        let ghost base = self.output@;
        loop
            invariant
                self.input == old(self).input,
                self.pos == old(self).pos,
                self.output@ + hoisted(obj@) == base + hoisted(obj0),
                unhoisted(obj@) == unhoisted(obj0),
            ensures
                self.output@ == base + hoisted(obj0),
                obj@ == unhoisted(obj0),
            decreases obj.len(),
        {
            let k = leading_keyword(&obj);
            if k == 0 {
                break ;
            }
            push_range(&mut self.output, &obj, 0, k);
            self.output.push(' ');
            let rest = slice_of(&obj, k, obj.len());
            proof {
                lemma_scan_end(rest@, 0, CharClass::Whitespace);
            }
            obj = trimmed_start(&rest);
        }
        push_str(&mut self.output, "(");
        push_all(&mut self.output, &obj);
        push_str(&mut self.output, " != null ? ");
        push_all(&mut self.output, &obj);
        let ghost head = self.output@;
        self.pos += 2;
        let next = self.current_char();
        if next == Some('[') {
            self.output.push('[');
            self.pos += 1;
            self.copy_balanced('[', ']');
            assert(self.output@ == head + seq!['['] + self.input@.subrange(
                old(self).pos + 3,
                self.pos as int,
            ));
        } else if next == Some('(') {
            self.output.push('(');
            self.pos += 1;
            self.copy_balanced('(', ')');
            assert(self.output@ == head + seq!['('] + self.input@.subrange(
                old(self).pos + 3,
                self.pos as int,
            ));
        } else {
            self.output.push('.');
            let end = scan(&self.input, self.pos, CharClass::Ident);
            push_range(&mut self.output, &self.input, self.pos, end);
            self.pos = end;
            assert(self.output@ == head + seq!['.'] + self.input@.subrange(
                old(self).pos + 2,
                self.pos as int,
            ));
        }
        push_str(&mut self.output, " : undefined)");
    }

    /// Rewrites the `??` that stands at the current offset.
    pub fn transform_nullish_coalescing(&mut self)
        requires
            old(self).wf(),
            has_prefix_at(old(self).input@, old(self).pos as int, "??"@),
        ensures
            final(self).wf(),
            final(self).input == old(self).input,
            final(self).at() == nullish(old(self).input@, old(self).pos as int, old(self).output@),
            final(self).pos >= old(self).pos + 2,
    {
        proof {
            reveal_strlit("??");
        }
        let ghost out0 = self.output@;
        let start = self.find_operator_left_operand();
        let seg = slice_of(&self.output, start, self.output.len());
        let lead = scan(&seg, 0, CharClass::Whitespace);
        let left = trimmed(&seg);
        self.output.truncate(start);
        push_range(&mut self.output, &seg, 0, lead);
        push_str(&mut self.output, "(");
        push_all(&mut self.output, &left);
        push_str(&mut self.output, " != null ? ");
        push_all(&mut self.output, &left);
        push_str(&mut self.output, " : ");
        self.pos += 2;
        let end = scan(&self.input, self.pos, CharClass::Operand);
        let raw = slice_of(&self.input, self.pos, end);
        let right = trimmed(&raw);
        push_all(&mut self.output, &right);
        self.output.push(')');
        self.pos = end;
        assert(self.output@ =~= out0.subrange(0, start as int) + seg@.subrange(0, lead as int)
            + "("@ + left@ + " != null ? "@ + left@ + " : "@ + right@ + seq![')']);
    }

    /// Takes one step in ordinary code.
    pub fn handle_normal(&mut self)
        requires
            old(self).wf(),
            old(self).pos < old(self).input.len(),
        ensures
            final(self).wf(),
            final(self).input == old(self).input,
            final(self).at() == normal_step(
                old(self).input@,
                old(self).pos as int,
                old(self).output@,
            ),
            final(self).pos > old(self).pos,
    {
        let ch = self.input[self.pos];
        let next = self.peek(1);
        proof {
            reveal_strlit("const");
            reveal_strlit("let");
            if has_prefix_at(self.input@, self.pos as int, "const"@) {
                lemma_first_chars(self.input@, self.pos as int, "const"@);
            }
            if has_prefix_at(self.input@, self.pos as int, "let"@) {
                lemma_first_chars(self.input@, self.pos as int, "let"@);
            }
            lemma_operators_at(self.input@, self.pos as int);
        }
        if (ch == 'c' || ch == 'l') && self.has_valid_word_prefix() {
            if starts_with_at(&self.input, self.pos, "const") && self.is_word_boundary_at(
                self.pos + 5,
            ) {
                push_str(&mut self.output, "var");
                self.pos += 5;
                return ;
            }
            if starts_with_at(&self.input, self.pos, "let") && self.is_word_boundary_at(
                self.pos + 3,
            ) {
                push_str(&mut self.output, "var");
                self.pos += 3;
                return ;
            }
        }
        if ch == '?' && next == Some('.') && self.is_optional_chaining_context() {
            self.transform_optional_chaining();
            return ;
        }
        if ch == '?' && next == Some('?') {
            self.transform_nullish_coalescing();
            return ;
        }
        self.output.push(ch);
        self.pos += 1;
    }

    /// Copies a line comment, up to and with its line feed.
    pub fn handle_line_comment(&mut self)
        requires
            old(self).wf(),
            old(self).pos < old(self).input.len(),
        ensures
            final(self).wf(),
            final(self).input == old(self).input,
            final(self).pos == line_comment_end(old(self).input@, old(self).pos as int),
            final(self).output@ == old(self).output@ + old(self).input@.subrange(
                old(self).pos as int,
                final(self).pos as int,
            ),
            final(self).pos > old(self).pos,
    {
        let e = scan(&self.input, self.pos, CharClass::NotNewline);
        let end = if e < self.input.len() {
            e + 1
        } else {
            e
        };
        push_range(&mut self.output, &self.input, self.pos, end);
        self.pos = end;
    }

    /// Copies a block comment, up to and with its `*/`.
    pub fn handle_block_comment(&mut self)
        requires
            old(self).wf(),
            old(self).pos + 2 <= old(self).input.len(),
        ensures
            final(self).wf(),
            final(self).input == old(self).input,
            final(self).pos == block_comment_end(old(self).input@, old(self).pos + 2),
            final(self).output@ == old(self).output@ + old(self).input@.subrange(
                old(self).pos as int,
                final(self).pos as int,
            ),
            final(self).pos >= old(self).pos + 2,
    {
        let start = self.pos;
        self.pos += 2;
        loop
            invariant_except_break
                block_comment_end(self.input@, self.pos as int) == block_comment_end(
                    self.input@,
                    start + 2,
                ),
            invariant
                start + 2 <= self.pos <= self.input.len(),
                self.input == old(self).input,
                self.output == old(self).output,
            ensures
                self.pos == block_comment_end(self.input@, start + 2),
            decreases self.input.len() - self.pos,
        {
            if self.pos >= self.input.len() || self.pos + 1 >= self.input.len() {
                break ;
            }
            if self.input[self.pos] == '*' && self.input[self.pos + 1] == '/' {
                self.pos += 2;
                break ;
            }
            self.pos += 1;
        }
        push_range(&mut self.output, &self.input, start, self.pos);
    }

    /// Copies the string literal that begins at the current offset.
    pub fn handle_string(&mut self, quote: char)
        requires
            old(self).wf(),
            old(self).pos < old(self).input.len(),
        ensures
            final(self).wf(),
            final(self).input == old(self).input,
            final(self).at() == string_body(
                old(self).input@,
                old(self).pos + 1,
                old(self).output@.push(quote),
                quote,
            ),
            final(self).pos > old(self).pos,
        decreases old(self).input.len() - old(self).pos, 0nat,
    {
        self.output.push(quote);
        self.pos += 1;
        let ghost first = self.at();
        loop
            invariant_except_break
                string_body(self.input@, self.pos as int, self.output@, quote) == string_body(
                    self.input@,
                    first.pos,
                    first.out,
                    quote,
                ),
            invariant
                self.wf(),
                self.input == old(self).input,
                self.pos > old(self).pos,
            ensures
                self.at() == string_body(self.input@, first.pos, first.out, quote),
            decreases self.input.len() - self.pos,
        {
            if self.pos >= self.input.len() {
                break ;
            }
            let ch = self.input[self.pos];
            if ch == '\\' && self.pos + 1 < self.input.len() {
                self.output.push(ch);
                self.output.push(self.input[self.pos + 1]);
                self.pos += 2;
                continue ;
            }
            if ch == quote {
                self.output.push(quote);
                self.pos += 1;
                break ;
            }
            if quote == '`' && ch == '$' && self.peek(1) == Some('{') {
                self.output.push('$');
                self.output.push('{');
                self.pos += 2;
                self.handle_interpolation();
                continue ;
            }
            self.output.push(ch);
            self.pos += 1;
        }
    }

    /// Rewrites the code of a `${ }` whose opening has just been read.
    fn handle_interpolation(&mut self)
        requires
            old(self).wf(),
            0 < old(self).pos,
        ensures
            final(self).wf(),
            final(self).input == old(self).input,
            final(self).at() == interpolation(
                old(self).input@,
                old(self).pos as int,
                old(self).output@,
                1,
            ),
            final(self).pos >= old(self).pos,
        decreases old(self).input.len() - old(self).pos, 1nat,
    {
        let mut depth: usize = 1;
        let ghost first = self.at();
        loop
            invariant_except_break
                interpolation(self.input@, self.pos as int, self.output@, depth as nat)
                    == interpolation(self.input@, first.pos, first.out, 1),
            invariant
                self.wf(),
                self.input == old(self).input,
                0 < old(self).pos <= self.pos,
                1 <= depth <= self.pos - old(self).pos + 1,
            ensures
                self.at() == interpolation(self.input@, first.pos, first.out, 1),
            decreases self.input.len() - self.pos,
        {
            if self.pos >= self.input.len() {
                break ;
            }
            proof {
                lemma_operators_at(self.input@, self.pos as int);
            }
            match self.current_state() {
                ParserState::Normal => {
                    let ch = self.input[self.pos];
                    let next = self.peek(1);
                    if ch == '{' {
                        depth += 1;
                        self.output.push(ch);
                        self.pos += 1;
                    } else if ch == '}' {
                        self.output.push(ch);
                        self.pos += 1;
                        if depth == 1 {
                            break ;
                        }
                        depth -= 1;
                    } else if ch == '?' && next == Some('.') {
                        if self.is_optional_chaining_context() {
                            self.transform_optional_chaining();
                        } else {
                            self.output.push(ch);
                            self.pos += 1;
                        }
                    } else if ch == '?' && next == Some('?') {
                        self.transform_nullish_coalescing();
                    } else {
                        self.output.push(ch);
                        self.pos += 1;
                    }
                },
                ParserState::InString(q) => {
                    self.handle_string(q);
                },
                ParserState::InLineComment => {
                    self.handle_line_comment();
                },
                ParserState::InBlockComment => {
                    self.handle_block_comment();
                },
            }
        }
    }

    /// Runs the scan to the end of the input and returns the output.
    pub fn transpile(&mut self) -> (r: String)
        requires
            old(self).wf(),
        ensures
            final(self).input == old(self).input,
            r@ == run(old(self).input@, old(self).pos as int, old(self).output@),
            r@ == final(self).output@,
    {
        self.finish();
        string_of(&self.output)
    }

    /// Runs the scan to the end of the input.
    pub fn finish(&mut self)
        requires
            old(self).wf(),
        ensures
            final(self).input == old(self).input,
            final(self).output@ == run(
                old(self).input@,
                old(self).pos as int,
                old(self).output@,
            ),
    {
        while self.pos < self.input.len()
            invariant
                self.wf(),
                self.input == old(self).input,
                run(self.input@, self.pos as int, self.output@) == run(
                    old(self).input@,
                    old(self).pos as int,
                    old(self).output@,
                ),
            decreases self.input.len() - self.pos,
        {
            match self.current_state() {
                ParserState::Normal => self.handle_normal(),
                ParserState::InString(q) => self.handle_string(q),
                ParserState::InLineComment => self.handle_line_comment(),
                ParserState::InBlockComment => self.handle_block_comment(),
            }
        }
    }
}

/// Rewrites the characters `input` for legacy engines.
pub fn downlevel_chars(input: Vec<char>) -> (out: Vec<char>)
    ensures
        out@ == downleveled(input@),
{
    let mut transpiler = Transpiler { input, output: Vec::new(), pos: 0 };
    transpiler.finish();
    transpiler.output
}

/// The length of the keyword that `obj` begins with and that is to be moved
/// out of the object of an optional chain; 0 if there is none.
fn leading_keyword(obj: &Vec<char>) -> (k: usize)
    ensures
        k == leading_keyword_len(obj@),
        k <= obj.len(),
{
    proof {
        reveal_strlit("return");
        reveal_strlit("throw");
        reveal_strlit("await");
        reveal_strlit("yield");
    }
    let k = keyword_lead(obj, "return");
    if k > 0 {
        return k;
    }
    let k = keyword_lead(obj, "throw");
    if k > 0 {
        return k;
    }
    let k = keyword_lead(obj, "await");
    if k > 0 {
        return k;
    }
    let k = keyword_lead(obj, "yield");
    if k > 0 {
        return k;
    }
    0
}

/// The length of `kw` if `obj` begins with it and white space, `(` or `{`
/// follows; 0 otherwise.
fn keyword_lead(obj: &Vec<char>, kw: &str) -> (k: usize)
    ensures
        leads_with(obj@, kw@) ==> k == kw@.len(),
        !leads_with(obj@, kw@) ==> k == 0,
        k <= obj.len(),
{
    if !starts_with_at(obj, 0, kw) {
        return 0;
    }
    let n = chars_of(kw).len();
    if n < obj.len() {
        let c = obj[n];
        if is_space(c) || c == '(' || c == '{' {
            return n;
        }
    }
    0
}

/// Rewrites `const`, `let`, optional chaining and nullish coalescing in
/// `source` for engines that do not know them. Text inside string literals
/// and comments is left as it is. The pass cannot fail.
pub fn downlevel_for_jsc(source: &str) -> (r: Result<String, TranspileError>)
    ensures
        r is Ok,
        r->Ok_0@ == downleveled(source@),
{
    let mut transpiler = Transpiler::new(source);
    Ok(transpiler.transpile())
}

} // verus!
