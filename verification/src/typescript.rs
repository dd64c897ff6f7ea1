//! TypeScript in the source: stripping it, and rejecting it in plain
//! JavaScript.
//!
//! Both passes are heuristic. They work on characters, know strings and
//! comments, and recognise type syntax by what follows a keyword, a colon or
//! a `<`. `strip_step` and `check_step` say what each pass does at one offset;
//! `stripped` and `rejection` say what it makes of a whole text.

use vstd::prelude::*;
use crate::chars::{
    alphabetic, alphanumeric, CharClass, is_letter, is_letter_or_number, is_quote, is_space,
    is_upper, quote, uppercase, whitespace,
};
use crate::error::{ErrorView, Expected, SyntaxView, TranspileError, TypeScriptSyntax};
use crate::progress::lemma_check_step_advances;
use crate::scanner::{
    braces_end, comment_end, expression_end, jsx_starts_at, lemma_braces_end, lemma_comment_end,
    lemma_expression_end, lemma_line_end, lemma_string_end, lemma_type_end, line_end, ParseContext,
    string_end, type_end,
};
use crate::text::{
    char_at, chars_of, is_text, lemma_scan_end, lemma_scan_end_moves, push_range, scan, scan_end,
    Step, string_of,
};

verus! {

/// One of the type names that TypeScript builds in.
pub open spec fn is_builtin_type(word: Seq<char>) -> bool {
    word == "string"@ || word == "number"@ || word == "boolean"@ || word == "any"@ || word
        == "void"@ || word == "unknown"@ || word == "never"@ || word == "object"@
}

/// Whether a word behind a colon is taken for a type: a built-in type name,
/// or a word that begins with an upper-case letter.
pub open spec fn looks_like_type(word: Seq<char>) -> bool {
    is_builtin_type(word) || (word.len() > 0 && uppercase(word[0]))
}

/// An access modifier that the stripping pass removes.
pub open spec fn is_modifier(word: Seq<char>) -> bool {
    word == "public"@ || word == "private"@ || word == "protected"@ || word == "readonly"@ || word
        == "abstract"@
}

/// A keyword that plain JavaScript may not hold.
pub open spec fn is_rejected_keyword(word: Seq<char>) -> bool {
    word == "interface"@ || word == "enum"@ || word == "public"@ || word == "private"@ || word
        == "protected"@ || word == "readonly"@
}

/// Whether a letter stands at `pos`.
pub open spec fn letter_at(s: Seq<char>, pos: int) -> bool {
    match char_at(s, pos) {
        Some(c) => alphabetic(c),
        None => false,
    }
}

/// The offset behind white space, an identifier and white space again.
pub open spec fn after_name(s: Seq<char>, pos: int) -> int {
    scan_end(
        s,
        scan_end(s, scan_end(s, pos, CharClass::Whitespace), CharClass::Ident),
        CharClass::Whitespace,
    )
}

pub proof fn lemma_after_name(s: Seq<char>, pos: int)
    requires
        0 <= pos <= s.len(),
    ensures
        pos <= after_name(s, pos) <= s.len(),
{
    let a = scan_end(s, pos, CharClass::Whitespace);
    let b = scan_end(s, a, CharClass::Ident);
    lemma_scan_end(s, pos, CharClass::Whitespace);
    lemma_scan_end(s, a, CharClass::Ident);
    lemma_scan_end(s, b, CharClass::Whitespace);
}

/// Whether the `type` that ends at `pos` declares an alias: a name that
/// begins with a letter follows, and `=` after it.
pub open spec fn is_alias_head(s: Seq<char>, pos: int) -> bool {
    letter_at(s, scan_end(s, pos, CharClass::Whitespace)) && char_at(s, after_name(s, pos))
        == Some('=')
}

/// `pos + 1` if `c` stands at `pos`, else `pos`.
pub open spec fn past(s: Seq<char>, pos: int, c: char) -> int {
    if char_at(s, pos) == Some(c) {
        pos + 1
    } else {
        pos
    }
}

/// Where the declaration ends whose keyword `interface` or `enum` ends at
/// `pos`: behind its name and, if a `{` follows, behind the body in braces.
pub open spec fn declaration_end(s: Seq<char>, pos: int) -> int {
    let n = after_name(s, pos);
    if char_at(s, n) == Some('{') {
        past(s, expression_end(s, n + 1, '}', 0, None), '}')
    } else {
        n
    }
}

/// Where the alias ends whose keyword `type` ends at `pos`: behind the `;`
/// that ends it.
pub open spec fn alias_end(s: Seq<char>, pos: int) -> int {
    past(s, expression_end(s, after_name(s, pos), ';', 0, None), ';')
}

/// What the stripping pass makes of the word that begins at `pos`.
///
/// `interface` and `enum` declarations and `type` aliases are dropped; `as`
/// with the type behind it becomes a space; an access modifier in front of a
/// word is dropped with the white space behind it; any other word is copied.
pub open spec fn strip_word(s: Seq<char>, pos: int, out: Seq<char>) -> Step {
    let e = scan_end(s, pos, CharClass::Ident);
    let word = s.subrange(pos, e);
    let p = scan_end(s, e, CharClass::Whitespace);
    if word == "interface"@ || word == "enum"@ {
        Step { pos: declaration_end(s, e), out }
    } else if word == "type"@ && is_alias_head(s, e) {
        Step { pos: alias_end(s, e), out }
    } else if word == "as"@ && (letter_at(s, p) || char_at(s, p) == Some('{') || char_at(s, p)
        == Some('[')) {
        Step { pos: type_end(s, p, 0, false), out: out.push(' ') }
    } else if is_modifier(word) && letter_at(s, p) {
        Step { pos: p, out }
    } else {
        Step { pos: e, out: out + word }
    }
}

/// Whether the colon at `pos` begins a type annotation: behind it and white
/// space stands a word that looks like a type, a `{` or a `[`.
pub open spec fn annotation_at(s: Seq<char>, pos: int) -> bool {
    let p = scan_end(s, pos + 1, CharClass::Whitespace);
    p < s.len() && (s[p] == '{' || s[p] == '[' || looks_like_type(
        s.subrange(p, scan_end(s, p, CharClass::Ident)),
    ))
}

/// Where the list of generic parameters ends whose `<` stands at `pos`, if
/// the type behind the `<` ends at a `>`.
pub open spec fn generic_end(s: Seq<char>, pos: int) -> Option<int> {
    let e = type_end(s, pos + 1, 0, false);
    if char_at(s, e) == Some('>') {
        Some(e + 1)
    } else {
        None
    }
}

/// Whether the `!` at `pos` is a non-null assertion: a character follows that
/// is neither alphanumeric nor `=`, `!` or white space.
pub open spec fn non_null_at(s: Seq<char>, pos: int) -> bool {
    match char_at(s, pos + 1) {
        Some(c) => !alphanumeric(c) && c != '=' && c != '!' && !whitespace(c),
        None => false,
    }
}

/// One step of the stripping pass at `pos`.
///
/// Strings and comments are copied as they stand. Type syntax is dropped or
/// replaced by one space. Everything else is copied.
pub open spec fn strip_step(s: Seq<char>, pos: int, out: Seq<char>) -> Step {
    let ch = s[pos];
    if is_quote(ch) {
        let e = string_end(s, pos + 1, ch);
        Step { pos: e, out: out + s.subrange(pos, e) }
    } else if ch == '/' && char_at(s, pos + 1) == Some('/') {
        let e = line_end(s, pos);
        Step { pos: e, out: out + s.subrange(pos, e) }
    } else if ch == '/' && char_at(s, pos + 1) == Some('*') {
        let e = comment_end(s, pos);
        Step { pos: e, out: out + s.subrange(pos, e) }
    } else if alphabetic(ch) {
        strip_word(s, pos, out)
    } else if ch == ':' && annotation_at(s, pos) {
        Step {
            pos: type_end(s, scan_end(s, pos + 1, CharClass::Whitespace), 0, false),
            out: out.push(' '),
        }
    } else if ch == '<' && !jsx_starts_at(s, pos) && generic_end(s, pos) is Some {
        Step { pos: generic_end(s, pos)->0, out: out.push(' ') }
    } else if ch == '!' && non_null_at(s, pos) {
        Step { pos: pos + 1, out }
    } else {
        Step { pos: pos + 1, out: out.push(ch) }
    }
}

/// Every step of the stripping pass moves on, stays within the text, and writes no
/// more than it reads.
pub proof fn lemma_strip_step(s: Seq<char>, pos: int, out: Seq<char>)
    requires
        0 <= pos < s.len(),
    ensures
        pos < strip_step(s, pos, out).pos <= s.len(),
        out.len() <= strip_step(s, pos, out).out.len() <= out.len() + (strip_step(
            s,
            pos,
            out,
        ).pos - pos),
{
    let ch = s[pos];
    lemma_string_end(s, pos + 1, ch);
    lemma_line_end(s, pos);
    lemma_comment_end(s, pos);
    let e = scan_end(s, pos, CharClass::Ident);
    lemma_scan_end(s, pos, CharClass::Ident);
    let p = scan_end(s, e, CharClass::Whitespace);
    lemma_scan_end(s, e, CharClass::Whitespace);
    lemma_type_end(s, p, 0, false);
    lemma_after_name(s, e);
    let n = after_name(s, e);
    if n < s.len() {
        lemma_expression_end(s, n + 1, '}', 0, None);
    }
    lemma_expression_end(s, n, ';', 0, None);
    let a = scan_end(s, pos + 1, CharClass::Whitespace);
    lemma_scan_end(s, pos + 1, CharClass::Whitespace);
    lemma_type_end(s, a, 0, false);
    lemma_type_end(s, pos + 1, 0, false);
}

/// The output of the stripping pass that stands at `pos` with `out` written.
pub open spec fn strip_run(s: Seq<char>, pos: int, out: Seq<char>) -> Seq<char>
    decreases s.len() - pos,
{
    if pos < 0 || pos >= s.len() {
        out
    } else {
        proof {
            lemma_strip_step(s, pos, out);
        }
        strip_run(s, strip_step(s, pos, out).pos, strip_step(s, pos, out).out)
    }
}

/// The text that the stripping pass makes of `source`.
pub open spec fn stripped(source: Seq<char>) -> Seq<char> {
    strip_run(source, 0, Seq::empty())
}

proof fn lemma_strip_run_len(s: Seq<char>, pos: int, out: Seq<char>)
    requires
        0 <= pos <= s.len(),
    ensures
        strip_run(s, pos, out).len() <= out.len() + (s.len() - pos),
    decreases s.len() - pos,
{
    if pos < s.len() {
        lemma_strip_step(s, pos, out);
        lemma_strip_run_len(s, strip_step(s, pos, out).pos, strip_step(s, pos, out).out);
    }
}

/// Stripping never makes a text longer.
pub proof fn lemma_stripped_len(source: Seq<char>)
    ensures
        stripped(source).len() <= source.len(),
{
    lemma_strip_run_len(source, 0, Seq::empty());
}

/// Where the value of an attribute ends that begins at `pos`: behind a quoted
/// string or a `{ }` block; anything else is no value.
pub open spec fn attr_value_end(s: Seq<char>, pos: int) -> int {
    match char_at(s, pos) {
        Some(c) => {
            if is_quote(c) {
                string_end(s, pos + 1, c)
            } else if c == '{' {
                braces_end(s, pos + 1, 1)
            } else {
                pos
            }
        },
        None => pos,
    }
}

/// Where one attribute ends that begins at `pos`: behind its name and, after
/// `=`, its value.
pub open spec fn attr_end(s: Seq<char>, pos: int) -> int {
    let w = scan_end(s, scan_end(s, pos, CharClass::AttrName), CharClass::Whitespace);
    if char_at(s, w) == Some('=') {
        attr_value_end(s, scan_end(s, w + 1, CharClass::Whitespace))
    } else {
        w
    }
}

/// Where the attributes of an element end that is only skipped: at the `>`
/// or `/` that closes the opening tag, or at the end of the text. A character
/// that begins no attribute is passed over.
pub open spec fn attrs_end(s: Seq<char>, pos: int) -> int
    decreases s.len() - pos,
{
    if pos < 0 || pos >= s.len() {
        pos
    } else if s[pos] == '>' || s[pos] == '/' {
        pos
    } else {
        let p = scan_end(s, pos, CharClass::Whitespace);
        if char_at(s, p) == Some('>') || char_at(s, p) == Some('/') {
            p
        } else {
            let v = attr_end(s, p);
            if pos < v <= s.len() {
                attrs_end(s, v)
            } else {
                attrs_end(s, pos + 1)
            }
        }
    }
}

pub proof fn lemma_attrs_end(s: Seq<char>, pos: int)
    requires
        0 <= pos <= s.len(),
    ensures
        pos <= attrs_end(s, pos) <= s.len(),
    decreases s.len() - pos,
{
    if pos >= s.len() {
    } else if s[pos] == '>' || s[pos] == '/' {
    } else {
        let p = scan_end(s, pos, CharClass::Whitespace);
        lemma_scan_end(s, pos, CharClass::Whitespace);
        if char_at(s, p) == Some('>') || char_at(s, p) == Some('/') {
        } else {
            let v = attr_end(s, p);
            if pos < v <= s.len() {
                lemma_attrs_end(s, v);
            } else {
                lemma_attrs_end(s, pos + 1);
            }
        }
    }
}

/// An error for a character other than `c` at `pos`.
pub open spec fn expected_char(c: char, pos: int) -> ErrorView {
    ErrorView::UnexpectedCharacter { expected: Expected::Char(c), position: pos }
}

/// Where the JSX element ends whose `<` stands at `pos`, when it is only
/// skipped; or why it cannot be skipped.
pub open spec fn skip_element(s: Seq<char>, pos: int) -> Result<int, ErrorView>
    decreases s.len() - pos, 0nat,
{
    if pos < 0 || char_at(s, pos) != Some('<') {
        Err(expected_char('<', pos))
    } else if char_at(s, pos + 1) == Some('>') {
        skip_children(s, pos + 2)
    } else {
        let t = scan_end(s, pos + 1, CharClass::TagName);
        let a = attrs_end(s, t);
        proof {
            lemma_scan_end(s, pos + 1, CharClass::TagName);
            lemma_attrs_end(s, t);
        }
        if char_at(s, a) == Some('/') {
            if char_at(s, a + 1) == Some('>') {
                Ok(a + 2)
            } else {
                Err(expected_char('>', a + 1))
            }
        } else if char_at(s, a) == Some('>') {
            skip_children(s, a + 1)
        } else {
            Err(expected_char('>', a))
        }
    }
}

/// Where the children of a JSX element end that are skipped from `pos` on:
/// behind the closing tag, whatever its name, or at the end of the text. A
/// nested element always ends behind its `<` (`lemma_skip_element_advances`),
/// so the test for it never fails.
pub open spec fn skip_children(s: Seq<char>, pos: int) -> Result<int, ErrorView>
    decreases s.len() - pos, 1nat,
{
    if pos < 0 || pos > s.len() {
        Ok(pos)
    } else {
        let p = scan_end(s, pos, CharClass::Whitespace);
        proof {
            lemma_scan_end(s, pos, CharClass::Whitespace);
        }
        if char_at(s, p) == Some('<') && char_at(s, p + 1) == Some('/') {
            let w = scan_end(s, scan_end(s, p + 2, CharClass::TagName), CharClass::Whitespace);
            if char_at(s, w) == Some('>') {
                Ok(w + 1)
            } else {
                Err(expected_char('>', w))
            }
        } else if char_at(s, p) == Some('<') {
            match skip_element(s, p) {
                Err(e) => Err(e),
                Ok(q) => {
                    if p < q <= s.len() {
                        skip_children(s, q)
                    } else {
                        Ok(q)
                    }
                },
            }
        } else if char_at(s, p) == Some('{') {
            proof {
                lemma_braces_end(s, p + 1, 1);
            }
            skip_children(s, braces_end(s, p + 1, 1))
        } else {
            let q = scan_end(s, p, CharClass::Text);
            proof {
                lemma_scan_end(s, p, CharClass::Text);
            }
            if q >= s.len() {
                Ok(q)
            } else {
                skip_children(s, q)
            }
        }
    }
}

/// An error for TypeScript syntax at `pos`.
pub open spec fn rejected(syntax: SyntaxView, pos: int) -> ErrorView {
    ErrorView::TypeScriptSyntaxDetected { syntax, position: pos }
}

/// What the rejection pass makes of the word that begins at `pos`: the offset
/// behind it, or the keyword that plain JavaScript may not hold. A word that
/// follows a word character is part of a longer name and passes.
pub open spec fn check_word(s: Seq<char>, pos: int) -> Result<int, ErrorView> {
    let e = scan_end(s, pos, CharClass::Ident);
    let word = s.subrange(pos, e);
    if pos > 0 && CharClass::Ident.holds(s[pos - 1]) {
        Ok(e)
    } else if word == "type"@ {
        if is_alias_head(s, e) {
            Err(rejected(SyntaxView::Keyword(word), pos))
        } else {
            Ok(e)
        }
    } else if is_rejected_keyword(word) {
        Err(rejected(SyntaxView::Keyword(word), pos))
    } else {
        Ok(e)
    }
}

/// A character that may follow the type of an annotation.
pub open spec fn ends_annotation(c: Option<char>) -> bool {
    c == Some(',') || c == Some(';') || c == Some('=') || c == Some(')') || c == Some('>') || c
        == Some('{') || c == Some('}') || c == Some('|') || c == Some('&')
}

/// Whether the rejection pass takes the colon at `pos` for a type annotation: a
/// word that looks like a type follows, and behind it one of `,;=)>{}|&`.
pub open spec fn rejected_annotation_at(s: Seq<char>, pos: int) -> bool {
    let p = scan_end(s, pos + 1, CharClass::Whitespace);
    let e = scan_end(s, p, CharClass::Ident);
    p < s.len() && looks_like_type(s.subrange(p, e)) && ends_annotation(
        char_at(s, scan_end(s, e, CharClass::Whitespace)),
    )
}

/// Whether the rejection pass takes the `<` at `pos` for generic parameters: a word
/// and `>` follow.
pub open spec fn rejected_generic_at(s: Seq<char>, pos: int) -> bool {
    let e = scan_end(s, pos + 1, CharClass::Ident);
    e > pos + 1 && char_at(s, e) == Some('>')
}

/// One step of the rejection pass at `pos`: the offset where it goes on, or the
/// error that it ends with. Strings, comments and JSX elements are passed
/// over whole.
pub open spec fn check_step(s: Seq<char>, pos: int) -> Result<int, ErrorView> {
    let ch = s[pos];
    if is_quote(ch) {
        Ok(string_end(s, pos + 1, ch))
    } else if ch == '/' && char_at(s, pos + 1) == Some('/') {
        Ok(line_end(s, pos))
    } else if ch == '/' && char_at(s, pos + 1) == Some('*') {
        Ok(comment_end(s, pos))
    } else if ch == '<' && jsx_starts_at(s, pos) {
        skip_element(s, pos)
    } else if alphabetic(ch) {
        check_word(s, pos)
    } else if ch == ':' && rejected_annotation_at(s, pos) {
        Err(rejected(SyntaxView::TypeAnnotation, pos))
    } else if ch == '<' && rejected_generic_at(s, pos) {
        Err(rejected(SyntaxView::Generic, pos))
    } else {
        Ok(pos + 1)
    }
}

/// What the rejection pass finds from `pos` on: nothing, or the first error.
pub open spec fn check_run(s: Seq<char>, pos: int) -> Result<(), ErrorView>
    decreases s.len() - pos,
{
    if pos < 0 || pos >= s.len() {
        Ok(())
    } else {
        proof {
            lemma_check_step_advances(s, pos);
        }
        match check_step(s, pos) {
            Err(e) => Err(e),
            Ok(q) => check_run(s, q),
        }
    }
}

/// Why `source` is not plain JavaScript, if it is not.
pub open spec fn rejection(source: Seq<char>) -> Result<(), ErrorView> {
    check_run(source, 0)
}

/// A result with its error seen as `ErrorView`.
pub open spec fn outcome(r: Result<(), TranspileError>) -> Result<(), ErrorView> {
    match r {
        Ok(_) => Ok(()),
        Err(e) => Err(e@),
    }
}

/// Whether an executable step ended as the specification says: at the offset
/// it gives, or with the error it gives.
pub open spec fn follows(
    r: Result<(), TranspileError>,
    pos: int,
    expected: Result<int, ErrorView>,
) -> bool {
    match expected {
        Ok(p) => r is Ok && pos == p,
        Err(e) => r is Err && r->Err_0@ == e,
    }
}

/// Whether the text `start..end` of the cursor is the word `lit`.
fn word_is(ctx: &ParseContext, start: usize, end: usize, lit: &str) -> (r: bool)
    requires
        start <= end <= ctx.source.len(),
    ensures
        r == (ctx.source@.subrange(start as int, end as int) == lit@),
{
    let w = ctx.span(start, end);
    is_text(&w, lit)
}

fn word_is_builtin_type(ctx: &ParseContext, start: usize, end: usize) -> (r: bool)
    requires
        start <= end <= ctx.source.len(),
    ensures
        r == is_builtin_type(ctx.source@.subrange(start as int, end as int)),
{
    word_is(ctx, start, end, "string") || word_is(ctx, start, end, "number") || word_is(
        ctx,
        start,
        end,
        "boolean",
    ) || word_is(ctx, start, end, "any") || word_is(ctx, start, end, "void") || word_is(
        ctx,
        start,
        end,
        "unknown",
    ) || word_is(ctx, start, end, "never") || word_is(ctx, start, end, "object")
}

fn word_looks_like_type(ctx: &ParseContext, start: usize, end: usize) -> (r: bool)
    requires
        start <= end <= ctx.source.len(),
    ensures
        r == looks_like_type(ctx.source@.subrange(start as int, end as int)),
{
    word_is_builtin_type(ctx, start, end) || (start < end && is_upper(ctx.source[start]))
}

fn word_is_modifier(ctx: &ParseContext, start: usize, end: usize) -> (r: bool)
    requires
        start <= end <= ctx.source.len(),
    ensures
        r == is_modifier(ctx.source@.subrange(start as int, end as int)),
{
    word_is(ctx, start, end, "public") || word_is(ctx, start, end, "private") || word_is(
        ctx,
        start,
        end,
        "protected",
    ) || word_is(ctx, start, end, "readonly") || word_is(ctx, start, end, "abstract")
}

fn word_is_rejected(ctx: &ParseContext, start: usize, end: usize) -> (r: bool)
    requires
        start <= end <= ctx.source.len(),
    ensures
        r == is_rejected_keyword(ctx.source@.subrange(start as int, end as int)),
{
    word_is(ctx, start, end, "interface") || word_is(ctx, start, end, "enum") || word_is(
        ctx,
        start,
        end,
        "public",
    ) || word_is(ctx, start, end, "private") || word_is(ctx, start, end, "protected") || word_is(
        ctx,
        start,
        end,
        "readonly",
    )
}

/// Whether a letter stands at offset `pos` of the cursor's text.
fn has_letter_at(ctx: &ParseContext, pos: usize) -> (r: bool)
    ensures
        r == letter_at(ctx.source@, pos as int),
{
    pos < ctx.source.len() && is_letter(ctx.source[pos])
}

/// The character at offset `pos` of the cursor's text.
fn at(ctx: &ParseContext, pos: usize) -> (r: Option<char>)
    ensures
        r == char_at(ctx.source@, pos as int),
{
    if pos < ctx.source.len() {
        Some(ctx.source[pos])
    } else {
        None
    }
}

/// The offset behind white space, an identifier and white space again.
fn skip_name(ctx: &ParseContext, pos: usize) -> (r: usize)
    requires
        pos <= ctx.source.len(),
    ensures
        r == after_name(ctx.source@, pos as int),
        pos <= r <= ctx.source.len(),
{
    let a = scan(&ctx.source, pos, CharClass::Whitespace);
    let b = scan(&ctx.source, a, CharClass::Ident);
    scan(&ctx.source, b, CharClass::Whitespace)
}

/// Whether the `type` that ends at `pos` declares an alias.
fn alias_head(ctx: &ParseContext, pos: usize) -> (r: bool)
    requires
        pos <= ctx.source.len(),
    ensures
        r == is_alias_head(ctx.source@, pos as int),
{
    let a = scan(&ctx.source, pos, CharClass::Whitespace);
    has_letter_at(ctx, a) && at(ctx, skip_name(ctx, pos)) == Some('=')
}

/// Takes one step of the stripping pass at a word.
fn strip_word_step(ctx: &mut ParseContext, out: &mut Vec<char>)
    requires
        old(ctx).wf(),
        old(ctx).pos < old(ctx).source.len(),
    ensures
        final(ctx).wf(),
        final(ctx).source == old(ctx).source,
        final(ctx).is_typescript == old(ctx).is_typescript,
        (Step { pos: final(ctx).pos as int, out: final(out)@ }) == strip_word(
            old(ctx).source@,
            old(ctx).pos as int,
            old(out)@,
        ),
{
    let start = ctx.pos;
    let e = scan(&ctx.source, start, CharClass::Ident);
    let p = scan(&ctx.source, e, CharClass::Whitespace);
    if word_is(ctx, start, e, "interface") || word_is(ctx, start, e, "enum") {
        let n = skip_name(ctx, e);
        ctx.pos = n;
        if at(ctx, n) == Some('{') {
            ctx.pos = n + 1;
            let _ = ctx.parse_js_expression('}');
            if ctx.current_char() == Some('}') {
                ctx.advance();
            }
        }
        return ;
    }
    if word_is(ctx, start, e, "type") && alias_head(ctx, e) {
        ctx.pos = skip_name(ctx, e);
        let _ = ctx.parse_js_expression(';');
        if ctx.current_char() == Some(';') {
            ctx.advance();
        }
        return ;
    }
    if word_is(ctx, start, e, "as") && (has_letter_at(ctx, p) || at(ctx, p) == Some('{') || at(
        ctx,
        p,
    ) == Some('[')) {
        ctx.pos = p;
        ctx.skip_type_at_pos();
        out.push(' ');
        return ;
    }
    if word_is_modifier(ctx, start, e) && has_letter_at(ctx, p) {
        ctx.pos = p;
        return ;
    }
    push_range(out, &ctx.source, start, e);
    ctx.pos = e;
}

/// Takes one step of the stripping pass.
fn strip_one(ctx: &mut ParseContext, out: &mut Vec<char>)
    requires
        old(ctx).wf(),
        old(ctx).pos < old(ctx).source.len(),
    ensures
        final(ctx).wf(),
        final(ctx).source == old(ctx).source,
        final(ctx).is_typescript == old(ctx).is_typescript,
        (Step { pos: final(ctx).pos as int, out: final(out)@ }) == strip_step(
            old(ctx).source@,
            old(ctx).pos as int,
            old(out)@,
        ),
{
    let start = ctx.pos;
    let ch = ctx.source[start];
    let next = ctx.peek(1);
    if quote(ch) {
        ctx.pos = start + 1;
        ctx.skip_string(ch);
        push_range(out, &ctx.source, start, ctx.pos);
        return ;
    }
    if ch == '/' && next == Some('/') {
        ctx.skip_line();
        push_range(out, &ctx.source, start, ctx.pos);
        return ;
    }
    if ch == '/' && next == Some('*') {
        ctx.skip_comment();
        push_range(out, &ctx.source, start, ctx.pos);
        return ;
    }
    if is_letter(ch) {
        strip_word_step(ctx, out);
        return ;
    }
    if ch == ':' {
        let p = scan(&ctx.source, start + 1, CharClass::Whitespace);
        if p < ctx.source.len() {
            let e = scan(&ctx.source, p, CharClass::Ident);
            let opener = ctx.source[p] == '{' || ctx.source[p] == '[';
            if opener || word_looks_like_type(ctx, p, e) {
                ctx.pos = p;
                ctx.skip_type_at_pos();
                out.push(' ');
                return ;
            }
        }
    }
    if ch == '<' && !ctx.is_jsx_start() {
        ctx.pos = start + 1;
        ctx.skip_type_at_pos();
        if ctx.current_char() == Some('>') {
            ctx.advance();
            out.push(' ');
            return ;
        }
        ctx.pos = start;
    }
    if ch == '!' {
        match next {
            Some(c) => {
                if !is_letter_or_number(c) && c != '=' && c != '!' && !is_space(c) {
                    ctx.pos = start + 1;
                    return ;
                }
            },
            None => {},
        }
    }
    out.push(ch);
    ctx.pos = start + 1;
}

/// Strips the type syntax from `source`.
pub fn strip_chars(source: Vec<char>) -> (out: Vec<char>)
    ensures
        out@ == stripped(source@),
        out.len() <= source.len(),
{
    let ghost s = source@;
    let mut ctx = ParseContext::over(source, true);
    let mut out: Vec<char> = Vec::new();
    while ctx.pos < ctx.source.len()
        invariant
            ctx.wf(),
            ctx.source@ == s,
            strip_run(s, ctx.pos as int, out@) == stripped(s),
        decreases ctx.source.len() - ctx.pos,
    {
        proof {
            lemma_strip_step(s, ctx.pos as int, out@);
        }
        strip_one(&mut ctx, &mut out);
    }
    proof {
        lemma_stripped_len(s);
    }
    out
}

/// Removes TypeScript syntax from `source`: `interface`, `enum` and `type`
/// declarations, `as` casts, access modifiers, type annotations, generic
/// parameters and non-null assertions. Strings and comments are left as they
/// are. The pass cannot fail.
pub fn strip_typescript(source: &str) -> (r: Result<String, TranspileError>)
    ensures
        r is Ok,
        r->Ok_0@ == stripped(source@),
{
    let out = strip_chars(chars_of(source));
    Ok(string_of(&out))
}

/// Moves the cursor behind the attributes of an element that is skipped.
fn skip_attrs(ctx: &mut ParseContext)
    requires
        old(ctx).wf(),
        0 < old(ctx).pos,
    ensures
        final(ctx).wf(),
        final(ctx).source == old(ctx).source,
        final(ctx).is_typescript == old(ctx).is_typescript,
        final(ctx).pos == attrs_end(old(ctx).source@, old(ctx).pos as int),
        final(ctx).pos >= old(ctx).pos,
{
    loop
        invariant_except_break
            attrs_end(ctx.source@, ctx.pos as int) == attrs_end(
                old(ctx).source@,
                old(ctx).pos as int,
            ),
        invariant
            ctx.wf(),
            ctx.source == old(ctx).source,
            ctx.is_typescript == old(ctx).is_typescript,
            0 < old(ctx).pos <= ctx.pos,
        ensures
            ctx.pos == attrs_end(old(ctx).source@, old(ctx).pos as int),
        decreases ctx.source.len() - ctx.pos,
    {
        let here = ctx.pos;
        if here >= ctx.source.len() {
            break ;
        }
        let c = ctx.source[here];
        if c == '>' || c == '/' {
            break ;
        }
        ctx.skip_whitespace();
        let d = ctx.current_char();
        if d == Some('>') || d == Some('/') {
            break ;
        }
        ctx.skip_class(CharClass::AttrName);
        ctx.skip_whitespace();
        if ctx.current_char() == Some('=') {
            ctx.advance();
            ctx.skip_whitespace();
            match ctx.current_char() {
                Some(v) => {
                    if quote(v) {
                        ctx.advance();
                        ctx.skip_string(v);
                    } else if v == '{' {
                        ctx.advance();
                        ctx.skip_braces();
                    }
                },
                None => {},
            }
        }
        if ctx.pos == here {
            ctx.pos = here + 1;
        }
    }
}

/// Moves the cursor behind the JSX element whose `<` it stands at.
pub fn skip_jsx_element(ctx: &mut ParseContext) -> (r: Result<(), TranspileError>)
    requires
        old(ctx).wf(),
    ensures
        final(ctx).wf(),
        final(ctx).source == old(ctx).source,
        final(ctx).is_typescript == old(ctx).is_typescript,
        follows(r, final(ctx).pos as int, skip_element(old(ctx).source@, old(ctx).pos as int)),
        r is Ok ==> final(ctx).pos > old(ctx).pos,
    decreases old(ctx).source.len() - old(ctx).pos, 0nat,
{
    match ctx.consume('<') {
        Err(e) => {
            return Err(e);
        },
        Ok(_) => {},
    }
    if ctx.current_char() == Some('>') {
        ctx.advance();
        return skip_jsx_children(ctx);
    }
    ctx.skip_class(CharClass::TagName);
    skip_attrs(ctx);
    if ctx.current_char() == Some('/') {
        ctx.advance();
        return ctx.consume('>');
    }
    match ctx.consume('>') {
        Err(e) => {
            return Err(e);
        },
        Ok(_) => {},
    }
    skip_jsx_children(ctx)
}

/// Moves the cursor behind the children of a JSX element and its closing
/// tag.
pub fn skip_jsx_children(ctx: &mut ParseContext) -> (r: Result<(), TranspileError>)
    requires
        old(ctx).wf(),
    ensures
        final(ctx).wf(),
        final(ctx).source == old(ctx).source,
        final(ctx).is_typescript == old(ctx).is_typescript,
        follows(r, final(ctx).pos as int, skip_children(old(ctx).source@, old(ctx).pos as int)),
        r is Ok ==> final(ctx).pos >= old(ctx).pos,
    decreases old(ctx).source.len() - old(ctx).pos, 1nat,
{
    loop
        invariant_except_break
            skip_children(ctx.source@, ctx.pos as int) == skip_children(
                old(ctx).source@,
                old(ctx).pos as int,
            ),
        invariant
            ctx.wf(),
            ctx.source == old(ctx).source,
            ctx.is_typescript == old(ctx).is_typescript,
            ctx.pos >= old(ctx).pos,
        ensures
            skip_children(old(ctx).source@, old(ctx).pos as int) == Ok::<int, ErrorView>(
                ctx.pos as int,
            ),
        decreases ctx.source.len() - ctx.pos,
    {
        ctx.skip_whitespace();
        let c = ctx.current_char();
        if c == Some('<') && ctx.peek(1) == Some('/') {
            ctx.advance_by(2);
            ctx.skip_class(CharClass::TagName);
            ctx.skip_whitespace();
            match ctx.consume('>') {
                Err(e) => {
                    return Err(e);
                },
                Ok(_) => {},
            }
            break ;
        }
        if c == Some('<') {
            match skip_jsx_element(ctx) {
                Err(e) => {
                    return Err(e);
                },
                Ok(_) => {},
            }
            continue ;
        }
        if c == Some('{') {
            ctx.advance();
            ctx.skip_braces();
            continue ;
        }
        proof {
            lemma_scan_end_moves(ctx.source@, ctx.pos as int, CharClass::Text);
        }
        ctx.skip_class(CharClass::Text);
        if ctx.pos >= ctx.source.len() {
            break ;
        }
    }
    Ok(())
}

/// Takes one step of the rejection pass at a word.
fn check_word_step(ctx: &mut ParseContext) -> (r: Result<(), TranspileError>)
    requires
        old(ctx).wf(),
        old(ctx).pos < old(ctx).source.len(),
    ensures
        final(ctx).wf(),
        final(ctx).source == old(ctx).source,
        final(ctx).is_typescript == old(ctx).is_typescript,
        follows(r, final(ctx).pos as int, check_word(old(ctx).source@, old(ctx).pos as int)),
{
    let start = ctx.pos;
    let e = scan(&ctx.source, start, CharClass::Ident);
    if start > 0 && CharClass::Ident.test(ctx.source[start - 1]) {
        ctx.pos = e;
        return Ok(());
    }
    let rejected = if word_is(ctx, start, e, "type") {
        alias_head(ctx, e)
    } else {
        word_is_rejected(ctx, start, e)
    };
    if rejected {
        return Err(
            TranspileError::TypeScriptSyntaxDetected {
                syntax: TypeScriptSyntax::Keyword(ctx.slice(start, e)),
                position: start,
            },
        );
    }
    ctx.pos = e;
    Ok(())
}

/// Takes one step of the rejection pass.
fn check_one(ctx: &mut ParseContext) -> (r: Result<(), TranspileError>)
    requires
        old(ctx).wf(),
        old(ctx).pos < old(ctx).source.len(),
    ensures
        final(ctx).wf(),
        final(ctx).source == old(ctx).source,
        final(ctx).is_typescript == old(ctx).is_typescript,
        follows(r, final(ctx).pos as int, check_step(old(ctx).source@, old(ctx).pos as int)),
{
    let start = ctx.pos;
    let ch = ctx.source[start];
    let next = ctx.peek(1);
    if quote(ch) {
        ctx.pos = start + 1;
        ctx.skip_string(ch);
        return Ok(());
    }
    if ch == '/' && next == Some('/') {
        ctx.skip_line();
        return Ok(());
    }
    if ch == '/' && next == Some('*') {
        ctx.skip_comment();
        return Ok(());
    }
    if ch == '<' && ctx.is_jsx_start() {
        return skip_jsx_element(ctx);
    }
    if is_letter(ch) {
        return check_word_step(ctx);
    }
    if ch == ':' {
        let p = scan(&ctx.source, start + 1, CharClass::Whitespace);
        if p < ctx.source.len() {
            let e = scan(&ctx.source, p, CharClass::Ident);
            let q = scan(&ctx.source, e, CharClass::Whitespace);
            let t = at(ctx, q);
            let terminated = t == Some(',') || t == Some(';') || t == Some('=') || t == Some(')')
                || t == Some('>') || t == Some('{') || t == Some('}') || t == Some('|') || t
                == Some('&');
            if word_looks_like_type(ctx, p, e) && terminated {
                return Err(
                    TranspileError::TypeScriptSyntaxDetected {
                        syntax: TypeScriptSyntax::TypeAnnotation,
                        position: start,
                    },
                );
            }
        }
    }
    if ch == '<' {
        let e = scan(&ctx.source, start + 1, CharClass::Ident);
        if e > start + 1 && at(ctx, e) == Some('>') {
            return Err(
                TranspileError::TypeScriptSyntaxDetected {
                    syntax: TypeScriptSyntax::Generic,
                    position: start,
                },
            );
        }
    }
    ctx.pos = start + 1;
    Ok(())
}

/// Looks for TypeScript syntax in the characters `source`.
pub fn check_chars(source: Vec<char>) -> (r: Result<(), TranspileError>)
    ensures
        outcome(r) == rejection(source@),
{
    let ghost s = source@;
    let mut ctx = ParseContext::over(source, false);
    while ctx.pos < ctx.source.len()
        invariant
            ctx.wf(),
            ctx.source@ == s,
            s == source@,
            check_run(s, ctx.pos as int) == rejection(s),
        decreases ctx.source.len() - ctx.pos,
    {
        proof {
            lemma_check_step_advances(s, ctx.pos as int);
        }
        match check_one(&mut ctx) {
            Err(e) => {
                return Err(e);
            },
            Ok(_) => {},
        }
    }
    Ok(())
}

/// Rejects TypeScript syntax in plain JavaScript: fails with
/// `TypeScriptSyntaxDetected` at the first `interface`, `enum`, `type` alias,
/// access modifier, type annotation or list of generic parameters outside
/// strings, comments and JSX elements. A JSX element that cannot be skipped
/// fails with `UnexpectedCharacter`.
pub fn check_for_typescript_syntax(source: &str) -> (r: Result<(), TranspileError>)
    ensures
        outcome(r) == rejection(source@),
{
    check_chars(chars_of(source))
}

} // verus!
