//! What holds of the rewriting for legacy engines, whatever the input.

use vstd::prelude::*;
use crate::chars::CharClass;
use crate::text::{contains_text, copied, lemma_copied_push, lemma_scan_end, Step};
use crate::downlevel::{
    block_comment_end, downleveled, interpolation, keyword_at, lemma_block_comment_end, lex_state,
    line_comment_end, ParserState, run, step, string_body,
};

verus! {

/// A text that holds none of the constructs that the pass rewrites: no `?.`,
/// no `??`, and neither `const` nor `let` as a word of its own. The letters
/// of the two may stand inside a longer name, as in `constant`.
pub open spec fn is_plain(source: Seq<char>) -> bool {
    &&& !contains_text(source, "?."@)
    &&& !contains_text(source, "??"@)
    &&& forall|i: int| !#[trigger] keyword_at(source, i, "const"@)
    &&& forall|i: int| !#[trigger] keyword_at(source, i, "let"@)
}

/// A line comment is copied as it stands.
pub proof fn lemma_line_comment_copied(input: Seq<char>, pos: int)
    requires
        0 <= pos < input.len(),
    ensures
        pos < line_comment_end(input, pos) <= input.len(),
{
    lemma_scan_end(input, pos, CharClass::NotNewline);
}

/// In a text without `?.` and `??`, a string literal is copied as it stands,
/// whatever its quote, and so is the code of a `${ }` in it.
pub proof fn lemma_string_plain(input: Seq<char>, pos: int, out: Seq<char>, quote: char)
    requires
        0 <= pos <= input.len(),
        !contains_text(input, "?."@),
        !contains_text(input, "??"@),
    ensures
        copied(input, pos, out, string_body(input, pos, out, quote)),
    decreases input.len() - pos, 0nat,
{
    if pos >= input.len() {
    } else if input[pos] == '\\' && pos + 1 < input.len() {
        let o = out.push('\\').push(input[pos + 1]);
        lemma_string_plain(input, pos + 2, o, quote);
        assert(o =~= out + input.subrange(pos, pos + 2));
        lemma_copied_push(input, pos, out, string_body(input, pos + 2, o, quote), 2);
    } else if input[pos] == quote {
        assert(out.push(quote) =~= out + input.subrange(pos, pos + 1));
    } else if quote == '`' && input[pos] == '$' && crate::text::char_at(input, pos + 1) == Some(
        '{',
    ) {
        let o = out.push('$').push('{');
        lemma_interpolation_plain(input, pos + 2, o, 1);
        let st = interpolation(input, pos + 2, o, 1);
        assert(o =~= out + input.subrange(pos, pos + 2));
        lemma_copied_push(input, pos, out, st, 2);
        lemma_string_plain(input, st.pos, st.out, quote);
        lemma_copied_push(
            input,
            pos,
            out,
            string_body(input, st.pos, st.out, quote),
            st.pos - pos,
        );
    } else {
        let o = out.push(input[pos]);
        lemma_string_plain(input, pos + 1, o, quote);
        assert(o =~= out + input.subrange(pos, pos + 1));
        lemma_copied_push(input, pos, out, string_body(input, pos + 1, o, quote), 1);
    }
}

/// In a text without `?.` and `??`, the code of a `${ }` is copied as it
/// stands.
pub proof fn lemma_interpolation_plain(input: Seq<char>, pos: int, out: Seq<char>, depth: nat)
    requires
        0 <= pos <= input.len(),
        !contains_text(input, "?."@),
        !contains_text(input, "??"@),
    ensures
        copied(input, pos, out, interpolation(input, pos, out, depth)),
    decreases input.len() - pos, 1nat,
{
    if pos >= input.len() {
    } else {
        let st = match lex_state(input, pos) {
            ParserState::Normal => Step { pos: pos + 1, out: out.push(input[pos]) },
            ParserState::InString(q) => string_body(input, pos + 1, out.push(q), q),
            ParserState::InLineComment => {
                let end = line_comment_end(input, pos);
                Step { pos: end, out: out + input.subrange(pos, end) }
            },
            ParserState::InBlockComment => {
                let end = block_comment_end(input, pos + 2);
                Step { pos: end, out: out + input.subrange(pos, end) }
            },
        };
        assert(copied(input, pos, out, st) && pos < st.pos) by {
            match lex_state(input, pos) {
                ParserState::Normal => {
                    assert(out.push(input[pos]) =~= out + input.subrange(pos, pos + 1));
                },
                ParserState::InString(q) => {
                    lemma_string_plain(input, pos + 1, out.push(q), q);
                    assert(out.push(q) =~= out + input.subrange(pos, pos + 1));
                    lemma_copied_push(input, pos, out, st, 1);
                },
                ParserState::InLineComment => {
                    lemma_line_comment_copied(input, pos);
                },
                ParserState::InBlockComment => {
                    lemma_block_comment_end(input, pos + 2);
                },
            }
        }
        let closes = lex_state(input, pos) is Normal && input[pos] == '}';
        let opens = lex_state(input, pos) is Normal && input[pos] == '{';
        if closes && depth <= 1 {
        } else {
            let d: nat = if closes {
                (depth - 1) as nat
            } else if opens {
                depth + 1
            } else {
                depth
            };
            lemma_interpolation_plain(input, st.pos, st.out, d);
            lemma_copied_push(
                input,
                pos,
                out,
                interpolation(input, st.pos, st.out, d),
                st.pos - pos,
            );
        }
    }
}

/// In a plain text every step of the scan copies what it passes over.
pub proof fn lemma_step_plain(input: Seq<char>, pos: int, out: Seq<char>)
    requires
        0 <= pos < input.len(),
        is_plain(input),
    ensures
        copied(input, pos, out, step(input, pos, out)),
        pos < step(input, pos, out).pos,
{
    match lex_state(input, pos) {
        ParserState::Normal => {
            assert(out.push(input[pos]) =~= out + input.subrange(pos, pos + 1));
        },
        ParserState::InString(q) => {
            lemma_string_plain(input, pos + 1, out.push(q), q);
            assert(out.push(q) =~= out + input.subrange(pos, pos + 1));
            lemma_copied_push(input, pos, out, step(input, pos, out), 1);
        },
        ParserState::InLineComment => {
            lemma_line_comment_copied(input, pos);
        },
        ParserState::InBlockComment => {
            lemma_block_comment_end(input, pos + 2);
        },
    }
}

/// In a plain text the scan from `pos` appends the rest of the text.
pub proof fn lemma_run_plain(input: Seq<char>, pos: int, out: Seq<char>)
    requires
        0 <= pos <= input.len(),
        is_plain(input),
    ensures
        run(input, pos, out) == out + input.subrange(pos, input.len() as int),
    decreases input.len() - pos,
{
    if pos >= input.len() {
    } else {
        lemma_step_plain(input, pos, out);
        let st = step(input, pos, out);
        lemma_run_plain(input, st.pos, st.out);
    }
}

/// The pass changes nothing in a text that holds no `?.`, no `??`, and
/// neither `const` nor `let` as a word: on such a text it is the identity,
/// so running it again on its own output, once that is free of them, changes
/// nothing either.
pub proof fn lemma_downlevel_plain_is_identity(source: Seq<char>)
    requires
        is_plain(source),
    ensures
        downleveled(source) == source,
{
    lemma_run_plain(source, 0, Seq::empty());
}

/// The body of a string literal in single or double quotes is copied as it
/// stands, whatever it holds: the scan resumes behind it with the literal
/// appended to the output.
pub proof fn lemma_quoted_string_opaque(input: Seq<char>, pos: int, out: Seq<char>, quote: char)
    requires
        0 <= pos <= input.len(),
        quote != '`',
    ensures
        copied(input, pos, out, string_body(input, pos, out, quote)),
    decreases input.len() - pos,
{
    if pos >= input.len() {
    } else if input[pos] == '\\' && pos + 1 < input.len() {
        let o = out.push('\\').push(input[pos + 1]);
        lemma_quoted_string_opaque(input, pos + 2, o, quote);
        assert(o =~= out + input.subrange(pos, pos + 2));
        lemma_copied_push(input, pos, out, string_body(input, pos + 2, o, quote), 2);
    } else if input[pos] == quote {
        assert(out.push(quote) =~= out + input.subrange(pos, pos + 1));
    } else {
        let o = out.push(input[pos]);
        lemma_quoted_string_opaque(input, pos + 1, o, quote);
        assert(o =~= out + input.subrange(pos, pos + 1));
        lemma_copied_push(input, pos, out, string_body(input, pos + 1, o, quote), 1);
    }
}

/// Strings and comments are opaque to the pass. Where a comment or a string
/// literal in single or double quotes begins, the step of the scan copies it
/// to the output unchanged, whatever it holds, and the scan goes on behind
/// it.
pub proof fn lemma_downlevel_opaque(input: Seq<char>, pos: int, out: Seq<char>)
    requires
        0 <= pos < input.len(),
        lex_state(input, pos) is InLineComment || lex_state(input, pos) is InBlockComment
            || lex_state(input, pos) == ParserState::InString('"') || lex_state(input, pos)
            == ParserState::InString('\''),
    ensures
        copied(input, pos, out, step(input, pos, out)),
        pos < step(input, pos, out).pos,
        run(input, pos, out) == run(
            input,
            step(input, pos, out).pos,
            out + input.subrange(pos, step(input, pos, out).pos),
        ),
{
    match lex_state(input, pos) {
        ParserState::Normal => {},
        ParserState::InString(q) => {
            lemma_quoted_string_opaque(input, pos + 1, out.push(q), q);
            assert(out.push(q) =~= out + input.subrange(pos, pos + 1));
            lemma_copied_push(input, pos, out, step(input, pos, out), 1);
        },
        ParserState::InLineComment => {
            lemma_line_comment_copied(input, pos);
        },
        ParserState::InBlockComment => {
            lemma_block_comment_end(input, pos + 2);
        },
    }
}

} // verus!
