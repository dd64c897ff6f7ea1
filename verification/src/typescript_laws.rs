//! What holds of the stripping and of the rejection of TypeScript, whatever the input.

use vstd::prelude::*;
use crate::chars::is_quote;
use crate::error::ErrorView;
use crate::scanner::{
    comment_end, lemma_comment_end, lemma_line_end, lemma_string_end, line_end, string_end,
};
use crate::text::{char_at, copied, Step};
use crate::typescript::{check_run, check_step, lemma_strip_step, strip_run, strip_step};

verus! {

/// Whether a string literal or a comment begins at `pos`.
pub open spec fn opaque_at(s: Seq<char>, pos: int) -> bool {
    0 <= pos < s.len() && (is_quote(s[pos]) || (s[pos] == '/' && (char_at(s, pos + 1) == Some('/')
        || char_at(s, pos + 1) == Some('*'))))
}

/// Where the string literal or comment ends that begins at `pos`.
pub open spec fn opaque_end(s: Seq<char>, pos: int) -> int {
    if is_quote(s[pos]) {
        string_end(s, pos + 1, s[pos])
    } else if char_at(s, pos + 1) == Some('/') {
        line_end(s, pos)
    } else {
        comment_end(s, pos)
    }
}

/// A string literal or a comment ends behind its first character, within the
/// text.
pub proof fn lemma_opaque_end(s: Seq<char>, pos: int)
    requires
        opaque_at(s, pos),
    ensures
        pos < opaque_end(s, pos) <= s.len(),
{
    lemma_string_end(s, pos + 1, s[pos]);
    lemma_line_end(s, pos);
    lemma_comment_end(s, pos);
}

/// Strings and comments are opaque to the stripping pass: where one begins, the
/// step copies it to the output unchanged, whatever it holds, and the pass
/// goes on behind it.
pub proof fn lemma_strip_opaque(s: Seq<char>, pos: int, out: Seq<char>)
    requires
        opaque_at(s, pos),
    ensures
        strip_step(s, pos, out) == (Step {
            pos: opaque_end(s, pos),
            out: out + s.subrange(pos, opaque_end(s, pos)),
        }),
        copied(s, pos, out, strip_step(s, pos, out)),
        strip_run(s, pos, out) == strip_run(
            s,
            opaque_end(s, pos),
            out + s.subrange(pos, opaque_end(s, pos)),
        ),
{
    lemma_opaque_end(s, pos);
    lemma_strip_step(s, pos, out);
}

/// Strings and comments are opaque to the rejection pass: where one begins, the
/// step finds no error, whatever it holds, and the check goes on behind it.
pub proof fn lemma_check_opaque(s: Seq<char>, pos: int)
    requires
        opaque_at(s, pos),
    ensures
        check_step(s, pos) == Ok::<int, ErrorView>(opaque_end(s, pos)),
        check_run(s, pos) == check_run(s, opaque_end(s, pos)),
{
    lemma_opaque_end(s, pos);
}

} // verus!
