//! Every step of every pass moves forward and stays within the text.
//!
//! The passes are defined by recursion over the offset, and where a step is
//! itself defined by recursion the definitions test that it moved forward
//! before they go on. The lemmas of this module show that the test never
//! fails: the branch that it guards is always taken.

use vstd::prelude::*;
use crate::chars::CharClass;
use crate::downlevel::{
    block_comment_end, chain_context, interpolation, lemma_balanced_end, lemma_block_comment_end,
    lex_state, line_comment_end, nullish, optional_chain, ParserState, step, string_body,
};
use crate::jsx_parser::{
    children, code_step, element, literal, props, quoted, quoted_value, transpiled,
};
use crate::metadata::BindingView;
use crate::modules::{
    export_declaration, export_default, export_list, from_part, import_statement, module_part,
};
use crate::scanner::{
    braces_end, expression_end, forward, jsx_starts_at, lemma_braces_end, lemma_closing_quote,
    lemma_comment_end, lemma_expression_end, lemma_line_end, lemma_string_end,
};
use crate::text::{
    char_at, has_prefix_at, lemma_scan_end, lemma_scan_end_moves, scan_end, Step, trim,
};
use crate::typescript::{attrs_end, check_step, lemma_attrs_end, skip_children, skip_element};

verus! {

/// The rewrite of an optional chain ends behind its `?.`, within the text.
pub proof fn lemma_optional_chain_advances(input: Seq<char>, pos: int, out: Seq<char>)
    requires
        has_prefix_at(input, pos, "?."@),
    ensures
        pos + 2 <= optional_chain(input, pos, out).pos <= input.len(),
{
    reveal_strlit("?.");
    if pos + 3 <= input.len() {
        lemma_balanced_end(input, pos + 3, '[', ']', 1);
        lemma_balanced_end(input, pos + 3, '(', ')', 1);
    }
    lemma_scan_end(input, pos + 2, CharClass::Ident);
}

/// The rewrite of a `??` ends behind it, within the text.
pub proof fn lemma_nullish_advances(input: Seq<char>, pos: int, out: Seq<char>)
    requires
        has_prefix_at(input, pos, "??"@),
    ensures
        pos + 2 <= nullish(input, pos, out).pos <= input.len(),
{
    reveal_strlit("??");
    lemma_scan_end(input, pos + 2, CharClass::Operand);
}

/// The scan inside a string literal never goes back and stays within the
/// text.
pub proof fn lemma_string_body_bounds(input: Seq<char>, pos: int, out: Seq<char>, quote: char)
    requires
        0 <= pos <= input.len(),
    ensures
        pos <= string_body(input, pos, out, quote).pos <= input.len(),
    decreases input.len() - pos, 0nat,
{
    if pos >= input.len() {
    } else if input[pos] == '\\' && pos + 1 < input.len() {
        lemma_string_body_bounds(input, pos + 2, out.push('\\').push(input[pos + 1]), quote);
    } else if input[pos] == quote {
    } else if quote == '`' && input[pos] == '$' && char_at(input, pos + 1) == Some(
        '{',
    ) {
        let o = out.push('$').push('{');
        lemma_interpolation_bounds(input, pos + 2, o, 1);
        let st = interpolation(input, pos + 2, o, 1);
        lemma_string_body_bounds(input, st.pos, st.out, quote);
    } else {
        lemma_string_body_bounds(input, pos + 1, out.push(input[pos]), quote);
    }
}

/// The scan inside a `${ }` never goes back and stays within the text.
pub proof fn lemma_interpolation_bounds(input: Seq<char>, pos: int, out: Seq<char>, depth: nat)
    requires
        0 <= pos <= input.len(),
    ensures
        pos <= interpolation(input, pos, out, depth).pos <= input.len(),
    decreases input.len() - pos, 1nat,
{
    if pos < input.len() {
        let st = match lex_state(input, pos) {
            ParserState::Normal => {
                if input[pos] == '{' {
                    Step { pos: pos + 1, out: out.push('{') }
                } else if input[pos] == '}' {
                    Step { pos: pos + 1, out: out.push('}') }
                } else if has_prefix_at(input, pos, "?."@) {
                    if chain_context(input, pos) {
                        optional_chain(input, pos, out)
                    } else {
                        Step { pos: pos + 1, out: out.push('?') }
                    }
                } else if has_prefix_at(input, pos, "??"@) {
                    nullish(input, pos, out)
                } else {
                    Step { pos: pos + 1, out: out.push(input[pos]) }
                }
            },
            ParserState::InString(q) => string_body(input, pos + 1, out.push(q), q),
            ParserState::InLineComment => {
                let end = line_comment_end(input, pos);
                Step { pos: end, out: out + input.subrange(pos, end) }
            },
            ParserState::InBlockComment => {
                let end = block_comment_end(input, pos + 2);
                Step { pos: end, out: out + input.subrange(pos, end) }
            },
        };
        assert(pos < st.pos <= input.len()) by {
            match lex_state(input, pos) {
                ParserState::Normal => {
                    if has_prefix_at(input, pos, "?."@) {
                        lemma_optional_chain_advances(input, pos, out);
                    }
                    if has_prefix_at(input, pos, "??"@) {
                        lemma_nullish_advances(input, pos, out);
                    }
                },
                ParserState::InString(q) => {
                    lemma_string_body_bounds(input, pos + 1, out.push(q), q);
                },
                ParserState::InLineComment => {
                    lemma_scan_end(input, pos, CharClass::NotNewline);
                },
                ParserState::InBlockComment => {
                    lemma_block_comment_end(input, pos + 2);
                },
            }
        }
        let closes = lex_state(input, pos) is Normal && input[pos] == '}';
        let opens = lex_state(input, pos) is Normal && input[pos] == '{';
        if !(closes && depth <= 1) {
            let d: nat = if closes {
                (depth - 1) as nat
            } else if opens {
                depth + 1
            } else {
                depth
            };
            lemma_interpolation_bounds(input, st.pos, st.out, d);
        }
    }
}

/// Every step of the rewriting for legacy engines moves forward and stays
/// within the text.
pub proof fn lemma_downlevel_step_advances(input: Seq<char>, pos: int, out: Seq<char>)
    requires
        0 <= pos < input.len(),
    ensures
        pos < step(input, pos, out).pos <= input.len(),
{
    match lex_state(input, pos) {
        ParserState::Normal => {
            reveal_strlit("const");
            reveal_strlit("let");
            if has_prefix_at(input, pos, "?."@) {
                lemma_optional_chain_advances(input, pos, out);
            }
            if has_prefix_at(input, pos, "??"@) {
                lemma_nullish_advances(input, pos, out);
            }
        },
        ParserState::InString(q) => {
            lemma_string_body_bounds(input, pos + 1, out.push(q), q);
        },
        ParserState::InLineComment => {
            lemma_scan_end(input, pos, CharClass::NotNewline);
        },
        ParserState::InBlockComment => {
            lemma_block_comment_end(input, pos + 2);
        },
    }
}

/// An element that is skipped ends behind its `<`, within the text.
pub proof fn lemma_skip_element_advances(s: Seq<char>, pos: int)
    requires
        0 <= pos <= s.len(),
    ensures
        skip_element(s, pos) matches Ok(q) ==> pos < q <= s.len(),
    decreases s.len() - pos, 0nat,
{
    if char_at(s, pos) != Some('<') {
    } else if char_at(s, pos + 1) == Some('>') {
        lemma_skip_children_bounds(s, pos + 2);
    } else {
        let t = scan_end(s, pos + 1, CharClass::TagName);
        lemma_scan_end(s, pos + 1, CharClass::TagName);
        lemma_attrs_end(s, t);
        let a = attrs_end(s, t);
        if char_at(s, a) == Some('>') {
            lemma_skip_children_bounds(s, a + 1);
        }
    }
}

/// The children of an element that is skipped end within the text, not
/// before they begin.
pub proof fn lemma_skip_children_bounds(s: Seq<char>, pos: int)
    requires
        0 <= pos <= s.len(),
    ensures
        skip_children(s, pos) matches Ok(q) ==> pos <= q <= s.len(),
    decreases s.len() - pos, 1nat,
{
    let p = scan_end(s, pos, CharClass::Whitespace);
    lemma_scan_end(s, pos, CharClass::Whitespace);
    if char_at(s, p) == Some('<') && char_at(s, p + 1) == Some('/') {
        let n = scan_end(s, p + 2, CharClass::TagName);
        lemma_scan_end(s, p + 2, CharClass::TagName);
        lemma_scan_end(s, n, CharClass::Whitespace);
    } else if char_at(s, p) == Some('<') {
        lemma_skip_element_advances(s, p);
        match skip_element(s, p) {
            Ok(q) => {
                lemma_skip_children_bounds(s, q);
            },
            Err(_) => {},
        }
    } else if char_at(s, p) == Some('{') {
        lemma_braces_end(s, p + 1, 1);
        lemma_skip_children_bounds(s, braces_end(s, p + 1, 1));
    } else {
        let q = scan_end(s, p, CharClass::Text);
        lemma_scan_end(s, p, CharClass::Text);
        lemma_scan_end_moves(s, p, CharClass::Text);
        if q < s.len() {
            lemma_skip_children_bounds(s, q);
        }
    }
}

/// Every step of the rejection of TypeScript that finds no error moves
/// forward and stays within the text.
pub proof fn lemma_check_step_advances(s: Seq<char>, pos: int)
    requires
        0 <= pos < s.len(),
    ensures
        check_step(s, pos) matches Ok(q) ==> pos < q <= s.len(),
{
    lemma_string_end(s, pos + 1, s[pos]);
    lemma_line_end(s, pos);
    lemma_comment_end(s, pos);
    lemma_skip_element_advances(s, pos);
    lemma_scan_end(s, pos, CharClass::Ident);
    lemma_scan_end_moves(s, pos, CharClass::Ident);
}

/// The value of an attribute in quotes ends behind its opening quote, within
/// the text.
pub proof fn lemma_quoted_value_advances(s: Seq<char>, pos: int)
    requires
        0 <= pos < s.len(),
    ensures
        quoted_value(s, pos) matches Ok(v) ==> pos < v.pos <= s.len(),
{
    lemma_closing_quote(s, pos + 1, s[pos]);
}

/// The copy of a string literal never goes back and stays within the text.
pub proof fn lemma_literal_bounds(s: Seq<char>, pos: int, out: Seq<char>, quote: char, ts: bool)
    requires
        0 <= pos <= s.len(),
    ensures
        literal(s, pos, out, quote, ts) matches Ok(st) ==> pos <= st.pos <= s.len(),
    decreases s.len() - pos,
{
    if pos >= s.len() {
    } else if s[pos] == '\\' {
        if pos + 1 < s.len() {
            lemma_literal_bounds(s, pos + 2, out.push('\\').push(s[pos + 1]), quote, ts);
        }
    } else if s[pos] == quote {
    } else if quote == '`' && s[pos] == '$' && char_at(s, pos + 1) == Some('{') {
        let e = expression_end(s, pos + 2, '}', 0, None);
        lemma_expression_end(s, pos + 2, '}', 0, None);
        if char_at(s, e) == Some('}') {
            match transpiled(s.subrange(pos + 2, e), ts) {
                Ok(t) => {
                    lemma_literal_bounds(
                        s,
                        e + 1,
                        out.push('$').push('{') + t + seq!['}'],
                        quote,
                        ts,
                    );
                },
                Err(_) => {},
            }
        }
    } else {
        lemma_literal_bounds(s, pos + 1, out.push(s[pos]), quote, ts);
    }
}

/// An element that is read ends behind its `<`, within the text.
pub proof fn lemma_element_advances(s: Seq<char>, pos: int, ts: bool)
    requires
        0 <= pos <= s.len(),
    ensures
        element(s, pos, ts) matches Ok(el) ==> pos < el.pos <= s.len(),
    decreases s.len() - pos, 1nat,
{
    if char_at(s, pos) != Some('<') {
    } else if char_at(s, pos + 1) == Some('>') {
        lemma_children_bounds(s, pos + 2, Seq::empty(), ts, Seq::empty());
    } else if char_at(s, pos + 1) == Some('/') {
    } else {
        let t = scan_end(s, pos + 1, CharClass::TagName);
        lemma_scan_end(s, pos + 1, CharClass::TagName);
        lemma_props_bounds(s, t, ts, Seq::empty());
        match props(s, t, ts, Seq::empty()) {
            Ok(pr) => {
                if char_at(s, pr.pos) == Some('>') {
                    lemma_children_bounds(s, pr.pos + 1, s.subrange(pos + 1, t), ts, Seq::empty());
                }
            },
            Err(_) => {},
        }
    }
}

/// The attributes of an opening tag end within the text, not before they
/// begin.
pub proof fn lemma_props_bounds(s: Seq<char>, pos: int, ts: bool, items: Seq<Seq<char>>)
    requires
        0 <= pos <= s.len(),
    ensures
        props(s, pos, ts, items) matches Ok(pr) ==> pos <= pr.pos <= s.len(),
    decreases s.len() - pos, 0nat,
{
    let p = scan_end(s, pos, CharClass::Whitespace);
    lemma_scan_end(s, pos, CharClass::Whitespace);
    if p >= s.len() || s[p] == '>' || s[p] == '/' {
    } else if s[p] == '{' && char_at(s, p + 1) == Some('.') && char_at(
        s,
        p + 2,
    ) == Some('.') {
        let x = forward(s, p, 4);
        let e = expression_end(s, x, '}', 0, None);
        lemma_expression_end(s, x, '}', 0, None);
        if char_at(s, e) == Some('}') {
            lemma_props_bounds(
                s,
                e + 1,
                ts,
                items.push("..."@ + trim(s.subrange(x, e))),
            );
        }
    } else {
        let n = scan_end(s, p, CharClass::PropName);
        let name = s.subrange(p, n);
        let w = scan_end(s, n, CharClass::Whitespace);
        lemma_scan_end(s, p, CharClass::PropName);
        lemma_scan_end(s, n, CharClass::Whitespace);
        if char_at(s, w) == Some('=') {
            let v = scan_end(s, w + 1, CharClass::Whitespace);
            lemma_scan_end(s, w + 1, CharClass::Whitespace);
            if char_at(s, v) == Some('"') || char_at(s, v) == Some(
                '\'',
            ) {
                lemma_quoted_value_advances(s, v);
                match quoted_value(s, v) {
                    Ok(val) => {
                        lemma_props_bounds(s, val.pos, ts, items.push(name + ": "@ + val.value));
                    },
                    Err(_) => {},
                }
            } else if char_at(s, v) == Some('{') {
                let e = expression_end(s, v + 1, '}', 0, None);
                lemma_expression_end(s, v + 1, '}', 0, None);
                if char_at(s, e) == Some('}') {
                    match transpiled(s.subrange(v + 1, e), ts) {
                        Ok(t) => {
                            lemma_props_bounds(s, e + 1, ts, items.push(name + ": "@ + t));
                        },
                        Err(_) => {},
                    }
                }
            }
        } else if name.len() > 0 {
            lemma_props_bounds(s, w, ts, items.push(name + ": true"@));
        } else {
            lemma_props_bounds(s, p + 1, ts, items);
        }
    }
}

/// The children of an element end within the text, not before they begin.
pub proof fn lemma_children_bounds(
    s: Seq<char>,
    pos: int,
    parent: Seq<char>,
    ts: bool,
    items: Seq<Seq<char>>,
)
    requires
        0 <= pos <= s.len(),
    ensures
        children(s, pos, parent, ts, items) matches Ok(ch) ==> pos <= ch.pos <= s.len(),
    decreases s.len() - pos, 2nat,
{
    let p = scan_end(s, pos, CharClass::Whitespace);
    lemma_scan_end(s, pos, CharClass::Whitespace);
    if char_at(s, p) == Some('<') && char_at(s, p + 1) == Some('/') {
        let n = scan_end(s, p + 2, CharClass::TagName);
        lemma_scan_end(s, p + 2, CharClass::TagName);
        lemma_scan_end(s, n, CharClass::Whitespace);
    } else if char_at(s, p) == Some('<') && jsx_starts_at(s, p) {
        lemma_element_advances(s, p, ts);
        match element(s, p, ts) {
            Ok(el) => {
                lemma_children_bounds(s, el.pos, parent, ts, items.push(el.value));
            },
            Err(_) => {},
        }
    } else if char_at(s, p) == Some('{') {
        let e = expression_end(s, p + 1, '}', 0, None);
        lemma_expression_end(s, p + 1, '}', 0, None);
        if char_at(s, e) == Some('}') {
            match transpiled(s.subrange(p + 1, e), ts) {
                Ok(t) => {
                    lemma_children_bounds(s, e + 1, parent, ts, items.push(t));
                },
                Err(_) => {},
            }
        }
    } else {
        let q = scan_end(s, p, CharClass::Text);
        let text = trim(s.subrange(p, q));
        lemma_scan_end(s, p, CharClass::Text);
        if q > p {
            lemma_children_bounds(
                s,
                q,
                parent,
                ts,
                if text.len() > 0 {
                    items.push(quoted(text))
                } else {
                    items
                },
            );
        }
    }
}

/// An import statement ends behind its `import`, within the text.
pub proof fn lemma_import_statement_advances(s: Seq<char>, pos: int)
    requires
        0 <= pos,
    ensures
        import_statement(s, pos) matches Some(st) ==> pos < st.end <= s.len(),
{
    reveal_strlit("import");
    reveal_strlit("from");
    reveal_strlit("as");
    if has_prefix_at(s, pos, "import"@) {
        let a = scan_end(s, pos + 6, CharClass::Whitespace);
        lemma_scan_end(s, pos + 6, CharClass::Whitespace);
        let d_end = scan_end(s, a, CharClass::Word);
        lemma_scan_end(s, a, CharClass::Word);
        let b = scan_end(s, d_end, CharClass::Whitespace);
        lemma_scan_end(s, d_end, CharClass::Whitespace);
        lemma_module_part_advances(s, a);
        lemma_from_part_advances(s, b);
        if b < s.len() {
            let c = scan_end(s, b + 1, CharClass::Whitespace);
            lemma_scan_end(s, b + 1, CharClass::Whitespace);
            lemma_clause_advances(s, c);
        }
        lemma_clause_advances(s, b);
    }
}

/// The part of an import statement behind its default name ends behind the
/// place where it begins.
proof fn lemma_clause_advances(s: Seq<char>, c: int)
    requires
        0 <= c <= s.len(),
    ensures
        ({
            let close = scan_end(s, c + 1, CharClass::Except('}'));
            let x = scan_end(s, c + 1, CharClass::Whitespace);
            let y = scan_end(s, x + 2, CharClass::Whitespace);
            let e = scan_end(s, y, CharClass::Word);
            &&& forall|d: Seq<char>, n: Seq<char>, l: Seq<BindingView>|
                close < s.len() ==> (#[trigger] from_part(
                    s,
                    scan_end(s, close + 1, CharClass::Whitespace),
                    d,
                    n,
                    l,
                ) matches Some(st) ==> c < st.end <= s.len())
            &&& forall|d: Seq<char>, n: Seq<char>, l: Seq<BindingView>|
                x + 2 <= s.len() ==> (#[trigger] from_part(
                    s,
                    scan_end(s, e, CharClass::Whitespace),
                    d,
                    n,
                    l,
                ) matches Some(st) ==> c < st.end <= s.len())
        }),
{
    reveal_strlit("from");
    let close = scan_end(s, c + 1, CharClass::Except('}'));
    if c + 1 <= s.len() {
        lemma_scan_end(s, c + 1, CharClass::Except('}'));
        if close < s.len() {
            lemma_scan_end(s, close + 1, CharClass::Whitespace);
            lemma_from_part_advances(s, scan_end(s, close + 1, CharClass::Whitespace));
        }
        let x = scan_end(s, c + 1, CharClass::Whitespace);
        lemma_scan_end(s, c + 1, CharClass::Whitespace);
        if x + 2 <= s.len() {
            let y = scan_end(s, x + 2, CharClass::Whitespace);
            lemma_scan_end(s, x + 2, CharClass::Whitespace);
            let e = scan_end(s, y, CharClass::Word);
            lemma_scan_end(s, y, CharClass::Word);
            lemma_scan_end(s, e, CharClass::Whitespace);
            lemma_from_part_advances(s, scan_end(s, e, CharClass::Whitespace));
        }
    }
}

/// The part of an import statement from `from` on ends behind the place
/// where it begins.
proof fn lemma_from_part_advances(s: Seq<char>, r: int)
    requires
        0 <= r <= s.len(),
    ensures
        forall|d: Seq<char>, n: Seq<char>, l: Seq<BindingView>|
            #[trigger] from_part(s, r, d, n, l) matches Some(st) ==> r < st.end <= s.len(),
{
    reveal_strlit("from");
    if has_prefix_at(s, r, "from"@) {
        lemma_scan_end(s, r + 4, CharClass::Whitespace);
        lemma_module_part_advances(s, scan_end(s, r + 4, CharClass::Whitespace));
    }
}

/// The string literal that names the module ends behind the place where it
/// begins.
proof fn lemma_module_part_advances(s: Seq<char>, f: int)
    requires
        0 <= f <= s.len(),
    ensures
        forall|d: Seq<char>, n: Seq<char>, l: Seq<BindingView>|
            #[trigger] module_part(s, f, d, n, l) matches Some(st) ==> f < st.end <= s.len(),
{
    if f < s.len() {
        lemma_closing_quote(s, f + 1, s[f]);
    }
}

/// What stands behind `export` begins behind it, within the text.
pub proof fn lemma_export_advances(s: Seq<char>, pos: int)
    requires
        0 <= pos,
    ensures
        export_default(s, pos) matches Some(e) ==> pos < e <= s.len(),
        export_list(s, pos) matches Some(l) ==> pos < l.end <= s.len(),
        export_declaration(s, pos) matches Some(d) ==> pos < d.start <= s.len(),
{
    reveal_strlit("export");
    reveal_strlit("default");
    if has_prefix_at(s, pos, "export"@) {
        let e = scan_end(s, pos + 6, CharClass::Whitespace);
        lemma_scan_end(s, pos + 6, CharClass::Whitespace);
        if has_prefix_at(s, e, "default"@) {
            lemma_scan_end(s, e + 7, CharClass::Whitespace);
        }
        if e + 1 <= s.len() {
            lemma_scan_end(s, e + 1, CharClass::Except('}'));
        }
    }
}

/// Every step of the JSX pass that ends without an error moves forward and
/// stays within the text.
pub proof fn lemma_code_step_advances(s: Seq<char>, pos: int, out: Seq<char>, ts: bool)
    requires
        0 <= pos < s.len(),
    ensures
        code_step(s, pos, out, ts) matches Ok(st) ==> pos < st.pos <= s.len(),
{
    lemma_literal_bounds(s, pos + 1, out.push(s[pos]), s[pos], ts);
    lemma_line_end(s, pos);
    if pos + 2 <= s.len() {
        lemma_comment_end(s, pos + 2);
    }
    lemma_element_advances(s, pos, ts);
}

} // verus!
