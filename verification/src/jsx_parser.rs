//! JSX to calls of the runtime factory.
//!
//! The parser reads JSX where it stands in JavaScript text and writes, for
//! each element, a call `__runtime.jsx(tag, props)`. No tree is
//! built: every node becomes text as soon as it is recognised, and the texts
//! of the children are put into the props of their parent.
//!
//! `transpiled` says what the whole pass makes of a source text. It is
//! defined together with `code_step` (one step in JavaScript text), `literal`
//! (a string or template literal), `element`, `props` and `children`, which
//! call each other as the grammar nests. The expressions in `{ }` and in the
//! `${ }` of a template literal go through the whole pass again.

use vstd::prelude::*;
use crate::chars::{CharClass, is_quote, quote};
use crate::error::{ErrorView, Expected, TranspileError};
use crate::imports::{extract_imports_and_features, has_import_call, imports_of, looks_like_jsx};
use crate::metadata::{MetadataView, TranspileMetadata};
use crate::options::TranspileOptions;
use crate::scanner::{
    closing_quote, comment_end, expression_end, forward, is_component, is_custom_component,
    jsx_starts_at, lemma_closing_quote, lemma_expression_end, lemma_line_end, line_end,
    ParseContext,
};
use crate::text::{
    char_at, chars_of, escape, join, lemma_scan_end, lemma_scan_end_moves, lemma_texts_push,
    push_all, push_escaped, push_joined, push_range, push_str, scan_end, Step, string_of, texts,
    trim, trimmed,
};
use crate::typescript::{
    check_chars, expected_char, lemma_stripped_len, rejection, strip_chars, stripped,
};

verus! {

/// A value read from a text, with the offset behind it.
pub struct Parsed<T> {
    pub pos: int,
    pub value: T,
}

/// The tag as the first argument of the call: a component by its name, a
/// host element as a quoted string.
pub open spec fn tag_value(tag: Seq<char>) -> Seq<char> {
    if is_component(tag) {
        tag
    } else {
        seq!['"'] + tag + seq!['"']
    }
}

/// The props without children: `{}`, or the entries in source order between
/// `{ ` and ` }`.
pub open spec fn props_object(items: Seq<Seq<char>>) -> Seq<char> {
    if items.len() == 0 {
        "{}"@
    } else {
        "{ "@ + join(items, ", "@) + " }"@
    }
}

/// The entry that holds the children, in source order.
pub open spec fn children_entry(children: Seq<Seq<char>>) -> Seq<char> {
    "children: ["@ + join(children, ", "@) + "]"@
}

/// The props of an element with children: the entries in source order, then
/// `children` as the last key.
pub open spec fn props_with_children(items: Seq<Seq<char>>, children: Seq<Seq<char>>) -> Seq<
    char,
> {
    let inner = trim(join(items, ", "@));
    if items.len() == 0 || inner.len() == 0 {
        "{ "@ + children_entry(children) + " }"@
    } else {
        "{ "@ + inner + ", "@ + children_entry(children) + " }"@
    }
}

/// A call of the runtime factory.
pub open spec fn jsx_call(tag: Seq<char>, props: Seq<char>) -> Seq<char> {
    "__runtime.jsx("@ + tag + ", "@ + props + ")"@
}

/// What an element becomes.
pub open spec fn element_text(
    tag: Seq<char>,
    items: Seq<Seq<char>>,
    children: Seq<Seq<char>>,
) -> Seq<char> {
    jsx_call(
        tag_value(tag),
        if children.len() == 0 {
            props_object(items)
        } else {
            props_with_children(items, children)
        },
    )
}

/// What a fragment becomes: a call for the container element `div`.
pub open spec fn fragment_text(children: Seq<Seq<char>>) -> Seq<char> {
    jsx_call(
        "'div'"@,
        if children.len() == 0 {
            "{}"@
        } else {
            "{ "@ + children_entry(children) + " }"@
        },
    )
}

/// A text as a string literal of the output.
pub open spec fn quoted(text: Seq<char>) -> Seq<char> {
    seq!['"'] + escape(text) + seq!['"']
}

/// The value of an attribute given as a string literal that opens at `pos`.
pub open spec fn quoted_value(s: Seq<char>, pos: int) -> Result<Parsed<Seq<char>>, ErrorView> {
    let q = s[pos];
    let c = closing_quote(s, pos + 1, q);
    if char_at(s, c) == Some(q) {
        Ok(Parsed { pos: c + 1, value: quoted(s.subrange(pos + 1, c)) })
    } else {
        Err(expected_char(q, c))
    }
}

/// An error for the end of the input inside the element `tag`.
pub open spec fn unexpected_eof(tag: Seq<char>, pos: int) -> ErrorView {
    ErrorView::UnexpectedEof { tag, position: pos }
}

/// An error for the closing tag `found` where `open` was to be closed.
pub open spec fn mismatched(open: Seq<char>, found: Seq<char>, pos: int) -> ErrorView {
    ErrorView::MismatchedClosingTag { open, found, position: pos }
}

/// What the pass makes of `source`: the JavaScript text, or the first error.
///
/// Plain JavaScript is first checked for TypeScript syntax; TypeScript is
/// first stripped of it. Then the JSX in the text is rewritten.
pub open spec fn transpiled(source: Seq<char>, ts: bool) -> Result<Seq<char>, ErrorView>
    decreases source.len() + 1, 0nat, 0nat,
{
    if ts {
        proof {
            lemma_stripped_len(source);
        }
        code_run(stripped(source), 0, Seq::empty(), ts)
    } else {
        match rejection(source) {
            Err(e) => Err(e),
            Ok(_) => code_run(source, 0, Seq::empty(), ts),
        }
    }
}

/// The output of the rewriting that stands at `pos` with `out` written.
/// Every step that succeeds moves forward within the text
/// (`lemma_code_step_advances`), so the rewriting always goes on from where
/// the step ended.
pub open spec fn code_run(s: Seq<char>, pos: int, out: Seq<char>, ts: bool) -> Result<
    Seq<char>,
    ErrorView,
>
    decreases s.len(), s.len() - pos, 4nat,
{
    if pos < 0 || pos >= s.len() {
        Ok(out)
    } else {
        match code_step(s, pos, out, ts) {
            Err(e) => Err(e),
            Ok(st) => {
                if pos < st.pos <= s.len() {
                    code_run(s, st.pos, st.out, ts)
                } else {
                    Ok(st.out)
                }
            },
        }
    }
}

/// One step of the rewriting in JavaScript text: a string literal or a
/// comment is copied, a JSX element is replaced by its call, any other
/// character is copied.
pub open spec fn code_step(s: Seq<char>, pos: int, out: Seq<char>, ts: bool) -> Result<
    Step,
    ErrorView,
>
    decreases s.len(), s.len() - pos, 3nat,
{
    if pos < 0 || pos >= s.len() {
        Ok(Step { pos, out })
    } else if is_quote(s[pos]) {
        literal(s, pos + 1, out.push(s[pos]), s[pos], ts)
    } else if s[pos] == '/' && char_at(s, pos + 1) == Some('/') {
        Ok(Step { pos: line_end(s, pos), out: out + s.subrange(pos, line_end(s, pos)) })
    } else if s[pos] == '/' && char_at(s, pos + 1) == Some('*') {
        Ok(
            Step {
                pos: comment_end(s, pos + 2),
                out: out + s.subrange(pos, comment_end(s, pos + 2)),
            },
        )
    } else if s[pos] == '<' && jsx_starts_at(s, pos) {
        match element(s, pos, ts) {
            Err(e) => Err(e),
            Ok(el) => Ok(Step { pos: el.pos, out: out + el.value }),
        }
    } else {
        Ok(Step { pos: pos + 1, out: out.push(s[pos]) })
    }
}

/// The copy of a string literal opened by `quote`, from `pos` on.
///
/// The text is copied up to and with the closing quote; a backslash takes the
/// next character with it. In a template literal the expression of each
/// `${ }` is transpiled as a source of its own.
pub open spec fn literal(s: Seq<char>, pos: int, out: Seq<char>, quote: char, ts: bool) -> Result<
    Step,
    ErrorView,
>
    decreases s.len(), s.len() - pos, 0nat,
{
    if pos < 0 || pos >= s.len() {
        Ok(Step { pos, out })
    } else if s[pos] == '\\' {
        if pos + 1 < s.len() {
            literal(s, pos + 2, out.push('\\').push(s[pos + 1]), quote, ts)
        } else {
            Ok(Step { pos: pos + 1, out: out.push('\\') })
        }
    } else if s[pos] == quote {
        Ok(Step { pos: pos + 1, out: out.push(quote) })
    } else if quote == '`' && s[pos] == '$' && char_at(s, pos + 1) == Some('{') {
        let e = expression_end(s, pos + 2, '}', 0, None);
        proof {
            lemma_expression_end(s, pos + 2, '}', 0, None);
        }
        if char_at(s, e) != Some('}') {
            Err(expected_char('}', e))
        } else {
            match transpiled(s.subrange(pos + 2, e), ts) {
                Err(x) => Err(x),
                Ok(t) => literal(s, e + 1, out.push('$').push('{') + t + seq!['}'], quote, ts),
            }
        }
    } else {
        literal(s, pos + 1, out.push(s[pos]), quote, ts)
    }
}

/// The element whose `<` stands at `pos`: the call that it becomes and the
/// offset behind it. The attributes never end before they begin
/// (`lemma_props_bounds`), so the test for it never fails.
pub open spec fn element(s: Seq<char>, pos: int, ts: bool) -> Result<Parsed<Seq<char>>, ErrorView>
    decreases s.len(), s.len() - pos, 1nat,
{
    if pos < 0 || char_at(s, pos) != Some('<') {
        Err(expected_char('<', pos))
    } else if char_at(s, pos + 1) == Some('>') {
        match children(s, pos + 2, Seq::empty(), ts, Seq::empty()) {
            Err(e) => Err(e),
            Ok(ch) => Ok(Parsed { pos: ch.pos, value: fragment_text(ch.value) }),
        }
    } else if char_at(s, pos + 1) == Some('/') {
        Err(ErrorView::UnexpectedCharacter { expected: Expected::Element, position: pos + 1 })
    } else {
        let t = scan_end(s, pos + 1, CharClass::TagName);
        let tag = s.subrange(pos + 1, t);
        proof {
            lemma_scan_end(s, pos + 1, CharClass::TagName);
        }
        match props(s, t, ts, Seq::empty()) {
            Err(e) => Err(e),
            Ok(pr) => {
                let a = pr.pos;
                if char_at(s, a) == Some('/') {
                    if char_at(s, a + 1) == Some('>') {
                        Ok(Parsed { pos: a + 2, value: element_text(tag, pr.value, Seq::empty()) })
                    } else {
                        Err(expected_char('>', a + 1))
                    }
                } else if char_at(s, a) == Some('>') && pos < a {
                    match children(s, a + 1, tag, ts, Seq::empty()) {
                        Err(e) => Err(e),
                        Ok(ch) => Ok(
                            Parsed { pos: ch.pos, value: element_text(tag, pr.value, ch.value) },
                        ),
                    }
                } else {
                    Err(expected_char('>', a))
                }
            },
        }
    }
}

/// The attributes of an opening tag from `pos` on, added to `items`: a spread
/// `{...expr}` as `...expr`, an attribute with a value as `name: value`, a
/// bare name as `name: true`. The scan stops at the `>` or `/` that ends the
/// tag, or at the end of the text.
pub open spec fn props(s: Seq<char>, pos: int, ts: bool, items: Seq<Seq<char>>) -> Result<
    Parsed<Seq<Seq<char>>>,
    ErrorView,
>
    decreases s.len(), s.len() - pos, 0nat,
{
    let p = scan_end(s, pos, CharClass::Whitespace);
    if pos < 0 || p >= s.len() || s[p] == '>' || s[p] == '/' {
        Ok(Parsed { pos: p, value: items })
    } else if s[p] == '{' && char_at(s, p + 1) == Some('.') && char_at(s, p + 2) == Some('.') {
        let x = forward(s, p, 4);
        let e = expression_end(s, x, '}', 0, None);
        proof {
            lemma_scan_end(s, pos, CharClass::Whitespace);
            lemma_expression_end(s, x, '}', 0, None);
        }
        if char_at(s, e) != Some('}') {
            Err(expected_char('}', e))
        } else {
            props(s, e + 1, ts, items.push("..."@ + trim(s.subrange(x, e))))
        }
    } else {
        let n = scan_end(s, p, CharClass::PropName);
        let name = s.subrange(p, n);
        let w = scan_end(s, n, CharClass::Whitespace);
        proof {
            lemma_scan_end(s, pos, CharClass::Whitespace);
            lemma_scan_end(s, p, CharClass::PropName);
            lemma_scan_end(s, n, CharClass::Whitespace);
            lemma_scan_end(s, w + 1, CharClass::Whitespace);
        }
        if char_at(s, w) == Some('=') {
            let v = scan_end(s, w + 1, CharClass::Whitespace);
            if char_at(s, v) == Some('"') || char_at(s, v) == Some('\'') {
                proof {
                    lemma_closing_quote(s, v + 1, s[v]);
                }
                match quoted_value(s, v) {
                    Err(e) => Err(e),
                    Ok(val) => props(s, val.pos, ts, items.push(name + ": "@ + val.value)),
                }
            } else if char_at(s, v) == Some('{') {
                let e = expression_end(s, v + 1, '}', 0, None);
                proof {
                    lemma_expression_end(s, v + 1, '}', 0, None);
                }
                if char_at(s, e) != Some('}') {
                    Err(expected_char('}', e))
                } else {
                    match transpiled(s.subrange(v + 1, e), ts) {
                        Err(x) => Err(x),
                        Ok(t) => props(s, e + 1, ts, items.push(name + ": "@ + t)),
                    }
                }
            } else {
                Err(ErrorView::UnexpectedCharacter { expected: Expected::PropValue, position: v })
            }
        } else if name.len() > 0 {
            props(s, w, ts, items.push(name + ": true"@))
        } else {
            props(s, p + 1, ts, items)
        }
    }
}

/// The children of an element from `pos` on, added to `items`: nested
/// elements as their calls, `{ }` blocks as their transpiled expressions and
/// runs of text, trimmed, as string literals. The scan ends behind the
/// closing tag, which must name `parent` unless `parent` is empty, as it is
/// for a fragment. A nested element always ends behind its `<`
/// (`lemma_element_advances`), so the test for it never fails.
pub open spec fn children(
    s: Seq<char>,
    pos: int,
    parent: Seq<char>,
    ts: bool,
    items: Seq<Seq<char>>,
) -> Result<Parsed<Seq<Seq<char>>>, ErrorView>
    decreases s.len(), s.len() - pos, 2nat,
{
    let p = scan_end(s, pos, CharClass::Whitespace);
    if pos < 0 || pos > s.len() {
        Err(unexpected_eof(parent, pos))
    } else if char_at(s, p) == Some('<') && char_at(s, p + 1) == Some('/') {
        let n = scan_end(s, p + 2, CharClass::TagName);
        let w = scan_end(s, n, CharClass::Whitespace);
        if char_at(s, w) != Some('>') {
            Err(expected_char('>', w))
        } else if parent.len() > 0 && s.subrange(p + 2, n) != parent {
            Err(mismatched(parent, s.subrange(p + 2, n), w + 1))
        } else {
            Ok(Parsed { pos: w + 1, value: items })
        }
    } else if char_at(s, p) == Some('<') && jsx_starts_at(s, p) {
        proof {
            lemma_scan_end(s, pos, CharClass::Whitespace);
        }
        match element(s, p, ts) {
            Err(e) => Err(e),
            Ok(el) => {
                if p < el.pos <= s.len() {
                    children(s, el.pos, parent, ts, items.push(el.value))
                } else {
                    Ok(Parsed { pos: el.pos, value: items })
                }
            },
        }
    } else if char_at(s, p) == Some('{') {
        let e = expression_end(s, p + 1, '}', 0, None);
        proof {
            lemma_scan_end(s, pos, CharClass::Whitespace);
            lemma_expression_end(s, p + 1, '}', 0, None);
        }
        if char_at(s, e) != Some('}') {
            Err(expected_char('}', e))
        } else {
            match transpiled(s.subrange(p + 1, e), ts) {
                Err(x) => Err(x),
                Ok(t) => children(s, e + 1, parent, ts, items.push(t)),
            }
        }
    } else {
        let q = scan_end(s, p, CharClass::Text);
        let text = trim(s.subrange(p, q));
        proof {
            lemma_scan_end(s, pos, CharClass::Whitespace);
            lemma_scan_end(s, p, CharClass::Text);
        }
        if q > p {
            children(
                s,
                q,
                parent,
                ts,
                if text.len() > 0 {
                    items.push(quoted(text))
                } else {
                    items
                },
            )
        } else if p >= s.len() {
            Err(unexpected_eof(parent, p))
        } else {
            Ok(Parsed { pos: p, value: items })
        }
    }
}

/// A result with its texts and its error seen as sequences.
pub open spec fn text_outcome(r: Result<Vec<char>, TranspileError>) -> Result<
    Seq<char>,
    ErrorView,
> {
    match r {
        Ok(v) => Ok(v@),
        Err(e) => Err(e@),
    }
}

/// Whether a step of the parser ended as the specification says: with the
/// value and at the offset it gives, or with the error it gives.
pub open spec fn yields(
    r: Result<Vec<char>, TranspileError>,
    pos: int,
    expected: Result<Parsed<Seq<char>>, ErrorView>,
) -> bool {
    match expected {
        Ok(p) => r is Ok && r->Ok_0@ == p.value && pos == p.pos,
        Err(e) => r is Err && r->Err_0@ == e,
    }
}

/// `yields` for a list of texts.
pub open spec fn yields_list(
    r: Result<Vec<Vec<char>>, TranspileError>,
    pos: int,
    expected: Result<Parsed<Seq<Seq<char>>>, ErrorView>,
) -> bool {
    match expected {
        Ok(p) => r is Ok && texts(r->Ok_0@) == p.value && pos == p.pos,
        Err(e) => r is Err && r->Err_0@ == e,
    }
}

/// `yields` for a step that writes to an output.
pub open spec fn steps(
    r: Result<(), TranspileError>,
    pos: int,
    out: Seq<char>,
    expected: Result<Step, ErrorView>,
) -> bool {
    match expected {
        Ok(st) => r is Ok && pos == st.pos && out == st.out,
        Err(e) => r is Err && r->Err_0@ == e,
    }
}

/// The call that an element becomes.
pub fn element_call(tag: &Vec<char>, items: &Vec<Vec<char>>, children: &Vec<Vec<char>>) -> (r:
    Vec<char>)
    ensures
        r@ == element_text(tag@, texts(items@), texts(children@)),
{
    let mut out: Vec<char> = Vec::new();
    push_str(&mut out, "__runtime.jsx(");
    if is_custom_component(tag) {
        push_all(&mut out, tag);
    } else {
        out.push('"');
        push_all(&mut out, tag);
        out.push('"');
    }
    push_str(&mut out, ", ");
    if children.len() == 0 {
        if items.len() == 0 {
            push_str(&mut out, "{}");
        } else {
            push_str(&mut out, "{ ");
            push_joined(&mut out, items, ", ");
            push_str(&mut out, " }");
        }
    } else {
        let mut joined: Vec<char> = Vec::new();
        push_joined(&mut joined, items, ", ");
        let inner = trimmed(&joined);
        push_str(&mut out, "{ ");
        if items.len() != 0 && inner.len() != 0 {
            push_all(&mut out, &inner);
            push_str(&mut out, ", ");
        }
        push_str(&mut out, "children: [");
        push_joined(&mut out, children, ", ");
        push_str(&mut out, "]");
        push_str(&mut out, " }");
    }
    push_str(&mut out, ")");
    out
}

/// The call that a fragment becomes.
pub fn fragment_call(children: &Vec<Vec<char>>) -> (r: Vec<char>)
    ensures
        r@ == fragment_text(texts(children@)),
{
    let mut out: Vec<char> = Vec::new();
    push_str(&mut out, "__runtime.jsx(");
    push_str(&mut out, "'div'");
    push_str(&mut out, ", ");
    if children.len() == 0 {
        push_str(&mut out, "{}");
    } else {
        push_str(&mut out, "{ ");
        push_str(&mut out, "children: [");
        push_joined(&mut out, children, ", ");
        push_str(&mut out, "]");
        push_str(&mut out, " }");
    }
    push_str(&mut out, ")");
    out
}

/// A text as a string literal of the output.
pub fn quote_text(text: &Vec<char>) -> (r: Vec<char>)
    ensures
        r@ == quoted(text@),
{
    let mut out: Vec<char> = Vec::new();
    out.push('"');
    push_escaped(&mut out, text);
    out.push('"');
    out
}

/// `s` with backslash, double quote, line feed, carriage return and tab
/// escaped for a string literal.
pub fn escape_string(s: &str) -> (r: String)
    ensures
        r@ == escape(s@),
{
    let mut out: Vec<char> = Vec::new();
    push_escaped(&mut out, &chars_of(s));
    string_of(&out)
}

/// Reads the string literal at the cursor as the value of an attribute.
fn parse_string_literal(ctx: &mut ParseContext) -> (r: Result<Vec<char>, TranspileError>)
    requires
        old(ctx).wf(),
        old(ctx).pos < old(ctx).source.len(),
    ensures
        final(ctx).wf(),
        final(ctx).source == old(ctx).source,
        final(ctx).is_typescript == old(ctx).is_typescript,
        yields(r, final(ctx).pos as int, quoted_value(old(ctx).source@, old(ctx).pos as int)),
        r is Ok ==> final(ctx).pos > old(ctx).pos,
{
    let q = ctx.source[ctx.pos];
    ctx.pos += 1;
    let start = ctx.pos;
    loop
        invariant_except_break
            closing_quote(ctx.source@, ctx.pos as int, q) == closing_quote(
                ctx.source@,
                start as int,
                q,
            ),
        invariant
            ctx.wf(),
            ctx.source == old(ctx).source,
            ctx.is_typescript == old(ctx).is_typescript,
            start == old(ctx).pos + 1,
            start <= ctx.pos,
        ensures
            ctx.pos == closing_quote(ctx.source@, start as int, q),
        decreases ctx.source.len() - ctx.pos,
    {
        if ctx.pos >= ctx.source.len() {
            break ;
        }
        let ch = ctx.source[ctx.pos];
        if ch == q {
            break ;
        }
        if ch == '\\' {
            ctx.advance_by(2);
        } else {
            ctx.pos += 1;
        }
    }
    let content = ctx.span(start, ctx.pos);
    match ctx.consume(q) {
        Err(e) => {
            return Err(e);
        },
        Ok(_) => {},
    }
    Ok(quote_text(&content))
}

/// Reads the expression of a `{ }` block whose `{` has just been read, with
/// its `}`, and transpiles it.
fn parse_braced(ctx: &mut ParseContext) -> (r: Result<Vec<char>, TranspileError>)
    requires
        old(ctx).wf(),
    ensures
        final(ctx).wf(),
        final(ctx).source == old(ctx).source,
        final(ctx).is_typescript == old(ctx).is_typescript,
        ({
            let s = old(ctx).source@;
            let e = expression_end(s, old(ctx).pos as int, '}', 0, None);
            if char_at(s, e) != Some('}') {
                r is Err && r->Err_0@ == expected_char('}', e)
            } else {
                match transpiled(s.subrange(old(ctx).pos as int, e), old(ctx).is_typescript) {
                    Err(x) => r is Err && r->Err_0@ == x,
                    Ok(t) => r is Ok && r->Ok_0@ == t && final(ctx).pos == e + 1,
                }
            }
        }),
        r is Ok ==> final(ctx).pos > old(ctx).pos,
    decreases old(ctx).source.len(), 0nat, 5nat,
{
    let expr = ctx.parse_js_expression('}');
    match ctx.consume('}') {
        Err(e) => {
            return Err(e);
        },
        Ok(_) => {},
    }
    transpile_chars(&expr, ctx.is_typescript)
}

/// Reads the attributes of an opening tag.
fn parse_props(ctx: &mut ParseContext) -> (r: Result<Vec<Vec<char>>, TranspileError>)
    requires
        old(ctx).wf(),
    ensures
        final(ctx).wf(),
        final(ctx).source == old(ctx).source,
        final(ctx).is_typescript == old(ctx).is_typescript,
        yields_list(
            r,
            final(ctx).pos as int,
            props(
                old(ctx).source@,
                old(ctx).pos as int,
                old(ctx).is_typescript,
                Seq::empty(),
            ),
        ),
        r is Ok ==> final(ctx).pos >= old(ctx).pos,
    decreases old(ctx).source.len(), old(ctx).source.len() - old(ctx).pos, 0nat,
{
    let mut items: Vec<Vec<char>> = Vec::new();
    let ghost s = ctx.source@;
    let ghost ts = ctx.is_typescript;
    let ghost goal = props(s, ctx.pos as int, ts, Seq::empty());
    assert(texts(items@) =~= Seq::<Seq<char>>::empty());
    loop
        invariant_except_break
            props(s, ctx.pos as int, ts, texts(items@)) == goal,
        invariant
            goal == props(
                old(ctx).source@,
                old(ctx).pos as int,
                old(ctx).is_typescript,
                Seq::empty(),
            ),
            ctx.wf(),
            ctx.source == old(ctx).source,
            ctx.is_typescript == old(ctx).is_typescript,
            s == ctx.source@,
            ts == ctx.is_typescript,
            old(ctx).pos <= ctx.pos,
        ensures
            goal == Ok::<Parsed<Seq<Seq<char>>>, ErrorView>(
                Parsed { pos: ctx.pos as int, value: texts(items@) },
            ),
        decreases ctx.source.len() - ctx.pos,
    {
        ctx.skip_whitespace();
        let p = ctx.pos;
        if p >= ctx.source.len() {
            break ;
        }
        let c = ctx.source[p];
        if c == '>' || c == '/' {
            break ;
        }
        if c == '{' && ctx.peek(1) == Some('.') && ctx.peek(2) == Some('.') {
            ctx.advance_by(4);
            let expr = ctx.parse_js_expression('}');
            match ctx.consume('}') {
                Err(e) => {
                    return Err(e);
                },
                Ok(_) => {},
            }
            let mut item: Vec<char> = Vec::new();
            push_str(&mut item, "...");
            push_all(&mut item, &trimmed(&expr));
            proof {
                lemma_texts_push(items@, item);
            }
            items.push(item);
            continue ;
        }
        ctx.skip_class(CharClass::PropName);
        let n = ctx.pos;
        ctx.skip_whitespace();
        if ctx.current_char() == Some('=') {
            ctx.advance();
            ctx.skip_whitespace();
            let v = ctx.current_char();
            let value = if v == Some('"') || v == Some('\'') {
                match parse_string_literal(ctx) {
                    Err(e) => {
                        return Err(e);
                    },
                    Ok(t) => t,
                }
            } else if v == Some('{') {
                ctx.advance();
                match parse_braced(ctx) {
                    Err(e) => {
                        return Err(e);
                    },
                    Ok(t) => t,
                }
            } else {
                return Err(
                    TranspileError::UnexpectedCharacter {
                        expected: Expected::PropValue,
                        position: ctx.pos,
                    },
                );
            };
            let mut item: Vec<char> = Vec::new();
            push_range(&mut item, &ctx.source, p, n);
            push_str(&mut item, ": ");
            push_all(&mut item, &value);
            proof {
                lemma_texts_push(items@, item);
            }
            items.push(item);
        } else if n > p {
            let mut item: Vec<char> = Vec::new();
            push_range(&mut item, &ctx.source, p, n);
            push_str(&mut item, ": true");
            proof {
                lemma_texts_push(items@, item);
                lemma_scan_end_moves(s, p as int, CharClass::PropName);
            }
            items.push(item);
        } else {
            ctx.pos = p + 1;
        }
    }
    Ok(items)
}

/// Reads the children of an element up to and with its closing tag.
fn parse_children(ctx: &mut ParseContext, parent_tag: &Vec<char>) -> (r: Result<
    Vec<Vec<char>>,
    TranspileError,
>)
    requires
        old(ctx).wf(),
    ensures
        final(ctx).wf(),
        final(ctx).source == old(ctx).source,
        final(ctx).is_typescript == old(ctx).is_typescript,
        yields_list(
            r,
            final(ctx).pos as int,
            children(
                old(ctx).source@,
                old(ctx).pos as int,
                parent_tag@,
                old(ctx).is_typescript,
                Seq::empty(),
            ),
        ),
        r is Ok ==> final(ctx).pos >= old(ctx).pos,
    decreases old(ctx).source.len(), old(ctx).source.len() - old(ctx).pos, 2nat,
{
    let mut items: Vec<Vec<char>> = Vec::new();
    let ghost s = ctx.source@;
    let ghost ts = ctx.is_typescript;
    let ghost goal = children(s, ctx.pos as int, parent_tag@, ts, Seq::empty());
    assert(texts(items@) =~= Seq::<Seq<char>>::empty());
    loop
        invariant_except_break
            children(s, ctx.pos as int, parent_tag@, ts, texts(items@)) == goal,
        invariant
            goal == children(
                old(ctx).source@,
                old(ctx).pos as int,
                parent_tag@,
                old(ctx).is_typescript,
                Seq::empty(),
            ),
            ctx.wf(),
            ctx.source == old(ctx).source,
            ctx.is_typescript == old(ctx).is_typescript,
            s == ctx.source@,
            ts == ctx.is_typescript,
            old(ctx).pos <= ctx.pos,
        ensures
            goal == Ok::<Parsed<Seq<Seq<char>>>, ErrorView>(
                Parsed { pos: ctx.pos as int, value: texts(items@) },
            ),
        decreases ctx.source.len() - ctx.pos,
    {
        ctx.skip_whitespace();
        let p = ctx.pos;
        let c = ctx.current_char();
        if c == Some('<') && ctx.peek(1) == Some('/') {
            ctx.advance_by(2);
            let close_start = ctx.pos;
            ctx.skip_class(CharClass::TagName);
            let close_end = ctx.pos;
            ctx.skip_whitespace();
            match ctx.consume('>') {
                Err(e) => {
                    return Err(e);
                },
                Ok(_) => {},
            }
            let close_name = ctx.span(close_start, close_end);
            if parent_tag.len() > 0 && !crate::text::same_text(&close_name, parent_tag) {
                return Err(
                    TranspileError::MismatchedClosingTag {
                        open: string_of(parent_tag),
                        found: string_of(&close_name),
                        position: ctx.pos,
                    },
                );
            }
            break ;
        }
        if c == Some('<') && ctx.is_jsx_start() {
            let child = match parse_jsx_element(ctx) {
                Err(e) => {
                    return Err(e);
                },
                Ok(t) => t,
            };
            proof {
                lemma_texts_push(items@, child);
            }
            items.push(child);
            continue ;
        }
        if c == Some('{') {
            ctx.advance();
            let child = match parse_braced(ctx) {
                Err(e) => {
                    return Err(e);
                },
                Ok(t) => t,
            };
            proof {
                lemma_texts_push(items@, child);
            }
            items.push(child);
            continue ;
        }
        ctx.skip_class(CharClass::Text);
        let q = ctx.pos;
        if q == p {
            if p >= ctx.source.len() {
                return Err(
                    TranspileError::UnexpectedEof { tag: string_of(parent_tag), position: p },
                );
            }
            break ;
        }
        let text = trimmed(&ctx.span(p, q));
        if text.len() > 0 {
            let child = quote_text(&text);
            proof {
                lemma_texts_push(items@, child);
            }
            items.push(child);
        }
    }
    Ok(items)
}

/// Reads the element whose `<` stands at the cursor and returns the call
/// that it becomes.
fn parse_jsx_element(ctx: &mut ParseContext) -> (r: Result<Vec<char>, TranspileError>)
    requires
        old(ctx).wf(),
    ensures
        final(ctx).wf(),
        final(ctx).source == old(ctx).source,
        final(ctx).is_typescript == old(ctx).is_typescript,
        yields(
            r,
            final(ctx).pos as int,
            element(old(ctx).source@, old(ctx).pos as int, old(ctx).is_typescript),
        ),
        r is Ok ==> final(ctx).pos > old(ctx).pos,
    decreases old(ctx).source.len(), old(ctx).source.len() - old(ctx).pos, 1nat,
{
    match ctx.consume('<') {
        Err(e) => {
            return Err(e);
        },
        Ok(_) => {},
    }
    let c = ctx.current_char();
    if c == Some('>') {
        ctx.advance();
        return parse_fragment(ctx);
    }
    if c == Some('/') {
        return Err(
            TranspileError::UnexpectedCharacter { expected: Expected::Element, position: ctx.pos },
        );
    }
    let tag_start = ctx.pos;
    ctx.skip_class(CharClass::TagName);
    let tag_name = ctx.span(tag_start, ctx.pos);
    let props = match parse_props(ctx) {
        Err(e) => {
            return Err(e);
        },
        Ok(items) => items,
    };
    if ctx.current_char() == Some('/') {
        ctx.advance();
        match ctx.consume('>') {
            Err(e) => {
                return Err(e);
            },
            Ok(_) => {},
        }
        let none: Vec<Vec<char>> = Vec::new();
        return Ok(element_call(&tag_name, &props, &none));
    }
    match ctx.consume('>') {
        Err(e) => {
            return Err(e);
        },
        Ok(_) => {},
    }
    let children = match parse_children(ctx, &tag_name) {
        Err(e) => {
            return Err(e);
        },
        Ok(items) => items,
    };
    Ok(element_call(&tag_name, &props, &children))
}

/// Reads the children of a fragment whose `<>` has just been read and
/// returns the call that the fragment becomes.
fn parse_fragment(ctx: &mut ParseContext) -> (r: Result<Vec<char>, TranspileError>)
    requires
        old(ctx).wf(),
    ensures
        final(ctx).wf(),
        final(ctx).source == old(ctx).source,
        final(ctx).is_typescript == old(ctx).is_typescript,
        match children(
            old(ctx).source@,
            old(ctx).pos as int,
            Seq::empty(),
            old(ctx).is_typescript,
            Seq::empty(),
        ) {
            Err(e) => r is Err && r->Err_0@ == e,
            Ok(ch) => r is Ok && r->Ok_0@ == fragment_text(ch.value) && final(ctx).pos == ch.pos,
        },
        r is Ok ==> final(ctx).pos >= old(ctx).pos,
    decreases old(ctx).source.len(), old(ctx).source.len() - old(ctx).pos, 3nat,
{
    let no_tag: Vec<char> = Vec::new();
    let children = match parse_children(ctx, &no_tag) {
        Err(e) => {
            return Err(e);
        },
        Ok(items) => items,
    };
    Ok(fragment_call(&children))
}

/// Copies the string literal whose opening quote has just been read.
fn copy_literal(ctx: &mut ParseContext, out: &mut Vec<char>, quote: char) -> (r: Result<
    (),
    TranspileError,
>)
    requires
        old(ctx).wf(),
    ensures
        final(ctx).wf(),
        final(ctx).source == old(ctx).source,
        final(ctx).is_typescript == old(ctx).is_typescript,
        steps(
            r,
            final(ctx).pos as int,
            final(out)@,
            literal(
                old(ctx).source@,
                old(ctx).pos as int,
                old(out)@,
                quote,
                old(ctx).is_typescript,
            ),
        ),
        r is Ok ==> final(ctx).pos >= old(ctx).pos,
    decreases old(ctx).source.len(), old(ctx).source.len() - old(ctx).pos, 0nat,
{
    let ghost s = ctx.source@;
    let ghost ts = ctx.is_typescript;
    let ghost goal = literal(s, ctx.pos as int, out@, quote, ts);
    loop
        invariant_except_break
            literal(s, ctx.pos as int, out@, quote, ts) == goal,
        invariant
            goal == literal(
                old(ctx).source@,
                old(ctx).pos as int,
                old(out)@,
                quote,
                old(ctx).is_typescript,
            ),
            ctx.wf(),
            ctx.source == old(ctx).source,
            ctx.is_typescript == old(ctx).is_typescript,
            s == ctx.source@,
            ts == ctx.is_typescript,
            old(ctx).pos <= ctx.pos,
        ensures
            goal == Ok::<Step, ErrorView>(Step { pos: ctx.pos as int, out: out@ }),
        decreases ctx.source.len() - ctx.pos,
    {
        if ctx.pos >= ctx.source.len() {
            break ;
        }
        let c = ctx.source[ctx.pos];
        if c == '\\' {
            out.push(c);
            ctx.pos += 1;
            if ctx.pos < ctx.source.len() {
                out.push(ctx.source[ctx.pos]);
                ctx.pos += 1;
                continue ;
            }
            break ;
        }
        if c == quote {
            out.push(c);
            ctx.pos += 1;
            break ;
        }
        if quote == '`' && c == '$' && ctx.peek(1) == Some('{') {
            ctx.advance_by(2);
            let inner = match parse_braced(ctx) {
                Err(e) => {
                    return Err(e);
                },
                Ok(t) => t,
            };
            let ghost before = out@;
            out.push('$');
            out.push('{');
            push_all(out, &inner);
            out.push('}');
            assert(out@ =~= before.push('$').push('{') + inner@ + seq!['}']);
            continue ;
        }
        out.push(c);
        ctx.pos += 1;
    }
    Ok(())
}

/// Takes one step of the rewriting in JavaScript text.
fn code_one(ctx: &mut ParseContext, out: &mut Vec<char>) -> (r: Result<(), TranspileError>)
    requires
        old(ctx).wf(),
        old(ctx).pos < old(ctx).source.len(),
    ensures
        final(ctx).wf(),
        final(ctx).source == old(ctx).source,
        final(ctx).is_typescript == old(ctx).is_typescript,
        steps(
            r,
            final(ctx).pos as int,
            final(out)@,
            code_step(old(ctx).source@, old(ctx).pos as int, old(out)@, old(ctx).is_typescript),
        ),
        r is Ok ==> final(ctx).pos > old(ctx).pos,
    decreases old(ctx).source.len(), old(ctx).source.len() - old(ctx).pos, 3nat,
{
    let start = ctx.pos;
    let ch = ctx.source[start];
    let next = ctx.peek(1);
    if quote(ch) {
        out.push(ch);
        ctx.pos = start + 1;
        return copy_literal(ctx, out, ch);
    }
    if ch == '/' && next == Some('/') {
        proof {
            lemma_line_end(ctx.source@, start as int);
        }
        ctx.skip_line();
        push_range(out, &ctx.source, start, ctx.pos);
        return Ok(());
    }
    if ch == '/' && next == Some('*') {
        ctx.pos = start + 2;
        ctx.skip_comment();
        push_range(out, &ctx.source, start, ctx.pos);
        return Ok(());
    }
    if ch == '<' && ctx.is_jsx_start() {
        let call = match parse_jsx_element(ctx) {
            Err(e) => {
                return Err(e);
            },
            Ok(t) => t,
        };
        push_all(out, &call);
        return Ok(());
    }
    out.push(ch);
    ctx.pos = start + 1;
    Ok(())
}

/// Transpiles the characters `source`.
pub fn transpile_chars(source: &Vec<char>, is_typescript: bool) -> (r: Result<
    Vec<char>,
    TranspileError,
>)
    ensures
        text_outcome(r) == transpiled(source@, is_typescript),
    decreases source.len() + 1, 0nat, 0nat,
{
    let text = if is_typescript {
        strip_chars(source.clone())
    } else {
        match check_chars(source.clone()) {
            Err(e) => {
                return Err(e);
            },
            Ok(_) => {},
        }
        source.clone()
    };
    let ghost s = text@;
    let mut ctx = ParseContext::over(text, is_typescript);
    let mut out: Vec<char> = Vec::new();
    while ctx.pos < ctx.source.len()
        invariant
            ctx.wf(),
            ctx.source@ == s,
            ctx.is_typescript == is_typescript,
            s.len() <= source.len(),
            code_run(s, ctx.pos as int, out@, is_typescript) == transpiled(
                source@,
                is_typescript,
            ),
        decreases ctx.source.len() - ctx.pos,
    {
        match code_one(&mut ctx, &mut out) {
            Err(e) => {
                return Err(e);
            },
            Ok(_) => {},
        }
    }
    Ok(out)
}

/// Transpiles `source`: rewrites the JSX in it into calls of
/// `__runtime.jsx`. TypeScript is stripped first if
/// `opts.is_typescript` is set; otherwise TypeScript syntax is rejected.
///
/// Fails, with nothing written, on TypeScript syntax in plain JavaScript
/// (`TypeScriptSyntaxDetected`), a token missing in a tag or behind an
/// expression, or a closing tag with no element to close
/// (`UnexpectedCharacter`), a closing tag that names another element
/// (`MismatchedClosingTag`), and the end of the input among the children of
/// an element (`UnexpectedEof`).
pub fn transpile_jsx(source: &str, opts: &TranspileOptions) -> (r: Result<String, TranspileError>)
    ensures
        match transpiled(source@, opts.is_typescript) {
            Ok(t) => r is Ok && r->Ok_0@ == t,
            Err(e) => r is Err && r->Err_0@ == e,
        },
{
    match transpile_chars(&chars_of(source), opts.is_typescript) {
        Err(e) => Err(e),
        Ok(out) => Ok(string_of(&out)),
    }
}

/// What is found in `source` line by line: its imports, whether it looks
/// as if it held JSX, and whether it holds a call `import(`.
pub open spec fn line_metadata(source: Seq<char>) -> MetadataView {
    MetadataView {
        imports: imports_of(source),
        has_jsx: looks_like_jsx(source),
        has_dynamic_import: has_import_call(source),
        version: "0.1.0"@,
    }
}

/// Transpiles `source` and says what was found in it. Fails as
/// `transpile_jsx` does.
pub fn transpile_jsx_with_metadata(source: &str, opts: &TranspileOptions) -> (r: Result<
    (String, TranspileMetadata),
    TranspileError,
>)
    ensures
        match transpiled(source@, opts.is_typescript) {
            Ok(t) => r is Ok && r->Ok_0.0@ == t && r->Ok_0.1@ == line_metadata(source@),
            Err(e) => r is Err && r->Err_0@ == e,
        },
{
    let code = match transpile_jsx(source, opts) {
        Err(e) => {
            return Err(e);
        },
        Ok(code) => code,
    };
    let (imports, has_jsx, has_dynamic_import) = extract_imports_and_features(source);
    let metadata = TranspileMetadata {
        imports,
        has_jsx,
        has_dynamic_import,
        version: string_of(&chars_of("0.1.0")),
    };
    Ok((code, metadata))
}

} // verus!
