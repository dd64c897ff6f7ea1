//! What holds of the JSX pass, whatever the input.

use vstd::prelude::*;
use crate::chars::{CharClass, is_ascii_digit};
use crate::error::ErrorView;
use crate::jsx_parser::{
    children, children_entry, code_run, code_step, element, element_text, fragment_text, jsx_call,
    literal, Parsed, props, props_object, quoted, tag_value, transpiled,
};
use crate::scanner::{
    closing_quote, is_component, jsx_starts_at, lemma_comment_end, lemma_line_end, string_end,
};
use crate::text::{
    char_at, copied, escape, has_prefix_at, lemma_copied_push, lemma_scan_end, scan_end, trim,
    trim_start,
};
use crate::typescript::{attrs_end, check_run, rejection, skip_children, skip_element};

verus! {

/// Whether `s` ends with `t`.
pub open spec fn ends_with(s: Seq<char>, t: Seq<char>) -> bool {
    s.len() >= t.len() && s.subrange(s.len() - t.len(), s.len() as int) == t
}

/// A component is named by its tag as it stands; a host element by its tag
/// in double quotes. A tag that begins with an upper-case letter or holds a
/// `.` names a component; a tag of lower-case letters, digits and hyphens
/// names a host element.
pub proof fn lemma_tag_quoting(tag: Seq<char>, items: Seq<Seq<char>>, kids: Seq<Seq<char>>)
    ensures
        is_component(tag) ==> has_prefix_at(
            element_text(tag, items, kids),
            0,
            "__runtime.jsx("@ + tag + ", "@,
        ),
        !is_component(tag) ==> has_prefix_at(
            element_text(tag, items, kids),
            0,
            "__runtime.jsx("@ + seq!['"'] + tag + seq!['"'] + ", "@,
        ),
        tag.len() > 0 && 'A' <= tag[0] && tag[0] <= 'Z' ==> is_component(tag),
        tag.contains('.') ==> is_component(tag),
        (forall|i: int|
            0 <= i < tag.len() ==> (('a' <= #[trigger] tag[i] && tag[i] <= 'z') || is_ascii_digit(
                tag[i],
            ) || tag[i] == '-')) ==> !is_component(tag),
{
    let text = element_text(tag, items, kids);
    let head = "__runtime.jsx("@ + tag_value(tag) + ", "@;
    assert(text.subrange(0, head.len() as int) =~= head);
    if !is_component(tag) {
        assert(head =~= "__runtime.jsx("@ + seq!['"'] + tag + seq!['"'] + ", "@);
    }
}

/// An element with children has `children` as the last key of its props,
/// with the children in the order in which they were read: the call ends
/// with `children: [c1, c2, ...] })`. So does the call of a fragment.
pub proof fn lemma_children_are_last(tag: Seq<char>, items: Seq<Seq<char>>, kids: Seq<Seq<char>>)
    requires
        kids.len() > 0,
    ensures
        ends_with(element_text(tag, items, kids), children_entry(kids) + " })"@),
        ends_with(fragment_text(kids), children_entry(kids) + " })"@),
{
    reveal_strlit(" })");
    reveal_strlit(" }");
    reveal_strlit(")");
    let end = children_entry(kids) + " })"@;
    let text = element_text(tag, items, kids);
    assert(text.subrange(text.len() - end.len(), text.len() as int) =~= end);
    let ftext = fragment_text(kids);
    assert(ftext.subrange(ftext.len() - end.len(), ftext.len() as int) =~= end);
}

/// The tag of the element whose `<` stands at `pos`; empty for a fragment.
pub open spec fn tag_at(s: Seq<char>, pos: int) -> Seq<char> {
    s.subrange(pos + 1, scan_end(s, pos + 1, CharClass::TagName))
}

/// The children of the element whose `<` stands at `pos`, as the reader
/// writes them, in the order of the source; none where the element closes
/// itself or is not accepted.
pub open spec fn children_at(s: Seq<char>, pos: int, ts: bool) -> Seq<Seq<char>> {
    let start = if char_at(s, pos + 1) == Some('>') {
        Some(pos + 2)
    } else {
        match props(s, scan_end(s, pos + 1, CharClass::TagName), ts, Seq::empty()) {
            Ok(pr) => if char_at(s, pr.pos) == Some('>') {
                Some(pr.pos + 1)
            } else {
                None
            },
            Err(_) => None,
        }
    };
    match start {
        Some(p) => match children(s, p, tag_at(s, pos), ts, Seq::empty()) {
            Ok(ch) => ch.value,
            Err(_) => Seq::empty(),
        },
        None => Seq::empty(),
    }
}

/// Every element that the reader accepts, wherever it stands and whatever
/// it holds, becomes one call of the factory. A fragment is a call for the
/// container `'div'`; a component is named by its tag as it stands, a host
/// element by its tag in double quotes. Where the element has children,
/// the call ends with `children: [...] })`, the children in the order of the
/// source, so that no other key follows them.
pub proof fn lemma_element_is_a_call(s: Seq<char>, pos: int, ts: bool)
    requires
        element(s, pos, ts) is Ok,
    ensures
        ({
            let text = element(s, pos, ts)->Ok_0.value;
            let tag = tag_at(s, pos);
            let kids = children_at(s, pos, ts);
            let fragment = char_at(s, pos + 1) == Some('>');
            &&& fragment ==> has_prefix_at(text, 0, "__runtime.jsx('div', "@)
            &&& !fragment && is_component(tag) ==> has_prefix_at(
                text,
                0,
                "__runtime.jsx("@ + tag + ", "@,
            )
            &&& !fragment && !is_component(tag) ==> has_prefix_at(
                text,
                0,
                "__runtime.jsx("@ + seq!['"'] + tag + seq!['"'] + ", "@,
            )
            &&& kids.len() > 0 ==> ends_with(text, children_entry(kids) + " })"@)
            &&& kids.len() == 0 && fragment ==> text == "__runtime.jsx('div', {})"@
        }),
{
    let text = element(s, pos, ts)->Ok_0.value;
    let kids = children_at(s, pos, ts);
    if char_at(s, pos + 1) == Some('>') {
        lemma_scan_run(s, pos + 1, 0, CharClass::TagName);
        assert(tag_at(s, pos) =~= Seq::empty());
        assert(text == fragment_text(kids));
        reveal_strlit("__runtime.jsx('div', ");
        reveal_strlit("__runtime.jsx(");
        reveal_strlit("'div'");
        reveal_strlit(", ");
        reveal_strlit("{}");
        reveal_strlit(")");
        reveal_strlit("__runtime.jsx('div', {})");
        let head = "__runtime.jsx('div', "@;
        assert("__runtime.jsx("@ + "'div'"@ + ", "@ =~= head);
        assert(text.subrange(0, head.len() as int) =~= head);
        if kids.len() > 0 {
            lemma_children_are_last(Seq::empty(), Seq::empty(), kids);
        } else {
            assert(text =~= "__runtime.jsx('div', {})"@);
        }
    } else {
        let t = scan_end(s, pos + 1, CharClass::TagName);
        let items = props(s, t, ts, Seq::empty())->Ok_0.value;
        assert(text == element_text(tag_at(s, pos), items, kids));
        lemma_tag_quoting(tag_at(s, pos), items, kids);
        if kids.len() > 0 {
            lemma_children_are_last(tag_at(s, pos), items, kids);
        }
    }
}

/// The name in the closing tag that stands at `pos`, behind white space:
/// `</name>`, with white space allowed before the `>`. `None` where no
/// closing tag stands there.
pub open spec fn closing_name_at(s: Seq<char>, pos: int) -> Option<Seq<char>> {
    let p = scan_end(s, pos, CharClass::Whitespace);
    let n = scan_end(s, p + 2, CharClass::TagName);
    if char_at(s, p) == Some('<') && char_at(s, p + 1) == Some('/') && char_at(
        s,
        scan_end(s, n, CharClass::Whitespace),
    ) == Some('>') {
        Some(s.subrange(p + 2, n))
    } else {
        None
    }
}

/// Where the closing tag that stands at `pos` ends: behind its `>`.
pub open spec fn closing_tag_end(s: Seq<char>, pos: int) -> int {
    let p = scan_end(s, pos, CharClass::Whitespace);
    scan_end(s, scan_end(s, p + 2, CharClass::TagName), CharClass::Whitespace) + 1
}

/// A closing tag among the children of an element ends the element if it
/// names it. A fragment is ended by any closing tag, whatever its name, and
/// so never fails for it. A closing tag with another name fails the element
/// with `MismatchedClosingTag`, which names both tags, and nothing is
/// handed on of what was read.
pub proof fn lemma_closing_tag(
    s: Seq<char>,
    pos: int,
    parent: Seq<char>,
    ts: bool,
    items: Seq<Seq<char>>,
)
    requires
        0 <= pos <= s.len(),
        closing_name_at(s, pos) is Some,
    ensures
        parent.len() == 0 || closing_name_at(s, pos)->0 == parent ==> children(
            s,
            pos,
            parent,
            ts,
            items,
        ) == Ok::<Parsed<Seq<Seq<char>>>, ErrorView>(
            Parsed { pos: closing_tag_end(s, pos), value: items },
        ),
        parent.len() > 0 && closing_name_at(s, pos)->0 != parent ==> children(
            s,
            pos,
            parent,
            ts,
            items,
        ) == Err::<Parsed<Seq<Seq<char>>>, ErrorView>(
            (ErrorView::MismatchedClosingTag {
                open: parent,
                found: closing_name_at(s, pos)->0,
                position: closing_tag_end(s, pos),
            }),
        ),
{
}

/// The body of a string literal in single or double quotes is copied as it
/// stands, whatever it holds.
pub proof fn lemma_literal_opaque(s: Seq<char>, pos: int, out: Seq<char>, quote: char, ts: bool)
    requires
        0 <= pos <= s.len(),
        quote != '`',
    ensures
        literal(s, pos, out, quote, ts) is Ok,
        copied(s, pos, out, literal(s, pos, out, quote, ts)->Ok_0),
    decreases s.len() - pos,
{
    if pos >= s.len() {
    } else if s[pos] == '\\' {
        if pos + 1 < s.len() {
            let o = out.push('\\').push(s[pos + 1]);
            lemma_literal_opaque(s, pos + 2, o, quote, ts);
            assert(o =~= out + s.subrange(pos, pos + 2));
            lemma_copied_push(s, pos, out, literal(s, pos + 2, o, quote, ts)->Ok_0, 2);
        } else {
            assert(out.push('\\') =~= out + s.subrange(pos, pos + 1));
        }
    } else if s[pos] == quote {
        assert(out.push(quote) =~= out + s.subrange(pos, pos + 1));
    } else {
        let o = out.push(s[pos]);
        lemma_literal_opaque(s, pos + 1, o, quote, ts);
        assert(o =~= out + s.subrange(pos, pos + 1));
        lemma_copied_push(s, pos, out, literal(s, pos + 1, o, quote, ts)->Ok_0, 1);
    }
}

/// Whether a comment or a string literal in single or double quotes begins
/// at `pos`.
pub open spec fn plain_opaque_at(s: Seq<char>, pos: int) -> bool {
    0 <= pos < s.len() && (s[pos] == '"' || s[pos] == '\'' || (s[pos] == '/' && (char_at(
        s,
        pos + 1,
    ) == Some('/') || char_at(s, pos + 1) == Some('*'))))
}

/// Strings and comments are opaque to the JSX pass: where a comment or a
/// string literal in single or double quotes begins, the step copies it to
/// the output unchanged, whatever it holds, and the pass goes on behind it.
pub proof fn lemma_jsx_opaque(s: Seq<char>, pos: int, out: Seq<char>, ts: bool)
    requires
        plain_opaque_at(s, pos),
    ensures
        code_step(s, pos, out, ts) is Ok,
        copied(s, pos, out, code_step(s, pos, out, ts)->Ok_0),
        pos < code_step(s, pos, out, ts)->Ok_0.pos,
        code_run(s, pos, out, ts) == code_run(
            s,
            code_step(s, pos, out, ts)->Ok_0.pos,
            out + s.subrange(pos, code_step(s, pos, out, ts)->Ok_0.pos),
            ts,
        ),
{
    if s[pos] == '"' || s[pos] == '\'' {
        let o = out.push(s[pos]);
        lemma_literal_opaque(s, pos + 1, o, s[pos], ts);
        assert(o =~= out + s.subrange(pos, pos + 1));
        lemma_copied_push(s, pos, out, literal(s, pos + 1, o, s[pos], ts)->Ok_0, 1);
    } else if char_at(s, pos + 1) == Some('/') {
        lemma_line_end(s, pos);
    } else {
        lemma_comment_end(s, pos + 2);
    }
}

/// A scan over `n` characters of its class that meets another character, or
/// the end of the text, stops there.
pub proof fn lemma_scan_run(s: Seq<char>, pos: int, n: int, class: CharClass)
    requires
        0 <= pos,
        0 <= n,
        pos + n <= s.len(),
        forall|i: int| pos <= i < pos + n ==> class.holds(#[trigger] s[i]),
        pos + n == s.len() || !class.holds(s[pos + n]),
    ensures
        scan_end(s, pos, class) == pos + n,
    decreases n,
{
    if n > 0 {
        lemma_scan_run(s, pos + 1, n - 1, class);
    }
}

/// A text that needs no escaping.
pub open spec fn is_plain_text(v: Seq<char>) -> bool {
    forall|i: int|
        0 <= i < v.len() ==> #[trigger] v[i] != '"' && v[i] != '\\' && v[i] != '\n' && v[i] != '\r'
            && v[i] != '\t'
}

/// Escaping leaves a text alone that holds no backslash, double quote, line
/// feed, carriage return or tab.
pub proof fn lemma_escape_plain(v: Seq<char>)
    requires
        is_plain_text(v),
    ensures
        escape(v) == v,
    decreases v.len(),
{
    if v.len() > 0 {
        let head = v.drop_last();
        assert forall|i: int| 0 <= i < head.len() implies #[trigger] head[i] != '"' && head[i]
            != '\\' && head[i] != '\n' && head[i] != '\r' && head[i] != '\t' by {}
        lemma_escape_plain(head);
    }
}

/// In front of `n` characters that are neither double quotes nor
/// backslashes, and a double quote behind them, the double quote that closes
/// the literal is that one.
proof fn lemma_plain_literal(s: Seq<char>, pos: int, n: int)
    requires
        0 <= pos,
        0 <= n,
        pos + n < s.len(),
        forall|i: int| pos <= i < pos + n ==> #[trigger] s[i] != '"' && s[i] != '\\',
        s[pos + n] == '"',
    ensures
        closing_quote(s, pos, '"') == pos + n,
        string_end(s, pos, '"') == pos + n + 1,
    decreases n,
{
    if n > 0 {
        lemma_plain_literal(s, pos + 1, n - 1);
    }
}

/// An attribute with a value in double quotes.
pub struct Attr {
    pub name: Seq<char>,
    pub value: Seq<char>,
}

/// A tag of a host element: lower-case ASCII letters, digits and hyphens,
/// beginning with a letter.
pub open spec fn is_host_tag(tag: Seq<char>) -> bool {
    tag.len() > 0 && 'a' <= tag[0] && tag[0] <= 'z' && forall|i: int|
        0 <= i < tag.len() ==> (('a' <= #[trigger] tag[i] && tag[i] <= 'z') || is_ascii_digit(
            tag[i],
        ) || tag[i] == '-')
}

/// The name of an attribute: ASCII letters, digits, `-` and `_`, beginning
/// with a letter.
pub open spec fn is_attr_name(name: Seq<char>) -> bool {
    name.len() > 0 && crate::chars::is_ascii_letter(name[0]) && forall|i: int|
        0 <= i < name.len() ==> (crate::chars::is_ascii_letter(#[trigger] name[i])
            || is_ascii_digit(name[i]) || name[i] == '-' || name[i] == '_')
}

/// A text that can stand between double quotes as it is: it holds no double
/// quote and no backslash.
pub open spec fn is_quotable(v: Seq<char>) -> bool {
    forall|i: int| 0 <= i < v.len() ==> #[trigger] v[i] != '"' && v[i] != '\\'
}

/// Attributes with well-formed names and values that can stand between double
/// quotes.
pub open spec fn are_plain_attrs(attrs: Seq<Attr>) -> bool {
    forall|i: int|
        0 <= i < attrs.len() ==> is_attr_name(#[trigger] attrs[i].name) && is_quotable(
            attrs[i].value,
        )
}

/// An attribute as it is written in a tag: a space, then `name="value"`.
pub open spec fn attr_source(a: Attr) -> Seq<char> {
    seq![' '] + a.name + seq!['=', '"'] + a.value + seq!['"']
}

/// An attribute as an entry of the props: `name: "value"`, with line feeds,
/// carriage returns and tabs in the value escaped.
pub open spec fn attr_item(a: Attr) -> Seq<char> {
    a.name + ": "@ + quoted(a.value)
}

/// The entry of an attribute whose value needs no escaping is `name:
/// "value"` with the value as it was written.
pub proof fn lemma_plain_attr_item(a: Attr)
    requires
        is_plain_text(a.value),
    ensures
        attr_item(a) == a.name + ": "@ + (seq!['"'] + a.value + seq!['"']),
{
    lemma_escape_plain(a.value);
}

/// The entries of the props for a list of attributes, in the order of the
/// list.
pub open spec fn attr_items(attrs: Seq<Attr>) -> Seq<Seq<char>> {
    Seq::new(attrs.len(), |i: int| attr_item(attrs[i]))
}

/// The attributes from the `k`-th on as they are written in a tag, and the
/// `/>` that closes the tag.
pub open spec fn tail_source(attrs: Seq<Attr>, k: int) -> Seq<char>
    decreases attrs.len() - k,
{
    if k < 0 || k >= attrs.len() {
        seq!['/', '>']
    } else {
        attr_source(attrs[k]) + tail_source(attrs, k + 1)
    }
}

/// A self-closing element as it is written: `<tag name="value" .../>`.
pub open spec fn self_closing_source(tag: Seq<char>, attrs: Seq<Attr>) -> Seq<char> {
    seq!['<'] + tag + tail_source(attrs, 0)
}

proof fn lemma_tail_len(attrs: Seq<Attr>, k: int)
    ensures
        tail_source(attrs, k).len() >= 2,
    decreases attrs.len() - k,
{
    if 0 <= k < attrs.len() {
        lemma_tail_len(attrs, k + 1);
    }
}

proof fn lemma_tail_end(s: Seq<char>, pos: int, attrs: Seq<Attr>, k: int)
    requires
        k >= attrs.len(),
        has_prefix_at(s, pos, tail_source(attrs, k)),
    ensures
        tail_source(attrs, k).len() == 2,
        pos + 2 <= s.len(),
        s[pos] == '/',
        s[pos + 1] == '>',
{
    let t = s.subrange(pos, pos + 2);
    assert(t[0] == '/');
    assert(t[1] == '>');
}

/// Where the parts of the `k`-th attribute stand in a text that holds the
/// attributes from the `k`-th on at `pos`.
proof fn lemma_attr_layout(s: Seq<char>, pos: int, attrs: Seq<Attr>, k: int)
    requires
        0 <= k < attrs.len(),
        has_prefix_at(s, pos, tail_source(attrs, k)),
    ensures
        ({
            let nl = attrs[k].name.len() as int;
            let vl = attrs[k].value.len() as int;
            &&& tail_source(attrs, k).len() == 4 + nl + vl + tail_source(attrs, k + 1).len()
            &&& pos + 4 + nl + vl + 2 <= s.len()
            &&& s[pos] == ' '
            &&& s.subrange(pos + 1, pos + 1 + nl) == attrs[k].name
            &&& s[pos + 1 + nl] == '='
            &&& s[pos + 2 + nl] == '"'
            &&& s.subrange(pos + 3 + nl, pos + 3 + nl + vl) == attrs[k].value
            &&& s[pos + 3 + nl + vl] == '"'
            &&& has_prefix_at(s, pos + 4 + nl + vl, tail_source(attrs, k + 1))
        }),
{
    let a = attrs[k];
    let nl = a.name.len() as int;
    let vl = a.value.len() as int;
    let rest = tail_source(attrs, k + 1);
    lemma_tail_len(attrs, k + 1);
    let t = s.subrange(pos, pos + tail_source(attrs, k).len());
    assert(t[0] == ' ');
    assert(t[1 + nl] == '=');
    assert(t[2 + nl] == '"');
    assert(t[3 + nl + vl] == '"');
    assert(s.subrange(pos + 1, pos + 1 + nl) =~= a.name) by {
        assert forall|i: int| 0 <= i < nl implies s.subrange(pos + 1, pos + 1 + nl)[i]
            == a.name[i] by {
            assert(s[pos + 1 + i] == t[1 + i]);
        }
    }
    assert(s.subrange(pos + 3 + nl, pos + 3 + nl + vl) =~= a.value) by {
        assert forall|i: int| 0 <= i < vl implies s.subrange(pos + 3 + nl, pos + 3 + nl + vl)[i]
            == a.value[i] by {
            assert(s[pos + 3 + nl + i] == t[3 + nl + i]);
        }
    }
    let next = pos + 4 + nl + vl;
    assert(s.subrange(next, next + rest.len()) =~= rest) by {
        assert forall|i: int| 0 <= i < rest.len() implies s.subrange(next, next + rest.len())[i]
            == rest[i] by {
            assert(s[next + i] == t[4 + nl + vl + i]);
        }
    }
}

/// The facts about one plain attribute that the scans need.
proof fn lemma_attr_scans(s: Seq<char>, pos: int, attrs: Seq<Attr>, k: int)
    requires
        0 <= k < attrs.len(),
        are_plain_attrs(attrs),
        has_prefix_at(s, pos, tail_source(attrs, k)),
    ensures
        ({
            let nl = attrs[k].name.len() as int;
            let vl = attrs[k].value.len() as int;
            &&& scan_end(s, pos, CharClass::Whitespace) == pos + 1
            &&& scan_end(s, pos + 1, CharClass::PropName) == pos + 1 + nl
            &&& scan_end(s, pos + 1, CharClass::AttrName) == pos + 1 + nl
            &&& scan_end(s, pos + 1 + nl, CharClass::Whitespace) == pos + 1 + nl
            &&& scan_end(s, pos + 2 + nl, CharClass::Whitespace) == pos + 2 + nl
            &&& closing_quote(s, pos + 3 + nl, '"') == pos + 3 + nl + vl
            &&& string_end(s, pos + 3 + nl, '"') == pos + 4 + nl + vl
            &&& crate::chars::alphabetic(s[pos + 1])
        }),
{
    lemma_attr_layout(s, pos, attrs, k);
    let a = attrs[k];
    let nl = a.name.len() as int;
    let vl = a.value.len() as int;
    assert forall|i: int| pos + 1 <= i < pos + 1 + nl implies CharClass::PropName.holds(
        #[trigger] s[i],
    ) && CharClass::AttrName.holds(s[i]) by {
        assert(s[i] == s.subrange(pos + 1, pos + 1 + nl)[i - pos - 1]);
    }
    lemma_scan_run(s, pos, 1, CharClass::Whitespace);
    lemma_scan_run(s, pos + 1, nl, CharClass::PropName);
    lemma_scan_run(s, pos + 1, nl, CharClass::AttrName);
    lemma_scan_run(s, pos + 1 + nl, 0, CharClass::Whitespace);
    lemma_scan_run(s, pos + 2 + nl, 0, CharClass::Whitespace);
    assert forall|i: int| pos + 3 + nl <= i < pos + 3 + nl + vl implies #[trigger] s[i] != '"'
        && s[i] != '\\' by {
        assert(s[i] == s.subrange(pos + 3 + nl, pos + 3 + nl + vl)[i - pos - 3 - nl]);
    }
    lemma_plain_literal(s, pos + 3 + nl, vl);
}

/// Plain attributes and the `/>` behind them are read in order, up to the
/// `/`, wherever they stand.
proof fn lemma_props_of_tail(
    s: Seq<char>,
    pos: int,
    ts: bool,
    attrs: Seq<Attr>,
    k: int,
    items: Seq<Seq<char>>,
)
    requires
        0 <= k <= attrs.len(),
        are_plain_attrs(attrs),
        has_prefix_at(s, pos, tail_source(attrs, k)),
    ensures
        props(s, pos, ts, items) == Ok::<Parsed<Seq<Seq<char>>>, ErrorView>(
            Parsed {
                pos: pos + tail_source(attrs, k).len() - 2,
                value: items + attr_items(attrs).subrange(k, attrs.len() as int),
            },
        ),
        s[pos + tail_source(attrs, k).len() - 2] == '/',
        s[pos + tail_source(attrs, k).len() - 1] == '>',
    decreases attrs.len() - k,
{
    if k >= attrs.len() {
        lemma_tail_end(s, pos, attrs, k);
        lemma_scan_run(s, pos, 0, CharClass::Whitespace);
    } else {
        let a = attrs[k];
        let nl = a.name.len() as int;
        let vl = a.value.len() as int;
        lemma_attr_layout(s, pos, attrs, k);
        lemma_attr_scans(s, pos, attrs, k);
        let c = pos + 3 + nl + vl;
        let next = items.push(a.name + ": "@ + quoted(a.value));
        lemma_props_of_tail(s, c + 1, ts, attrs, k + 1, next);
        assert(next + attr_items(attrs).subrange(k + 1, attrs.len() as int) =~= items
            + attr_items(attrs).subrange(k, attrs.len() as int));
    }
}

/// Plain attributes and the `/>` behind them are skipped up to the `/`,
/// wherever they stand.
proof fn lemma_attrs_end_of_tail(s: Seq<char>, pos: int, attrs: Seq<Attr>, k: int)
    requires
        0 <= k <= attrs.len(),
        are_plain_attrs(attrs),
        has_prefix_at(s, pos, tail_source(attrs, k)),
    ensures
        attrs_end(s, pos) == pos + tail_source(attrs, k).len() - 2,
    decreases attrs.len() - k,
{
    if k >= attrs.len() {
        lemma_tail_end(s, pos, attrs, k);
    } else {
        let a = attrs[k];
        let nl = a.name.len() as int;
        let vl = a.value.len() as int;
        lemma_attr_layout(s, pos, attrs, k);
        lemma_attr_scans(s, pos, attrs, k);
        lemma_attrs_end_of_tail(s, pos + 4 + nl + vl, attrs, k + 1);
    }
}

/// How a self-closing host element is laid out in a text that holds it at
/// `pos`: the tag behind `<`, then the attributes and `/>`. At the start of
/// a text its `<` opens JSX.
proof fn lemma_self_closing_layout(s: Seq<char>, pos: int, tag: Seq<char>, attrs: Seq<Attr>)
    requires
        is_host_tag(tag),
        are_plain_attrs(attrs),
        has_prefix_at(s, pos, self_closing_source(tag, attrs)),
    ensures
        ({
            let t = pos + 1 + tag.len() as int;
            &&& self_closing_source(tag, attrs).len() == 1 + tag.len() + tail_source(
                attrs,
                0,
            ).len()
            &&& t + 2 <= s.len()
            &&& s[pos] == '<'
            &&& s[pos + 1] != '>'
            &&& s[pos + 1] != '/'
            &&& s.subrange(pos + 1, t) == tag
            &&& has_prefix_at(s, t, tail_source(attrs, 0))
            &&& scan_end(s, pos + 1, CharClass::TagName) == t
            &&& pos == 0 ==> jsx_starts_at(s, 0)
        }),
{
    let src = self_closing_source(tag, attrs);
    let t = pos + 1 + tag.len() as int;
    let tail = tail_source(attrs, 0);
    lemma_tail_len(attrs, 0);
    let w = s.subrange(pos, pos + src.len());
    assert(w[0] == '<');
    assert forall|i: int| 0 <= i < tag.len() implies s[pos + 1 + i] == tag[i] by {
        assert(s[pos + 1 + i] == w[1 + i]);
    }
    assert(s.subrange(pos + 1, t) =~= tag);
    assert(s.subrange(t, t + tail.len()) =~= tail) by {
        assert forall|i: int| 0 <= i < tail.len() implies s.subrange(t, t + tail.len())[i]
            == tail[i] by {
            assert(s[t + i] == w[1 + tag.len() + i]);
        }
    }
    assert forall|i: int| pos + 1 <= i < t implies CharClass::TagName.holds(#[trigger] s[i]) by {
        assert(s[i] == tag[i - pos - 1]);
    }
    if attrs.len() == 0 {
        lemma_tail_end(s, t, attrs, 0);
        lemma_scan_run(s, t, 0, CharClass::Whitespace);
    } else {
        lemma_attr_layout(s, t, attrs, 0);
        lemma_attr_scans(s, t, attrs, 0);
    }
    lemma_scan_run(s, pos + 1, tag.len() as int, CharClass::TagName);
}

/// An element whose attributes end at `/>`, at the end of the text, is
/// skipped whole.
proof fn lemma_skip_self_closing(s: Seq<char>, tag_end: int)
    requires
        3 <= s.len(),
        s[0] == '<',
        s[1] != '>',
        scan_end(s, 1, CharClass::TagName) == tag_end,
        attrs_end(s, tag_end) == s.len() - 2,
        s[s.len() - 2] == '/',
        s[s.len() - 1] == '>',
    ensures
        skip_element(s, 0) == Ok::<int, ErrorView>(s.len() as int),
{
}

/// The rejection pass passes over a self-closing host element.
proof fn lemma_self_closing_accepted(tag: Seq<char>, attrs: Seq<Attr>)
    requires
        is_host_tag(tag),
        are_plain_attrs(attrs),
    ensures
        rejection(self_closing_source(tag, attrs)) == Ok::<(), ErrorView>(()),
{
    let s = self_closing_source(tag, attrs);
    let t = 1 + tag.len() as int;
    assert(s.subrange(0, s.len() as int) =~= s);
    lemma_self_closing_layout(s, 0, tag, attrs);
    lemma_props_of_tail(s, t, false, attrs, 0, Seq::empty());
    lemma_attrs_end_of_tail(s, t, attrs, 0);
    lemma_skip_self_closing(s, t);
    assert(check_run(s, s.len() as int) == Ok::<(), ErrorView>(()));
}

/// An element whose attributes end at `/>` becomes one call without
/// children.
proof fn lemma_element_self_closing(
    s: Seq<char>,
    pos: int,
    ts: bool,
    tag_end: int,
    slash: int,
    items: Seq<Seq<char>>,
)
    requires
        0 <= pos,
        pos + 1 < s.len(),
        s[pos] == '<',
        s[pos + 1] != '>',
        s[pos + 1] != '/',
        scan_end(s, pos + 1, CharClass::TagName) == tag_end,
        props(s, tag_end, ts, Seq::empty()) == Ok::<Parsed<Seq<Seq<char>>>, ErrorView>(
            Parsed { pos: slash, value: items },
        ),
        0 <= slash,
        slash + 1 < s.len(),
        s[slash] == '/',
        s[slash + 1] == '>',
    ensures
        element(s, pos, ts) == Ok::<Parsed<Seq<char>>, ErrorView>(
            Parsed {
                pos: slash + 2,
                value: element_text(s.subrange(pos + 1, tag_end), items, Seq::empty()),
            },
        ),
{
}

/// A host tag names no component.
proof fn lemma_host_tag(tag: Seq<char>)
    requires
        is_host_tag(tag),
    ensures
        !is_component(tag),
        tag_value(tag) == seq!['"'] + tag + seq!['"'],
{
}

/// Wherever a well-formed self-closing host element `<tag name="value"
/// .../>` stands in a text, in plain JavaScript or in TypeScript, the reader
/// of elements makes of it the call `__runtime.jsx("tag", { name: "value",
/// ... })`, with the attributes in the order in which they were written, and
/// ends behind its `/>`; with no attributes the props are `{}`. The values
/// are those of the source where they need no escaping
/// (`lemma_plain_attr_item`).
pub proof fn lemma_self_closing_host_element_at(
    s: Seq<char>,
    pos: int,
    ts: bool,
    tag: Seq<char>,
    attrs: Seq<Attr>,
)
    requires
        is_host_tag(tag),
        are_plain_attrs(attrs),
        has_prefix_at(s, pos, self_closing_source(tag, attrs)),
    ensures
        element(s, pos, ts) == Ok::<Parsed<Seq<char>>, ErrorView>(
            Parsed {
                pos: pos + self_closing_source(tag, attrs).len(),
                value: jsx_call(seq!['"'] + tag + seq!['"'], props_object(attr_items(attrs))),
            },
        ),
{
    let t = pos + 1 + tag.len() as int;
    lemma_self_closing_layout(s, pos, tag, attrs);
    lemma_props_of_tail(s, t, ts, attrs, 0, Seq::empty());
    assert(Seq::<Seq<char>>::empty() + attr_items(attrs).subrange(0, attrs.len() as int)
        =~= attr_items(attrs));
    let slash = t + tail_source(attrs, 0).len() - 2;
    lemma_element_self_closing(s, pos, ts, t, slash, attr_items(attrs));
    lemma_host_tag(tag);
}

/// A text that is one well-formed self-closing host element `<tag
/// name="value" .../>` becomes, as plain JavaScript, the call
/// `__runtime.jsx("tag", { name: "value", ... })`, with the attributes in the
/// order in which they were written; with no attributes the props are `{}`.
pub proof fn lemma_self_closing_host_element(tag: Seq<char>, attrs: Seq<Attr>)
    requires
        is_host_tag(tag),
        are_plain_attrs(attrs),
    ensures
        transpiled(self_closing_source(tag, attrs), false) == Ok::<Seq<char>, ErrorView>(
            jsx_call(seq!['"'] + tag + seq!['"'], props_object(attr_items(attrs))),
        ),
{
    let s = self_closing_source(tag, attrs);
    assert(s.subrange(0, s.len() as int) =~= s);
    lemma_self_closing_layout(s, 0, tag, attrs);
    lemma_self_closing_accepted(tag, attrs);
    lemma_self_closing_host_element_at(s, 0, false, tag, attrs);
}

/// A fragment as it is written: `<>text</closing>`.
pub open spec fn fragment_source(text: Seq<char>, closing: Seq<char>) -> Seq<char> {
    seq!['<', '>'] + text + seq!['<', '/'] + closing + seq!['>']
}

/// The children that a run of text makes: the text without the white space
/// at its ends as one string literal, or nothing if only white space is
/// there.
pub open spec fn text_children(text: Seq<char>) -> Seq<Seq<char>> {
    let t = trim(trim_start(text));
    if t.len() > 0 {
        seq![quoted(t)]
    } else {
        Seq::empty()
    }
}

/// A run of text: no `<` and no `{`.
pub open spec fn is_jsx_text(text: Seq<char>) -> bool {
    forall|i: int| 0 <= i < text.len() ==> CharClass::Text.holds(#[trigger] text[i])
}

/// A tag name, possibly empty.
pub open spec fn is_tag_name(name: Seq<char>) -> bool {
    forall|i: int| 0 <= i < name.len() ==> CharClass::TagName.holds(#[trigger] name[i])
}

/// A fragment never fails for its closing tag and always becomes a call for
/// the container element `div`: in plain JavaScript `<>text</name>`, with
/// any run of text and any closing name, becomes
/// `__runtime.jsx('div', { children: ["text"] })`, and
/// `__runtime.jsx('div', {})` where the text is empty or white
/// space.
pub proof fn lemma_fragment(text: Seq<char>, closing: Seq<char>)
    requires
        is_jsx_text(text),
        is_tag_name(closing),
    ensures
        transpiled(fragment_source(text, closing), false) == Ok::<Seq<char>, ErrorView>(
            fragment_text(text_children(text)),
        ),
{
    let s = fragment_source(text, closing);
    let l = text.len() as int;
    let c = closing.len() as int;
    let a = scan_end(text, 0, CharClass::Whitespace);
    lemma_scan_end(text, 0, CharClass::Whitespace);
    assert forall|i: int| 0 <= i < l implies s[2 + i] == text[i] by {}
    assert forall|i: int| 0 <= i < c implies s[4 + l + i] == closing[i] by {}
    // the white space in front of the text
    assert forall|i: int| 2 <= i < 2 + a implies CharClass::Whitespace.holds(#[trigger] s[i]) by {}
    lemma_scan_run(s, 2, a, CharClass::Whitespace);
    let p = 2 + a;
    // the closing tag
    assert forall|i: int| 4 + l <= i < 4 + l + c implies CharClass::TagName.holds(
        #[trigger] s[i],
    ) by {}
    lemma_scan_run(s, 4 + l, c, CharClass::TagName);
    lemma_scan_run(s, 4 + l + c, 0, CharClass::Whitespace);
    lemma_scan_run(s, 2 + l, 0, CharClass::Whitespace);
    let kids = text_children(text);
    let none = Seq::<Seq<char>>::empty();
    let empty = Seq::<char>::empty();
    assert(skip_children(s, 2 + l) == Ok::<int, ErrorView>(s.len() as int));
    if a < l {
        assert forall|i: int| p <= i < 2 + l implies CharClass::Text.holds(#[trigger] s[i]) by {}
        lemma_scan_run(s, p, l - a, CharClass::Text);
        assert(s.subrange(p, 2 + l) =~= text.subrange(a, l));
        assert(children(s, 2, empty, false, none) == children(s, 2 + l, empty, false, kids));
    }
    assert(check_run(s, s.len() as int) == Ok::<(), ErrorView>(()));
}

} // verus!
