//! The import statements of a module, read line by line.
//!
//! A line counts if, after leading white space, it begins with `import `.
//! Four forms are read: `import 'mod'`, `import { a, b as c } from 'mod'`,
//! `import * as ns from 'mod'` and `import name from 'mod'`. Anything else
//! is passed over.

use vstd::prelude::*;
use crate::chars::CharClass;
use crate::scanner::closing_quote;
use crate::metadata::{
    binding_views, BindingView, import_views, ImportBinding, ImportBindingType, ImportKind,
    ImportMetadata, ImportView, lemma_binding_views_push, lemma_import_views_push,
};
use crate::scanner::{lemma_line_end, line_end};
use crate::text::{
    char_at, chars_of, find_text, has_prefix_at, has_text, includes, is_text, lemma_scan_end,
    lemma_text_index, scan, scan_back, scan_backward, scan_end, slice_of, starts_with_at, string_of,
    text_index, trim, trim_end, trim_start, trimmed, trimmed_end, trimmed_start,
};

verus! {

/// One of the modules that the engine builds in.
pub open spec fn is_builtin_module(name: Seq<char>) -> bool {
    name == "assert"@ || name == "buffer"@ || name == "child_process"@ || name == "cluster"@
        || name == "crypto"@ || name == "dgram"@ || name == "dns"@ || name == "domain"@ || name
        == "events"@ || name == "fs"@ || name == "http"@ || name == "https"@ || name == "net"@
        || name == "os"@ || name == "path"@ || name == "punycode"@ || name == "querystring"@
        || name == "readline"@ || name == "stream"@ || name == "string_decoder"@ || name
        == "timers"@ || name == "tls"@ || name == "tty"@ || name == "url"@ || name == "util"@
        || name == "v8"@ || name == "vm"@ || name == "zlib"@
}

/// One of the packages that the host resolves itself.
pub open spec fn is_special_package(source: Seq<char>) -> bool {
    source == "react"@ || source == "react-dom"@ || source == "@clevertree/meta"@ || source
        == "@clevertree/file-renderer"@ || source == "@clevertree/helpers"@ || source
        == "@clevertree/markdown"@
}

/// Where the module `source` comes from. A module is built in if the part of
/// its name before the first `/` is the name of a built-in module, or if its
/// name begins with `node:`.
pub open spec fn import_kind(source: Seq<char>) -> ImportKind {
    if is_builtin_module(source.subrange(0, scan_end(source, 0, CharClass::Except('/'))))
        || has_prefix_at(source, 0, "node:"@) {
        ImportKind::Builtin
    } else if is_special_package(source) {
        ImportKind::SpecialPackage
    } else {
        ImportKind::Module
    }
}

/// The text of the string literal that opens at `pos` with `"` or `'`, if it
/// is closed.
pub open spec fn quoted_at(s: Seq<char>, pos: int) -> Option<Seq<char>> {
    match char_at(s, pos) {
        Some(q) => {
            if (q == '"' || q == '\'') && closing_quote(s, pos + 1, q) < s.len() {
                Some(s.subrange(pos + 1, closing_quote(s, pos + 1, q)))
            } else {
                None
            }
        },
        None => None,
    }
}

/// The binding that one part of a list `{ a, b as c }` stands for: its name
/// and, behind ` as `, its alias; nothing if the part has no name.
pub open spec fn binding_of_part(part: Seq<char>) -> Option<BindingView> {
    let p = trim(part);
    let i = text_index(p, 0, " as "@);
    let name = trim(p.subrange(0, i));
    if name.len() == 0 {
        None
    } else {
        Some(
            BindingView {
                binding_type: ImportBindingType::Named,
                name,
                alias: if i < p.len() {
                    Some(trim(p.subrange(i + 4, text_index(p, i + 4, " as "@))))
                } else {
                    None
                },
            },
        )
    }
}

/// The bindings of a list of names separated by commas, from `pos` on.
pub open spec fn named_bindings(text: Seq<char>, pos: int, acc: Seq<BindingView>) -> Seq<
    BindingView,
>
    decreases text.len() - pos,
{
    if pos < 0 || pos > text.len() {
        acc
    } else {
        let end = scan_end(text, pos, CharClass::Except(','));
        let next = match binding_of_part(text.subrange(pos, end)) {
            Some(b) => acc.push(b),
            None => acc,
        };
        proof {
            lemma_scan_end(text, pos, CharClass::Except(','));
        }
        if end >= text.len() {
            next
        } else {
            named_bindings(text, end + 1, next)
        }
    }
}

/// An import of `module` with the given bindings.
pub open spec fn import_of(module: Seq<char>, bindings: Seq<BindingView>) -> ImportView {
    ImportView { source: module, kind: import_kind(module), bindings }
}

/// Where the clause of an import line begins: behind `import ` and white
/// space.
pub open spec fn clause_start(line: Seq<char>) -> int {
    scan_end(line, 7, CharClass::Whitespace)
}

/// `import 'mod'`.
pub open spec fn side_effect_import(line: Seq<char>) -> Option<ImportView> {
    match quoted_at(line, clause_start(line)) {
        Some(m) => Some(import_of(m, Seq::empty())),
        None => None,
    }
}

/// `import { a, b as c } from 'mod'`.
pub open spec fn named_import(line: Seq<char>) -> Option<ImportView> {
    let a = clause_start(line);
    let close = scan_end(line, a + 1, CharClass::Except('}'));
    let r = scan_end(line, close + 1, CharClass::Whitespace);
    if char_at(line, a) != Some('{') || close >= line.len() || !has_prefix_at(line, r, "from "@) {
        None
    } else {
        match quoted_at(line, scan_end(line, r + 5, CharClass::Whitespace)) {
            Some(m) => Some(
                import_of(m, named_bindings(line.subrange(a + 1, close), 0, Seq::empty())),
            ),
            None => None,
        }
    }
}

/// `import * as ns from 'mod'` if `namespace` is set, `import name from
/// 'mod'` if not.
pub open spec fn binding_import(line: Seq<char>, namespace: bool) -> Option<ImportView> {
    let a = clause_start(line);
    let start = if namespace {
        a + 5
    } else {
        a
    };
    let e = scan_end(line, start, CharClass::Word);
    let r = scan_end(line, e, CharClass::Whitespace);
    if (namespace && !has_prefix_at(line, a, "* as "@)) || e <= start || !has_prefix_at(
        line,
        r,
        "from "@,
    ) {
        None
    } else {
        match quoted_at(line, r + 5) {
            Some(m) => Some(
                import_of(
                    m,
                    seq![
                        BindingView {
                            binding_type: if namespace {
                                ImportBindingType::Namespace
                            } else {
                                ImportBindingType::Default
                            },
                            name: line.subrange(start, e),
                            alias: None,
                        },
                    ],
                ),
            ),
            None => None,
        }
    }
}

/// A line without leading white space, without the semicolons at its end and
/// without the white space in front of them.
pub open spec fn statement_of(raw: Seq<char>) -> Seq<char> {
    let l = trim_start(raw);
    trim_end(l.subrange(0, scan_back(l, l.len() as int, CharClass::Only(';'))))
}

/// The import that a line makes, if it makes one.
pub open spec fn import_of_line(raw: Seq<char>) -> Option<ImportView> {
    let line = statement_of(raw);
    if !has_prefix_at(trim_start(raw), 0, "import "@) || !has_prefix_at(line, 0, "import "@) {
        None
    } else if side_effect_import(line) is Some {
        side_effect_import(line)
    } else if named_import(line) is Some {
        named_import(line)
    } else if binding_import(line, true) is Some {
        binding_import(line, true)
    } else {
        binding_import(line, false)
    }
}

/// The line that begins at `pos`, without its line feed and without a
/// carriage return in front of the line feed.
pub open spec fn line_at(s: Seq<char>, pos: int) -> Seq<char> {
    let nl = scan_end(s, pos, CharClass::NotNewline);
    if nl < s.len() && pos < nl && s[nl - 1] == '\r' {
        s.subrange(pos, nl - 1)
    } else {
        s.subrange(pos, nl)
    }
}

/// The imports of the lines from `pos` on, added to `acc`.
pub open spec fn imports_from(s: Seq<char>, pos: int, acc: Seq<ImportView>) -> Seq<ImportView>
    decreases s.len() - pos,
{
    if pos < 0 || pos >= s.len() {
        acc
    } else {
        proof {
            lemma_line_end(s, pos);
        }
        imports_from(
            s,
            line_end(s, pos),
            match import_of_line(line_at(s, pos)) {
                Some(i) => acc.push(i),
                None => acc,
            },
        )
    }
}

/// The imports of a source, in the order of its lines.
pub open spec fn imports_of(source: Seq<char>) -> Seq<ImportView> {
    imports_from(source, 0, Seq::empty())
}

/// Whether a source looks as if it held JSX: a `<`, and `/>` or `</`.
pub open spec fn looks_like_jsx(source: Seq<char>) -> bool {
    includes(source, "<"@) && (includes(source, "/>"@) || includes(source, "</"@))
}

/// Whether a source holds a call `import(`.
pub open spec fn has_import_call(source: Seq<char>) -> bool {
    includes(source, "import("@)
}

/// The offset of the quote that closes the string literal whose body starts
/// at `pos`.
pub fn find_closing_quote(src: &Vec<char>, pos: usize, q: char) -> (r: usize)
    requires
        pos <= src.len(),
    ensures
        r == closing_quote(src@, pos as int, q),
        pos <= r <= src.len(),
{
    let mut i: usize = pos;
    loop
        invariant_except_break
            closing_quote(src@, i as int, q) == closing_quote(src@, pos as int, q),
        invariant
            pos <= i <= src.len(),
        ensures
            i == closing_quote(src@, pos as int, q),
        decreases src.len() - i,
    {
        if i >= src.len() {
            break ;
        }
        let c = src[i];
        if c == q {
            break ;
        }
        if c == '\\' {
            i = if src.len() - i >= 2 {
                i + 2
            } else {
                src.len()
            };
        } else {
            i += 1;
        }
    }
    i
}

/// The text of the string literal that opens at `pos`, if one does and it is
/// closed.
pub fn parse_quoted_spec(s: &Vec<char>, pos: usize) -> (r: Option<Vec<char>>)
    ensures
        match quoted_at(s@, pos as int) {
            Some(m) => r is Some && r->0@ == m,
            None => r is None,
        },
{
    if pos >= s.len() {
        return None;
    }
    let q = s[pos];
    if q != '"' && q != '\'' {
        return None;
    }
    let c = find_closing_quote(s, pos + 1, q);
    if c < s.len() {
        Some(slice_of(s, pos + 1, c))
    } else {
        None
    }
}

/// Where the module `source` comes from.
pub fn determine_import_kind(source: &Vec<char>) -> (r: ImportKind)
    ensures
        r == import_kind(source@),
{
    let e = scan(source, 0, CharClass::Except('/'));
    let name = slice_of(source, 0, e);
    let builtin = is_text(&name, "assert") || is_text(&name, "buffer") || is_text(
        &name,
        "child_process",
    ) || is_text(&name, "cluster") || is_text(&name, "crypto") || is_text(&name, "dgram")
        || is_text(&name, "dns") || is_text(&name, "domain") || is_text(&name, "events")
        || is_text(&name, "fs") || is_text(&name, "http") || is_text(&name, "https") || is_text(
        &name,
        "net",
    ) || is_text(&name, "os") || is_text(&name, "path") || is_text(&name, "punycode") || is_text(
        &name,
        "querystring",
    ) || is_text(&name, "readline") || is_text(&name, "stream") || is_text(
        &name,
        "string_decoder",
    ) || is_text(&name, "timers") || is_text(&name, "tls") || is_text(&name, "tty") || is_text(
        &name,
        "url",
    ) || is_text(&name, "util") || is_text(&name, "v8") || is_text(&name, "vm") || is_text(
        &name,
        "zlib",
    );
    if builtin || starts_with_at(source, 0, "node:") {
        return ImportKind::Builtin;
    }
    let special = is_text(source, "react") || is_text(source, "react-dom") || is_text(
        source,
        "@clevertree/meta",
    ) || is_text(source, "@clevertree/file-renderer") || is_text(source, "@clevertree/helpers")
        || is_text(source, "@clevertree/markdown");
    if special {
        ImportKind::SpecialPackage
    } else {
        ImportKind::Module
    }
}

/// An import of `module` with the given bindings.
fn make_import(module: &Vec<char>, bindings: Vec<ImportBinding>) -> (r: ImportMetadata)
    ensures
        r@ == import_of(module@, binding_views(bindings@)),
{
    ImportMetadata { source: string_of(module), kind: determine_import_kind(module), bindings }
}

/// The binding that one part of a list of names stands for.
fn parse_binding(part: &Vec<char>) -> (r: Option<ImportBinding>)
    ensures
        match binding_of_part(part@) {
            Some(b) => r is Some && r->0@ == b,
            None => r is None,
        },
{
    let p = trimmed(part);
    let i = find_text(&p, 0, " as ");
    let name = trimmed(&slice_of(&p, 0, i));
    if name.len() == 0 {
        return None;
    }
    let alias = if i < p.len() {
        proof {
            lemma_text_index(p@, 0, " as "@);
            reveal_strlit(" as ");
        }
        let j = find_text(&p, i + 4, " as ");
        proof {
            lemma_text_index(p@, i + 4, " as "@);
        }
        Some(string_of(&trimmed(&slice_of(&p, i + 4, j))))
    } else {
        None
    };
    Some(ImportBinding { binding_type: ImportBindingType::Named, name: string_of(&name), alias })
}

/// The bindings of a list of names separated by commas.
pub fn parse_bindings(text: &Vec<char>) -> (r: Vec<ImportBinding>)
    ensures
        binding_views(r@) == named_bindings(text@, 0, Seq::empty()),
{
    let mut out: Vec<ImportBinding> = Vec::new();
    let mut pos: usize = 0;
    assert(binding_views(out@) =~= Seq::<BindingView>::empty());
    loop
        invariant_except_break
            named_bindings(text@, pos as int, binding_views(out@)) == named_bindings(
                text@,
                0,
                Seq::empty(),
            ),
        invariant
            pos <= text.len(),
        ensures
            binding_views(out@) == named_bindings(text@, 0, Seq::empty()),
        decreases text.len() - pos,
    {
        let end = scan(text, pos, CharClass::Except(','));
        let part = slice_of(text, pos, end);
        match parse_binding(&part) {
            Some(b) => {
                proof {
                    lemma_binding_views_push(out@, b);
                }
                out.push(b);
            },
            None => {},
        }
        if end >= text.len() {
            break ;
        }
        pos = end + 1;
    }
    out
}

/// `import 'mod'`.
fn parse_side_effect_specifier(line: &Vec<char>) -> (r: Option<ImportMetadata>)
    ensures
        match side_effect_import(line@) {
            Some(i) => r is Some && r->0@ == i,
            None => r is None,
        },
{
    let a = scan(line, 7, CharClass::Whitespace);
    match parse_quoted_spec(line, a) {
        Some(m) => {
            let none: Vec<ImportBinding> = Vec::new();
            assert(binding_views(none@) =~= Seq::<BindingView>::empty());
            Some(make_import(&m, none))
        },
        None => None,
    }
}

/// `import { a, b as c } from 'mod'`.
fn parse_named_import(line: &Vec<char>) -> (r: Option<ImportMetadata>)
    ensures
        match named_import(line@) {
            Some(i) => r is Some && r->0@ == i,
            None => r is None,
        },
{
    let a = scan(line, 7, CharClass::Whitespace);
    if a >= line.len() || line[a] != '{' {
        return None;
    }
    let close = scan(line, a + 1, CharClass::Except('}'));
    if close >= line.len() {
        return None;
    }
    let r = scan(line, close + 1, CharClass::Whitespace);
    if !starts_with_at(line, r, "from ") {
        return None;
    }
    proof {
        reveal_strlit("from ");
    }
    let sp = scan(line, r + 5, CharClass::Whitespace);
    match parse_quoted_spec(line, sp) {
        Some(m) => Some(make_import(&m, parse_bindings(&slice_of(line, a + 1, close)))),
        None => None,
    }
}

/// `import * as ns from 'mod'` if `namespace` is set, `import name from
/// 'mod'` if not.
fn parse_binding_import(line: &Vec<char>, namespace: bool) -> (r: Option<ImportMetadata>)
    ensures
        match binding_import(line@, namespace) {
            Some(i) => r is Some && r->0@ == i,
            None => r is None,
        },
{
    let a = scan(line, 7, CharClass::Whitespace);
    proof {
        reveal_strlit("* as ");
        reveal_strlit("from ");
    }
    if namespace && !starts_with_at(line, a, "* as ") {
        return None;
    }
    if a > line.len() {
        return None;
    }
    let start = if namespace {
        a + 5
    } else {
        a
    };
    let e = scan(line, start, CharClass::Word);
    if e <= start {
        return None;
    }
    let r = scan(line, e, CharClass::Whitespace);
    if !starts_with_at(line, r, "from ") {
        return None;
    }
    match parse_quoted_spec(line, r + 5) {
        Some(m) => {
            let mut bindings: Vec<ImportBinding> = Vec::new();
            let b = ImportBinding {
                binding_type: if namespace {
                    ImportBindingType::Namespace
                } else {
                    ImportBindingType::Default
                },
                name: string_of(&slice_of(line, start, e)),
                alias: None,
            };
            bindings.push(b);
            assert(binding_views(bindings@) =~= seq![b@]);
            Some(make_import(&m, bindings))
        },
        None => None,
    }
}

/// `import * as ns from 'mod'`.
fn parse_namespace_import(line: &Vec<char>) -> (r: Option<ImportMetadata>)
    ensures
        match binding_import(line@, true) {
            Some(i) => r is Some && r->0@ == i,
            None => r is None,
        },
{
    parse_binding_import(line, true)
}

/// `import name from 'mod'`.
fn parse_default_import(line: &Vec<char>) -> (r: Option<ImportMetadata>)
    ensures
        match binding_import(line@, false) {
            Some(i) => r is Some && r->0@ == i,
            None => r is None,
        },
{
    parse_binding_import(line, false)
}

/// The import that a line makes, if it makes one.
pub fn parse_import_line(raw: &Vec<char>) -> (r: Option<ImportMetadata>)
    ensures
        match import_of_line(raw@) {
            Some(i) => r is Some && r->0@ == i,
            None => r is None,
        },
{
    let l = trimmed_start(raw);
    if !starts_with_at(&l, 0, "import ") {
        return None;
    }
    let e = scan_backward(&l, l.len(), CharClass::Only(';'));
    let line = trimmed_end(&slice_of(&l, 0, e));
    if !starts_with_at(&line, 0, "import ") {
        return None;
    }
    match parse_side_effect_specifier(&line) {
        Some(i) => {
            return Some(i);
        },
        None => {},
    }
    match parse_named_import(&line) {
        Some(i) => {
            return Some(i);
        },
        None => {},
    }
    match parse_namespace_import(&line) {
        Some(i) => {
            return Some(i);
        },
        None => {},
    }
    parse_default_import(&line)
}

/// The line that begins at `pos`.
pub fn line_of(src: &Vec<char>, pos: usize) -> (r: Vec<char>)
    requires
        pos <= src.len(),
    ensures
        r@ == line_at(src@, pos as int),
{
    let nl = scan(src, pos, CharClass::NotNewline);
    if nl < src.len() && pos < nl && src[nl - 1] == '\r' {
        slice_of(src, pos, nl - 1)
    } else {
        slice_of(src, pos, nl)
    }
}

/// The imports of the characters `src`, in the order of its lines.
pub fn imports_in(src: &Vec<char>) -> (r: Vec<ImportMetadata>)
    ensures
        import_views(r@) == imports_of(src@),
{
    let mut out: Vec<ImportMetadata> = Vec::new();
    let mut pos: usize = 0;
    assert(import_views(out@) =~= Seq::<ImportView>::empty());
    while pos < src.len()
        invariant
            pos <= src.len(),
            imports_from(src@, pos as int, import_views(out@)) == imports_of(src@),
        decreases src.len() - pos,
    {
        let nl = scan(src, pos, CharClass::NotNewline);
        match parse_import_line(&line_of(src, pos)) {
            Some(i) => {
                proof {
                    lemma_import_views_push(out@, i);
                }
                out.push(i);
            },
            None => {},
        }
        pos = if nl < src.len() {
            nl + 1
        } else {
            nl
        };
    }
    out
}

/// The imports of `source`, whether it looks as if it held JSX, and whether
/// it holds a call `import(`.
pub fn extract_imports_and_features(source: &str) -> (r: (Vec<ImportMetadata>, bool, bool))
    ensures
        import_views(r.0@) == imports_of(source@),
        r.1 == looks_like_jsx(source@),
        r.2 == has_import_call(source@),
{
    let src = chars_of(source);
    let imports = imports_in(&src);
    let has_jsx = has_text(&src, "<") && (has_text(&src, "/>") || has_text(&src, "</"));
    let has_dynamic_import = has_text(&src, "import(");
    (imports, has_jsx, has_dynamic_import)
}

} // verus!
