//! ES modules as CommonJS, and the imports of a module for fetching ahead.
//!
//! Both passes look for statements at the start of a line. An import
//! statement may run over several lines; it ends behind the string that
//! names the module. Strings and comments are not tracked: a line inside a
//! template literal that begins like an import is taken for one.

use vstd::prelude::*;
use crate::chars::{CharClass, is_space, whitespace};
use crate::imports::{
    find_closing_quote, named_bindings, parse_bindings, parse_quoted_spec, quoted_at,
};
use crate::scanner::lemma_closing_quote;
use crate::metadata::{
    binding_views, BindingView, import_views, ImportBinding, ImportBindingType, ImportKind,
    ImportMetadata, ImportView, lemma_binding_views_push, lemma_import_views_push,
    lemma_static_views_push, lemma_string_views_push, static_views, StaticImportMetadata,
    StaticImportView, string_views,
};
use crate::text::{
    char_at, chars_of, find_text, has_prefix_at, is_text, join, lemma_scan_end, lemma_text_index,
    lemma_texts_push, push_all, push_joined, push_range, push_str, scan, scan_end, slice_of,
    starts_with_at, string_of, text_index, texts, trim, trimmed,
};
use crate::progress::{lemma_export_advances, lemma_import_statement_advances};
use crate::typescript::past;

verus! {

/// An import statement: what it binds and the module it names.
pub struct ImportStatement {
    /// The name bound to the default export; empty if there is none.
    pub default: Seq<char>,
    /// The name bound to the namespace; empty if there is none.
    pub namespace: Seq<char>,
    /// The names of the list in braces.
    pub named: Seq<BindingView>,
    /// The name of the module.
    pub module: Seq<char>,
    /// The name of the module as it is written, with its quotes.
    pub literal: Seq<char>,
    /// The offset behind the statement.
    pub end: int,
}

/// Whether white space stands at `pos`.
pub open spec fn space_at(s: Seq<char>, pos: int) -> bool {
    match char_at(s, pos) {
        Some(c) => whitespace(c),
        None => false,
    }
}

/// Whether the word `kw` stands at `pos` with white space behind it.
pub open spec fn keyword_then_space(s: Seq<char>, pos: int, kw: Seq<char>) -> bool {
    has_prefix_at(s, pos, kw) && space_at(s, pos + kw.len())
}

/// The statement whose module is named by the string literal at `f`.
pub open spec fn module_part(
    s: Seq<char>,
    f: int,
    default: Seq<char>,
    namespace: Seq<char>,
    named: Seq<BindingView>,
) -> Option<ImportStatement> {
    match quoted_at(s, f) {
        Some(m) => Some(
            ImportStatement {
                default,
                namespace,
                named,
                module: m,
                literal: s.subrange(f, f + m.len() + 2),
                end: past(s, f + m.len() + 2, ';'),
            },
        ),
        None => None,
    }
}

/// The statement whose `from` stands at `r`.
pub open spec fn from_part(
    s: Seq<char>,
    r: int,
    default: Seq<char>,
    namespace: Seq<char>,
    named: Seq<BindingView>,
) -> Option<ImportStatement> {
    if has_prefix_at(s, r, "from"@) {
        module_part(s, scan_end(s, r + 4, CharClass::Whitespace), default, namespace, named)
    } else {
        None
    }
}

/// The import statement whose `import` stands at `pos`, if one does.
///
/// Behind `import` comes the module alone (`import 'mod'`), or a clause and
/// `from 'mod'`. The clause is a default name, a list in braces or `* as
/// name`, or a default name, a comma and one of the other two. White space,
/// line feeds among it, may stand between the parts.
pub open spec fn import_statement(s: Seq<char>, pos: int) -> Option<ImportStatement> {
    let a = scan_end(s, pos + 6, CharClass::Whitespace);
    let d_end = scan_end(s, a, CharClass::Word);
    let default = s.subrange(a, d_end);
    let b = scan_end(s, d_end, CharClass::Whitespace);
    let c = if d_end > a && char_at(s, b) == Some(',') {
        scan_end(s, b + 1, CharClass::Whitespace)
    } else {
        b
    };
    if !has_prefix_at(s, pos, "import"@) || !(space_at(s, pos + 6) || char_at(s, pos + 6) == Some(
        '"',
    ) || char_at(s, pos + 6) == Some('\'') || char_at(s, pos + 6) == Some('{') || char_at(
        s,
        pos + 6,
    ) == Some('*')) {
        None
    } else if quoted_at(s, a) is Some {
        module_part(s, a, Seq::empty(), Seq::empty(), Seq::empty())
    } else if char_at(s, c) == Some('{') {
        let close = scan_end(s, c + 1, CharClass::Except('}'));
        if close >= s.len() {
            None
        } else {
            from_part(
                s,
                scan_end(s, close + 1, CharClass::Whitespace),
                default,
                Seq::empty(),
                named_bindings(s.subrange(c + 1, close), 0, Seq::empty()),
            )
        }
    } else if char_at(s, c) == Some('*') {
        let x = scan_end(s, c + 1, CharClass::Whitespace);
        let y = scan_end(s, x + 2, CharClass::Whitespace);
        let e = scan_end(s, y, CharClass::Word);
        if !keyword_then_space(s, x, "as"@) || e <= y {
            None
        } else {
            from_part(
                s,
                scan_end(s, e, CharClass::Whitespace),
                default,
                s.subrange(y, e),
                Seq::empty(),
            )
        }
    } else if d_end > a && c == b {
        from_part(s, b, default, Seq::empty(), Seq::empty())
    } else {
        None
    }
}

/// The name that a binding gives to what it binds: its alias, or its name.
pub open spec fn local_name(b: BindingView) -> Seq<char> {
    match b.alias {
        Some(a) => if a.len() > 0 {
            a
        } else {
            b.name
        },
        None => b.name,
    }
}

/// A binding as an entry of a destructuring pattern: `name`, or `name:
/// alias`.
pub open spec fn pattern_entry(b: BindingView) -> Seq<char> {
    if local_name(b) == b.name {
        b.name
    } else {
        b.name + ": "@ + local_name(b)
    }
}

/// The entries of the destructuring pattern for a list of bindings.
pub open spec fn pattern_entries(named: Seq<BindingView>) -> Seq<Seq<char>> {
    Seq::new(named.len(), |i: int| pattern_entry(named[i]))
}

/// `const { a, b: c }`.
pub open spec fn destructuring(named: Seq<BindingView>) -> Seq<char> {
    "const { "@ + join(pattern_entries(named), ", "@) + " }"@
}

/// What an import statement becomes: a call of `require`, bound as the
/// statement binds. A default name beside a list or a namespace is bound
/// first and the others are taken from it.
pub open spec fn require_text(st: ImportStatement) -> Seq<char> {
    if st.default.len() > 0 {
        binding_text(st.default, required(st.literal)) + list_from_default(st)
            + namespace_from_default(st)
    } else if st.namespace.len() > 0 {
        binding_text(st.namespace, required(st.literal))
    } else if st.named.len() > 0 {
        destructuring(st.named) + " = "@ + required(st.literal) + ";"@
    } else {
        required(st.literal) + ";"@
    }
}

/// `require('mod')`.
pub open spec fn required(literal: Seq<char>) -> Seq<char> {
    "require("@ + literal + ")"@
}

/// `const name = value;`.
pub open spec fn binding_text(name: Seq<char>, value: Seq<char>) -> Seq<char> {
    "const "@ + name + " = "@ + value + ";"@
}

/// The list of a statement taken from its default name, on a line of its
/// own; nothing if the statement has no list.
pub open spec fn list_from_default(st: ImportStatement) -> Seq<char> {
    if st.named.len() > 0 {
        "\n"@ + destructuring(st.named) + " = "@ + st.default + ";"@
    } else {
        Seq::empty()
    }
}

/// The namespace of a statement bound to its default name, on a line of its
/// own; nothing if the statement has no namespace.
pub open spec fn namespace_from_default(st: ImportStatement) -> Seq<char> {
    if st.namespace.len() > 0 {
        "\n"@ + binding_text(st.namespace, st.default)
    } else {
        Seq::empty()
    }
}

/// Where the expression begins that `export default` at `pos` exports, if
/// `export default` stands there with white space behind it.
pub open spec fn export_default(s: Seq<char>, pos: int) -> Option<int> {
    let e = scan_end(s, pos + 6, CharClass::Whitespace);
    if keyword_then_space(s, pos, "export"@) && keyword_then_space(s, e, "default"@) {
        Some(scan_end(s, e + 7, CharClass::Whitespace))
    } else {
        None
    }
}

/// A list `export { a, b as c }` at `pos`.
pub struct ExportList {
    pub named: Seq<BindingView>,
    pub end: int,
}

/// The list that `export { ... }` at `pos` exports, unless it exports from
/// another module.
pub open spec fn export_list(s: Seq<char>, pos: int) -> Option<ExportList> {
    let e = scan_end(s, pos + 6, CharClass::Whitespace);
    let close = scan_end(s, e + 1, CharClass::Except('}'));
    if keyword_then_space(s, pos, "export"@) && char_at(s, e) == Some('{') && close < s.len()
        && !has_prefix_at(s, scan_end(s, close + 1, CharClass::Whitespace), "from"@) {
        Some(
            ExportList {
                named: named_bindings(s.subrange(e + 1, close), 0, Seq::empty()),
                end: past(s, close + 1, ';'),
            },
        )
    } else {
        None
    }
}

/// `module.exports.exported = local;` for one binding of an export list.
pub open spec fn export_entry(b: BindingView) -> Seq<char> {
    "module.exports."@ + local_name(b) + " = "@ + b.name + ";"@
}

/// The assignments for an export list, one per line.
pub open spec fn export_entries(named: Seq<BindingView>) -> Seq<Seq<char>> {
    Seq::new(named.len(), |i: int| export_entry(named[i]))
}

/// The length of the declaration keyword that stands at `pos` with white
/// space behind it; 0 if none does.
pub open spec fn declaration_keyword(s: Seq<char>, pos: int) -> int {
    if keyword_then_space(s, pos, "const"@) {
        5
    } else if keyword_then_space(s, pos, "let"@) {
        3
    } else if keyword_then_space(s, pos, "var"@) {
        3
    } else if keyword_then_space(s, pos, "function"@) {
        8
    } else if keyword_then_space(s, pos, "class"@) {
        5
    } else {
        0
    }
}

/// A declaration behind `export`.
pub struct ExportedDeclaration {
    /// Where the declaration begins.
    pub start: int,
    /// The name that it declares; empty if it is not a plain name.
    pub name: Seq<char>,
}

/// The declaration that `export` at `pos` exports: `const`, `let`, `var`,
/// `function` or `class`, a function also behind `async`.
pub open spec fn export_declaration(s: Seq<char>, pos: int) -> Option<ExportedDeclaration> {
    let e = scan_end(s, pos + 6, CharClass::Whitespace);
    let k = if keyword_then_space(s, e, "async"@) {
        scan_end(s, e + 5, CharClass::Whitespace)
    } else {
        e
    };
    let n = scan_end(s, k + declaration_keyword(s, k), CharClass::Whitespace);
    if keyword_then_space(s, pos, "export"@) && declaration_keyword(s, k) > 0 {
        Some(ExportedDeclaration { start: e, name: s.subrange(n, scan_end(s, n, CharClass::Word)) })
    } else {
        None
    }
}

/// The output of the rewriting and the names to export at its end.
pub struct Rewritten {
    pub out: Seq<char>,
    pub names: Seq<Seq<char>>,
}

/// The rewriting from `pos` on, with `out` written and `names` to export.
/// `fresh` says that `pos` is at the start of a line.
///
/// At the start of a line, behind white space, an import statement becomes
/// its `require`, `export default` becomes `module.exports.default = `, an
/// export list becomes its assignments, and `export` in front of a
/// declaration is dropped, the declared name being kept for the end.
/// Everything else is copied.
pub open spec fn rewrite(
    s: Seq<char>,
    pos: int,
    out: Seq<char>,
    names: Seq<Seq<char>>,
    fresh: bool,
) -> Rewritten
    decreases s.len() - pos,
        if fresh {
            1nat
        } else {
            0nat
        },
{
    if pos < 0 || pos >= s.len() {
        Rewritten { out, names }
    } else if fresh {
        let t = scan_end(s, pos, CharClass::Whitespace);
        let o = out + s.subrange(pos, t);
        proof {
            lemma_scan_end(s, pos, CharClass::Whitespace);
        }
        proof {
            lemma_import_statement_advances(s, t);
            lemma_export_advances(s, t);
        }
        if import_statement(s, t) is Some {
            rewrite(
                s,
                import_statement(s, t)->0.end,
                o + require_text(import_statement(s, t)->0),
                names,
                false,
            )
        } else if export_default(s, t) is Some {
            rewrite(s, export_default(s, t)->0, o + "module.exports.default = "@, names, false)
        } else if export_list(s, t) is Some {
            rewrite(
                s,
                export_list(s, t)->0.end,
                o + join(export_entries(export_list(s, t)->0.named), "\n"@),
                names,
                false,
            )
        } else if export_declaration(s, t) is Some {
            rewrite(
                s,
                export_declaration(s, t)->0.start,
                o,
                if export_declaration(s, t)->0.name.len() > 0 {
                    names.push(export_declaration(s, t)->0.name)
                } else {
                    names
                },
                false,
            )
        } else {
            rewrite(s, t, o, names, false)
        }
    } else {
        rewrite(s, pos + 1, out.push(s[pos]), names, s[pos] == '\n')
    }
}

/// `module.exports.name = name;` on a line of its own, for each name.
pub open spec fn export_lines(names: Seq<Seq<char>>) -> Seq<char>
    decreases names.len(),
{
    if names.len() == 0 {
        Seq::empty()
    } else {
        export_lines(names.drop_last()) + "\nmodule.exports."@ + names.last() + " = "@
            + names.last() + ";"@
    }
}

/// What the rewriting as CommonJS makes of `source`.
pub open spec fn as_commonjs(source: Seq<char>) -> Seq<char> {
    let r = rewrite(source, 0, Seq::empty(), Seq::empty(), true);
    r.out + export_lines(r.names)
}

/// The local names that a statement binds: the default name, the namespace,
/// then the names of the list.
pub open spec fn bound_names(st: ImportStatement) -> Seq<Seq<char>> {
    (if st.default.len() > 0 {
        seq![st.default]
    } else {
        Seq::empty()
    }) + (if st.namespace.len() > 0 {
        seq![st.namespace]
    } else {
        Seq::empty()
    }) + Seq::new(st.named.len(), |i: int| local_name(st.named[i]))
}

/// An import statement as a static import.
pub open spec fn static_import(st: ImportStatement) -> StaticImportView {
    StaticImportView {
        module: st.module,
        imported: bound_names(st),
        is_default: st.default.len() > 0,
        is_namespace: st.namespace.len() > 0,
        is_lazy: false,
    }
}

/// A call `import('mod')` as a static import.
pub open spec fn lazy_import(module: Seq<char>) -> StaticImportView {
    StaticImportView {
        module,
        imported: Seq::empty(),
        is_default: false,
        is_namespace: false,
        is_lazy: true,
    }
}

/// The module that the call `import(` at `pos` names, if `import(` stands
/// there with a closed string literal as its argument.
pub open spec fn lazy_module(s: Seq<char>, pos: int) -> Option<Seq<char>> {
    if has_prefix_at(s, pos, "import("@) {
        quoted_at(s, scan_end(s, pos + 7, CharClass::Whitespace))
    } else {
        None
    }
}

/// The imports from `pos` on, added to `acc`. `fresh` says that `pos` is at
/// the start of a line. Import statements are looked for at the starts of
/// lines, calls `import('mod')` everywhere else.
pub open spec fn collect(s: Seq<char>, pos: int, acc: Seq<StaticImportView>, fresh: bool) -> Seq<
    StaticImportView,
>
    decreases s.len() - pos,
        if fresh {
            1nat
        } else {
            0nat
        },
{
    if pos < 0 || pos >= s.len() {
        acc
    } else if fresh {
        let t = scan_end(s, pos, CharClass::Whitespace);
        proof {
            lemma_scan_end(s, pos, CharClass::Whitespace);
        }
        proof {
            lemma_import_statement_advances(s, t);
        }
        if import_statement(s, t) is Some {
            collect(
                s,
                import_statement(s, t)->0.end,
                acc.push(static_import(import_statement(s, t)->0)),
                false,
            )
        } else {
            collect(s, t, acc, false)
        }
    } else if lazy_module(s, pos) is Some {
        collect(s, pos + 1, acc.push(lazy_import(lazy_module(s, pos)->0)), false)
    } else {
        collect(s, pos + 1, acc, s[pos] == '\n')
    }
}

/// The imports of `source`, in the order in which they stand.
pub open spec fn static_imports(source: Seq<char>) -> Seq<StaticImportView> {
    collect(source, 0, Seq::empty(), true)
}

/// Where a module comes from, for the metadata of a transpilation: `react`,
/// `react-dom`, `react-native` and the packages under `@clevertree/` are
/// resolved by the host.
pub open spec fn classified(module: Seq<char>) -> ImportKind {
    if module == "react"@ || module == "react-dom"@ || module == "react-native"@ || has_prefix_at(
        module,
        0,
        "@clevertree/"@,
    ) {
        ImportKind::SpecialPackage
    } else {
        ImportKind::Module
    }
}

/// The binding of one imported name of a static import.
pub open spec fn binding_of_name(m: StaticImportView, name: Seq<char>) -> BindingView {
    let i = text_index(name, 0, " as "@);
    if m.is_namespace {
        BindingView { binding_type: ImportBindingType::Namespace, name, alias: None }
    } else if m.is_default {
        BindingView { binding_type: ImportBindingType::Default, name, alias: None }
    } else if i < name.len() {
        BindingView {
            binding_type: ImportBindingType::Named,
            name: trim(name.subrange(0, i)),
            alias: Some(trim(name.subrange(i + 4, text_index(name, i + 4, " as "@)))),
        }
    } else {
        BindingView { binding_type: ImportBindingType::Named, name, alias: None }
    }
}

/// A static import with the kind of its module and its bindings.
pub open spec fn with_bindings(m: StaticImportView) -> ImportView {
    ImportView {
        source: m.module,
        kind: classified(m.module),
        bindings: Seq::new(m.imported.len(), |i: int| binding_of_name(m, m.imported[i])),
    }
}

/// The imports of `source` with the kinds of their modules and their
/// bindings.
pub open spec fn imports_with_bindings(source: Seq<char>) -> Seq<ImportView> {
    Seq::new(static_imports(source).len(), |i: int| with_bindings(static_imports(source)[i]))
}

/// An import statement as it was read.
pub struct ReadImport {
    pub default: Vec<char>,
    pub namespace: Vec<char>,
    pub named: Vec<ImportBinding>,
    pub module: Vec<char>,
    pub literal: Vec<char>,
    pub end: usize,
}

impl View for ReadImport {
    type V = ImportStatement;

    open spec fn view(&self) -> ImportStatement {
        ImportStatement {
            default: self.default@,
            namespace: self.namespace@,
            named: binding_views(self.named@),
            module: self.module@,
            literal: self.literal@,
            end: self.end as int,
        }
    }
}

/// Whether an executable parser read what the specification says.
pub open spec fn reads(r: Option<ReadImport>, expected: Option<ImportStatement>) -> bool {
    match expected {
        Some(st) => r is Some && r->0@ == st,
        None => r is None,
    }
}

fn has_space_at(s: &Vec<char>, pos: usize) -> (r: bool)
    ensures
        r == space_at(s@, pos as int),
{
    pos < s.len() && is_space(s[pos])
}

fn char_of(s: &Vec<char>, pos: usize) -> (r: Option<char>)
    ensures
        r == char_at(s@, pos as int),
{
    if pos < s.len() {
        Some(s[pos])
    } else {
        None
    }
}

/// Whether the word `kw` stands at `pos` with white space behind it.
fn has_keyword(s: &Vec<char>, pos: usize, kw: &str) -> (r: bool)
    ensures
        r == keyword_then_space(s@, pos as int, kw@),
{
    if pos >= s.len() || !starts_with_at(s, pos, kw) {
        return false;
    }
    let n = chars_of(kw).len();
    has_space_at(s, pos + n)
}

/// `pos + 1` if `c` stands at `pos`, else `pos`.
fn skip_char(s: &Vec<char>, pos: usize, c: char) -> (r: usize)
    ensures
        r == past(s@, pos as int, c),
{
    if pos < s.len() && s[pos] == c {
        pos + 1
    } else {
        pos
    }
}

fn read_module(
    s: &Vec<char>,
    f: usize,
    default: Vec<char>,
    namespace: Vec<char>,
    named: Vec<ImportBinding>,
) -> (r: Option<ReadImport>)
    ensures
        reads(r, module_part(s@, f as int, default@, namespace@, binding_views(named@))),
{
    if f >= s.len() {
        return None;
    }
    match parse_quoted_spec(s, f) {
        Some(m) => {
            proof {
                lemma_closing_quote(s@, f + 1, s@[f as int]);
            }
            let close = f + m.len() + 2;
            let literal = slice_of(s, f, close);
            let end = skip_char(s, close, ';');
            Some(ReadImport { default, namespace, named, module: m, literal, end })
        },
        None => None,
    }
}

fn read_from(
    s: &Vec<char>,
    r: usize,
    default: Vec<char>,
    namespace: Vec<char>,
    named: Vec<ImportBinding>,
) -> (res: Option<ReadImport>)
    ensures
        reads(res, from_part(s@, r as int, default@, namespace@, binding_views(named@))),
{
    proof {
        reveal_strlit("from");
    }
    if r < s.len() && starts_with_at(s, r, "from") {
        let f = scan(s, r + 4, CharClass::Whitespace);
        read_module(s, f, default, namespace, named)
    } else {
        None
    }
}

/// Reads the import statement whose `import` stands at `pos`.
pub fn read_import(s: &Vec<char>, pos: usize) -> (r: Option<ReadImport>)
    ensures
        reads(r, import_statement(s@, pos as int)),
{
    proof {
        reveal_strlit("import");
        reveal_strlit("as");
    }
    if pos >= s.len() || !starts_with_at(s, pos, "import") {
        return None;
    }
    let k = pos + 6;
    let next = char_of(s, k);
    if !(has_space_at(s, k) || next == Some('"') || next == Some('\'') || next == Some('{')
        || next == Some('*')) {
        return None;
    }
    let a = scan(s, k, CharClass::Whitespace);
    let none: Vec<ImportBinding> = Vec::new();
    assert(binding_views(none@) =~= Seq::<BindingView>::empty());
    let first = char_of(s, a);
    if first == Some('"') || first == Some('\'') {
        let q = s[a];
        let close = find_closing_quote(s, a + 1, q);
        if close < s.len() {
            return read_module(s, a, Vec::new(), Vec::new(), none);
        }
    }
    let d_end = scan(s, a, CharClass::Word);
    let default = slice_of(s, a, d_end);
    let b = scan(s, d_end, CharClass::Whitespace);
    let c = if d_end > a && char_of(s, b) == Some(',') {
        scan(s, b + 1, CharClass::Whitespace)
    } else {
        b
    };
    let at_c = char_of(s, c);
    if at_c == Some('{') {
        let close = scan(s, c + 1, CharClass::Except('}'));
        if close >= s.len() {
            return None;
        }
        let named = parse_bindings(&slice_of(s, c + 1, close));
        let r = scan(s, close + 1, CharClass::Whitespace);
        return read_from(s, r, default, Vec::new(), named);
    }
    if at_c == Some('*') {
        let x = scan(s, c + 1, CharClass::Whitespace);
        if !has_keyword(s, x, "as") {
            return None;
        }
        let y = scan(s, x + 2, CharClass::Whitespace);
        let e = scan(s, y, CharClass::Word);
        if e <= y {
            return None;
        }
        let r = scan(s, e, CharClass::Whitespace);
        return read_from(s, r, default, slice_of(s, y, e), none);
    }
    if d_end > a && c == b {
        return read_from(s, b, default, Vec::new(), none);
    }
    None
}

/// The local name of a binding.
fn local_of(b: &ImportBinding) -> (r: Vec<char>)
    ensures
        r@ == local_name(b@),
{
    match &b.alias {
        Some(a) => {
            let v = chars_of(a.as_str());
            if v.len() > 0 {
                v
            } else {
                chars_of(b.name.as_str())
            }
        },
        None => chars_of(b.name.as_str()),
    }
}

/// Appends `const { a, b: c }` to `out`.
fn push_destructuring(out: &mut Vec<char>, named: &Vec<ImportBinding>)
    ensures
        final(out)@ == old(out)@ + destructuring(binding_views(named@)),
{
    let mut entries: Vec<Vec<char>> = Vec::new();
    let mut i: usize = 0;
    while i < named.len()
        invariant
            i <= named.len(),
            texts(entries@) == pattern_entries(binding_views(named@)).subrange(0, i as int),
        decreases named.len() - i,
    {
        let b = &named[i];
        let name = chars_of(b.name.as_str());
        let local = local_of(b);
        let mut entry: Vec<char> = Vec::new();
        push_all(&mut entry, &name);
        if !crate::text::same_text(&local, &name) {
            push_str(&mut entry, ": ");
            push_all(&mut entry, &local);
        }
        proof {
            let all = pattern_entries(binding_views(named@));
            lemma_texts_push(entries@, entry);
        }
        entries.push(entry);
        i += 1;
    }
    assert(pattern_entries(binding_views(named@)).subrange(0, named.len() as int)
        =~= pattern_entries(binding_views(named@)));
    push_str(out, "const { ");
    push_joined(out, &entries, ", ");
    push_str(out, " }");
}

/// The text `require(literal)`.
fn require_call(literal: &Vec<char>) -> (r: Vec<char>)
    ensures
        r@ == required(literal@),
{
    let mut r: Vec<char> = Vec::new();
    push_str(&mut r, "require(");
    push_all(&mut r, literal);
    push_str(&mut r, ")");
    r
}

/// Appends `const name = value;` to `out`.
fn push_binding(out: &mut Vec<char>, name: &Vec<char>, value: &Vec<char>)
    ensures
        final(out)@ == old(out)@ + binding_text(name@, value@),
{
    push_str(out, "const ");
    push_all(out, name);
    push_str(out, " = ");
    push_all(out, value);
    push_str(out, ";");
}

/// Appends the list of a statement, taken from its default name.
fn push_list_from_default(out: &mut Vec<char>, st: &ReadImport)
    ensures
        final(out)@ == old(out)@ + list_from_default(st@),
{
    if st.named.len() > 0 {
        push_str(out, "\n");
        push_destructuring(out, &st.named);
        push_str(out, " = ");
        push_all(out, &st.default);
        push_str(out, ";");
    }
}

/// Appends the namespace of a statement, bound to its default name.
fn push_namespace_from_default(out: &mut Vec<char>, st: &ReadImport)
    ensures
        final(out)@ == old(out)@ + namespace_from_default(st@),
{
    if st.namespace.len() > 0 {
        push_str(out, "\n");
        push_binding(out, &st.namespace, &st.default);
    }
}

/// Appends what an import statement becomes to `out`.
fn push_require(out: &mut Vec<char>, st: &ReadImport)
    ensures
        final(out)@ == old(out)@ + require_text(st@),
{
    let call = require_call(&st.literal);
    if st.default.len() > 0 {
        push_binding(out, &st.default, &call);
        push_list_from_default(out, st);
        push_namespace_from_default(out, st);
    } else if st.namespace.len() > 0 {
        push_binding(out, &st.namespace, &call);
    } else if st.named.len() > 0 {
        push_destructuring(out, &st.named);
        push_str(out, " = ");
        push_all(out, &call);
        push_str(out, ";");
    } else {
        push_all(out, &call);
        push_str(out, ";");
    }
}

/// Where the expression begins that `export default` at `pos` exports.
fn read_export_default(s: &Vec<char>, pos: usize) -> (r: Option<usize>)
    ensures
        r matches Some(e) ==> export_default(s@, pos as int) == Some(e as int),
        r is None ==> export_default(s@, pos as int) is None,
{
    proof {
        reveal_strlit("export");
        reveal_strlit("default");
    }
    if pos >= s.len() || !has_keyword(s, pos, "export") {
        return None;
    }
    let e = scan(s, pos + 6, CharClass::Whitespace);
    if !has_keyword(s, e, "default") {
        return None;
    }
    Some(scan(s, e + 7, CharClass::Whitespace))
}

/// An export list as it was read.
pub struct ReadExportList {
    pub named: Vec<ImportBinding>,
    pub end: usize,
}

/// The list that `export { ... }` at `pos` exports.
fn read_export_list(s: &Vec<char>, pos: usize) -> (r: Option<ReadExportList>)
    ensures
        match export_list(s@, pos as int) {
            Some(l) => r is Some && binding_views(r->0.named@) == l.named && r->0.end == l.end,
            None => r is None,
        },
{
    proof {
        reveal_strlit("export");
    }
    if pos >= s.len() || !has_keyword(s, pos, "export") {
        return None;
    }
    let e = scan(s, pos + 6, CharClass::Whitespace);
    if char_of(s, e) != Some('{') {
        return None;
    }
    let close = scan(s, e + 1, CharClass::Except('}'));
    if close >= s.len() {
        return None;
    }
    if starts_with_at(s, scan(s, close + 1, CharClass::Whitespace), "from") {
        return None;
    }
    Some(
        ReadExportList {
            named: parse_bindings(&slice_of(s, e + 1, close)),
            end: skip_char(s, close + 1, ';'),
        },
    )
}

/// Appends the assignments for an export list to `out`.
fn push_export_entries(out: &mut Vec<char>, named: &Vec<ImportBinding>)
    ensures
        final(out)@ == old(out)@ + join(export_entries(binding_views(named@)), "\n"@),
{
    let mut entries: Vec<Vec<char>> = Vec::new();
    let mut i: usize = 0;
    while i < named.len()
        invariant
            i <= named.len(),
            texts(entries@) == export_entries(binding_views(named@)).subrange(0, i as int),
        decreases named.len() - i,
    {
        let b = &named[i];
        let mut entry: Vec<char> = Vec::new();
        push_str(&mut entry, "module.exports.");
        push_all(&mut entry, &local_of(b));
        push_str(&mut entry, " = ");
        push_str(&mut entry, b.name.as_str());
        push_str(&mut entry, ";");
        proof {
            let all = export_entries(binding_views(named@));
            lemma_texts_push(entries@, entry);
        }
        entries.push(entry);
        i += 1;
    }
    assert(export_entries(binding_views(named@)).subrange(0, named.len() as int)
        =~= export_entries(binding_views(named@)));
    push_joined(out, &entries, "\n");
}

/// The length of the declaration keyword at `pos`.
fn read_declaration_keyword(s: &Vec<char>, pos: usize) -> (r: usize)
    ensures
        r == declaration_keyword(s@, pos as int),
        r > 0 ==> pos + r < s.len(),
{
    proof {
        reveal_strlit("const");
        reveal_strlit("let");
        reveal_strlit("var");
        reveal_strlit("function");
        reveal_strlit("class");
    }
    if pos >= s.len() {
        return 0;
    }
    if has_keyword(s, pos, "const") {
        5
    } else if has_keyword(s, pos, "let") {
        3
    } else if has_keyword(s, pos, "var") {
        3
    } else if has_keyword(s, pos, "function") {
        8
    } else if has_keyword(s, pos, "class") {
        5
    } else {
        0
    }
}

/// A declaration behind `export` as it was read.
pub struct ReadDeclaration {
    pub start: usize,
    pub name: Vec<char>,
}

/// The declaration that `export` at `pos` exports.
fn read_export_declaration(s: &Vec<char>, pos: usize) -> (r: Option<ReadDeclaration>)
    ensures
        match export_declaration(s@, pos as int) {
            Some(d) => r is Some && r->0.start == d.start && r->0.name@ == d.name,
            None => r is None,
        },
{
    proof {
        reveal_strlit("export");
        reveal_strlit("async");
    }
    if pos >= s.len() || !has_keyword(s, pos, "export") {
        return None;
    }
    let e = scan(s, pos + 6, CharClass::Whitespace);
    let k = if has_keyword(s, e, "async") {
        scan(s, e + 5, CharClass::Whitespace)
    } else {
        e
    };
    let len = read_declaration_keyword(s, k);
    if len == 0 {
        return None;
    }
    let n = scan(s, k + len, CharClass::Whitespace);
    let ne = scan(s, n, CharClass::Word);
    Some(ReadDeclaration { start: e, name: slice_of(s, n, ne) })
}

/// Appends `module.exports.name = name;` on a line of its own, for each
/// name.
fn push_export_lines(out: &mut Vec<char>, names: &Vec<Vec<char>>)
    ensures
        final(out)@ == old(out)@ + export_lines(texts(names@)),
{
    let mut i: usize = 0;
    while i < names.len()
        invariant
            i <= names.len(),
            out@ == old(out)@ + export_lines(texts(names@).subrange(0, i as int)),
        decreases names.len() - i,
    {
        let ghost head = texts(names@).subrange(0, i as int);
        let ghost next = texts(names@).subrange(0, i + 1);
        assert(next.drop_last() =~= head);
        push_str(out, "\nmodule.exports.");
        push_all(out, &names[i]);
        push_str(out, " = ");
        push_all(out, &names[i]);
        push_str(out, ";");
        i += 1;
    }
    assert(texts(names@).subrange(0, names.len() as int) =~= texts(names@));
}

/// Rewrites the characters `s` as CommonJS.
pub fn commonjs_chars(s: &Vec<char>) -> (r: Vec<char>)
    ensures
        r@ == as_commonjs(s@),
{
    let mut out: Vec<char> = Vec::new();
    let mut names: Vec<Vec<char>> = Vec::new();
    let mut pos: usize = 0;
    let mut fresh = true;
    assert(texts(names@) =~= Seq::<Seq<char>>::empty());
    while pos < s.len()
        invariant
            pos <= s.len(),
            rewrite(s@, pos as int, out@, texts(names@), fresh) == rewrite(
                s@,
                0,
                Seq::empty(),
                Seq::empty(),
                true,
            ),
        decreases s.len() - pos,
            if fresh {
                1nat
            } else {
                0nat
            },
    {
        if !fresh {
            let c = s[pos];
            out.push(c);
            pos += 1;
            fresh = c == '\n';
            continue ;
        }
        let t = scan(s, pos, CharClass::Whitespace);
        push_range(&mut out, s, pos, t);
        fresh = false;
        proof {
            lemma_import_statement_advances(s@, t as int);
            lemma_export_advances(s@, t as int);
        }
        match read_import(s, t) {
            Some(st) => {
                push_require(&mut out, &st);
                pos = st.end;
                continue ;
            },
            None => {},
        }
        match read_export_default(s, t) {
            Some(e) => {
                push_str(&mut out, "module.exports.default = ");
                pos = e;
                continue ;
            },
            None => {},
        }
        match read_export_list(s, t) {
            Some(l) => {
                push_export_entries(&mut out, &l.named);
                pos = l.end;
                continue ;
            },
            None => {},
        }
        match read_export_declaration(s, t) {
            Some(d) => {
                if d.name.len() > 0 {
                    proof {
                        lemma_texts_push(names@, d.name);
                    }
                    names.push(d.name);
                }
                pos = d.start;
                continue ;
            },
            None => {},
        }
        pos = t;
    }
    push_export_lines(&mut out, &names);
    out
}

/// Rewrites ES modules as CommonJS: an import statement becomes a call of
/// `require`, `export default` becomes `module.exports.default = `, exported
/// names are assigned to `module.exports`.
pub fn transform_es6_modules(source: &str) -> (r: String)
    ensures
        r@ == as_commonjs(source@),
{
    string_of(&commonjs_chars(&chars_of(source)))
}

/// The texts of a list as strings.
fn strings_of(v: &Vec<Vec<char>>) -> (r: Vec<String>)
    ensures
        string_views(r@) == texts(v@),
{
    let mut r: Vec<String> = Vec::new();
    let mut i: usize = 0;
    while i < v.len()
        invariant
            i <= v.len(),
            string_views(r@) == texts(v@).subrange(0, i as int),
        decreases v.len() - i,
    {
        let s = string_of(&v[i]);
        proof {
            lemma_string_views_push(r@, s);
        }
        r.push(s);
        i += 1;
    }
    r
}

/// An import statement as a static import.
fn static_of(st: &ReadImport) -> (r: StaticImportMetadata)
    ensures
        r@ == static_import(st@),
{
    let mut names: Vec<Vec<char>> = Vec::new();
    if st.default.len() > 0 {
        names.push(st.default.clone());
    }
    if st.namespace.len() > 0 {
        names.push(st.namespace.clone());
    }
    let ghost head = texts(names@);
    assert(head =~= (if st.default.len() > 0 {
        seq![st.default@]
    } else {
        Seq::empty()
    }) + (if st.namespace.len() > 0 {
        seq![st.namespace@]
    } else {
        Seq::empty()
    }));
    let mut i: usize = 0;
    while i < st.named.len()
        invariant
            i <= st.named.len(),
            texts(names@) == head + Seq::new(
                i as nat,
                |j: int| local_name(binding_views(st.named@)[j]),
            ),
        decreases st.named.len() - i,
    {
        let local = local_of(&st.named[i]);
        proof {
            lemma_texts_push(names@, local);
        }
        names.push(local);
        i += 1;
    }
    StaticImportMetadata {
        module: string_of(&st.module),
        imported: strings_of(&names),
        is_default: st.default.len() > 0,
        is_namespace: st.namespace.len() > 0,
        is_lazy: false,
    }
}

/// The module that the call `import(` at `pos` names.
fn read_lazy(s: &Vec<char>, pos: usize) -> (r: Option<Vec<char>>)
    requires
        pos < s.len(),
    ensures
        match lazy_module(s@, pos as int) {
            Some(m) => r is Some && r->0@ == m,
            None => r is None,
        },
{
    proof {
        reveal_strlit("import(");
        if has_prefix_at(s@, pos as int, "import("@) {
            assert(s@.subrange(pos as int, pos + 7)[0] == 'i');
        }
    }
    if s[pos] != 'i' || !starts_with_at(s, pos, "import(") {
        return None;
    }
    parse_quoted_spec(s, scan(s, pos + 7, CharClass::Whitespace))
}

/// The imports of the characters `s`.
pub fn static_imports_in(s: &Vec<char>) -> (r: Vec<StaticImportMetadata>)
    ensures
        static_views(r@) == static_imports(s@),
{
    let mut out: Vec<StaticImportMetadata> = Vec::new();
    let mut pos: usize = 0;
    let mut fresh = true;
    assert(static_views(out@) =~= Seq::<StaticImportView>::empty());
    while pos < s.len()
        invariant
            pos <= s.len(),
            collect(s@, pos as int, static_views(out@), fresh) == static_imports(s@),
        decreases s.len() - pos,
            if fresh {
                1nat
            } else {
                0nat
            },
    {
        if fresh {
            let t = scan(s, pos, CharClass::Whitespace);
            fresh = false;
            proof {
                lemma_import_statement_advances(s@, t as int);
            }
            match read_import(s, t) {
                Some(st) => {
                    let m = static_of(&st);
                    proof {
                        lemma_static_views_push(out@, m);
                    }
                    out.push(m);
                    pos = st.end;
                    continue ;
                },
                None => {},
            }
            pos = t;
            continue ;
        }
        match read_lazy(s, pos) {
            Some(module) => {
                let m = StaticImportMetadata {
                    module: string_of(&module),
                    imported: Vec::new(),
                    is_default: false,
                    is_namespace: false,
                    is_lazy: true,
                };
                assert(m@.imported =~= Seq::<Seq<char>>::empty());
                proof {
                    lemma_static_views_push(out@, m);
                }
                out.push(m);
            },
            None => {
                fresh = s[pos] == '\n';
            },
        }
        pos += 1;
    }
    out
}

/// The imports of `source`, in the order in which they stand: the import
/// statements at the starts of lines and the calls `import('mod')`.
pub fn extract_imports(source: &str) -> (r: Vec<StaticImportMetadata>)
    ensures
        static_views(r@) == static_imports(source@),
{
    static_imports_in(&chars_of(source))
}

/// Where a module comes from, for the metadata of a transpilation.
pub fn classify_import(source: &str) -> (r: ImportKind)
    ensures
        r == classified(source@),
{
    let s = chars_of(source);
    if is_text(&s, "react") || is_text(&s, "react-dom") || is_text(&s, "react-native")
        || starts_with_at(&s, 0, "@clevertree/") {
        ImportKind::SpecialPackage
    } else {
        ImportKind::Module
    }
}

/// The binding of one imported name of a static import.
fn binding_for(m: &StaticImportMetadata, name: &String) -> (r: ImportBinding)
    ensures
        r@ == binding_of_name(m@, name@),
{
    if m.is_namespace {
        return ImportBinding {
            binding_type: ImportBindingType::Namespace,
            name: name.clone(),
            alias: None,
        };
    }
    if m.is_default {
        return ImportBinding {
            binding_type: ImportBindingType::Default,
            name: name.clone(),
            alias: None,
        };
    }
    let p = chars_of(name.as_str());
    let i = find_text(&p, 0, " as ");
    if i < p.len() {
        proof {
            lemma_text_index(p@, 0, " as "@);
            reveal_strlit(" as ");
        }
        let j = find_text(&p, i + 4, " as ");
        proof {
            lemma_text_index(p@, i + 4, " as "@);
        }
        ImportBinding {
            binding_type: ImportBindingType::Named,
            name: string_of(&trimmed(&slice_of(&p, 0, i))),
            alias: Some(string_of(&trimmed(&slice_of(&p, i + 4, j)))),
        }
    } else {
        ImportBinding { binding_type: ImportBindingType::Named, name: name.clone(), alias: None }
    }
}

/// A static import with the kind of its module and its bindings.
fn import_with_bindings(m: &StaticImportMetadata) -> (r: ImportMetadata)
    ensures
        r@ == with_bindings(m@),
{
    let mut bindings: Vec<ImportBinding> = Vec::new();
    let mut i: usize = 0;
    while i < m.imported.len()
        invariant
            i <= m.imported.len(),
            binding_views(bindings@) == with_bindings(m@).bindings.subrange(0, i as int),
        decreases m.imported.len() - i,
    {
        let b = binding_for(m, &m.imported[i]);
        proof {
            lemma_binding_views_push(bindings@, b);
        }
        bindings.push(b);
        i += 1;
    }
    assert(with_bindings(m@).bindings.subrange(0, m.imported.len() as int) =~= with_bindings(
        m@,
    ).bindings);
    ImportMetadata {
        source: m.module.clone(),
        kind: classify_import(m.module.as_str()),
        bindings,
    }
}

/// The imports of `source` with the kinds of their modules and their
/// bindings.
pub fn extract_imports_with_bindings(source: &str) -> (r: Vec<ImportMetadata>)
    ensures
        import_views(r@) == imports_with_bindings(source@),
{
    let found = extract_imports(source);
    let mut out: Vec<ImportMetadata> = Vec::new();
    let mut i: usize = 0;
    while i < found.len()
        invariant
            i <= found.len(),
            static_views(found@) == static_imports(source@),
            import_views(out@) == imports_with_bindings(source@).subrange(0, i as int),
        decreases found.len() - i,
    {
        let m = import_with_bindings(&found[i]);
        proof {
            lemma_import_views_push(out@, m);
        }
        out.push(m);
        i += 1;
    }
    out
}

} // verus!
