use relay_hook_transpiler::chars::CharClass;
use relay_hook_transpiler::error::Expected;
use relay_hook_transpiler::imports::extract_imports_and_features;
use relay_hook_transpiler::{
    check_for_typescript_syntax, strip_typescript, transpile_jsx_with_metadata, DebugContext,
    DebugLevel, ImportBindingType, ImportKind, ParseContext, TranspileError,
};

#[test]
fn cursor_reads_and_moves() {
    let mut ctx = ParseContext::new("a  \u{e9}b".to_string(), false);
    assert_eq!(ctx.pos, 0);
    assert_eq!(ctx.current_char(), Some('a'));
    assert_eq!(ctx.peek(3), Some('\u{e9}'));
    assert_eq!(ctx.peek(5), None);
    assert_eq!(ctx.peek(usize::MAX), None);
    ctx.advance();
    assert_eq!(ctx.pos, 1);
    ctx.skip_whitespace();
    assert_eq!(ctx.pos, 3);
    assert_eq!(ctx.slice(3, 5), "\u{e9}b");
    assert!(ctx.consume('\u{e9}').is_ok());
    assert_eq!(ctx.pos, 4);
    match ctx.consume('x') {
        Err(TranspileError::UnexpectedCharacter { expected: Expected::Char('x'), position }) => {
            assert_eq!(position, 4)
        }
        other => panic!("unexpected result: {:?}", other),
    }
    assert_eq!(ctx.pos, 4);
    ctx.advance();
    ctx.advance();
    ctx.advance();
    assert_eq!(ctx.pos, 5);
    assert_eq!(ctx.current_char(), None);
    assert!(ctx.consume('b').is_err());
}

#[test]
fn character_classes_follow_unicode() {
    assert!(CharClass::Whitespace.test(' '));
    assert!(CharClass::Whitespace.test('\u{a0}'));
    assert!(CharClass::Whitespace.test('\u{2003}'));
    assert!(!CharClass::Whitespace.test('_'));
    assert!(CharClass::Ident.test('\u{e9}'));
    assert!(CharClass::Ident.test('_'));
    assert!(CharClass::Ident.test('\u{661}'));
    assert!(!CharClass::Ident.test('$'));
    assert!(CharClass::Word.test('$'));
    assert!(CharClass::TagName.test('.'));
    assert!(!CharClass::PropName.test('.'));
    assert!(CharClass::AttrName.test(':'));
    assert!(!CharClass::Text.test('<'));
    assert!(CharClass::Only('x').test('x'));
    assert!(!CharClass::Except('x').test('x'));
}

#[test]
fn stripper_exact_outputs() {
    assert_eq!(strip_typescript("const x: number = 5;").unwrap(), "const x = 5;");
    assert_eq!(strip_typescript("let y = foo as Bar;").unwrap(), "let y = foo  ;");
    assert_eq!(strip_typescript("interface A { x: number }\nlet a = 1;").unwrap(), "\nlet a = 1;");
    assert_eq!(strip_typescript("enum E { A, B }x").unwrap(), "x");
    assert_eq!(strip_typescript("type T = string | number;\nx").unwrap(), "\nx");
    assert_eq!(strip_typescript("a!.b").unwrap(), "a.b");
    assert_eq!(strip_typescript("a != b; !c; a! ").unwrap(), "a != b; !c; a! ");
    assert_eq!(strip_typescript("f<T>(x)").unwrap(), "f (x)");
    assert_eq!(strip_typescript("class A { private x = 1; }").unwrap(), "class A { x = 1; }");
    assert_eq!(strip_typescript("var type = 1; o.type; type: x").unwrap(), "var type = 1; o.type; type: x");
    assert_eq!(strip_typescript("x = { a: { b: 1 }, c: [2] }").unwrap(), "x = { a , c }");
    assert_eq!(strip_typescript("x = { a: b, c: 2, d: 'e' }").unwrap(), "x = { a: b, c: 2, d: 'e' }");
    assert_eq!(strip_typescript("let p: { a: string } = q;").unwrap(), "let p = q;");
    assert_eq!(strip_typescript("let p: [number, string] = q;").unwrap(), "let p = q;");
    assert_eq!(strip_typescript("function f(a: string, b: Foo<Bar>): void {}").unwrap(), "function f(a , b ) {}");
    assert_eq!(strip_typescript("<div>{x}</div>").unwrap(), "<div>{x}</div>");
    assert_eq!(strip_typescript("").unwrap(), "");
}

#[test]
fn stripper_never_lengthens() {
    for src in ["a as B", "x: Y", "f<T>()", "a!.b", "plain", "interface I {}", "<a b='c'/>"] {
        assert!(strip_typescript(src).unwrap().chars().count() <= src.chars().count());
    }
}

#[test]
fn stripper_leaves_strings_and_comments_alone() {
    let src = "a = \"x: Foo as Bar\"; b = 'interface I {}'; c = `type T = 1;`; // x as Y\n/* let z: Z */";
    assert_eq!(strip_typescript(src).unwrap(), src);
}

#[test]
fn plain_javascript_is_accepted() {
    for src in [
        "",
        "const { colors: { primary } } = theme;",
        "import { x as y } from 'z';",
        "a ? b : c",
        "var s = \"interface X {}\"; // enum\n/* private x */",
        "<p>Status: Ready; type Foo = interface</p>",
        "x = { type: 1, a: [2] }",
        "mytype T = 1; _interface",
        "a < b",
    ] {
        assert!(check_for_typescript_syntax(src).is_ok(), "{}", src);
    }
}

#[test]
fn typescript_is_rejected_where_it_stands() {
    let cases: [(&str, usize); 9] = [
        ("interface A {}", 0),
        ("x; enum E {}", 3),
        ("class A { private x; }", 10),
        ("public a", 0),
        ("protected a", 0),
        ("readonly a", 0),
        ("type T = number;", 0),
        ("function f(a: string) {}", 12),
        ("let f = g<T>(x)", 0),
    ];
    for (src, position) in cases {
        match check_for_typescript_syntax(src) {
            Err(TranspileError::TypeScriptSyntaxDetected { position: p, .. }) => {
                if src.starts_with("let f") {
                    assert_eq!(p, 9, "{}", src)
                } else {
                    assert_eq!(p, position, "{}", src)
                }
            }
            other => panic!("{}: unexpected result {:?}", src, other),
        }
    }
}

#[test]
fn elements_that_cannot_be_skipped_are_reported() {
    match check_for_typescript_syntax("<div a") {
        Err(TranspileError::UnexpectedCharacter { expected: Expected::Char('>'), position }) => {
            assert_eq!(position, 6)
        }
        other => panic!("unexpected result: {:?}", other),
    }
    assert!(check_for_typescript_syntax("<a b=\"1\" {...c} d={e}>x</a>").is_ok());
}

#[test]
fn imports_line_by_line() {
    let src = "import 'side';\n  import { a, b as c, } from \"m\";\r\nimport * as ns from 'node:fs'\nimport Def from 'fs/promises';;\nimport x from y;\nconst z = <a/>; import('lazy');\nimport React, { useState } from 'react';\n";
    let (imports, has_jsx, has_dynamic_import) = extract_imports_and_features(src);
    assert!(has_jsx);
    assert!(has_dynamic_import);
    assert_eq!(imports.len(), 4);
    assert_eq!(imports[0].source, "side");
    assert_eq!(imports[0].kind, ImportKind::Module);
    assert!(imports[0].bindings.is_empty());
    assert_eq!(imports[1].source, "m");
    assert_eq!(imports[1].bindings.len(), 2);
    assert_eq!(imports[1].bindings[0].binding_type, ImportBindingType::Named);
    assert_eq!(imports[1].bindings[0].name, "a");
    assert_eq!(imports[1].bindings[0].alias, None);
    assert_eq!(imports[1].bindings[1].name, "b");
    assert_eq!(imports[1].bindings[1].alias, Some("c".to_string()));
    assert_eq!(imports[2].source, "node:fs");
    assert_eq!(imports[2].kind, ImportKind::Builtin);
    assert_eq!(imports[2].bindings[0].binding_type, ImportBindingType::Namespace);
    assert_eq!(imports[2].bindings[0].name, "ns");
    assert_eq!(imports[3].source, "fs/promises");
    assert_eq!(imports[3].kind, ImportKind::Builtin);
    assert_eq!(imports[3].bindings[0].binding_type, ImportBindingType::Default);
    assert_eq!(imports[3].bindings[0].name, "Def");

    let (none, jsx, dynamic) = extract_imports_and_features("a < b");
    assert!(none.is_empty());
    assert!(!jsx);
    assert!(!dynamic);
}

#[test]
fn import_kinds() {
    let kind = |m: &str| {
        let src = format!("import x from '{}';", m);
        extract_imports_and_features(&src).0[0].kind
    };
    assert_eq!(kind("fs"), ImportKind::Builtin);
    assert_eq!(kind("path/posix"), ImportKind::Builtin);
    assert_eq!(kind("node:anything"), ImportKind::Builtin);
    assert_eq!(kind("react"), ImportKind::SpecialPackage);
    assert_eq!(kind("react-dom"), ImportKind::SpecialPackage);
    assert_eq!(kind("@clevertree/meta"), ImportKind::SpecialPackage);
    assert_eq!(kind("@clevertree/other"), ImportKind::Module);
    assert_eq!(kind("react-native"), ImportKind::Module);
    assert_eq!(kind("./fs"), ImportKind::Module);
    assert_eq!(kind("fsx"), ImportKind::Module);
}

#[test]
fn metadata_with_bindings() {
    let src = "import React, { useState } from 'react';\nimport * as h from '@clevertree/helpers';\nimport { a as b } from './m';\nconst x = import('react-native');\nlet y = <p/>;";
    let result = transpile_jsx_with_metadata(src, Some("m.jsx"), false).unwrap();
    assert!(result.code.contains("__runtime.jsx(\"p\", {})"));
    let meta = result.metadata;
    assert!(meta.has_jsx);
    assert!(meta.has_dynamic_import);
    assert_eq!(meta.version, "0.1.0");
    assert_eq!(meta.imports.len(), 4);
    assert_eq!(meta.imports[0].kind, ImportKind::SpecialPackage);
    assert_eq!(meta.imports[0].bindings.len(), 2);
    assert_eq!(meta.imports[0].bindings[0].binding_type, ImportBindingType::Default);
    assert_eq!(meta.imports[0].bindings[1].binding_type, ImportBindingType::Default);
    assert_eq!(meta.imports[1].kind, ImportKind::SpecialPackage);
    assert_eq!(meta.imports[1].bindings[0].binding_type, ImportBindingType::Namespace);
    assert_eq!(meta.imports[1].bindings[0].name, "h");
    assert_eq!(meta.imports[2].kind, ImportKind::Module);
    assert_eq!(meta.imports[2].bindings[0].binding_type, ImportBindingType::Named);
    assert_eq!(meta.imports[2].bindings[0].name, "b");
    assert_eq!(meta.imports[2].bindings[0].alias, None);
    assert_eq!(meta.imports[3].source, "react-native");
    assert_eq!(meta.imports[3].kind, ImportKind::SpecialPackage);
    assert!(meta.imports[3].bindings.is_empty());

    assert_eq!(
        transpile_jsx_with_metadata("enum E {}", None, false).err(),
        Some("Unexpected TypeScript syntax 'enum' at position 0".to_string())
    );
    assert!(transpile_jsx_with_metadata("enum E {}", None, true).is_ok());
}

#[test]
fn debug_levels() {
    assert_eq!(DebugLevel::default(), DebugLevel::Off);
    assert_eq!("TRACE".parse::<DebugLevel>().unwrap(), DebugLevel::Trace);
    assert_eq!("Warning".parse::<DebugLevel>().unwrap(), DebugLevel::Warn);
    assert_eq!("2".parse::<DebugLevel>().unwrap(), DebugLevel::Warn);
    assert_eq!(
        "loud".parse::<DebugLevel>(),
        Err("Invalid debug level: loud".to_string())
    );
    assert_eq!(DebugLevel::from_lowercase("TRACE"), None);
    assert_eq!(DebugLevel::from_lowercase("info"), Some(DebugLevel::Info));
    assert_eq!(DebugLevel::Warn.rank(), 2);
    assert_eq!(DebugLevel::from_rank(3), Some(DebugLevel::Info));
    assert_eq!(DebugLevel::from_rank(6), None);
    assert_eq!(DebugLevel::Info.to_string(), "info");
    assert_eq!(DebugLevel::Warn.to_string(), "warn");
}

#[test]
fn debug_context_logs_and_formats() {
    let mut ctx = DebugContext::default();
    ctx.error("dropped");
    assert!(ctx.get_logs().is_empty());
    assert_eq!(ctx.format_logs(), "");
    ctx.set_level(DebugLevel::Info);
    ctx.error("e");
    ctx.log_at(DebugLevel::Warn, "w", Some(3), Some(14));
    ctx.log_at(DebugLevel::Info, "i", Some(15), None);
    ctx.log_at(DebugLevel::Info, "c", None, Some(9));
    ctx.info("plain");
    ctx.trace("dropped");
    ctx.verbose("dropped");
    ctx.log(DebugLevel::Off, "always");
    assert_eq!(ctx.get_logs().len(), 6);
    assert_eq!(ctx.get_logs()[1].message, "w");
    assert_eq!(
        ctx.format_logs(),
        "[error]: e\n[warn] [3:14]: w\n[info] [line 15]: i\n[info]: c\n[info]: plain\n[off]: always"
    );
    ctx.clear_logs();
    assert!(ctx.get_logs().is_empty());
    ctx.info("again");
    assert_eq!(ctx.format_logs(), "[info]: again");
}
