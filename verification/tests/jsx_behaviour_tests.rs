use relay_hook_transpiler::error::{Expected, TypeScriptSyntax};
use relay_hook_transpiler::jsx_parser::{escape_string, transpile_jsx, transpile_jsx_with_metadata};
use relay_hook_transpiler::{
    transpile_jsx_simple, transpile_jsx_with_options, ImportKind, TranspileError,
    TranspileOptions,
};

fn js(source: &str) -> Result<String, TranspileError> {
    transpile_jsx(source, &TranspileOptions::default())
}

fn ts(source: &str) -> Result<String, TranspileError> {
    transpile_jsx(source, &TranspileOptions { is_typescript: true, ..Default::default() })
}

#[test]
fn scenario_empty_element() {
    assert_eq!(js("<div></div>").unwrap(), "__runtime.jsx(\"div\", {})");
}

#[test]
fn scenario_self_closing_with_attribute() {
    assert_eq!(
        js("<div className=\"foo\"/>").unwrap(),
        "__runtime.jsx(\"div\", { className: \"foo\" })"
    );
}

#[test]
fn scenario_text_child() {
    assert_eq!(
        js("<div>Hi</div>").unwrap(),
        "__runtime.jsx(\"div\", { children: [\"Hi\"] })"
    );
}

#[test]
fn scenario_interface_in_plain_javascript_is_rejected() {
    match js("interface User { name: string }") {
        Err(TranspileError::TypeScriptSyntaxDetected {
            syntax: TypeScriptSyntax::Keyword(word),
            position,
        }) => {
            assert_eq!(word, "interface");
            assert_eq!(position, 0);
        }
        other => panic!("unexpected result: {:?}", other),
    }
}

#[test]
fn mismatched_closing_tag_fails_without_output() {
    match js("<div></span>") {
        Err(TranspileError::MismatchedClosingTag { open, found, position }) => {
            assert_eq!(open, "div");
            assert_eq!(found, "span");
            assert_eq!(position, 12);
        }
        other => panic!("unexpected result: {:?}", other),
    }
    assert_eq!(
        transpile_jsx_simple("<div></span>"),
        Err("Mismatched closing tag: expected </div>  but got </span> at position 12".to_string())
    );
}

#[test]
fn self_closing_host_elements_keep_the_order_of_their_attributes() {
    assert_eq!(
        js("<input type=\"text\" list=\"cities\" id=\"city-input\"/>").unwrap(),
        "__runtime.jsx(\"input\", { type: \"text\", list: \"cities\", id: \"city-input\" })"
    );
    assert_eq!(js("<br/>").unwrap(), "__runtime.jsx(\"br\", {})");
    assert_eq!(
        js("<my-tag data-x=\"1\" aria_y=\"2\"/>").unwrap(),
        "__runtime.jsx(\"my-tag\", { data-x: \"1\", aria_y: \"2\" })"
    );
}

#[test]
fn components_are_not_quoted_and_host_elements_are() {
    assert_eq!(js("<Foo/>").unwrap(), "__runtime.jsx(Foo, {})");
    assert_eq!(js("<ui.Button/>").unwrap(), "__runtime.jsx(ui.Button, {})");
    assert_eq!(js("<a.b>x</a.b>").unwrap(), "__runtime.jsx(a.b, { children: [\"x\"] })");
    assert_eq!(js("<foo-bar/>").unwrap(), "__runtime.jsx(\"foo-bar\", {})");
    assert_eq!(js("<h1/>").unwrap(), "__runtime.jsx(\"h1\", {})");
    assert_eq!(js("<\u{c9}l/>").unwrap(), "__runtime.jsx(\u{c9}l, {})");
    assert_eq!(js("<\u{e9}l/>").unwrap(), "__runtime.jsx(\"\u{e9}l\", {})");
}

#[test]
fn children_are_the_last_key_in_source_order() {
    assert_eq!(
        js("<div id=\"a\" hidden>one <b/> {two} three</div>").unwrap(),
        "__runtime.jsx(\"div\", { id: \"a\", hidden: true, children: [\"one\", __runtime.jsx(\"b\", {}), two, \"three\"] })"
    );
}

#[test]
fn props_forms() {
    assert_eq!(
        js("<A b={c + 1} {...rest} d='e' f/>").unwrap(),
        "__runtime.jsx(A, { b: c + 1, ...rest, d: \"e\", f: true })"
    );
    assert_eq!(
        js("<A style={{ color: \"red\" }}/>").unwrap(),
        "__runtime.jsx(A, { style: { color: \"red\" } })"
    );
    assert_eq!(
        js("<A b={ x } >y</A>").unwrap(),
        "__runtime.jsx(A, { b:  x, children: [\"y\"] })"
    );
}

#[test]
fn text_is_trimmed_and_escaped() {
    assert_eq!(
        js("<p>\n  say \"hi\"\\now \n</p>").unwrap(),
        "__runtime.jsx(\"p\", { children: [\"say \\\"hi\\\"\\\\now\"] })"
    );
    assert_eq!(
        js("<p>a\n\tb</p>").unwrap(),
        "__runtime.jsx(\"p\", { children: [\"a\\n\\tb\"] })"
    );
    assert_eq!(js("<p>  \n </p>").unwrap(), "__runtime.jsx(\"p\", {})");
    assert_eq!(escape_string("a\\b\"c\nd\re\tf"), "a\\\\b\\\"c\\nd\\re\\tf");
}

#[test]
fn fragments_become_the_container_whatever_closes_them() {
    assert_eq!(js("<></>").unwrap(), "__runtime.jsx('div', {})");
    assert_eq!(js("<>X</>").unwrap(), "__runtime.jsx('div', { children: [\"X\"] })");
    assert_eq!(
        js("<>  X y </anything>").unwrap(),
        "__runtime.jsx('div', { children: [\"X y\"] })"
    );
    assert_eq!(js("<>   </span>").unwrap(), "__runtime.jsx('div', {})");
    assert_eq!(
        js("<><a/><b/></>").unwrap(),
        "__runtime.jsx('div', { children: [__runtime.jsx(\"a\", {}), __runtime.jsx(\"b\", {})] })"
    );
}

#[test]
fn strings_and_comments_are_opaque_to_the_jsx_pass() {
    let src = "var a = \"<div/>\"; var b = '<b></b>'; // <c/>\n/* <d/> */ var e = 1;";
    assert_eq!(js(src).unwrap(), src);
    assert_eq!(ts("var a = \"<div/> interface A {}\"; // x as Y\n").unwrap(),
        "var a = \"<div/> interface A {}\"; // x as Y\n");
    assert_eq!(js("s = \"a\\\"<b/>\";").unwrap(), "s = \"a\\\"<b/>\";");
}

#[test]
fn template_literals_transpile_their_interpolations() {
    assert_eq!(
        js("`a ${<b/>} c`").unwrap(),
        "`a ${__runtime.jsx(\"b\", {})} c`"
    );
    assert_eq!(js("`<b/> ${x}`").unwrap(), "`<b/> ${x}`");
}

#[test]
fn an_element_directly_behind_a_word_is_not_jsx() {
    assert!(matches!(
        js("<div>one<b/></div>"),
        Err(TranspileError::UnexpectedCharacter { expected: Expected::Element, position: 13 })
    ));
}

#[test]
fn less_than_is_not_always_jsx() {
    assert_eq!(js("if (a < b) {}").unwrap(), "if (a < b) {}");
    assert_eq!(js("a<b").unwrap(), "a<b");
    assert_eq!(js("x = 1 <2").unwrap(), "x = 1 <2");
    assert_eq!(ts("f<T>(x)").unwrap(), "f (x)");
    assert_eq!(ts("const f = <T>(x) => x;").unwrap(), "const f =  (x) => x;");
    assert_eq!(js("<div {...p}/>").unwrap(), "<div {...p}/>");
}

#[test]
fn unexpected_character_errors() {
    match js("<div a") {
        Err(TranspileError::UnexpectedCharacter { expected: Expected::Char('>'), position }) => {
            assert_eq!(position, 6)
        }
        other => panic!("unexpected result: {:?}", other),
    }
    match js("<div a=b/>") {
        Err(TranspileError::UnexpectedCharacter { expected: Expected::PropValue, position }) => {
            assert_eq!(position, 7)
        }
        other => panic!("unexpected result: {:?}", other),
    }
    match ts("</div>") {
        Err(TranspileError::UnexpectedCharacter { expected: Expected::Element, position }) => {
            assert_eq!(position, 1)
        }
        other => panic!("unexpected result: {:?}", other),
    }
    match js("<div a=\"x/>") {
        Err(TranspileError::UnexpectedCharacter { expected: Expected::Char(c), .. }) => {
            assert!(c == '>' || c == '"')
        }
        other => panic!("unexpected result: {:?}", other),
    }
    match js("<div>{x</div>") {
        Err(TranspileError::UnexpectedCharacter { expected: Expected::Char('}'), position }) => {
            assert_eq!(position, 13)
        }
        other => panic!("unexpected result: {:?}", other),
    }
    match js("<div a=\"\\") {
        Err(TranspileError::UnexpectedCharacter { .. }) => {}
        other => panic!("unexpected result: {:?}", other),
    }
}

#[test]
fn unexpected_eof_names_the_open_tag() {
    match js("<div>text") {
        Err(TranspileError::UnexpectedEof { tag, position }) => {
            assert_eq!(tag, "div");
            assert_eq!(position, 9);
        }
        other => panic!("unexpected result: {:?}", other),
    }
    assert_eq!(
        transpile_jsx_simple("<div>text"),
        Err("Unexpected end of input while parsing children for tag <div>. Current position: 9, Total length: 9".to_string())
    );
}

#[test]
fn error_messages() {
    assert_eq!(
        transpile_jsx_simple("<div a"),
        Err("Expected '>' at position 6".to_string())
    );
    assert_eq!(
        transpile_jsx_simple("<div a=b/>"),
        Err("Expected prop value at position 7".to_string())
    );
    assert_eq!(
        transpile_jsx_simple("interface A {}"),
        Err("Unexpected TypeScript syntax 'interface' at position 0".to_string())
    );
    assert_eq!(
        transpile_jsx_simple("let x: number = 1;"),
        Err("Unexpected TypeScript type annotation at position 5".to_string())
    );
    assert_eq!(
        transpile_jsx_simple("f = <T>(x) => x"),
        Err("Unexpected TypeScript generic at position 4".to_string())
    );
    let ts = TranspileOptions { is_typescript: true, ..Default::default() };
    assert_eq!(
        transpile_jsx_with_options("</div>", &ts),
        Err("Unexpected closing tag at position 1".to_string())
    );
    let backend = TranspileError::BackendFailure { message: "boom".to_string() };
    assert_eq!(backend.message(), "boom");
    assert_eq!(backend.position(), None);
    let eof = TranspileError::UnexpectedEof { tag: "a".to_string(), position: 1234567890 };
    assert_eq!(eof.message(), "Unexpected end of input while parsing children for tag <a>. Current position: 1234567890, Total length: 1234567890");
    assert_eq!(eof.position(), Some(1234567890));
}

#[test]
fn nested_expressions_are_checked_and_transpiled_as_sources_of_their_own() {
    assert!(matches!(
        js("<div>{x as Y}</div>"),
        Ok(_)
    ));
    assert!(matches!(
        js("<div>{(a: number) => a}</div>"),
        Err(TranspileError::TypeScriptSyntaxDetected { .. })
    ));
    assert_eq!(
        ts("<div>{x as Y}</div>").unwrap(),
        "__runtime.jsx(\"div\", { children: [x  ] })"
    );
}

#[test]
fn metadata_of_a_module() {
    let src = "import fs from 'fs';\nimport { a, b as c } from \"react\";\nimport * as u from './u';\nimport 'x.css';\nexport const v = <div/>;\nconst w = import('./lazy');\n";
    let (code, meta) = transpile_jsx_with_metadata(src, &TranspileOptions::default()).unwrap();
    assert!(code.contains("__runtime.jsx(\"div\", {})"));
    assert!(meta.has_jsx);
    assert!(meta.has_dynamic_import);
    assert_eq!(meta.version, relay_hook_transpiler::version());
    assert_eq!(meta.imports.len(), 4);
    assert_eq!(meta.imports[0].source, "fs");
    assert_eq!(meta.imports[0].kind, ImportKind::Builtin);
    assert_eq!(meta.imports[0].bindings.len(), 1);
    assert_eq!(meta.imports[0].bindings[0].name, "fs");
    assert_eq!(meta.imports[1].kind, ImportKind::SpecialPackage);
    assert_eq!(meta.imports[1].bindings.len(), 2);
    assert_eq!(meta.imports[1].bindings[1].name, "b");
    assert_eq!(meta.imports[1].bindings[1].alias, Some("c".to_string()));
    assert_eq!(meta.imports[2].kind, ImportKind::Module);
    assert_eq!(meta.imports[2].bindings[0].name, "u");
    assert_eq!(meta.imports[3].source, "x.css");
    assert!(meta.imports[3].bindings.is_empty());
    assert!(transpile_jsx_with_metadata("<a></b>", &TranspileOptions::default()).is_err());
}

#[test]
fn closing_tag_with_another_name_fails_for_any_element() {
    match js("<Panel><a/>text</Other >") {
        Err(TranspileError::MismatchedClosingTag { open, found, position }) => {
            assert_eq!(open, "Panel");
            assert_eq!(found, "Other");
            assert_eq!(position, 24);
        }
        other => panic!("unexpected result: {:?}", other),
    }
    assert_eq!(
        js("<Panel><a/>text</Panel >").unwrap(),
        "__runtime.jsx(Panel, { children: [__runtime.jsx(\"a\", {}), \"text\"] })"
    );
}

#[test]
fn every_element_is_one_call_with_children_last() {
    let out = js("<x.Y a=\"1\" {...r}><i/>{v}t</x.Y>").unwrap();
    assert!(out.starts_with("__runtime.jsx(x.Y, "));
    assert!(out.ends_with("children: [__runtime.jsx(\"i\", {}), v, \"t\"] })"));
    let out = js("<my-el b><i/></my-el>").unwrap();
    assert!(out.starts_with("__runtime.jsx(\"my-el\", "));
    assert!(out.ends_with("children: [__runtime.jsx(\"i\", {})] })"));
}
