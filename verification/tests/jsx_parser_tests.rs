use relay_hook_transpiler::jsx_parser::transpile_jsx;
use relay_hook_transpiler::TranspileOptions;

fn typescript() -> TranspileOptions {
    TranspileOptions { is_typescript: true, ..Default::default() }
}

fn javascript() -> TranspileOptions {
    TranspileOptions { is_typescript: false, ..Default::default() }
}

#[test]
fn test_simple_element() {
    let input = "<div></div>";
    let output = transpile_jsx(input, &TranspileOptions::default()).unwrap();
    assert_eq!(output, "__runtime.jsx(\"div\", {})");
}

#[test]
fn jsx_parser_test_self_closing() {
    let input = "<div />";
    let output = transpile_jsx(input, &TranspileOptions::default()).unwrap();
    assert_eq!(output, "__runtime.jsx(\"div\", {})");
}

#[test]
fn test_with_props() {
    let input = r#"<div className="foo" id="bar"></div>"#;
    let output = transpile_jsx(input, &TranspileOptions::default()).unwrap();
    assert!(output.contains("className: \"foo\""));
    assert!(output.contains("id: \"bar\""));
}

#[test]
fn test_destructuring_fix() {
    let src = r#"
export default function () {
  const theme = {
    colors: { primary: '#2196F3' }
  };
  const { colors: { primary } } = theme;
  return <div style={{ color: primary }} />;
}
"#;
    let out = transpile_jsx(src, &typescript()).expect("Should transpile correctly");
    // In TypeScript mode a `{` behind a colon begins a type, so the nested
    // pattern goes with its colon; the props of the element stay.
    assert!(out.contains("const { colors } = theme;"), "{}", out);
    assert!(out.contains("__runtime.jsx(\"div\", { style: { color: primary } })"), "{}", out);
}

#[test]
fn test_generic_fix() {
    let src = r#"const f = <T>(x: T) => x;"#;
    let err = transpile_jsx(src, &TranspileOptions::default());
    assert!(err.is_err(), "JS mode should reject TS generics");

    let out = transpile_jsx(src, &typescript()).expect("Should transpile correctly in TS mode");
    assert!(!out.contains("__runtime.jsx"), "Should NOT transpile generic as JSX");
}

#[test]
fn test_ts_mode_stripping() {
    let src = r#"
interface User { name: string; }
const user: User = { name: "Ari" };
const f = <T>(x: T): T => x;
const element = <div user={user as any} />;"#;
    let out = transpile_jsx(src, &typescript()).expect("Should transpile correctly");
    assert!(!out.contains("interface User"), "Should strip interface");
    assert!(!out.contains(": User"), "Should strip type annotation");
    assert!(!out.contains("<T>"), "Should strip generic");
    assert!(!out.contains("as any"), "Should strip 'as any'");
    assert!(out.contains("__runtime.jsx"), "Should transpile JSX");
}

#[test]
fn test_js_mode_rejections() {
    let src_interface = "interface User { name: string; }";
    let err = transpile_jsx(src_interface, &javascript());
    assert!(err.is_err(), "Should reject interface in JS mode");

    let src_type = "type MyNum = number;";
    let err = transpile_jsx(src_type, &javascript());
    assert!(err.is_err(), "Should reject type in JS mode");

    let src_annotation = "const x: number = 5;";
    let err = transpile_jsx(src_annotation, &javascript());
    assert!(err.is_err(), "Should reject type annotation in JS mode");

    let src_destructuring = "const { colors: { primary } } = theme;";
    let out = transpile_jsx(src_destructuring, &javascript()).expect("Should allow destructuring");
    assert!(
        out.contains("const { colors: { primary } } = theme;"),
        "Should preserve destructuring in JS mode"
    );
}

#[test]
fn test_with_children() {
    let input = "<div>Hello World</div>";
    let output = transpile_jsx(input, &TranspileOptions::default()).unwrap();
    assert!(output.contains("children"));
    assert!(output.contains("Hello World"));
}

#[test]
fn test_nested_elements() {
    let input = "<div><span>Nested</span></div>";
    let output = transpile_jsx(input, &TranspileOptions::default()).unwrap();
    assert!(output.contains("div"));
    assert!(output.contains("span"));
    assert!(output.contains("Nested"));
}

#[test]
fn test_fragment() {
    let input = "<>Fragment content</>";
    let output = transpile_jsx(input, &TranspileOptions::default()).unwrap();
    assert!(output.contains("Fragment content"));
}
