use relay_hook_transpiler::{
    extract_imports, transform_es6_modules, transpile_jsx_with_options, TranspileOptions,
    TranspileTarget,
};

#[test]
fn test_transform_es6_modules() {
    let input = r#"import { useState } from 'react';
export default function MyComponent() {
  return <div>Test</div>;
}"#;
    let output = transform_es6_modules(input);

    assert!(output.contains("const { useState } = require('react')"));
    assert!(output.contains("module.exports.default = function MyComponent()"));
}

#[test]
fn test_transform_es6_named_exports() {
    let input = "export { foo, bar as baz };";
    let output = transform_es6_modules(input);

    assert!(output.contains("module.exports.foo = foo"));
    assert!(output.contains("module.exports.baz = bar"));
}

#[test]
fn test_transform_es6_side_effect_imports() {
    let input = r#"import 'styles.css';"#;
    let output = transform_es6_modules(input);

    assert!(output.contains("require('styles.css')"));
}

#[test]
fn test_extract_imports_for_prefetch() {
    let input = r#"
import React from 'react';
import { useState, useEffect } from 'react';
import * as Utils from './utils';
const lazyComp = import('./LazyComponent');
import 'styles.css';
"#;
    let imports = extract_imports(input);

    assert_eq!(imports.len(), 5);

    assert_eq!(imports[0].module, "react");
    assert!(imports[0].is_default);
    assert!(!imports[0].is_lazy);

    assert_eq!(imports[1].module, "react");
    assert!(!imports[1].is_default);
    assert_eq!(imports[1].imported.len(), 2);

    assert_eq!(imports[2].module, "./utils");
    assert!(imports[2].is_namespace);

    assert_eq!(imports[3].module, "./LazyComponent");
    assert!(imports[3].is_lazy);

    assert_eq!(imports[4].module, "styles.css");
    assert!(imports[4].imported.is_empty());
}

#[test]
fn test_extract_imports_with_aliases() {
    let input = "import { useState as State, useEffect as Effect } from 'react';";
    let imports = extract_imports(input);

    assert_eq!(imports.len(), 1);
    assert_eq!(imports[0].imported.len(), 2);
    assert!(imports[0].imported.contains(&"State".to_string()));
    assert!(imports[0].imported.contains(&"Effect".to_string()));
}

#[test]
fn test_extract_imports_scoped_packages() {
    let input = "import { Logger } from '@myorg/logging';";
    let imports = extract_imports(input);

    assert_eq!(imports.len(), 1);
    assert_eq!(imports[0].module, "@myorg/logging");
    assert_eq!(imports[0].imported, vec!["Logger"]);
}

#[test]
fn test_combined_module_transformation_and_extraction() {
    let source = r#"
import React, { useState } from 'react';
import './styles.css';

export const useMyHook = () => {
  const [state, setState] = useState(null);
  return state;
};

export default function Component() {
  return <div>Test</div>;
}
"#;

    let imports = extract_imports(source);
    assert!(imports.len() >= 2);

    let react_imports: Vec<_> = imports.iter().filter(|i| i.module == "react").collect();
    assert!(!react_imports.is_empty());

    let styles_import = imports.iter().find(|i| i.module == "./styles.css");
    assert!(styles_import.is_some());

    let transformed = transform_es6_modules(source);
    assert!(transformed.contains("require('react')") || transformed.contains("require(\"react\")"));
    assert!(
        transformed.contains("require('./styles.css')")
            || transformed.contains("require(\"./styles.css\")")
    );
    assert!(transformed.contains("module.exports.useMyHook"));
    assert!(transformed.contains("module.exports.default"));
}

#[test]
fn test_lazy_import_extraction() {
    let source = r#"
const lazyForm = import('./forms/FormComponent');
const lazyModal = import('./modals/Modal');
"#;
    let imports = extract_imports(source);

    assert_eq!(imports.len(), 2);
    assert!(imports[0].is_lazy);
    assert!(imports[1].is_lazy);
    assert_eq!(imports[0].module, "./forms/FormComponent");
    assert_eq!(imports[1].module, "./modals/Modal");
}

#[test]
fn transforms_multiline_imports() {
    let src = r#"import React, {
  useState,
  useEffect
} from 'react';

export default
function MyComponent() {
    return null;
}
"#;

    let out = transform_es6_modules(src);
    assert!(out.contains("const React = require('react');"));
    assert!(
        out.contains("const {")
            && out.contains("useState")
            && out.contains("useEffect")
            && out.contains("= React")
    );
    assert!(out.contains("module.exports.default ="));
    assert!(out.contains("function MyComponent()"));
}

#[test]
fn transforms_export_const() {
    let src = "export const MyValue = 42;";
    let out = transform_es6_modules(src);

    assert!(out.contains("const MyValue = 42;"));
    assert!(out.contains("module.exports.MyValue = MyValue;"));
}

#[test]
fn transforms_side_effect_import() {
    let src = "import './styles.css';";
    let out = transform_es6_modules(src);

    assert!(out.contains("require('./styles.css');"));
}

#[test]
fn transforms_export_default_with_newline() {
    let src = r#"export default
function getClient() {
    return 42;
}
"#;
    let out = transform_es6_modules(src);

    assert!(out.contains("module.exports.default ="));
    assert!(out.contains("function getClient()"));
}

fn android() -> TranspileOptions {
    TranspileOptions { target: TranspileTarget::Android, ..Default::default() }
}

#[test]
fn handles_optional_chaining() {
    let src = "console.log(a?.b);";
    let out = transpile_jsx_with_options(src, &android()).unwrap();
    assert!(out.contains("!= null") || out.contains("== null"));
}

#[test]
fn handles_nested_optional_chaining() {
    let src = "console.log(a?.b?.c);";
    let out = transpile_jsx_with_options(src, &android()).unwrap();
    assert!(out.contains("!= null") || out.contains("== null"));
}

#[test]
fn handles_nullish_coalescing() {
    let source = "const x = a ?? b;";
    let output = transpile_jsx_with_options(source, &android()).unwrap();
    assert!(output.contains("!= null") || output.contains("== null"));
}

#[test]
fn handles_optional_call() {
    let src = "a?.(b);";
    let out = transpile_jsx_with_options(src, &android()).unwrap();
    assert!(out.contains("!= null") || out.contains("== null"));
}

#[test]
fn handles_optional_index() {
    let src = "a?.[b];";
    let out = transpile_jsx_with_options(src, &android()).unwrap();
    assert!(out.contains("!= null") || out.contains("== null"));
}

#[test]
fn commonjs_exact_forms() {
    assert_eq!(transform_es6_modules("import 'a.css';"), "require('a.css');");
    assert_eq!(transform_es6_modules("import \"a.css\""), "require(\"a.css\");");
    assert_eq!(transform_es6_modules("import X from 'm';\n"), "const X = require('m');\n");
    assert_eq!(transform_es6_modules("import * as N from 'm';"), "const N = require('m');");
    assert_eq!(
        transform_es6_modules("import { a, b as c } from 'm';"),
        "const { a, b: c } = require('m');"
    );
    assert_eq!(
        transform_es6_modules("import D, { a } from 'm';"),
        "const D = require('m');\nconst { a } = D;"
    );
    assert_eq!(
        transform_es6_modules("import D, * as N from 'm';"),
        "const D = require('m');\nconst N = D;"
    );
}

#[test]
fn commonjs_exports_exact() {
    assert_eq!(
        transform_es6_modules("export default 1;"),
        "module.exports.default = 1;"
    );
    assert_eq!(
        transform_es6_modules("export { foo, bar as baz };"),
        "module.exports.foo = foo;\nmodule.exports.baz = bar;"
    );
    assert_eq!(
        transform_es6_modules("export const a = 1;\nexport function f() {}\n"),
        "const a = 1;\nfunction f() {}\n\nmodule.exports.a = a;\nmodule.exports.f = f;"
    );
    assert_eq!(
        transform_es6_modules("export async function g() {}"),
        "async function g() {}\nmodule.exports.g = g;"
    );
    assert_eq!(
        transform_es6_modules("export class K {}"),
        "class K {}\nmodule.exports.K = K;"
    );
}

#[test]
fn commonjs_leaves_other_text_alone() {
    let src = "  const x = 1;\nlet y = important(x);\nexports = 2; // import z from 'z'\n";
    assert_eq!(transform_es6_modules(src), src);
    assert_eq!(transform_es6_modules("x = import('./lazy');"), "x = import('./lazy');");
    assert_eq!(transform_es6_modules("export { a } from 'm';"), "export { a } from 'm';");
    assert_eq!(transform_es6_modules("import x"), "import x");
    assert_eq!(transform_es6_modules(""), "");
}

#[test]
fn commonjs_keeps_indentation_and_rest_of_line() {
    assert_eq!(
        transform_es6_modules("  import a from 'a'; f();\n"),
        "  const a = require('a'); f();\n"
    );
}

#[test]
fn extract_imports_combined_default_and_named_is_one_import() {
    let imports = extract_imports("import React, { useState as S } from 'react';");
    assert_eq!(imports.len(), 1);
    assert_eq!(imports[0].module, "react");
    assert_eq!(imports[0].imported, vec!["React", "S"]);
    assert!(imports[0].is_default);
    assert!(!imports[0].is_namespace);
    assert!(!imports[0].is_lazy);
}

#[test]
fn extract_imports_ignores_imports_in_the_middle_of_a_line_and_unclosed_strings() {
    assert!(extract_imports("x; import a from 'a';").is_empty());
    assert!(extract_imports("import a from 'a").is_empty());
    assert!(extract_imports("const x = import(name);").is_empty());
    assert_eq!(extract_imports("f(import( \"./x\" ))").len(), 1);
}
