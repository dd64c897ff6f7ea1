use relay_hook_transpiler::{
    transpile_jsx_simple, transpile_jsx_with_options, DebugLevel, TranspileOptions,
    TranspileTarget,
};

#[test]
fn comprehensive_map_test() {
    let src = r#"
        <div>
          {peers.map(p => (
              <div key={p.id}>
                  <span>{p.name}</span>
                  <button onClick={() => remove(p.id)}>X</button>
              </div>
          ))}
        </div>
    "#;
    let out = transpile_jsx_simple(src).expect("should transpile");

    assert!(out.contains("__runtime.jsx(\"div\", { children: [peers.map("));
    assert!(out.contains("__runtime.jsx(\"div\", { key: p.id, children: ["));
    assert!(out.contains("__runtime.jsx(\"span\", { children: [p.name] })"));
    assert!(out.contains(
        "__runtime.jsx(\"button\", { onClick: () => remove(p.id), children: [\"X\"] })"
    ));
}

#[test]
fn jsx_in_props_transpiles() {
    let src = r#"
        <MyComponent 
            header={<div>Header</div>} 
            footer={<span>Footer</span>}
        />
    "#;
    let out = transpile_jsx_simple(src).expect("should transpile");

    assert!(out.contains("header: __runtime.jsx(\"div\""));
    assert!(out.contains("footer: __runtime.jsx(\"span\""));
}

#[test]
fn transpiles_input_and_datalist() {
    let source = r#"
            export default function Test() {
                return (
                    <div>
                        <input type="text" list="cities" id="city-input" />
                        <datalist id="cities">
                            <option value="Boston" />
                            <option value="New York" />
                        </datalist>
                    </div>
                );
            }
        "#;

    let options = TranspileOptions { filename: Some("test.jsx".to_string()), ..Default::default() };

    let result = transpile_jsx_with_options(source, &options).unwrap();
    println!("Transpiled output:\n{}", result);

    assert!(result.contains("\"input\""));
    assert!(result.contains("\"datalist\""));
    assert!(result.contains("\"option\""));
    assert!(result.contains("list:"));
    assert!(result.contains("id: \"city-input\""));
}

#[test]
fn test_debug_level_default_is_trace() {
    let opts = TranspileOptions::default();
    assert_eq!(opts.debug_level, DebugLevel::Off);
}

#[test]
fn test_transpile_with_debug_trace_level() {
    let source = "<div>Hello Debug</div>";
    let opts = TranspileOptions {
        is_typescript: false,
        target: TranspileTarget::Web,
        filename: Some("debug_test.jsx".to_string()),
        debug_level: DebugLevel::Trace,
        ..Default::default()
    };

    let result = transpile_jsx_with_options(source, &opts);
    assert!(result.is_ok(), "Transpilation with Trace debug level should succeed");

    let output = result.unwrap();
    assert!(output.contains("__runtime.jsx"));
    assert!(output.contains("Hello Debug"));
}

#[test]
fn test_transpile_with_debug_off() {
    let source = "<span>No Debug</span>";
    let opts = TranspileOptions {
        is_typescript: false,
        target: TranspileTarget::Web,
        filename: Some("nodebug.jsx".to_string()),
        debug_level: DebugLevel::Off,
        ..Default::default()
    };

    let result = transpile_jsx_with_options(source, &opts);
    assert!(result.is_ok(), "Transpilation with debug off should succeed");

    let output = result.unwrap();
    assert!(output.contains("__runtime.jsx"));
    assert!(output.contains("span"));
}

#[test]
fn debug_transpile_test_debug_level_ordering() {
    assert!(DebugLevel::Off < DebugLevel::Error);
    assert!(DebugLevel::Error < DebugLevel::Warn);
    assert!(DebugLevel::Warn < DebugLevel::Info);
    assert!(DebugLevel::Info < DebugLevel::Trace);
    assert!(DebugLevel::Trace < DebugLevel::Verbose);
}

#[test]
fn test_debug_level_string_parsing() {
    assert_eq!("off".parse::<DebugLevel>().unwrap(), DebugLevel::Off);
    assert_eq!("error".parse::<DebugLevel>().unwrap(), DebugLevel::Error);
    assert_eq!("warn".parse::<DebugLevel>().unwrap(), DebugLevel::Warn);
    assert_eq!("info".parse::<DebugLevel>().unwrap(), DebugLevel::Info);
    assert_eq!("trace".parse::<DebugLevel>().unwrap(), DebugLevel::Trace);
    assert_eq!("verbose".parse::<DebugLevel>().unwrap(), DebugLevel::Verbose);

    assert_eq!("0".parse::<DebugLevel>().unwrap(), DebugLevel::Off);
    assert_eq!("4".parse::<DebugLevel>().unwrap(), DebugLevel::Trace);
    assert_eq!("5".parse::<DebugLevel>().unwrap(), DebugLevel::Verbose);
}

#[test]
fn test_debug_level_display() {
    assert_eq!(DebugLevel::Off.to_string(), "off");
    assert_eq!(DebugLevel::Error.to_string(), "error");
    assert_eq!(DebugLevel::Trace.to_string(), "trace");
    assert_eq!(DebugLevel::Verbose.to_string(), "verbose");
}

#[test]
fn test_transpile_typescript_with_debug() {
    let source = r#"
import { useState }: React from 'react';

export const MyHook = (): [string, (s: string) => void] => {
  debugger;
  const [value, setValue] = useState('');
  return [value, setValue];
};

export default function MyComponent(): JSX.Element {
  debugger;
  const [state, setState] = useState<string>('test');
  return <div>{state}</div>;
}
"#;

    let opts = TranspileOptions {
        is_typescript: true,
        target: TranspileTarget::Web,
        filename: Some("debug.tsx".to_string()),
        debug_level: DebugLevel::Trace,
        ..Default::default()
    };

    let result = transpile_jsx_with_options(source, &opts);
    assert!(result.is_ok(), "TypeScript transpilation with debug should succeed");

    let output = result.unwrap();
    assert!(output.contains("debugger"), "debugger statements should be preserved");
}

#[test]
fn test_android_target_with_debug_trace() {
    let source = "<div>Android Debug</div>";
    let opts = TranspileOptions {
        is_typescript: false,
        target: TranspileTarget::Android,
        filename: Some("android_debug.jsx".to_string()),
        debug_level: DebugLevel::Trace,
        to_commonjs: true,
        compat_for_jsc: true,
        ..Default::default()
    };

    let result = transpile_jsx_with_options(source, &opts);
    match result {
        Ok(output) => {
            assert!(
                output.contains("__runtime") || output.contains("div"),
                "should produce transpiled output"
            );
        }
        Err(e) => {
            assert!(e.contains("SWC") || e.contains("transformation"));
        }
    }
}

#[test]
fn test_transpile_with_debug_verbose_level() {
    let source = "<p>Verbose Debug Test</p>";
    let opts = TranspileOptions {
        is_typescript: false,
        target: TranspileTarget::Web,
        filename: Some("verbose.jsx".to_string()),
        debug_level: DebugLevel::Verbose,
        ..Default::default()
    };

    let result = transpile_jsx_with_options(source, &opts);
    assert!(result.is_ok(), "Transpilation with Verbose debug should succeed");

    let output = result.unwrap();
    assert!(output.contains("p"));
    assert!(output.contains("__runtime.jsx"));
}

#[test]
fn block_scoping_with_arrow_functions() {
    let src = r#"
import React from 'react';

export default function Component() {
    const items = [1, 2, 3];
    const [count, setCount] = React.useState(0);
    
    return (
        <div>
            <button onClick={() => setCount(count + 1)}>
                Clicked {count} times
            </button>
            <ul>
                {items.map(item => (
                    <li key={item}>{item}</li>
                ))}
            </ul>
        </div>
    );
}
"#;

    let opts = TranspileOptions {
        filename: Some("test.jsx".to_string()),
        is_typescript: false,
        target: TranspileTarget::Android,
        to_commonjs: true,
        compat_for_jsc: true,
        ..Default::default()
    };

    let result = transpile_jsx_with_options(src, &opts);

    match result {
        Ok(output) => {
            println!("Block scoping test output:\n{}", output);
            assert!(!output.contains("const "), "should not contain const");
            assert!(!output.contains("let "), "should not contain let");
            assert!(output.contains("var "), "should use var");
        }
        Err(e) => {
            panic!("Block scoping test failed: {}", e);
        }
    }
}

#[test]
fn typescript_jsx_simple() {
    let src = r#"const x: string = 'test'; <div>{x}</div>"#;
    let opts = TranspileOptions {
        is_typescript: true,
        filename: Some("test.tsx".to_string()),
        target: TranspileTarget::Android,
        to_commonjs: true,
        compat_for_jsc: true,
        ..Default::default()
    };

    let result = transpile_jsx_with_options(src, &opts);
    match result {
        Ok(output) => {
            println!("TypeScript JSX transpiled: {} bytes", output.len());
            println!("Output:\n{}", output);
            assert!(!output.contains(": string"), "should strip TS types");
        }
        Err(e) => {
            panic!("TypeScript transpilation failed: {}", e);
        }
    }
}
