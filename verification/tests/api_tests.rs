use relay_hook_transpiler::transpile_jsx_simple;

#[test]
fn test_simple_jsx() {
    let input = "<div>Hello</div>";
    let output = transpile_jsx_simple(input).unwrap();
    assert!(output.contains("__runtime.jsx"));
    assert!(output.contains("div"));
    assert!(output.contains("Hello"));
}

#[test]
fn test_jsx_with_props() {
    let input = r#"<div className="test">Content</div>"#;
    let output = transpile_jsx_simple(input).unwrap();
    assert!(output.contains("className"));
    assert!(output.contains("test"));
}

#[test]
fn lib_test_self_closing() {
    let input = "<img src='test.jpg' />";
    let output = transpile_jsx_simple(input).unwrap();
    assert!(output.contains("img"));
    assert!(output.contains("src"));
}

#[test]
fn test_strings_with_reserved_keywords() {
    let input = r#"<p className="text-xs text-gray-500 mb-2">Select a theme for the application</p>"#;
    let output = transpile_jsx_simple(input).unwrap();
    assert!(output.contains("className"));
    assert!(output.contains("text-xs text-gray-500 mb-2"));
    assert!(output.contains("Select a theme for the application"));
    assert!(output.contains("__runtime.jsx"));
}

#[test]
fn test_string_with_jsx_like_content() {
    let input = r#"<div>{"<div>test</div>"}</div>"#;
    let output = transpile_jsx_simple(input).unwrap();
    assert!(output.contains("__runtime.jsx"));
    assert!(output.contains("div"));
    assert!(output.contains("<div>test</div>"));
}

#[test]
fn test_multiple_class_names() {
    let input = r#"<button className="px-3 py-1 bg-blue-600 text-white rounded">Click me</button>"#;
    let output = transpile_jsx_simple(input).unwrap();
    assert!(output.contains("className"));
    assert!(output.contains("px-3 py-1 bg-blue-600 text-white rounded"));
    assert!(output.contains("Click me"));
}

#[test]
fn test_reserved_keywords_in_jsx_text() {
    let input = r#"<p>This paragraph has reserved keywords like interface await default import export but should still render correctly.</p>"#;
    let output = transpile_jsx_simple(input).unwrap();
    assert!(output.contains("__runtime.jsx"));
    assert!(output.contains("p"));
    assert!(output.contains("interface"));
    assert!(output.contains("await"));
    assert!(output.contains("default"));
    assert!(output.contains("import"));
    assert!(output.contains("export"));
}

#[test]
fn test_jsx_in_map_returns_correct_structure() {
    let src = r#"
export function MovieList(props) {
  const movies = [{id: 1, title: "Movie 1"}, {id: 2, title: "Movie 2"}];
  return (
    <div>
      {movies.map((movie) => (
        <div key={movie.id}>{movie.title}</div>
      ))}
    </div>
  );
}
"#;
    let out = transpile_jsx_simple(src).unwrap();
    assert!(out.contains("__runtime.jsx"), "Should have jsx runtime calls");
    assert!(out.contains("movies.map"), "Should have map call");
    println!("\n=== AUTOMATIC JSX TRANSPILE OUTPUT ===\n{}\n", out);
}

#[test]
fn test_full_test_hook_transpiles() {
    let input = r#"import React, { useState, useEffect } from 'react';
import { ThemeProvider } from './theme';

const items = [
  { id: 1, label: 'First', done: false },
  { id: 2, label: 'Second', done: true },
];

function Item({ item, onToggle }) {
  return (
    <li className={item.done ? 'done' : 'open'} onClick={() => onToggle(item.id)}>
      <span className="label">{item.label}</span>
      {item.done && <em>finished</em>}
    </li>
  );
}

export default function TestHook(props) {
  const [list, setList] = useState(items);
  const [filter, setFilter] = useState('');

  useEffect(() => {
    console.log(`items: ${list.length}`);
    return () => console.log('bye');
  }, [list]);

  const toggle = (id) => {
    setList(list.map((i) => (i.id === id ? { ...i, done: !i.done } : i)));
  };

  // keep only what matches
  const shown = list.filter((i) => i.label.indexOf(filter) >= 0);

  return (
    <ThemeProvider theme={props.theme}>
      <div className="test-hook" style={{ padding: 8 }}>
        <h1>Test hook</h1>
        <p className="text-xs text-gray-500 mb-2">Select an entry of the list</p>
        <input type="text" value={filter} onChange={(e) => setFilter(e.target.value)} />
        <ul>
          {shown.map((item) => (
            <Item key={item.id} item={item} onToggle={toggle} />
          ))}
        </ul>
        {shown.length === 0 ? <p>Nothing to show</p> : null}
        <>
          <hr />
          <footer>{list.length} entries</footer>
        </>
      </div>
    </ThemeProvider>
  );
}
"#;
    let output = transpile_jsx_simple(input);

    assert!(output.is_ok(), "test-hook.jsx should transpile: {output:?}");
}
