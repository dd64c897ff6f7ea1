use relay_hook_transpiler::downlevel_for_jsc;

#[test]
fn test_optional_chaining_property() {
    let src = "const x = obj?.prop;";
    let result = downlevel_for_jsc(src).unwrap();
    assert!(!result.contains("?."));
    assert!(result.contains("!= null"));
}

#[test]
fn test_optional_chaining_in_template_literal() {
    let src = r#"const msg = `Hello ${user?.name}`;"#;
    let result = downlevel_for_jsc(src).unwrap();
    assert!(!result.contains("?."));
    assert!(result.contains("`"));
}

#[test]
fn test_nested_optional_chaining() {
    let src = "const x = a?.b?.c?.d;";
    let result = downlevel_for_jsc(src).unwrap();
    assert!(!result.contains("?."));
}

#[test]
fn test_optional_call() {
    let src = "const x = func?.();";
    let result = downlevel_for_jsc(src).unwrap();
    assert!(!result.contains("?.("));
}

#[test]
fn test_optional_index() {
    let src = "const x = arr?.[0];";
    let result = downlevel_for_jsc(src).unwrap();
    assert!(!result.contains("?.["));
}

#[test]
fn test_nullish_coalescing() {
    let src = "const x = a ?? b;";
    let result = downlevel_for_jsc(src).unwrap();
    assert!(!result.contains("??"));
}

#[test]
fn test_combined() {
    let src = "const x = obj?.prop ?? 'default';";
    let result = downlevel_for_jsc(src).unwrap();
    assert!(!result.contains("?."));
    assert!(!result.contains("??"));
}

#[test]
fn test_in_comment_ignored() {
    let src = "// obj?.prop\nconst x = obj?.prop;";
    let result = downlevel_for_jsc(src).unwrap();
    assert!(result.contains("// obj?.prop"));
}

#[test]
fn test_in_string_ignored() {
    let src = r#"const s = "obj?.prop"; const x = obj?.prop;"#;
    let result = downlevel_for_jsc(src).unwrap();
    assert!(result.contains("\"obj?.prop\""));
}

#[test]
fn test_complex_template_literal() {
    let src = r#"const url = `api/${version}/${endpoint?.type || 'default'}/path`;"#;
    let result = downlevel_for_jsc(src).unwrap();
    assert!(!result.contains("?."));
    assert!(result.contains("`"));
}

#[test]
fn test_return_optional_chain() {
    let src = "async function loadPlugin(name) { const pluginModule = await __hook_import(`./plugin/${name}.mjs`); return pluginModule?.default || pluginModule; }";
    let result = downlevel_for_jsc(src).unwrap();
    assert!(!result.contains("?."));
    assert!(result.contains("pluginModule != null"));
    assert!(!result.contains("return pluginModule != null ? return pluginModule.default"));
}

#[test]
fn test_nested_optional_chain_with_constructor_name() {
    let src = "const x = React?.constructor?.name;";
    let result = downlevel_for_jsc(src).unwrap();
    assert!(!result.contains("?."));
    assert!(result.contains("React != null"));
    assert!(result.contains("React.constructor"));
    assert!(!result.contains("constructor :(undefined)"));
    assert!(!result.contains("Unexpected token"));
}

#[test]
fn test_typeof_nested_optional_chain() {
    let src = "console.log('[get-client] React:', typeof React?.constructor?.name);";
    let result = downlevel_for_jsc(src).unwrap();
    println!("{}", result);
    assert!(!result.contains("?."));
    assert!(result.contains("typeof (React") || result.contains("typeof ((React"));
    assert!(result.contains("React.constructor"));
    assert!(!result.contains(",("));
    assert!(!result.contains("constructor :(undefined)"));
}

#[test]
fn test_await_optional_chain_keyword_boundary() {
    let src = "async function read(obj) { return await obj?.read(); }";
    let result = downlevel_for_jsc(src).unwrap();
    assert!(!result.contains("?."));
    assert!(result.contains("return await (obj != null ? obj.read : undefined)();"));
}

#[test]
fn downlevel_optional_member_exact() {
    assert_eq!(
        downlevel_for_jsc("const x = obj?.prop;").unwrap(),
        "var x = (obj != null ? obj.prop : undefined);"
    );
}

#[test]
fn downlevel_nullish_exact() {
    assert_eq!(
        downlevel_for_jsc("const x = a ?? b;").unwrap(),
        "var x = (a != null ? a : b);"
    );
}

#[test]
fn downlevel_nullish_at_end_of_input_is_closed() {
    assert_eq!(downlevel_for_jsc("x = a ?? b").unwrap(), "x = (a != null ? a : b)");
}

#[test]
fn downlevel_optional_index_and_call_exact() {
    assert_eq!(
        downlevel_for_jsc("arr?.[i[0]];").unwrap(),
        "(arr != null ? arr[i[0]] : undefined);"
    );
    assert_eq!(
        downlevel_for_jsc("f?.(g(1), 2);").unwrap(),
        "(f != null ? f(g(1), 2) : undefined);"
    );
}

#[test]
fn downlevel_let_and_word_boundaries() {
    assert_eq!(downlevel_for_jsc("let a = 1;").unwrap(), "var a = 1;");
    assert_eq!(downlevel_for_jsc("constant = letter;").unwrap(), "constant = letter;");
    assert_eq!(downlevel_for_jsc("my_const = $let;").unwrap(), "my_const = $let;");
}

#[test]
fn downlevel_leaves_plain_text_alone() {
    let src = "var x = f(a, b) ? 'c' : \"d\"; // e\n/* g */ `h${i}`";
    assert_eq!(downlevel_for_jsc(src).unwrap(), src);
}

#[test]
fn downlevel_strings_and_comments_are_opaque() {
    let src = "var s = 'a?.b ?? const let'; /* x?.y ?? z */ // const q\n";
    assert_eq!(downlevel_for_jsc(src).unwrap(), src);
}

#[test]
fn downlevel_chain_then_coalescing_composes() {
    assert_eq!(
        downlevel_for_jsc("const x = obj?.prop ?? 'default';").unwrap(),
        "var x = ((obj != null ? obj.prop : undefined) != null ? (obj != null ? obj.prop : undefined) : 'default');"
    );
}

#[test]
fn downlevel_object_in_brackets_is_taken_whole() {
    assert_eq!(downlevel_for_jsc("(a)?.b").unwrap(), "((a) != null ? (a).b : undefined)");
    assert_eq!(
        downlevel_for_jsc("f(await x)?.y").unwrap(),
        "(f(await x) != null ? f(await x).y : undefined)"
    );
    assert_eq!(
        downlevel_for_jsc("x = list[i + 1]?.name;").unwrap(),
        "x = (list[i + 1] != null ? list[i + 1].name : undefined);"
    );
    assert_eq!(downlevel_for_jsc("g(h(1)[2]?.k)").unwrap(), "g((h(1)[2] != null ? h(1)[2].k : undefined))");
}

#[test]
fn downlevel_chain_on_a_chain_stays_balanced() {
    assert_eq!(
        downlevel_for_jsc("a?.b?.c").unwrap(),
        "((a != null ? a.b : undefined) != null ? (a != null ? a.b : undefined).c : undefined)"
    );
}

#[test]
fn downlevel_keyword_before_a_bracket_is_moved_out() {
    assert_eq!(
        downlevel_for_jsc("return(x)?.y;").unwrap(),
        "return ((x) != null ? (x).y : undefined);"
    );
    assert_eq!(
        downlevel_for_jsc("return x?.y;").unwrap(),
        "return (x != null ? x.y : undefined);"
    );
}

#[test]
fn downlevel_question_dot_without_object_in_template_is_copied() {
    assert_eq!(downlevel_for_jsc("`${ ?.x}`").unwrap(), "`${ ?.x}`");
}
