use relay_hook_transpiler::source_map::{append_inline_source_map, attach_source_map};
use relay_hook_transpiler::TranspileOptions;

fn inline() -> TranspileOptions {
    TranspileOptions { source_maps: true, inline_source_map: true, ..Default::default() }
}

#[test]
fn source_map_is_appended_in_base64() {
    assert_eq!(
        append_inline_source_map("x;".to_string(), &b"{}".to_vec(), &inline()),
        "x;\n//# sourceMappingURL=data:application/json;base64,e30="
    );
    assert_eq!(
        append_inline_source_map(String::new(), &b"{\"version\":3}".to_vec(), &inline()),
        "\n//# sourceMappingURL=data:application/json;base64,eyJ2ZXJzaW9uIjozfQ=="
    );
}

#[test]
fn source_map_is_left_out_unless_asked_for_inline() {
    let map = b"{}".to_vec();
    let only_maps = TranspileOptions { source_maps: true, ..Default::default() };
    let only_inline = TranspileOptions { inline_source_map: true, ..Default::default() };
    assert_eq!(append_inline_source_map("x;".to_string(), &map, &only_maps), "x;");
    assert_eq!(append_inline_source_map("x;".to_string(), &map, &only_inline), "x;");
    assert_eq!(append_inline_source_map("x;".to_string(), &map, &TranspileOptions::default()), "x;");
    assert_eq!(append_inline_source_map("x;".to_string(), &Vec::new(), &inline()), "x;");
}

#[test]
fn source_map_comment_takes_the_encoded_map_as_it_is() {
    assert_eq!(
        attach_source_map("a".to_string(), "QUJD"),
        "a\n//# sourceMappingURL=data:application/json;base64,QUJD"
    );
}
