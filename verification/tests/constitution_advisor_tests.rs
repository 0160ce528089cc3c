use sce_core::constitution_advisor::{notes_yaml, yaml_quote};

#[test]
fn yaml_quote_escapes_backslash_and_quote() {
    assert_eq!(yaml_quote("plain note"), "\"plain note\"");
    assert_eq!(yaml_quote("a \"b\" c\\d"), "\"a \\\"b\\\" c\\\\d\"");
    assert_eq!(yaml_quote(""), "\"\"");
}

#[test]
fn notes_block_lists_each_note_quoted() {
    let notes = vec!["first".to_string(), "say \"hi\"".to_string()];
    assert_eq!(notes_yaml(&notes), "notes:\n  - \"first\"\n  - \"say \\\"hi\\\"\"\n");
    assert_eq!(notes_yaml(&vec![]), "notes:\n");
}
