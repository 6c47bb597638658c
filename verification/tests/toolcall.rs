use qwen_gateway::toolcall::obfuscation::{norm_key, to_qwen_name};

#[test]
fn known_names_map_to_safe_aliases() {
    assert_eq!(to_qwen_name("Read"), "fs_open_file");
    assert_eq!(to_qwen_name("Bash"), "shell_run");
    assert_eq!(to_qwen_name("WebFetch"), "http_get_url");
}

/// Any other name gets a prefix and loses its unsafe characters, one for one.
#[test]
fn unknown_names_get_u_prefix_and_cleanup() {
    assert_eq!(to_qwen_name("my_tool"), "u_my_tool");
    assert_eq!(to_qwen_name("my-cool.tool 2"), "u_my_cool_tool_2");
    assert_eq!(to_qwen_name(""), "u_");
    assert_eq!(to_qwen_name("查詢"), "u___");
}

/// ASCII letters and digits only, in lower case.
#[test]
fn norm_key_drops_punct_and_lowercases() {
    assert_eq!(norm_key("Web-Fetch"), "webfetch");
    assert_eq!(norm_key("  My_Tool_v2  "), "mytoolv2");
    assert_eq!(norm_key("查詢abc"), "abc");
    assert_eq!(norm_key(""), "");
}

#[test]
fn every_alias_of_the_table() {
    let table = [
        ("Read", "fs_open_file"),
        ("Write", "fs_put_file"),
        ("Edit", "fs_patch_file"),
        ("MultiEdit", "fs_multi_patch"),
        ("Bash", "shell_run"),
        ("Grep", "text_search"),
        ("Glob", "path_find"),
        ("NotebookEdit", "notebook_patch"),
        ("WebFetch", "http_get_url"),
        ("WebSearch", "web_query"),
        ("LS", "dir_list"),
        ("TodoWrite", "todo_put"),
        ("Task", "agent_task"),
    ];
    for (name, alias) in table {
        assert_eq!(to_qwen_name(name), alias);
        assert!(alias.chars().all(|c| c.is_ascii_alphanumeric() || c == '_'));
    }
}

#[test]
fn aliases_are_case_sensitive() {
    assert_eq!(to_qwen_name("read"), "u_read");
    assert_eq!(to_qwen_name("BASH"), "u_BASH");
}

#[test]
fn a_key_of_a_key_is_the_key() {
    for s in ["Web-Fetch", "A b C 1", "", "ß"] {
        let key = norm_key(s);
        assert_eq!(norm_key(&key), key);
    }
}

#[test]
fn safe_names_keep_apart() {
    assert_ne!(to_qwen_name("a_b"), to_qwen_name("a_c"));
    assert_ne!(to_qwen_name("Read"), to_qwen_name("fs_open_file"));
}
