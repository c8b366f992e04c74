use rust_agent::tool_registry::{missing_tool_message, str_less, ToolRegistry};

#[test]
fn registered_tools_are_found() {
    let mut r: ToolRegistry<u32> = ToolRegistry::new();
    assert!(r.is_empty());
    r.register("zsh".to_string(), 1);
    r.register("read_file".to_string(), 2);
    assert!(!r.is_empty());
    assert_eq!(r.get("zsh"), Some(&1));
    assert_eq!(r.get("read_file"), Some(&2));
    assert_eq!(r.get("write_file"), None);
    r.register("zsh".to_string(), 3);
    assert_eq!(r.get("zsh"), Some(&3));
    assert_eq!(r.tool_names().len(), 2);
}

#[test]
fn tools_are_listed_by_name() {
    let mut r: ToolRegistry<u32> = ToolRegistry::default();
    r.register("zsh".to_string(), 1);
    r.register("read_file".to_string(), 2);
    r.register("write_file".to_string(), 3);
    r.register("read".to_string(), 4);
    assert_eq!(r.tool_names(), vec!["read", "read_file", "write_file", "zsh"]);
    let sorted: Vec<(String, u32)> =
        r.sorted_tools().into_iter().map(|(n, t)| (n.to_string(), *t)).collect();
    assert_eq!(
        sorted,
        vec![
            ("read".to_string(), 4),
            ("read_file".to_string(), 2),
            ("write_file".to_string(), 3),
            ("zsh".to_string(), 1)
        ]
    );
}

#[test]
fn subset_keeps_named_tools_only() {
    let mut r: ToolRegistry<String> = ToolRegistry::new();
    r.register("zsh".to_string(), "Z".to_string());
    r.register("read_file".to_string(), "R".to_string());
    let s = r.subset(&["read_file".to_string(), "missing".to_string(), "read_file".to_string()]);
    assert_eq!(s.tool_names(), vec!["read_file"]);
    assert_eq!(s.get("read_file"), Some(&"R".to_string()));
    assert!(r.subset(&[]).is_empty());
}

#[test]
fn text_order_is_character_order() {
    assert!(str_less("a", "b"));
    assert!(str_less("ab", "abc"));
    assert!(!str_less("abc", "ab"));
    assert!(!str_less("x", "x"));
    assert!(str_less("Z", "a"));
    assert!(str_less("a", "你"));
}

#[test]
fn missing_tool_error_text() {
    assert_eq!(missing_tool_message("foo"), "Tool not found: foo");
}

#[test]
fn listings_agree_on_every_call() {
    let mut r: ToolRegistry<u32> = ToolRegistry::new();
    for (i, n) in ["zsh", "b", "a", "read_file", "b"].iter().enumerate() {
        r.register(n.to_string(), i as u32);
    }
    let first: Vec<String> = r.sorted_tools().into_iter().map(|(n, _)| n.to_string()).collect();
    let second: Vec<String> = r.sorted_tools().into_iter().map(|(n, _)| n.to_string()).collect();
    let names: Vec<String> = r.tool_names().into_iter().map(|n| n.to_string()).collect();
    assert_eq!(first, second);
    assert_eq!(first, names);
    assert_eq!(names, vec!["a", "b", "read_file", "zsh"]);
    assert_eq!(r.get("b"), Some(&4));
}
