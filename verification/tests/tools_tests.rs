use rust_agent::error::AgentError;
use rust_agent::tools::{
    check_read_size, object_schema, path_property, symlink_refusal, truncate_output, u64_to_decimal,
    wrote_message, zsh_report, ReadFileTool, ToolSandbox, WriteFileTool, ZshTool, MAX_OUTPUT_BYTES,
    MAX_READ_BYTES,
};

fn other(r: Result<impl std::fmt::Debug, AgentError>) -> String {
    match r {
        Err(AgentError::Other(m)) => m,
        x => panic!("unexpected {:?}", x),
    }
}

fn sandbox() -> ToolSandbox {
    ToolSandbox::new("/root/ws".to_string())
}

#[test]
fn relative_paths_join_the_root() {
    let s = sandbox();
    assert_eq!(s.root(), "/root/ws");
    assert_eq!(s.join_root("a/b.txt"), "/root/ws/a/b.txt");
    assert_eq!(s.join_root("/etc/hosts"), "/etc/hosts");
}

#[test]
fn paths_outside_the_root_are_refused() {
    let s = sandbox();
    assert!(s.ensure_in_root("/root/ws/a/b").is_ok());
    assert!(s.ensure_in_root("/root/ws").is_ok());
    assert_eq!(other(s.ensure_in_root("/root/wsx")), "Path escapes tool sandbox root: /root/wsx");
    assert_eq!(other(s.ensure_in_root("/etc")), "Path escapes tool sandbox root: /etc");
}

#[test]
fn writes_go_into_the_parent_directory() {
    let s = sandbox();
    assert_eq!(s.write_parent("a/b.txt").unwrap(), "/root/ws/a");
    assert_eq!(other(s.write_parent("/")), "Path has no parent directory: /");
    assert_eq!(s.write_target("a/b.txt", "/root/ws/a").unwrap(), "/root/ws/a/b.txt");
    assert_eq!(other(s.write_target("a/b.txt", "/tmp")), "Path escapes tool sandbox root: /tmp");
    assert_eq!(other(s.write_target("a/..", "/root/ws")), "Path has no filename: /root/ws/a/..");
}

#[test]
fn write_messages() {
    assert!(matches!(symlink_refusal("/root/ws/l"), AgentError::Other(m) if m == "Refusing to write through symlink: /root/ws/l"));
    assert_eq!(wrote_message("/root/ws/f"), "Wrote /root/ws/f");
}

#[test]
fn read_size_limit() {
    assert!(check_read_size(MAX_READ_BYTES).is_ok());
    assert!(check_read_size(0).is_ok());
    assert_eq!(other(check_read_size(262145)), "File is too large to read via tool: 262145 bytes");
}

#[test]
fn output_is_cut_at_a_character_boundary() {
    assert_eq!(truncate_output("short"), "short");
    let long = "a".repeat(MAX_OUTPUT_BYTES + 1);
    let cut = truncate_output(&long);
    assert_eq!(cut, format!("{}\n[truncated: output exceeded 65536 bytes]", "a".repeat(65536)));
    let wide = "你".repeat(21846);
    let cut = truncate_output(&wide);
    assert_eq!(cut, format!("{}\n[truncated: output exceeded 65536 bytes]", "你".repeat(21845)));
    let exact = "b".repeat(MAX_OUTPUT_BYTES);
    assert_eq!(truncate_output(&exact), exact);
}

#[test]
fn shell_report_format() {
    assert_eq!(
        zsh_report("exit status: 0", "out", "err"),
        "status: exit status: 0\nstdout:\nout\nstderr:\nerr"
    );
}

#[test]
fn decimal_digits() {
    assert_eq!(u64_to_decimal(0), "0");
    assert_eq!(u64_to_decimal(1234), "1234");
    assert_eq!(u64_to_decimal(u64::MAX), u64::MAX.to_string());
}

#[test]
fn tool_names_and_descriptions() {
    let s = sandbox();
    assert_eq!(ReadFileTool::new(s.clone()).name(), "read_file");
    assert_eq!(WriteFileTool::new(s.clone()).name(), "write_file");
    assert_eq!(ZshTool::new(s.clone()).name(), "zsh");
    assert_eq!(
        ReadFileTool::new(s.clone()).description(),
        "Read a UTF-8 text file from the project workspace."
    );
    assert_eq!(
        WriteFileTool::new(s.clone()).description(),
        "Write UTF-8 text content to a file inside the project workspace."
    );
    assert_eq!(
        ZshTool::new(s).description(),
        "Execute a zsh command in the project workspace and return stdout/stderr."
    );
}

#[test]
fn schemas_are_closed_objects() {
    let props = serde_json::from_str::<serde_json::Value>("{\"path\": {\"type\": \"string\"}}").unwrap();
    let schema = object_schema(props.clone(), &["path"]);
    let expected = serde_json::from_str::<serde_json::Value>(
        "{\"type\":\"object\",\"properties\":{\"path\":{\"type\":\"string\"}},\"required\":[\"path\"],\"additionalProperties\":false}",
    )
    .unwrap();
    assert_eq!(schema, expected);
    let p = path_property("where");
    assert_eq!(p, serde_json::from_str::<serde_json::Value>("{\"type\":\"string\",\"description\":\"where\"}").unwrap());
}

#[test]
fn zsh_timeout_message_names_the_limit() {
    assert_eq!(
        rust_agent::tools::zsh_timeout_message(),
        "zsh command timed out after 10 seconds"
    );
}
