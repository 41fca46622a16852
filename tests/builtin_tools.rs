use toolfed::handlers::{
    apply_edit, combine_output, command_finished, command_timed_out, edited_result, entry_line,
    glob_command, glob_result, grep_arguments, grep_result, read_result, screen_command,
    think_result, tree_line, written_result,
};
use toolfed::json::{JsonNumber, JsonValue};
use toolfed::text::{replace_text, window_of};
use toolfed::tools::{ArgError, BuiltinCall, BuiltinToolRegistry, ToolResult};

fn text_of(r: &ToolResult) -> String {
    assert_eq!(r.content.len(), 1);
    assert_eq!(r.content[0].content_type, "text");
    r.content[0].text.clone()
}

fn obj(members: Vec<(&str, JsonValue)>) -> JsonValue {
    JsonValue::Object(members.into_iter().map(|(k, v)| (k.to_string(), v)).collect())
}

fn s(t: &str) -> JsonValue {
    JsonValue::Str(t.to_string())
}

#[test]
fn success_and_error_results() {
    let ok = ToolResult::success("done".to_string());
    assert_eq!(text_of(&ok), "done");
    assert_eq!(ok.is_error, None);
    let err = ToolResult::error("bad".to_string());
    assert_eq!(text_of(&err), "bad");
    assert_eq!(err.is_error, Some(true));
}

#[test]
fn registry_offers_the_eight_tools_in_order() {
    let reg = BuiltinToolRegistry::new();
    let names: Vec<&str> = reg.list_tools().iter().map(|t| t.name.as_str()).collect();
    assert_eq!(
        names,
        vec!["bash", "read_file", "list_files", "search_glob", "grep", "edit_file", "write_file", "think"]
    );
    let bash = &reg.list_tools()[0];
    match bash.input_schema.get("required") {
        Some(JsonValue::Array(items)) => {
            assert_eq!(items.len(), 1);
            assert!(matches!(&items[0], JsonValue::Str(t) if t == "command"));
        }
        other => panic!("unexpected schema: {:?}", other),
    }
    assert!(reg.list_tools()[2].input_schema.get("required").is_none());
    for t in reg.list_tools() {
        assert!(matches!(t.input_schema.get("type"), Some(JsonValue::Str(k)) if k == "object"));
    }
    match reg.list_tools()[5].input_schema.get("required") {
        Some(JsonValue::Array(items)) => {
            let names: Vec<&str> = items
                .iter()
                .map(|v| match v {
                    JsonValue::Str(t) => t.as_str(),
                    _ => "",
                })
                .collect();
            assert_eq!(names, vec!["path", "old_text", "new_text"]);
        }
        other => panic!("unexpected schema: {:?}", other),
    }
}

#[test]
fn bash_arguments_take_the_default_timeout() {
    let reg = BuiltinToolRegistry::new();
    match reg.prepare("bash", &obj(vec![("command", s("ls"))])) {
        Ok(BuiltinCall::Bash { command, timeout_secs }) => {
            assert_eq!(command, "ls");
            assert_eq!(timeout_secs, 30);
        }
        other => panic!("unexpected: {:?}", other),
    }
    match reg.prepare("bash", &obj(vec![("command", s("ls")), ("timeout", JsonValue::Number(JsonNumber::Unsigned(5)))])) {
        Ok(BuiltinCall::Bash { timeout_secs, .. }) => assert_eq!(timeout_secs, 5),
        other => panic!("unexpected: {:?}", other),
    }
}

#[test]
fn missing_required_argument_is_a_request_error() {
    let reg = BuiltinToolRegistry::new();
    match reg.prepare("grep", &obj(vec![("pattern", s("x"))])) {
        Err(ArgError::MissingArgument(k)) => assert_eq!(k, "path"),
        other => panic!("unexpected: {:?}", other),
    }
    match reg.prepare("edit_file", &obj(vec![("path", s("a")), ("new_text", s("n"))])) {
        Err(ArgError::MissingArgument(k)) => assert_eq!(k, "old_text"),
        other => panic!("unexpected: {:?}", other),
    }
    match reg.prepare("read_file", &JsonValue::Null) {
        Err(ArgError::MissingArgument(k)) => assert_eq!(k, "path"),
        other => panic!("unexpected: {:?}", other),
    }
}

#[test]
fn unknown_builtin_is_reported() {
    let reg = BuiltinToolRegistry::new();
    match reg.prepare("nope", &JsonValue::Null) {
        Err(ArgError::UnknownTool(n)) => assert_eq!(n, "nope"),
        other => panic!("unexpected: {:?}", other),
    }
}

#[test]
fn optional_arguments_take_their_defaults() {
    let reg = BuiltinToolRegistry::new();
    match reg.prepare("list_files", &obj(vec![])) {
        Ok(BuiltinCall::ListFiles { path, recursive }) => {
            assert_eq!(path, ".");
            assert!(!recursive);
        }
        other => panic!("unexpected: {:?}", other),
    }
    match reg.prepare("search_glob", &obj(vec![("pattern", s("*.rs"))])) {
        Ok(BuiltinCall::SearchGlob { pattern, base_path }) => {
            assert_eq!(pattern, "*.rs");
            assert_eq!(base_path, ".");
        }
        other => panic!("unexpected: {:?}", other),
    }
    match reg.prepare(
        "read_file",
        &obj(vec![("path", s("f")), ("start_line", JsonValue::Number(JsonNumber::Unsigned(2)))]),
    ) {
        Ok(BuiltinCall::ReadFile { path, start_line, end_line }) => {
            assert_eq!(path, "f");
            assert_eq!(start_line, Some(2));
            assert_eq!(end_line, None);
        }
        other => panic!("unexpected: {:?}", other),
    }
}

#[test]
fn destructive_command_is_blocked_before_running() {
    let r = screen_command("rm -rf /").expect("must be blocked");
    assert_eq!(r.is_error, Some(true));
    assert_eq!(text_of(&r), "Command blocked for security: contains 'rm -rf /'");
    assert!(text_of(&r).contains("rm -rf /"));
}

#[test]
fn denylist_is_checked_in_order_and_by_substring() {
    let r = screen_command("echo hi > /dev/sda").expect("blocked");
    assert_eq!(text_of(&r), "Command blocked for security: contains '> /dev/'");
    let r = screen_command("dd if=/dev/zero of=x; mkfs").expect("blocked");
    assert_eq!(text_of(&r), "Command blocked for security: contains 'dd if='");
    assert!(screen_command("ls -la").is_none());
    assert!(screen_command("").is_none());
}

#[test]
fn output_is_combined_with_a_separator_only_when_both_present() {
    assert_eq!(combine_output("out", ""), "out");
    assert_eq!(combine_output("", "err"), "err");
    assert_eq!(combine_output("out", "err"), "out\nSTDERR:\nerr");
    assert_eq!(combine_output("", ""), "");
}

#[test]
fn failed_command_reports_its_exit_code() {
    let r = command_finished(Some(0), "hello\n", "");
    assert_eq!(r.is_error, None);
    assert_eq!(text_of(&r), "hello\n");
    let r = command_finished(Some(2), "o", "e");
    assert_eq!(r.is_error, Some(true));
    assert_eq!(text_of(&r), "Command failed with exit code 2\no\nSTDERR:\ne");
    let r = command_finished(None, "", "");
    assert_eq!(text_of(&r), "Command failed with exit code -1\n");
    let r = command_finished(Some(-15), "", "x");
    assert_eq!(text_of(&r), "Command failed with exit code -15\nx");
}

#[test]
fn timeout_is_an_error_result() {
    let r = command_timed_out(30);
    assert_eq!(r.is_error, Some(true));
    assert_eq!(text_of(&r), "Command timed out after 30 seconds");
    assert_eq!(text_of(&command_timed_out(0)), "Command timed out after 0 seconds");
}

#[test]
fn read_window_slices_lines() {
    let c = "one\ntwo\nthree\nfour\n";
    assert_eq!(window_of(c, Some(2), Some(3)), "two\nthree");
    assert_eq!(window_of(c, Some(3), Some(99)), "three\nfour");
    assert_eq!(window_of(c, Some(0), Some(1)), "one");
    assert_eq!(window_of(c, Some(9), Some(2)), "one\ntwo");
    assert_eq!(window_of(c, Some(4), Some(2)), "");
    assert_eq!(window_of(c, Some(2), None), c);
    assert_eq!(window_of(c, None, None), c);
    assert_eq!(window_of("a\r\nb", Some(1), Some(2)), "a\nb");
    assert_eq!(window_of("", Some(1), Some(1)), "");
    let r = read_result(c, Some(1), Some(1));
    assert_eq!(text_of(&r), "one");
    assert_eq!(r.is_error, None);
}

#[test]
fn edit_replaces_every_occurrence() {
    match apply_edit("a-b-a", "a", "x") {
        Ok(t) => assert_eq!(t, "x-b-x"),
        Err(e) => panic!("unexpected: {:?}", e),
    }
    match apply_edit("abc", "zz", "y") {
        Err(e) => {
            assert_eq!(e.is_error, Some(true));
            assert_eq!(text_of(&e), "Old text not found in file. Text must match exactly.");
        }
        Ok(t) => panic!("unexpected: {}", t),
    }
    assert_eq!(text_of(&edited_result("f.txt")), "File edited successfully: f.txt");
}

#[test]
fn edit_once_applied_fails_again_and_keeps_the_text() {
    let a = "let x = old_value;";
    let b = match apply_edit(a, "old_value", "new_value") {
        Ok(t) => t,
        Err(e) => panic!("unexpected: {:?}", e),
    };
    assert_eq!(b, "let x = new_value;");
    match apply_edit(&b, "old_value", "new_value") {
        Err(e) => assert_eq!(e.is_error, Some(true)),
        Ok(t) => panic!("second edit applied: {}", t),
    }
    assert_eq!(b, "let x = new_value;");
}

#[test]
fn replacement_matches_str_replace() {
    for (t, p, r) in [("aaa", "aa", "b"), ("abc", "", "X"), ("", "", "X"), ("**/*.rs", "**", "*"), ("xyz", "q", "r")] {
        assert_eq!(replace_text(t, p, r), t.replace(p, r), "{:?} {:?} {:?}", t, p, r);
    }
}

#[test]
fn glob_command_and_result() {
    assert_eq!(glob_command("**/*.rs", "src"), "find src -name '*/*.rs'");
    assert_eq!(text_of(&glob_result("", "*.md")), "No files found matching pattern: *.md");
    assert_eq!(text_of(&glob_result("./a.md\n", "*.md")), "./a.md\n");
}

#[test]
fn grep_arguments_and_result() {
    assert_eq!(grep_arguments("fn", "src", true, true), vec!["-i", "-r", "-n", "fn", "src"]);
    assert_eq!(grep_arguments("fn", "a.rs", false, false), vec!["-n", "fn", "a.rs"]);
    let none = grep_result("", "", "fn");
    assert_eq!(none.is_error, None);
    assert_eq!(text_of(&none), "No matches found for pattern: fn");
    let bad = grep_result("", "grep: x: No such file", "fn");
    assert_eq!(bad.is_error, Some(true));
    assert_eq!(text_of(&grep_result("3:fn main\n", "", "fn")), "3:fn main\n");
}

#[test]
fn listing_lines() {
    assert_eq!(entry_line(false, 123, "a.txt"), "FILE        123 a.txt\n");
    assert_eq!(entry_line(true, 4096, "src"), "DIR        4096 src\n");
    assert_eq!(entry_line(false, 12345678901, "big"), "FILE 12345678901 big\n");
    assert_eq!(tree_line(0, true, "src", 0), "\u{1f4c1} src/\n");
    assert_eq!(tree_line(2, false, "main.rs", 42), "    \u{1f4c4} main.rs (42 bytes)\n");
}

#[test]
fn write_and_think_messages() {
    assert_eq!(text_of(&written_result("a/b.txt", 5)), "File written successfully: a/b.txt (5 bytes)");
    assert_eq!(text_of(&written_result("x", 0)), "File written successfully: x (0 bytes)");
    let t = think_result("plan");
    assert_eq!(t.is_error, None);
    assert_eq!(text_of(&t), "\u{1f4ad} Internal reasoning:\nplan");
}
