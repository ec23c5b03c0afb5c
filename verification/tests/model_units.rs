//! The dispatcher, the argument bag, the text primitives, the tool
//! catalog, task tracking, the conversation log, and the permission
//! boundary.

use oli_core::args::{ArgValue, Args};
use oli_core::executor::AgentExecutor;
use oli_core::messages::Role;
use oli_core::permissions::{build_permission_request, requires_permission};
use oli_core::tasks::{App, TaskStatus};
use oli_core::text::{count_occurrences, fmt_i64, fmt_u64, replace_all, split_lines};
use oli_core::tools::{get_tool_definitions, parse_tool_call, ParseError, ToolCall, ToolType};

#[test]
fn dispatcher_parses_each_tool() {
    let mut args = Args::new();
    args.push("file_path".to_string(), ArgValue::Text("a.txt".to_string()));
    args.push("offset".to_string(), ArgValue::Int(2));
    args.push("limit".to_string(), ArgValue::Int(5));
    match parse_tool_call("Read", &args) {
        Ok(ToolCall::View(p)) => {
            assert_eq!(p.file_path, "a.txt");
            assert_eq!(p.offset, Some(2));
            assert_eq!(p.limit, Some(5));
        },
        other => panic!("expected a Read command, got {:?}", other),
    }

    let mut args = Args::new();
    args.push("pattern".to_string(), ArgValue::Text("*.rs".to_string()));
    assert!(matches!(parse_tool_call("Glob", &args), Ok(ToolCall::GlobTool(_))));

    let mut args = Args::new();
    args.push("pattern".to_string(), ArgValue::Text("fn ".to_string()));
    args.push("file_filter".to_string(), ArgValue::Text("*.rs".to_string()));
    assert!(matches!(parse_tool_call("Grep", &args), Ok(ToolCall::GrepTool(_))));

    let mut args = Args::new();
    args.push("path".to_string(), ArgValue::Text("src".to_string()));
    args.push(
        "ignore".to_string(),
        ArgValue::List(vec!["target".to_string()]),
    );
    match parse_tool_call("LS", &args) {
        Ok(ToolCall::LS(p)) => assert_eq!(p.ignore, Some(vec!["target".to_string()])),
        other => panic!("expected an LS command, got {:?}", other),
    }

    let mut args = Args::new();
    args.push("file_path".to_string(), ArgValue::Text("a.txt".to_string()));
    args.push("old_string".to_string(), ArgValue::Text("x".to_string()));
    args.push("new_string".to_string(), ArgValue::Text("y".to_string()));
    args.push("expected_replacements".to_string(), ArgValue::Int(3));
    match parse_tool_call("Edit", &args) {
        Ok(ToolCall::Edit(p)) => assert_eq!(p.expected_replacements, Some(3)),
        other => panic!("expected an Edit command, got {:?}", other),
    }

    let mut args = Args::new();
    args.push("file_path".to_string(), ArgValue::Text("a.txt".to_string()));
    args.push("content".to_string(), ArgValue::Text("body".to_string()));
    assert!(matches!(parse_tool_call("Write", &args), Ok(ToolCall::Replace(_))));

    let mut args = Args::new();
    args.push("command".to_string(), ArgValue::Text("ls".to_string()));
    args.push("timeout".to_string(), ArgValue::Int(1000));
    match parse_tool_call("Bash", &args) {
        Ok(ToolCall::Bash(p)) => {
            assert_eq!(p.command, "ls");
            assert_eq!(p.timeout, Some(1000));
            assert!(matches!(ToolCall::Bash(p).tool_type(), ToolType::Bash));
        },
        other => panic!("expected a Bash command, got {:?}", other),
    }
}

#[test]
fn dispatcher_fails_closed() {
    // unknown tool names are their own error
    let args = Args::new();
    match parse_tool_call("Teleport", &args) {
        Err(ParseError::UnknownTool { name }) => assert_eq!(name, "Teleport"),
        other => panic!("expected the unknown-tool error, got {:?}", other),
    }

    // a missing required field carries the tool and field context
    let args = Args::new();
    match parse_tool_call("Edit", &args) {
        Err(e @ ParseError::BadField { .. }) => {
            assert_eq!(
                e.message(),
                "Failed to parse Edit parameters: missing or invalid field 'file_path'"
            );
        },
        other => panic!("expected a bad-field error, got {:?}", other),
    }

    // a mistyped field fails too, even an optional one
    let mut args = Args::new();
    args.push("file_path".to_string(), ArgValue::Text("a.txt".to_string()));
    args.push("offset".to_string(), ArgValue::Text("two".to_string()));
    match parse_tool_call("Read", &args) {
        Err(ParseError::BadField { tool, field }) => {
            assert_eq!(tool, "Read");
            assert_eq!(field, "offset");
        },
        other => panic!("expected a bad-field error, got {:?}", other),
    }

    let mut args = Args::new();
    args.push("command".to_string(), ArgValue::Flag(true));
    assert!(parse_tool_call("Bash", &args).is_err());
}

#[test]
fn catalog_is_stable() {
    let defs = get_tool_definitions();
    let names: Vec<&str> = defs.iter().map(|d| d.name.as_str()).collect();
    assert_eq!(
        names,
        vec!["Read", "Glob", "Grep", "LS", "Edit", "Write", "Bash", "ParseCode"]
    );
    for d in &defs {
        assert!(d.parameters.contains("\"type\":\"object\""));
        assert!(!d.description.is_empty());
    }
    assert_eq!(defs[6].description, "Executes a bash command");
    assert!(defs[0].parameters.contains("\"required\":[\"file_path\"]"));
    assert!(defs[4].parameters.contains("expected_replacements"));
}

#[test]
fn text_counting_and_replacement() {
    assert_eq!(count_occurrences("aaa", "aa"), 1);
    assert_eq!(count_occurrences("banana", "an"), 2);
    assert_eq!(count_occurrences("banana", "x"), 0);
    assert_eq!(replace_all("banana", "an", "o"), "booa");
    assert_eq!(replace_all("a b a", "a", "c"), "c b c");
}

#[test]
fn text_lines_and_numbers() {
    let lines = split_lines("a\nb\n\nc");
    assert_eq!(lines, vec!["a", "b", "", "c"]);
    let lines = split_lines("one\ntwo\n");
    assert_eq!(lines, vec!["one", "two"]);
    let lines = split_lines("");
    assert!(lines.is_empty());

    assert_eq!(fmt_u64(0), "0");
    assert_eq!(fmt_u64(42), "42");
    assert_eq!(fmt_u64(90210), "90210");
    assert_eq!(fmt_i64(-17), "-17");
    assert_eq!(fmt_i64(17), "17");
}

#[test]
fn tasks_track_counts_and_completion() {
    let mut app = App::new();
    let id = app.create_task("refactor the parser");
    assert_eq!(app.tasks.len(), 1);
    assert_eq!(app.current_task().unwrap().id, id);

    app.add_tool_use();
    app.add_tool_use();
    app.add_input_tokens(120);
    app.add_input_tokens(80);
    let t = app.current_task().unwrap();
    assert_eq!(t.tool_count, 2);
    assert_eq!(t.input_tokens, 200);
    assert!(matches!(t.status, TaskStatus::InProgress));

    app.complete_current_task(512);
    assert!(app.current_task().is_none());
    assert!(matches!(app.tasks[0].status, TaskStatus::Completed));
    assert_eq!(app.tasks[0].total_tokens, 512);
    assert_eq!(app.tasks[0].tool_count, 2);

    let _id2 = app.create_task("second try");
    app.fail_current_task("the build broke");
    assert!(app.current_task().is_none());
    assert!(matches!(app.tasks[1].status, TaskStatus::Failed));
    assert_eq!(app.tasks[1].error.as_deref(), Some("the build broke"));

    // counting without a current task changes nothing
    app.add_tool_use();
    assert_eq!(app.tasks[1].tool_count, 0);
}

#[test]
fn conversation_keeps_one_system_message_first() {
    let mut ex = AgentExecutor::new();
    ex.add_user_message("hi".to_string());
    ex.add_system_message("first prompt".to_string());
    ex.add_system_message("second prompt".to_string());
    let conv = ex.get_conversation_history();
    assert!(matches!(conv[0].role, Role::System));
    assert_eq!(conv[0].content, "second prompt");
    assert_eq!(conv.len(), 2);
    assert!(matches!(conv[1].role, Role::User));
}

#[test]
fn working_directory_lands_in_system_prompt() {
    let mut ex = AgentExecutor::new();
    ex.add_system_message("base prompt".to_string());
    ex.set_working_directory("/home/dev/project".to_string());
    let conv = ex.get_conversation_history();
    assert!(conv[0].content.contains("## WORKING DIRECTORY"));
    assert!(conv[0].content.contains("/home/dev/project"));

    // setting it again does not duplicate the section
    ex.set_working_directory("/home/dev/project".to_string());
    let conv = ex.get_conversation_history();
    assert_eq!(conv[0].content.matches("## WORKING DIRECTORY").count(), 1);

    // a prompt added later gets the directory folded in at once
    let mut ex = AgentExecutor::new();
    ex.set_working_directory("/tmp/w".to_string());
    ex.add_system_message("later prompt".to_string());
    let conv = ex.get_conversation_history();
    assert!(conv[0].content.contains("/tmp/w"));
}

#[test]
fn permission_gates_destructive_tools() {
    assert!(requires_permission("Edit"));
    assert!(requires_permission("Write"));
    assert!(requires_permission("Replace"));
    assert!(requires_permission("Bash"));
    assert!(requires_permission("NotebookEditCell"));
    assert!(!requires_permission("Read"));
    assert!(!requires_permission("Glob"));
    assert!(!requires_permission("LS"));

    let cmd = ToolCall::Edit(oli_core::tools::EditParams {
        file_path: "conf.ini".to_string(),
        old_string: "a".to_string(),
        new_string: "b".to_string(),
        expected_replacements: None,
    });
    let pending = build_permission_request(&cmd, Some("- a\n+ b\n".to_string()));
    assert_eq!(pending.tool_name, "Edit");
    assert_eq!(pending.description, "Modify file 'conf.ini'");
    assert_eq!(pending.diff_preview.as_deref(), Some("- a\n+ b\n"));

    let cmd = ToolCall::Bash(oli_core::tools::BashParams {
        command: "rm -rf build".to_string(),
        timeout: None,
    });
    let pending = build_permission_request(&cmd, None);
    assert_eq!(pending.description, "Execute command: 'rm -rf build'");
    assert!(pending.diff_preview.is_none());
}

#[test]
fn system_message_extraction() {
    let mut ex = AgentExecutor::new();
    assert!(oli_core::messages::extract_system_message(&ex.get_conversation_history()).is_none());
    ex.add_system_message("the prompt".to_string());
    ex.add_user_message("hello".to_string());
    let conv = ex.get_conversation_history();
    assert_eq!(
        oli_core::messages::extract_system_message(&conv).as_deref(),
        Some("the prompt")
    );
}

#[test]
fn fresh_task_ids_have_uuid_shape() {
    let mut app = App::new();
    let a = app.create_task("one");
    let b = app.create_task("two");
    assert_eq!(a.len(), 36);
    assert_eq!(b.len(), 36);
    assert_ne!(a, b);
}
