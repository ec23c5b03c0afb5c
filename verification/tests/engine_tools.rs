//! The tool execution engine, run against an in-memory file store.

use oli_core::engine::{format_bash_outcome, ExecError};
use oli_core::fsstore::FileStore;
use oli_core::tools::{
    EditParams, GlobToolParams, GrepToolParams, LSParams, ReplaceParams, ToolCall, ViewParams,
};

#[test]
fn test_read_file_tool() {
    let mut fs = FileStore::new();
    let test_content =
        "Line 1: This is a test file.\nLine 2: With multiple lines.\nLine 3: To verify file reading.";
    fs.write("test_file.txt", test_content.to_string());

    let read_result = ToolCall::View(ViewParams {
        file_path: "test_file.txt".to_string(),
        offset: Some(0),
        limit: Some(10),
    })
    .execute(&mut fs);

    assert!(read_result.is_ok(), "Failed to read file: {:?}", read_result);
    let read_output = read_result.unwrap();

    assert!(
        read_output.contains("This is a test file"),
        "Should contain line 1 content"
    );
    assert!(
        read_output.contains("With multiple lines"),
        "Should contain line 2 content"
    );
    assert!(
        read_output.contains("To verify file reading"),
        "Should contain line 3 content"
    );
}

#[test]
fn test_read_numbering_and_slicing() {
    let mut fs = FileStore::new();
    fs.write("f.txt", "alpha\nbeta\ngamma\ndelta".to_string());

    let whole = ToolCall::View(ViewParams {
        file_path: "f.txt".to_string(),
        offset: None,
        limit: None,
    })
    .execute(&mut fs)
    .unwrap();
    assert_eq!(whole, "1: alpha\n2: beta\n3: gamma\n4: delta\n");

    let sliced = ToolCall::View(ViewParams {
        file_path: "f.txt".to_string(),
        offset: Some(2),
        limit: Some(2),
    })
    .execute(&mut fs)
    .unwrap();
    assert_eq!(sliced, "2: beta\n3: gamma\n");

    let missing = ToolCall::View(ViewParams {
        file_path: "nothing.txt".to_string(),
        offset: None,
        limit: None,
    })
    .execute(&mut fs);
    assert!(matches!(missing, Err(ExecError::NotFound { .. })));
}

#[test]
fn test_glob_tool() {
    let mut fs = FileStore::new();
    fs.write("src/main.rs", "fn main() {}".to_string());
    fs.write("src/lib.rs", "pub fn hello() {}".to_string());
    fs.write("src/utils.rs", "pub fn util() {}".to_string());
    fs.write("ui/app.js", "console.log('Hello');".to_string());
    fs.write("ui/utils.js", "function util() {}".to_string());
    fs.write("README.md", "# Test Project".to_string());

    let glob_result = ToolCall::GlobTool(GlobToolParams {
        pattern: "*.rs".to_string(),
        path: Some("src".to_string()),
    })
    .execute(&mut fs);

    assert!(glob_result.is_ok(), "Failed to glob: {:?}", glob_result);
    let glob_output = glob_result.unwrap();
    assert!(
        glob_output.contains("main.rs")
            && glob_output.contains("lib.rs")
            && glob_output.contains("utils.rs"),
        "Direct glob should find Rust files: {}",
        glob_output
    );
    assert!(!glob_output.contains("app.js"));

    let glob_js_result = ToolCall::GlobTool(GlobToolParams {
        pattern: "*.js".to_string(),
        path: Some("ui".to_string()),
    })
    .execute(&mut fs);

    assert!(
        glob_js_result.is_ok(),
        "Failed to glob JS files: {:?}",
        glob_js_result
    );
    let js_output = glob_js_result.unwrap();
    assert!(
        js_output.contains("app.js") && js_output.contains("utils.js"),
        "Direct glob should find JS files: {}",
        js_output
    );
}

#[test]
fn test_glob_output_format() {
    let mut fs = FileStore::new();
    fs.write("a.rs", "x".to_string());
    fs.write("b.rs", "y".to_string());
    fs.write("c.txt", "z".to_string());
    let out = ToolCall::GlobTool(GlobToolParams {
        pattern: "*.rs".to_string(),
        path: None,
    })
    .execute(&mut fs)
    .unwrap();
    assert_eq!(
        out,
        "Found 2 files matching pattern '*.rs':\n\n1. a.rs\n2. b.rs\n"
    );

    let bad = ToolCall::GlobTool(GlobToolParams {
        pattern: "a[".to_string(),
        path: None,
    })
    .execute(&mut fs);
    assert!(matches!(bad, Err(ExecError::BadPattern { .. })));
}

#[test]
fn test_grep_tool() {
    let mut fs = FileStore::new();
    fs.write(
        "proj/file1.txt",
        "This file carries important information.\nThe data we need is here.\nIMPORTANT: Don't forget this!"
            .to_string(),
    );
    fs.write(
        "proj/file2.txt",
        "Nothing important here.\nJust some random text.\nNo important data.".to_string(),
    );
    fs.write(
        "proj/file3.txt",
        "More random content.\nIMPORTANT: Critical information here.\nDon't miss this important note."
            .to_string(),
    );
    fs.write(
        "proj/code.rs",
        "fn important_function() {\n    // This function does important things\n    println!(\"Important operation\");\n}"
            .to_string(),
    );

    let grep_result = ToolCall::GrepTool(GrepToolParams {
        pattern: "IMPORTANT".to_string(),
        file_filter: None,
        path: Some("proj".to_string()),
    })
    .execute(&mut fs);

    assert!(grep_result.is_ok(), "Failed to grep: {:?}", grep_result);
    let grep_output = grep_result.unwrap();
    assert!(
        grep_output.contains("file1.txt")
            && grep_output.contains("file3.txt")
            && !grep_output.contains("file2.txt"),
        "Direct grep should find IMPORTANT in file1.txt and file3.txt, but not file2.txt: {}",
        grep_output
    );

    let grep_insensitive_result = ToolCall::GrepTool(GrepToolParams {
        pattern: "(?i)important".to_string(),
        file_filter: None,
        path: Some("proj".to_string()),
    })
    .execute(&mut fs);

    assert!(
        grep_insensitive_result.is_ok(),
        "Failed to grep case-insensitive: {:?}",
        grep_insensitive_result
    );
    let grep_i_output = grep_insensitive_result.unwrap();
    assert!(
        grep_i_output.contains("file1.txt")
            && grep_i_output.contains("file2.txt")
            && grep_i_output.contains("file3.txt")
            && grep_i_output.contains("code.rs"),
        "Case-insensitive grep should find 'important' in all files: {}",
        grep_i_output
    );

    let grep_txt_result = ToolCall::GrepTool(GrepToolParams {
        pattern: "important".to_string(),
        file_filter: Some("proj/*.txt".to_string()),
        path: None,
    })
    .execute(&mut fs);

    assert!(
        grep_txt_result.is_ok(),
        "Failed to grep with file pattern: {:?}",
        grep_txt_result
    );
    let grep_txt_output = grep_txt_result.unwrap();
    assert!(
        grep_txt_output.contains("file1.txt")
            && grep_txt_output.contains("file2.txt")
            && grep_txt_output.contains("file3.txt")
            && !grep_txt_output.contains("code.rs"),
        "Pattern-filtered grep should only search txt files: {}",
        grep_txt_output
    );
}

#[test]
fn test_grep_line_numbers() {
    let mut fs = FileStore::new();
    fs.write("notes.txt", "first\nsecond match\nthird\nmatch again".to_string());
    let out = ToolCall::GrepTool(GrepToolParams {
        pattern: "match".to_string(),
        file_filter: None,
        path: None,
    })
    .execute(&mut fs)
    .unwrap();
    assert_eq!(
        out,
        "Found 2 matches for pattern 'match':\n\nnotes.txt:2:second match\nnotes.txt:4:match again\n"
    );

    let bad = ToolCall::GrepTool(GrepToolParams {
        pattern: "(".to_string(),
        file_filter: None,
        path: None,
    })
    .execute(&mut fs);
    assert!(matches!(bad, Err(ExecError::BadPattern { .. })));
}

#[test]
fn test_ls_tool() {
    let mut fs = FileStore::new();
    fs.write("proj/README.md", "# Project".to_string());
    fs.write("proj/LICENSE", "MIT License".to_string());
    fs.write("proj/src/main.rs", "fn main() {}".to_string());
    fs.write("proj/docs/guide.md", "guide".to_string());
    fs.write("proj/config/settings.json", "{}".to_string());

    let ls_result = ToolCall::LS(LSParams {
        path: "proj".to_string(),
        ignore: None,
    })
    .execute(&mut fs);

    assert!(ls_result.is_ok(), "Failed to list directory: {:?}", ls_result);
    let ls_output = ls_result.unwrap();
    assert!(
        ls_output.contains("src")
            && ls_output.contains("docs")
            && ls_output.contains("config")
            && ls_output.contains("README.md")
            && ls_output.contains("LICENSE"),
        "Root directory listing should show all top-level contents: {}",
        ls_output
    );

    let ls_src_result = ToolCall::LS(LSParams {
        path: "proj/src".to_string(),
        ignore: None,
    })
    .execute(&mut fs);

    assert!(
        ls_src_result.is_ok(),
        "Failed to list src directory: {:?}",
        ls_src_result
    );
    let ls_src_output = ls_src_result.unwrap();
    assert!(
        ls_src_output.contains("main.rs"),
        "Src directory listing should show main.rs: {}",
        ls_src_output
    );

    let readme_exists = ls_output.contains("README.md");
    let license_exists = ls_output.contains("LICENSE");
    assert!(
        readme_exists && license_exists,
        "Directory listing should include both README.md and LICENSE files"
    );
}

#[test]
fn test_ls_tags_and_dedup() {
    let mut fs = FileStore::new();
    fs.write("d/sub/one.txt", "1".to_string());
    fs.write("d/sub/two.txt", "2".to_string());
    fs.write("d/plain.txt", "3".to_string());
    let out = ToolCall::LS(LSParams {
        path: "d".to_string(),
        ignore: None,
    })
    .execute(&mut fs)
    .unwrap();
    assert_eq!(out, "Directory listing for 'd':\n1. [DIR] sub\n2. [FILE] plain.txt\n");
}

#[test]
fn test_edit_tool() {
    let mut fs = FileStore::new();
    let initial_content =
        "This is a test file.\nIt holds multiple lines.\nThis line will be edited.";
    fs.write("test_file.txt", initial_content.to_string());

    let old_string = "This line will be edited.";
    let new_string = "This line has been edited successfully!";

    let edit_result = ToolCall::Edit(EditParams {
        file_path: "test_file.txt".to_string(),
        old_string: old_string.to_string(),
        new_string: new_string.to_string(),
        expected_replacements: None,
    })
    .execute(&mut fs);

    assert!(edit_result.is_ok(), "Failed to edit file: {:?}", edit_result);

    let diff_output = edit_result.unwrap();
    assert!(
        diff_output.contains(old_string) && diff_output.contains(new_string),
        "Diff output should show both removed and added content: {}",
        diff_output
    );

    let updated_content = fs.read("test_file.txt").expect("Failed to read updated file");
    assert!(
        updated_content.contains(new_string) && !updated_content.contains(old_string),
        "File content should have been edited correctly"
    );

    let non_existent_edit_result = ToolCall::Edit(EditParams {
        file_path: "test_file.txt".to_string(),
        old_string: "This string does not exist in the file".to_string(),
        new_string: "Replacement text".to_string(),
        expected_replacements: None,
    })
    .execute(&mut fs);

    assert!(
        non_existent_edit_result.is_err(),
        "Should fail when string doesn't exist"
    );

    let duplicate_content = "Duplicate line.\nDuplicate line.\nDuplicate line.";
    fs.write("duplicate.txt", duplicate_content.to_string());

    let ambiguous_edit_result = ToolCall::Edit(EditParams {
        file_path: "duplicate.txt".to_string(),
        old_string: "Duplicate line.".to_string(),
        new_string: "Edited line.".to_string(),
        expected_replacements: None,
    })
    .execute(&mut fs);

    assert!(
        ambiguous_edit_result.is_err(),
        "Should fail when string appears multiple times"
    );

    let expected_edit_result = ToolCall::Edit(EditParams {
        file_path: "duplicate.txt".to_string(),
        old_string: "Duplicate line.".to_string(),
        new_string: "Edited line.".to_string(),
        expected_replacements: Some(3),
    })
    .execute(&mut fs);

    assert!(
        expected_edit_result.is_ok(),
        "Should succeed with correct expected_replacements: {:?}",
        expected_edit_result
    );

    let updated_duplicate_content =
        fs.read("duplicate.txt").expect("Failed to read updated duplicate file");
    assert_eq!(
        updated_duplicate_content, "Edited line.\nEdited line.\nEdited line.",
        "All occurrences should be replaced with expected_replacements"
    );

    let wrong_count_content = "Replace me.\nReplace me.\nKeep me.";
    fs.write("wrong_count.txt", wrong_count_content.to_string());

    let wrong_count_result = ToolCall::Edit(EditParams {
        file_path: "wrong_count.txt".to_string(),
        old_string: "Replace me.".to_string(),
        new_string: "Replaced!".to_string(),
        expected_replacements: Some(3),
    })
    .execute(&mut fs);

    assert!(
        wrong_count_result.is_err(),
        "Should fail when expected_replacements doesn't match actual count"
    );
}

#[test]
fn test_edit_error_variants() {
    let mut fs = FileStore::new();
    fs.write("f.txt", "one two two".to_string());

    let e = ToolCall::Edit(EditParams {
        file_path: "f.txt".to_string(),
        old_string: "".to_string(),
        new_string: "x".to_string(),
        expected_replacements: None,
    })
    .execute(&mut fs);
    assert!(matches!(e, Err(ExecError::EmptyOld)));

    let e = ToolCall::Edit(EditParams {
        file_path: "missing.txt".to_string(),
        old_string: "one".to_string(),
        new_string: "x".to_string(),
        expected_replacements: None,
    })
    .execute(&mut fs);
    assert!(matches!(e, Err(ExecError::NotFound { .. })));

    let e = ToolCall::Edit(EditParams {
        file_path: "f.txt".to_string(),
        old_string: "three".to_string(),
        new_string: "x".to_string(),
        expected_replacements: None,
    })
    .execute(&mut fs);
    assert!(matches!(e, Err(ExecError::StringNotFound)));

    let e = ToolCall::Edit(EditParams {
        file_path: "f.txt".to_string(),
        old_string: "two".to_string(),
        new_string: "x".to_string(),
        expected_replacements: None,
    })
    .execute(&mut fs);
    match e {
        Err(ExecError::Ambiguous { count }) => assert_eq!(count, 2),
        other => panic!("expected the ambiguous-edit error, got {:?}", other),
    }

    let e = ToolCall::Edit(EditParams {
        file_path: "f.txt".to_string(),
        old_string: "two".to_string(),
        new_string: "x".to_string(),
        expected_replacements: Some(1),
    })
    .execute(&mut fs);
    match e {
        Err(ExecError::CountMismatch { expected, actual }) => {
            assert_eq!(expected, 1);
            assert_eq!(actual, 2);
        },
        other => panic!("expected the count-mismatch error, got {:?}", other),
    }
    // every failure leaves the file unchanged
    assert_eq!(fs.read("f.txt").unwrap(), "one two two");
}

#[test]
fn test_bash_tool() {
    // The engine formats finished shell outcomes; the embedding process
    // runs the command itself. These outcomes are what `sh -c` produces
    // for the two commands.
    let bash_output = format_bash_outcome(true, 0, "Hello, World!\n", "");
    assert!(
        bash_output.contains("Hello, World!"),
        "Bash output should contain the echo message: {}",
        bash_output
    );

    let invalid_bash_output =
        format_bash_outcome(false, 127, "", "sh: 1: non_existent_command: not found");
    assert!(
        invalid_bash_output.contains("not found"),
        "Should handle invalid command gracefully"
    );
    assert!(
        invalid_bash_output.contains("exit code: 127"),
        "Failure text should carry the exit code: {}",
        invalid_bash_output
    );
}

#[test]
fn test_write_tool() {
    let mut fs = FileStore::new();
    let initial_content =
        "This is a test file.\nIt holds multiple lines.\nWe will replace its entire content.";
    fs.write("test_file.txt", initial_content.to_string());

    let new_content = "This is the new content.\nThe file has been completely replaced.\nAll original content is gone.";

    let write_result = ToolCall::Replace(ReplaceParams {
        file_path: "test_file.txt".to_string(),
        content: new_content.to_string(),
    })
    .execute(&mut fs);

    assert!(write_result.is_ok(), "Failed to write file: {:?}", write_result);

    let diff_output = write_result.unwrap();
    assert!(
        diff_output.contains("This is a test file")
            && diff_output.contains("This is the new content"),
        "Diff output should show both removed and added content: {}",
        diff_output
    );

    let updated_content = fs.read("test_file.txt").expect("Failed to read updated file");
    assert_eq!(
        updated_content, new_content,
        "File content should be completely written"
    );

    let create_content = "This is a new file.\nCreated with the Write tool.";

    let create_result = ToolCall::Replace(ReplaceParams {
        file_path: "new_file.txt".to_string(),
        content: create_content.to_string(),
    })
    .execute(&mut fs);

    assert!(create_result.is_ok(), "Failed to create new file: {:?}", create_result);

    let new_file_content = fs.read("new_file.txt").expect("Failed to read new file");
    assert_eq!(
        new_file_content, create_content,
        "New file should have the specified content"
    );
}

#[test]
fn test_write_read_roundtrip() {
    let mut fs = FileStore::new();
    let content = "exact content\nwith a second line\n";
    fs.write("roundtrip.txt", content.to_string());
    assert_eq!(fs.read("roundtrip.txt").unwrap(), content);

    // overwriting wins over the earlier content
    fs.write("roundtrip.txt", "changed".to_string());
    assert_eq!(fs.read("roundtrip.txt").unwrap(), "changed");
}

#[test]
fn test_diff_format_exact() {
    let mut fs = FileStore::new();
    fs.write("f.txt", "keep\nold line\nalso keep".to_string());
    let diff = ToolCall::Edit(EditParams {
        file_path: "f.txt".to_string(),
        old_string: "old line".to_string(),
        new_string: "new line".to_string(),
        expected_replacements: None,
    })
    .execute(&mut fs)
    .unwrap();
    assert_eq!(
        diff,
        "Updated f.txt with 1 additions and 1 removals\n- old line\n+ new line\n"
    );

    // a fresh file diffs against empty previous content
    let diff = ToolCall::Replace(ReplaceParams {
        file_path: "new.txt".to_string(),
        content: "a\nb".to_string(),
    })
    .execute(&mut fs)
    .unwrap();
    assert_eq!(diff, "Updated new.txt with 2 additions and 0 removals\n+ a\n+ b\n");
}

#[test]
fn test_bash_failure_format_exact() {
    let out = format_bash_outcome(false, 127, "", "sh: 1: non_existent_command: not found");
    assert_eq!(
        out,
        "Command failed with exit code: 127\nStdout: \nStderr: sh: 1: non_existent_command: not found"
    );
    assert_eq!(format_bash_outcome(true, 0, "plain output\n", "ignored"), "plain output\n");
}

#[test]
fn test_unsupported_commands() {
    let mut fs = FileStore::new();
    let r = ToolCall::Bash(oli_core::tools::BashParams {
        command: "echo hi".to_string(),
        timeout: None,
    })
    .execute(&mut fs);
    assert!(matches!(r, Err(ExecError::Unsupported { .. })));
}
