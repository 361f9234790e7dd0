use openaiclient::files::FileLibrary as PlainFileLibrary;
use openaiclient::files::EditOperation as PlainEditOperation;
use openaiclient::helpers::has_specific_extension;
use openaiclient::jsonedit::parse_array_path;
use openaiclient::listfiles::{gitignore_patterns, list_files, FileNode};
use openaiclient::openaiapi::{classify_message, collapse_parts, image_part, ContentPart, MessageContent, MessageSource};
use openaiclient::todo::{delete_outcome, update_outcome};
use openaiclient::tools::executor::{
    lines_with_offsets, push_bounded, Executor, StreamKind, TimedLine, KILL_EXIT_CODE, MAX_LINES,
    MAX_LINE_LEN,
};
use openaiclient::tools::files::{EditOperation, FileLibrary, SearchReplaceBlock};
use openaiclient::tools::{Dispatcher, ToolAction};

#[test]
fn buffer_keeps_last_entries_in_order() {
    let mut buf: Vec<TimedLine> = Vec::new();
    let total = MAX_LINES + 17;
    for i in 0..total {
        push_bounded(&mut buf, StreamKind::Stdout, format!("line {}", i), i as i64);
    }
    assert_eq!(buf.len(), MAX_LINES);
    for (k, entry) in buf.iter().enumerate() {
        let expect = total - MAX_LINES + k;
        assert_eq!(entry.line, format!("line {}", expect));
        assert_eq!(entry.at_millis, expect as i64);
    }
}

#[test]
fn buffer_truncates_long_lines() {
    let mut buf: Vec<TimedLine> = Vec::new();
    let long: String = std::iter::repeat('x').take(MAX_LINE_LEN + 44).collect();
    push_bounded(&mut buf, StreamKind::Stderr, long.clone(), 5);
    assert_eq!(buf[0].line.chars().count(), MAX_LINE_LEN);
    assert_eq!(buf[0].line, long[..MAX_LINE_LEN]);
    let short = "ok".to_string();
    push_bounded(&mut buf, StreamKind::Stdout, short.clone(), 6);
    assert_eq!(buf[1].line, "ok");
}

#[test]
fn report_prefixes_signed_offsets() {
    let mut buf: Vec<TimedLine> = Vec::new();
    push_bounded(&mut buf, StreamKind::Stdout, "hello".to_string(), 1500);
    push_bounded(&mut buf, StreamKind::Stderr, "x".to_string(), 90);
    push_bounded(&mut buf, StreamKind::Stdout, "wide".to_string(), 1234567);
    let report = lines_with_offsets(1000, &buf);
    assert_eq!(report, "  500| hello\n -910| x\n1233567| wide");
}

#[test]
fn finish_completed_reports_codes() {
    let buf: Vec<TimedLine> = Vec::new();
    let r = Executor::finish_completed(0, &buf, true, Some(3));
    assert_eq!(r.exit_code, 3);
    assert!(!r.timed_out);
    assert_eq!(r.output, "");
    let r = Executor::finish_completed(0, &buf, true, None);
    assert_eq!(r.exit_code, -1);
    let r = Executor::finish_completed(0, &buf, false, Some(9));
    assert_eq!(r.exit_code, -1);
}

#[test]
fn finish_timed_out_reports_kill_sentinel() {
    let mut buf: Vec<TimedLine> = Vec::new();
    push_bounded(&mut buf, StreamKind::Stdout, "partial".to_string(), 10);
    let r = Executor::finish_timed_out(0, &buf);
    assert!(r.timed_out);
    assert_eq!(r.exit_code, KILL_EXIT_CODE);
    assert_eq!(r.output, "   10| partial");
}

#[test]
fn dispatcher_routes_known_tools() {
    match Dispatcher::plan("write", "{\"path\":\"f.txt\",\"content\":\"hi\"}").unwrap() {
        ToolAction::WriteFile { path, content } => {
            assert_eq!(path, "f.txt");
            assert_eq!(content, "hi");
        }
        _ => panic!("wrong route"),
    }
    match Dispatcher::plan("execute", "{\"command\":\"echo hi\"}").unwrap() {
        ToolAction::Execute { command } => assert_eq!(command, "echo hi"),
        _ => panic!("wrong route"),
    }
    match Dispatcher::plan("get_todo_tasks", "{\"name\":\"Work\"}").unwrap() {
        ToolAction::GetTodoTasks { name } => assert_eq!(name, "Work"),
        _ => panic!("wrong route"),
    }
    match Dispatcher::plan("read", "{\"path\":\"f\",\"line_start\":2}").unwrap() {
        ToolAction::ReadFile { path, line_start, line_count, show_line_numbers } => {
            assert_eq!(path, "f");
            assert_eq!(line_start, Some(2));
            assert_eq!(line_count, None);
            assert_eq!(show_line_numbers, None);
        }
        _ => panic!("wrong route"),
    }
}

#[test]
fn dispatcher_reports_missing_and_unknown() {
    let err = Dispatcher::plan("write", "{\"path\":\"f\"}").unwrap_err();
    assert_eq!(err, "Missing 'content' for write");
    let err = Dispatcher::plan("add_todo_task", "{\"task\":\"t\"}").unwrap_err();
    assert_eq!(err, "Missing 'name' for add_todo_task");
    let err = Dispatcher::plan("frobnicate", "{}").unwrap_err();
    assert_eq!(err, "Unknown function: frobnicate");
}

#[test]
fn parse_blocks_reads_search_and_replace() {
    let input = "<<<<<<< SEARCH\nold text\n=======\nnew text\n>>>>>>> REPLACE\n";
    let blocks = FileLibrary::parse_blocks(input).unwrap();
    assert_eq!(blocks.len(), 1);
    assert_eq!(blocks[0].search, "old text\n");
    assert_eq!(blocks[0].replace, "new text\n");
    assert_eq!(
        blocks[0].raw_block,
        "<<<<<<< SEARCH\nold text\n=======\nnew text\n>>>>>>> REPLACE\n"
    );
}

#[test]
fn parse_blocks_reports_missing_markers() {
    let err = FileLibrary::parse_blocks("<<<<<<< SEARCH\nx\n>>>>>>> REPLACE\n").unwrap_err();
    assert_eq!(err, "Missing ======= separator");
    let err = FileLibrary::parse_blocks("<<<<<<< SEARCH\nx\n=======\ny\n").unwrap_err();
    assert_eq!(err, "Missing >>>>>>> REPLACE");
    let err = FileLibrary::parse_blocks("nothing here").unwrap_err();
    assert_eq!(err, "No SEARCH/REPLACE blocks found");
}

#[test]
fn apply_blocks_replaces_and_reports() {
    let blocks = vec![SearchReplaceBlock {
        search: "bb\n".to_string(),
        replace: "xx\nyy\n".to_string(),
        raw_block: String::new(),
    }];
    let out =
        FileLibrary::apply_blocks("notes.txt", "aa\nbb\ncc\n", &blocks, "input text\n").unwrap();
    assert_eq!(out.content, "aa\nxx\nyy\ncc\n");
    assert_eq!(
        out.report,
        "file: notes.txt\nblocks_applied: 1\nlines_changed: 1\ncontent:\ninput text\nwarnings: Line count changed from 1 to 2\n"
    );
    let missing = vec![SearchReplaceBlock {
        search: "zz".to_string(),
        replace: "q".to_string(),
        raw_block: String::new(),
    }];
    let err = FileLibrary::apply_blocks("f", "aa\n", &missing, "orig").unwrap_err();
    assert_eq!(err, "SEARCH block not found in file:\nzz");
}

#[test]
fn multiedit_applies_in_order() {
    let edits = vec![
        EditOperation { old_string: "one".to_string(), new_string: "two".to_string() },
        EditOperation { old_string: "two".to_string(), new_string: "three".to_string() },
    ];
    let out = FileLibrary::multiedit_content("one and one", &edits).unwrap();
    // The second edit finds the text the first one produced.
    assert_eq!(out.content, "three and one");
    assert_eq!(out.report, "Applied 2 edits successfully");
    let bad = vec![EditOperation { old_string: "absent".to_string(), new_string: "x".to_string() }];
    let err = FileLibrary::multiedit_content("text", &bad).unwrap_err();
    assert_eq!(err, "Edit failed: string 'absent' not found");
}

#[test]
fn single_edit_replaces_first_occurrence() {
    let out = FileLibrary::edit_file_content("a b a", "a", "z").unwrap();
    assert_eq!(out.content, "z b a");
    assert_eq!(out.report, "Edit applied successfully");
    let err = FileLibrary::edit_file_content("a", "q", "z").unwrap_err();
    assert_eq!(err, "Edit failed: string 'q' not found");
}

#[test]
fn read_renders_window_with_numbers() {
    let text = "alpha\nbeta\ngamma\ndelta\n";
    let out = FileLibrary::read_file_content(text, Some(true), Some(2), Some(2)).unwrap();
    assert_eq!(out, "2: beta\n3: gamma\n4: delta\n");
    let out = FileLibrary::read_file_content(text, None, None, None).unwrap();
    assert_eq!(out, "alpha\nbeta\ngamma\ndelta\n");
    let err = FileLibrary::read_file_content(text, None, Some(0), None).unwrap_err();
    assert_eq!(err, "line_start must be >= 1");
}

#[test]
fn plain_read_counts_from_start_index() {
    let text = "alpha\nbeta\ngamma\ndelta\n";
    // This tool's window is line_count lines from the start index.
    let out = PlainFileLibrary::read_file_content(text, Some(true), Some(2), Some(2)).unwrap();
    assert_eq!(out, "2: beta\n3: gamma\n");
    let edits = vec![PlainEditOperation {
        old_string: "beta".to_string(),
        new_string: "B".to_string(),
    }];
    let out = PlainFileLibrary::multiedit_content(text, &edits).unwrap();
    assert_eq!(out, "alpha\nB\ngamma\ndelta\n");
}

#[test]
fn write_report_counts_bytes() {
    assert_eq!(FileLibrary::write_report("hello"), "5 bytes written");
    assert_eq!(FileLibrary::write_report(""), "0 bytes written");
}

#[test]
fn extension_check_reads_last_component() {
    assert!(has_specific_extension("foo.txt", "txt"));
    assert!(has_specific_extension("a/b/c.png", "png"));
    assert!(!has_specific_extension("foo", "txt"));
    assert!(!has_specific_extension(".gitignore", "gitignore"));
    assert!(has_specific_extension("archive.tar.gz", "gz"));
    assert!(!has_specific_extension("dir.d/file", "d"));
}

#[test]
fn array_path_splits_key_and_indices() {
    let (key, ix) = parse_array_path("items[1][2]").unwrap();
    assert_eq!(key, "items");
    assert_eq!(ix, vec![1, 2]);
    let (key, ix) = parse_array_path("plain").unwrap();
    assert_eq!(key, "plain");
    assert!(ix.is_empty());
    let err = parse_array_path("k[x]").unwrap_err();
    assert_eq!(err, "invalid digit found in string");
    let err = parse_array_path("k[]").unwrap_err();
    assert_eq!(err, "cannot parse integer from empty string");
}

#[test]
fn listing_respects_depth_and_acceptance() {
    let tree = vec![
        FileNode {
            path: "a.txt".to_string(),
            is_dir: false,
            accepted: true,
            children: Vec::new(),
        },
        FileNode {
            path: "skip.bin".to_string(),
            is_dir: false,
            accepted: false,
            children: Vec::new(),
        },
        FileNode {
            path: "sub".to_string(),
            is_dir: true,
            accepted: true,
            children: vec![FileNode {
                path: "sub/b.txt".to_string(),
                is_dir: false,
                accepted: true,
                children: Vec::new(),
            }],
        },
    ];
    let found = list_files(&tree, 2);
    assert_eq!(found, vec!["a.txt".to_string(), "sub/b.txt".to_string()]);
    // With depth one, the subdirectory is not entered.
    let found = list_files(&tree, 1);
    assert_eq!(found, vec!["a.txt".to_string()]);
    let found = list_files(&tree, 0);
    assert!(found.is_empty());
}

#[test]
fn gitignore_lines_become_anchored_patterns() {
    let pats = gitignore_patterns("# comment\n\n  \ntarget\n  *.log  \n");
    assert_eq!(pats, vec!["^target$".to_string(), "^*.log$".to_string()]);
}

#[test]
fn message_arguments_classify_by_shape() {
    match classify_message("@pic.png") {
        MessageSource::ImageFile { filename, png } => {
            assert_eq!(filename, "pic.png");
            assert!(png);
        }
        _ => panic!("wrong class"),
    }
    match classify_message("@photo.jpg") {
        MessageSource::ImageFile { png, .. } => assert!(!png),
        _ => panic!("wrong class"),
    }
    match classify_message("@notes.md") {
        MessageSource::TextFile { filename } => assert_eq!(filename, "notes.md"),
        _ => panic!("wrong class"),
    }
    assert!(matches!(classify_message("-"), MessageSource::Stdin));
    assert!(matches!(classify_message(""), MessageSource::Empty));
    assert!(matches!(classify_message("hello"), MessageSource::Plain));
}

#[test]
fn image_part_carries_base64_data_url() {
    let part = image_part(true, &vec![b'a', b'b', b'c']);
    match part {
        ContentPart::ImageUrl { image_url } => {
            assert_eq!(image_url.url, "data:image/png;base64,YWJj");
        }
        _ => panic!("wrong part"),
    }
    let part = image_part(false, &vec![1u8, 2u8]);
    match part {
        ContentPart::ImageUrl { image_url } => {
            assert_eq!(image_url.url, "data:image/jpeg;base64,AQI=");
        }
        _ => panic!("wrong part"),
    }
}

#[test]
fn lone_text_part_collapses_to_simple_content() {
    let parts = vec![ContentPart::Text { text: "just text".to_string() }];
    match collapse_parts(parts) {
        MessageContent::Simple(t) => assert_eq!(t, "just text"),
        _ => panic!("expected simple"),
    }
    let parts = vec![
        ContentPart::Text { text: "a".to_string() },
        ContentPart::Text { text: "b".to_string() },
    ];
    match collapse_parts(parts) {
        MessageContent::Multi(ps) => assert_eq!(ps.len(), 2),
        _ => panic!("expected multi"),
    }
}

#[test]
fn todo_outcomes_follow_change_counts() {
    assert_eq!(update_outcome(101, 1).unwrap(), "Success");
    let err = update_outcome(5, 0).unwrap_err();
    assert_eq!(err, "Task list not updated, perhaps the task does not exist? (status 5)");
    let err = update_outcome(101, 2).unwrap_err();
    assert_eq!(err, "More than one task was updated, this is not normally a good thing");
    assert_eq!(delete_outcome(101, 1).unwrap(), "Success");
    let err = delete_outcome(101, 0).unwrap_err();
    assert_eq!(err, "Task list not updated: only completed tasks my be deleted from the todo list");
    let err = delete_outcome(7, 1).unwrap_err();
    assert_eq!(err, "Error from todo list, status 7");
}

#[test]
fn dispatcher_reads_optional_flags() {
    match Dispatcher::plan(
        "read",
        "{\"path\":\"f\",\"show_line_numbers\":true,\"line_count\":7}",
    )
    .unwrap()
    {
        ToolAction::ReadFile { show_line_numbers, line_count, .. } => {
            assert_eq!(show_line_numbers, Some(true));
            assert_eq!(line_count, Some(7));
        }
        _ => panic!("wrong route"),
    }
}
