use comms::tools::{
    command_report, command_timeout, contains_text, execute_tool, get_tool_definitions,
    list_report, nearest_existing, read_report, replace_report, replace_text, resolve_for_sandbox,
    sandbox_refusal, sort_names, within, write_report, CommandOutcome, ToolAction, ToolReport,
};

fn path(text: &str) -> Vec<String> {
    text.split('/')
        .filter(|part| !part.is_empty())
        .map(str::to_string)
        .collect()
}

fn chars(text: &str) -> Vec<char> {
    text.chars().collect()
}

fn bounds() -> Vec<Vec<String>> {
    vec![path("/work/project"), path("/home/me")]
}

#[test]
fn replace_in_file_refuses_to_write_outside_the_sandbox() {
    let outside = "/comms-sandbox-should-never-exist/x";
    let refusal = sandbox_refusal(&path(outside), outside, &bounds(), true).unwrap();
    assert!(refusal.contains("Sandbox"), "{refusal}");
    assert!(refusal.contains(outside), "{refusal}");
}

#[test]
fn the_bound_is_judged_before_whether_the_file_is_even_there() {
    // With the sandbox off the same path gets past the bound and fails
    // on its own terms, which is how this knows the refusal above came
    // from the bound rather than from the file simply being missing.
    let outside = "/comms-sandbox-should-never-exist/x";
    assert_eq!(
        sandbox_refusal(&path(outside), outside, &bounds(), false),
        None
    );
    let (report, written) = replace_report(outside, None, "a", "b");
    assert_eq!(written, None);
    match report {
        ToolReport::Failed { error } => assert!(error.contains("File not found"), "{error}"),
        other => panic!("{other:?}"),
    }
}

#[test]
fn replace_in_file_rewrites_a_file_inside_the_workspace() {
    assert_eq!(
        sandbox_refusal(
            &path("/work/project/a.txt"),
            "/work/project/a.txt",
            &bounds(),
            true
        ),
        None
    );
    let (report, written) =
        replace_report("a.txt", Some("before".to_string()), "before", "after");
    assert_eq!(
        report,
        ToolReport::Updated {
            message: "File updated".to_string()
        }
    );
    assert_eq!(written, Some("after".to_string()));
}

#[test]
fn write_file_refuses_outside_the_sandbox_and_allows_inside_it() {
    assert!(sandbox_refusal(&path("/elsewhere/x"), "/elsewhere/x", &bounds(), true).is_some());
    // The directory that a write still has to make is judged with the rest.
    let inside = resolve_for_sandbox(
        &path("/work/project/new/dir/x"),
        Some((2, path("/work/project"))),
    );
    assert_eq!(inside, path("/work/project/new/dir/x"));
    assert_eq!(sandbox_refusal(&inside, "x", &bounds(), true), None);
    assert_eq!(
        write_report("x", "/work/project/x".to_string()),
        ToolReport::Written {
            message: "File written: x".to_string(),
            filepath: "/work/project/x".to_string()
        }
    );
}

#[test]
fn the_bound_is_where_a_path_lands_not_how_it_is_spelled() {
    // The deepest part that exists is judged in its canonical form: this one
    // is spelled inside the project and lies outside.
    let spelled = path("/work/project/link/new.txt");
    assert_eq!(nearest_existing(&vec![true, true, true, true, false]), Some(3));
    let landed = resolve_for_sandbox(&spelled, Some((3, path("/etc"))));
    assert_eq!(landed, path("/etc/new.txt"));
    assert!(sandbox_refusal(&landed, "/etc/new.txt", &bounds(), true).is_some());
    assert_eq!(nearest_existing(&vec![false, false]), None);
    assert_eq!(resolve_for_sandbox(&spelled, None), spelled);

    // Climbing out by way of the project is climbing out.
    let escape = "/work/project/../../../../../../comms-sandbox-should-never-exist";
    let mut exists = vec![true; 9];
    exists.push(false);
    assert_eq!(nearest_existing(&exists), Some(8));
    let landed = resolve_for_sandbox(&path(escape), Some((8, path("/"))));
    assert_eq!(landed, path("/comms-sandbox-should-never-exist"));
    let refusal = sandbox_refusal(&landed, escape, &bounds(), true).unwrap();
    assert!(refusal.contains("Sandbox"), "{refusal}");
    assert!(sandbox_refusal(&path(escape), escape, &bounds(), true).is_some());
}

#[test]
fn a_path_cannot_climb_out_through_what_is_not_there() {
    let spelled = path("/work/project/new/../../../out/x");
    let landed = resolve_for_sandbox(&spelled, Some((2, path("/work/project"))));
    assert_eq!(landed, path("/out/x"));
    let refusal = sandbox_refusal(&landed, "/out/x", &bounds(), true).unwrap();
    assert!(refusal.starts_with("Sandbox"), "{refusal}");
    assert!(sandbox_refusal(&spelled, "/out/x", &bounds(), true).is_some());
    // Up and down again inside the project is inside it.
    let spelled = path("/work/project/new/../other/./x");
    let landed = resolve_for_sandbox(&spelled, Some((2, path("/work/project"))));
    assert_eq!(landed, path("/work/project/other/x"));
    assert_eq!(sandbox_refusal(&spelled, "x", &bounds(), true), None);
    // There is nothing above the root.
    let rooted: Vec<String> = ["/", "..", "..", "etc"].map(str::to_string).to_vec();
    let etc: Vec<String> = ["/", "etc"].map(str::to_string).to_vec();
    assert_eq!(resolve_for_sandbox(&rooted, None), etc);
}

#[test]
fn a_bound_holds_what_lies_below_it_and_no_namesake() {
    assert!(within(&path("/a/b/c"), &path("/a/b")));
    assert!(within(&path("/a/b"), &path("/a/b")));
    assert!(!within(&path("/a/bc"), &path("/a/b")));
    assert!(!within(&path("/a"), &path("/a/b")));
}

#[test]
fn run_terminal_command_returns_stdout_and_exit_code() {
    assert_eq!(
        command_report(CommandOutcome::Exited {
            success: true,
            code: Some(0),
            stdout: b"hello\n".to_vec(),
            stderr: Vec::new()
        }),
        ToolReport::Finished {
            success: true,
            exit_code: 0,
            stdout: "hello\n".to_string(),
            stderr: String::new()
        }
    );
}

#[test]
fn run_terminal_command_reports_nonzero_exit() {
    match command_report(CommandOutcome::Exited {
        success: false,
        code: Some(3),
        stdout: vec![0xff],
        stderr: Vec::new(),
    }) {
        ToolReport::Finished {
            success,
            exit_code,
            stdout,
            ..
        } => {
            assert!(!success);
            assert_eq!(exit_code, 3);
            assert_eq!(stdout, "\u{fffd}");
        }
        other => panic!("{other:?}"),
    }
    // Killed by a signal: there is no code.
    match command_report(CommandOutcome::Exited {
        success: false,
        code: None,
        stdout: Vec::new(),
        stderr: Vec::new(),
    }) {
        ToolReport::Finished { exit_code, .. } => assert_eq!(exit_code, -1),
        other => panic!("{other:?}"),
    }
}

#[test]
fn run_terminal_command_enforces_timeout() {
    assert_eq!(command_timeout(0), 1);
    assert_eq!(command_timeout(30), 30);
    assert_eq!(
        command_report(CommandOutcome::TimedOut { timeout_secs: 1 }),
        ToolReport::TimedOut {
            error: "Command timed out after 1 seconds and was killed".to_string()
        }
    );
}

#[test]
fn run_terminal_command_missing_working_dir_errors() {
    assert_eq!(
        command_report(CommandOutcome::MissingDir("/no/such/dir".to_string())),
        ToolReport::Failed {
            error: "Working directory not found: /no/such/dir".to_string()
        }
    );
    assert_eq!(
        command_report(CommandOutcome::Failed("denied".to_string())),
        ToolReport::Failed {
            error: "Failed to execute command: denied".to_string()
        }
    );
}

#[test]
fn calls_are_read_by_name_and_arguments() {
    assert_eq!(
        execute_tool(
            "write_file",
            r#"{"filepath":"a","content":"b","mode":"append"}"#
        ),
        Ok(ToolAction::WriteFile {
            filepath: "a".to_string(),
            content: "b".to_string(),
            append: true
        })
    );
    assert_eq!(
        execute_tool("write_file", r#"{"content":"b"}"#),
        Err("Missing filepath".to_string())
    );
    assert_eq!(
        execute_tool("write_file", r#"{"filepath":"a"}"#),
        Err("Missing content".to_string())
    );
    assert_eq!(
        execute_tool("read_file", "{}"),
        Err("Missing filepath".to_string())
    );
    assert_eq!(
        execute_tool("list_files", "{}"),
        Ok(ToolAction::ListFiles {
            dirpath: ".".to_string()
        })
    );
    assert_eq!(
        execute_tool("replace_in_file", r#"{"filepath":"a","search":"b"}"#),
        Err("Missing replace".to_string())
    );
    assert_eq!(
        execute_tool("replace_in_file", r#"{"filepath":"a"}"#),
        Err("Missing search".to_string())
    );
    assert_eq!(
        execute_tool(
            "run_terminal_command",
            r#"{"command":"ls","timeout_secs":5}"#
        ),
        Ok(ToolAction::RunCommand {
            command: "ls".to_string(),
            working_dir: None,
            timeout_secs: 5
        })
    );
    assert_eq!(
        execute_tool("run_terminal_command", r#"{"command":"ls"}"#),
        Ok(ToolAction::RunCommand {
            command: "ls".to_string(),
            working_dir: None,
            timeout_secs: 30
        })
    );
    assert_eq!(
        execute_tool("run_terminal_command", "{}"),
        Err("Missing command".to_string())
    );
    assert_eq!(
        execute_tool("dance", "{}"),
        Err("Unknown tool: dance".to_string())
    );
    assert!(execute_tool("read_file", "{").is_err());
}

#[test]
fn every_tool_that_is_offered_can_be_called() {
    for tool in get_tool_definitions() {
        let mut arguments = serde_json::Map::new();
        for name in &tool.required {
            arguments.insert(name.to_string(), serde_json::Value::from("x"));
        }
        let text = serde_json::Value::Object(arguments).to_string();
        assert!(execute_tool(tool.name, &text).is_ok(), "{}", tool.name);
    }
}

#[test]
fn files_are_counted_by_lines_and_listed_in_order() {
    assert_eq!(
        read_report("a", Some("one\ntwo\n".to_string())),
        ToolReport::Contents {
            content: "one\ntwo\n".to_string(),
            lines: 2
        }
    );
    assert_eq!(
        read_report("a", None),
        ToolReport::Failed {
            error: "File not found: a".to_string()
        }
    );
    assert_eq!(
        list_report(
            "d",
            Some(vec![
                ("b".to_string(), false),
                ("a".to_string(), true),
                ("B".to_string(), false)
            ])
        ),
        ToolReport::Listing {
            files: vec!["B".to_string(), "a/".to_string(), "b".to_string()],
            count: 3
        }
    );
    assert_eq!(
        list_report("d", None),
        ToolReport::Failed {
            error: "Directory not found: d".to_string()
        }
    );
    assert_eq!(
        sort_names(vec!["z".to_string(), "\u{e9}".to_string(), "a".to_string()]),
        vec!["a".to_string(), "z".to_string(), "\u{e9}".to_string()]
    );
}

#[test]
fn replacing_goes_from_left_to_right() {
    let replaced = |text: &str, search: &str, by: &str| -> String {
        replace_text(&chars(text), &chars(search), &chars(by))
            .into_iter()
            .collect()
    };
    assert_eq!(replaced("aaa", "aa", "b"), "ba");
    assert_eq!(replaced("abab", "ab", ""), "");
    assert_eq!(replaced("abc", "x", "y"), "abc");
    assert_eq!(replaced("abc", "b", "b"), "abc");
    // As `str::replace` does, an empty text is found between characters.
    assert_eq!(replaced("ab", "", "-"), "ab".replace("", "-"));
    assert!(contains_text(&chars("abc"), &chars("bc")));
    assert!(!contains_text(&chars("abc"), &chars("cb")));
    let (report, written) = replace_report("f", Some("abc".to_string()), "x", "y");
    assert_eq!(written, None);
    assert_eq!(
        report,
        ToolReport::Failed {
            error: "Search string not found in file".to_string()
        }
    );
}
