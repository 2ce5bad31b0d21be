use comms::config::{ApprovalSettings, Temperature};
use comms::ui::{
    approval_summary, category_label, edit_distance, field_rows, json_fields, max_distance_for,
    nearest_command, notice, parse_bool, parse_yes_no, primary_argument, primary_field,
    response_label, sandbox_notice, session_settings_rows, summarize, temperature_argument,
    text_of, tool_call_fields, unsigned_of, yes_word, ApprovalRequest, JsonField, SessionSettings,
    Submission,
};

fn temperature(value: f32) -> Temperature {
    Temperature {
        bits: value.to_bits(),
    }
}

fn classify(text: &str) -> Submission {
    let number = temperature_argument(text)
        .and_then(|argument| argument.parse::<f32>().ok())
        .map(temperature);
    comms::ui::classify(text, number)
}

#[test]
fn parse_yes_no_accepts_only_explicit_yes() {
    assert!(parse_yes_no("y"));
    assert!(parse_yes_no("yes"));
    assert!(parse_yes_no("  YES  \n"));
    assert!(parse_yes_no("Y\n"));
}

#[test]
fn parse_yes_no_denies_everything_else() {
    assert!(!parse_yes_no("n"));
    assert!(!parse_yes_no("no"));
    assert!(!parse_yes_no(""));
    assert!(!parse_yes_no("\n"));
    assert!(!parse_yes_no("maybe"));
    // Fails closed: a stray answer is a denial, never an approval.
    assert!(!parse_yes_no("yep"));
}

#[test]
fn ui_classify_recognizes_the_model_command() {
    assert_eq!(
        classify("/model vendor/large-4.5"),
        Submission::SetModel("vendor/large-4.5".to_string())
    );
    assert_eq!(classify("/model"), Submission::ShowModel);
    assert_eq!(classify("  /model   "), Submission::ShowModel);
}

#[test]
fn ui_classify_leaves_ordinary_text_and_paths_alone() {
    assert_eq!(
        classify("what does /etc/hosts do?"),
        Submission::Message("what does /etc/hosts do?".to_string())
    );
    // A leading slash that isn't a command must still reach the model,
    // since paths are common input in a coding tool.
    assert_eq!(
        classify("/usr/bin/env"),
        Submission::Message("/usr/bin/env".to_string())
    );
    // Not the command, just a word starting with it.
    assert_eq!(
        classify("/modelling is fun"),
        Submission::Message("/modelling is fun".to_string())
    );
}

#[test]
fn classify_recognizes_agent_and_ask() {
    assert_eq!(classify("/agent"), Submission::SetAgentic(true));
    assert_eq!(classify("  /agent  "), Submission::SetAgentic(true));
    // Trailing text is ignored rather than rejected — neither command
    // takes an argument.
    assert_eq!(classify("/agent please"), Submission::SetAgentic(true));
    assert_eq!(classify("/ask"), Submission::SetAgentic(false));
    assert_eq!(classify("/ask nicely"), Submission::SetAgentic(false));

    // Not the command, just a word starting with it.
    assert_eq!(
        classify("/agentic-issue"),
        Submission::Message("/agentic-issue".to_string())
    );
    assert_eq!(
        classify("/asking for a friend"),
        Submission::Message("/asking for a friend".to_string())
    );
}

#[test]
fn classify_recognizes_verbose_toggle() {
    assert_eq!(classify("/verbose"), Submission::ToggleVerbose);
    assert_eq!(classify("  /verbose  "), Submission::ToggleVerbose);
    assert_eq!(
        classify("/verbosely"),
        Submission::Message("/verbosely".to_string())
    );
}

#[test]
fn classify_recognizes_effort() {
    assert_eq!(
        classify("/effort high"),
        Submission::SetEffort(Some("high".to_string()))
    );
    // "clear" nullifies — no effort field is sent until set again.
    assert_eq!(classify("/effort clear"), Submission::SetEffort(None));
    // "default" is a distinct action: it reads whatever the configured
    // default currently is and saves that concrete value now.
    assert_eq!(classify("/effort default"), Submission::ResetEffort);
    // Case-insensitive, like a keyword rather than a literal value.
    assert_eq!(classify("/effort CLEAR"), Submission::SetEffort(None));
    assert_eq!(classify("/effort DEFAULT"), Submission::ResetEffort);

    // Anything else passes through as typed, case included — not
    // checked against a fixed low/medium/high list, since models vary
    // in what reasoning-effort values they actually accept.
    assert_eq!(
        classify("/effort HIGH"),
        Submission::SetEffort(Some("HIGH".to_string()))
    );
    assert_eq!(
        classify("/effort minimal"),
        Submission::SetEffort(Some("minimal".to_string()))
    );

    // Bare, with nothing to act on, is a failed command rather than
    // being sent to the model as text.
    assert_eq!(
        classify("/effort"),
        Submission::UnknownCommand(
            "Unrecognized /effort usage. Usage: /effort <level> | clear | default".to_string()
        )
    );
    // Not the command, just a word starting with it.
    assert_eq!(
        classify("/effortless"),
        Submission::Message("/effortless".to_string())
    );
}

#[test]
fn classify_recognizes_max_iterations() {
    assert_eq!(
        classify("/max-iterations 30"),
        Submission::SetMaxIterations(Some(30))
    );
    // "clear" nullifies — turns fall back to the configured default.
    assert_eq!(
        classify("/max-iterations clear"),
        Submission::SetMaxIterations(None)
    );
    // "default" is a distinct action: it reads whatever the configured
    // default currently is and saves that concrete value now.
    assert_eq!(
        classify("/max-iterations default"),
        Submission::ResetMaxIterations
    );
    // Case-insensitive, like a keyword rather than a literal value.
    assert_eq!(
        classify("/max-iterations CLEAR"),
        Submission::SetMaxIterations(None)
    );
    assert_eq!(
        classify("/max-iterations DEFAULT"),
        Submission::ResetMaxIterations
    );

    // Zero and non-numeric values aren't valid iteration counts, so —
    // like a bare invocation — they're reported as a failed command
    // rather than silently reaching the model as text.
    let max_iterations_usage = "Unrecognized /max-iterations usage. Usage: \
        /max-iterations <n> | clear | default (n must be a positive integer)";
    assert_eq!(
        classify("/max-iterations 0"),
        Submission::UnknownCommand(max_iterations_usage.to_string())
    );
    assert_eq!(
        classify("/max-iterations banana"),
        Submission::UnknownCommand(max_iterations_usage.to_string())
    );
    // Bare, with nothing to act on, is reported the same way.
    assert_eq!(
        classify("/max-iterations"),
        Submission::UnknownCommand(max_iterations_usage.to_string())
    );
}

#[test]
fn classify_recognizes_temperature() {
    assert_eq!(
        classify("/temperature 1.5"),
        Submission::SetTemperature(Some(temperature(1.5)))
    );
    // Zero is a valid (deterministic) temperature, unlike max-iterations.
    assert_eq!(
        classify("/temperature 0"),
        Submission::SetTemperature(Some(temperature(0.0)))
    );
    // "clear" nullifies — turns fall back to the configured default.
    assert_eq!(
        classify("/temperature clear"),
        Submission::SetTemperature(None)
    );
    // "default" is a distinct action: it reads whatever the configured
    // default currently is and saves that concrete value now.
    assert_eq!(
        classify("/temperature default"),
        Submission::ResetTemperature
    );
    // Case-insensitive, like a keyword rather than a literal value.
    assert_eq!(
        classify("/temperature CLEAR"),
        Submission::SetTemperature(None)
    );
    assert_eq!(
        classify("/temperature DEFAULT"),
        Submission::ResetTemperature
    );

    // Negative and non-numeric values aren't valid temperatures, so —
    // like a bare invocation — they're reported as a failed command
    // rather than silently reaching the model as text.
    let temperature_usage = "Unrecognized /temperature usage. Usage: \
        /temperature <n> | clear | default (n must be 0 or greater)";
    assert_eq!(
        classify("/temperature -1"),
        Submission::UnknownCommand(temperature_usage.to_string())
    );
    assert_eq!(
        classify("/temperature banana"),
        Submission::UnknownCommand(temperature_usage.to_string())
    );
    // Bare, with nothing to act on, is reported the same way.
    assert_eq!(
        classify("/temperature"),
        Submission::UnknownCommand(temperature_usage.to_string())
    );
}

#[test]
fn classify_recognizes_the_temp_shorthand() {
    assert_eq!(classify("/temp 1.5"), Submission::SetTemperature(Some(temperature(1.5))));
    assert_eq!(classify("/temp clear"), Submission::SetTemperature(None));
    // Same rules as the full name: a malformed or bare invocation is a
    // failed command, not text sent to the model.
    // Answered about `/temp`, the word actually typed — not about
    // `/temperature`, which the reader didn't write.
    let temp_usage = "Unrecognized /temp usage. Usage: \
        /temp <n> | clear | default (n must be 0 or greater)";
    assert_eq!(
        classify("/temp banana"),
        Submission::UnknownCommand(temp_usage.to_string())
    );
    assert_eq!(
        classify("/temp"),
        Submission::UnknownCommand(temp_usage.to_string())
    );
}

#[test]
fn classify_recognizes_approval() {
    assert_eq!(
        classify("/approval read off"),
        Submission::SetApproval {
            category: "read".to_string(),
            enabled: false
        }
    );
    assert_eq!(
        classify("/approval write on"),
        Submission::SetApproval {
            category: "write".to_string(),
            enabled: true
        }
    );
    assert_eq!(
        classify("/approval terminal yes"),
        Submission::SetApproval {
            category: "terminal".to_string(),
            enabled: true
        }
    );
    assert_eq!(
        classify("/approval all off"),
        Submission::SetApproval {
            category: "all".to_string(),
            enabled: false
        }
    );

    // Not a recognized category, not a recognized boolean, or too many
    // (or too few) words are all a failed command, not text sent to
    // the model.
    let approval_usage = "Unrecognized /approval usage. Usage: \
        /approval <read|write|terminal|all> <on|off>";
    assert_eq!(
        classify("/approval bogus off"),
        Submission::UnknownCommand(approval_usage.to_string())
    );
    assert_eq!(
        classify("/approval read maybe"),
        Submission::UnknownCommand(approval_usage.to_string())
    );
    assert_eq!(
        classify("/approval read"),
        Submission::UnknownCommand(approval_usage.to_string())
    );
    assert_eq!(
        classify("/approval read off now"),
        Submission::UnknownCommand(approval_usage.to_string())
    );

    // Bare — with or without trailing whitespace — shows the current
    // settings instead of falling through, matching `/model`.
    assert_eq!(classify("/approval"), Submission::ShowApproval);
    assert_eq!(classify("  /approval   "), Submission::ShowApproval);
}

#[test]
fn classify_recognizes_the_status_command() {
    assert_eq!(classify("/status"), Submission::ShowStatus);
    assert_eq!(classify("  /status   "), Submission::ShowStatus);
    // It takes no argument, so anything after it is a mistake rather
    // than a message.
    assert_eq!(
        classify("/status verbose"),
        Submission::UnknownCommand("Unrecognized /status usage. Usage: /status".to_string())
    );
    assert_eq!(nearest_command("statu"), Some("status"));
}

#[test]
fn session_settings_rows_say_what_unset_means() {
    // A nullified setting isn't blank — it does something specific, and
    // the readout has to distinguish "sends nothing" from "happens to
    // match the default".
    let approval = ApprovalSettings::default();
    let rows = session_settings_rows(&SessionSettings {
        id: "abc123",
        title: "Untitled",
        model: "openrouter/auto",
        agentic: false,
        effort_level: None,
        temperature: None,
        max_iterations: None,
        verbose: false,
        sandbox: true,
        approval: &approval,
    });
    let value = |label: &str| {
        rows.iter()
            .find(|(l, _)| l == label)
            .map(|(_, v)| v.clone())
            .unwrap_or_else(|| panic!("no {label} row"))
    };

    assert_eq!(value("ID"), "abc123");
    assert_eq!(value("Mode"), "ask — no tools");
    assert_eq!(value("Effort"), "none sent");
    assert_eq!(value("Temperature"), "none sent");
    assert_eq!(value("Max iterations"), "not set");
    assert_eq!(value("Sandbox"), "on");
    assert_eq!(value("Approval"), "read Ask · write Ask · terminal Ask");
}

#[test]
fn session_settings_rows_report_a_configured_session() {
    let approval = ApprovalSettings {
        read_disk: false,
        write_disk: true,
        terminal: true,
    };
    let rows = session_settings_rows(&SessionSettings {
        id: "abc123",
        title: "Fix the parser",
        model: "vendor/medium-5",
        agentic: true,
        effort_level: Some("high"),
        temperature: Some("0.7"),
        max_iterations: Some(20),
        verbose: true,
        sandbox: false,
        approval: &approval,
    });
    let value = |label: &str| {
        rows.iter()
            .find(|(l, _)| l == label)
            .map(|(_, v)| v.clone())
            .unwrap()
    };

    assert_eq!(value("Mode"), "agent — tools enabled");
    assert_eq!(value("Effort"), "high");
    assert_eq!(value("Sandbox"), "off");
    assert_eq!(value("Verbose"), "on");
    // An auto-approved category reads differently from a gated one.
    assert_eq!(value("Approval"), "read Auto · write Ask · terminal Ask");
}

#[test]
fn classify_recognizes_the_sandbox_command() {
    assert_eq!(classify("/sandbox off"), Submission::SetSandbox(false));
    assert_eq!(classify("/sandbox on"), Submission::SetSandbox(true));
    // Same boolean words every other on/off setting takes.
    assert_eq!(classify("/sandbox false"), Submission::SetSandbox(false));
    assert_eq!(classify("/sandbox 1"), Submission::SetSandbox(true));
    // Bare shows the current setting, matching `/approval`.
    assert_eq!(classify("/sandbox"), Submission::ShowSandbox);
    assert_eq!(classify("  /sandbox   "), Submission::ShowSandbox);
    // A value that isn't a boolean is a failed command, not a message.
    assert_eq!(
        classify("/sandbox maybe"),
        Submission::UnknownCommand(
            "Unrecognized /sandbox usage. Usage: /sandbox <on|off>".to_string()
        )
    );
    // And it joins the near-miss set like every other command word.
    assert_eq!(nearest_command("sandbix"), Some("sandbox"));
}

#[test]
fn sandbox_notice_says_what_changed_and_what_it_means() {
    assert_eq!(
        sandbox_notice(true, true),
        "Sandbox set to on — writes confined to the working directory and home"
    );
    assert_eq!(
        sandbox_notice(false, false),
        "Sandbox is off — writes allowed anywhere"
    );
}

#[test]
fn classify_catches_a_misspelled_command() {
    // The case this exists for, taken from a real session: `/mode ...`
    // reached the model as text, which reads as the model ignoring a
    // command rather than as a typo the user can see and fix.
    assert_eq!(
        classify("/mode vendor/medium-5"),
        Submission::UnknownCommand(
            "Unrecognized command /mode. Did you mean /model?".to_string()
        )
    );
    // A transposition is two edits, still within reach, and a command
    // that *can* be misused carries its usage along with the guess.
    assert_eq!(
        classify("/aprpoval read off"),
        Submission::UnknownCommand(
            "Unrecognized command /aprpoval. Did you mean /approval? \
             Usage: /approval <read|write|terminal|all> <on|off>"
                .to_string()
        )
    );
}

#[test]
fn a_suggestion_spells_its_usage_the_way_it_was_suggested() {
    // `/tmp` is nearest to the `/temp` shorthand, so the hint has to
    // talk about `/temp` — naming `/temperature` here would answer
    // about a word the reader was never pointed at.
    assert_eq!(
        classify("/tmp"),
        Submission::UnknownCommand(
            "Unrecognized command /tmp. Did you mean /temp? \
             Usage: /temp <n> | clear | default (n must be 0 or greater)"
                .to_string()
        )
    );
}

#[test]
fn classify_leaves_paths_and_unrelated_slash_words_alone() {
    // The regression the whole hybrid guards against: a leading slash
    // is not on its own enough to swallow a message.
    for text in [
        "/etc/hosts",
        "/etc/hosts, what's in it?",
        "/usr/bin/env python",
        "/home/dylan/code",
        "/x",
    ] {
        assert_eq!(
            classify(text),
            Submission::Message(text.to_string()),
            "{text} should stay a message"
        );
    }
}

#[test]
fn nearest_command_refuses_to_guess_at_a_path() {
    // A `/` anywhere in the word means a path, however close its first
    // segment lands to a command name.
    assert_eq!(nearest_command("mode/dark"), None);
    // Too short to tell apart from anything.
    assert_eq!(nearest_command("md"), None);
    // Unrelated words stay unrelated. `usr` is two edits from `ask`,
    // which on a three-letter word is most of the word — hence the
    // length-relative bound.
    assert_eq!(nearest_command("etc"), None);
    assert_eq!(nearest_command("usr"), None);
    // A word that extends its own match is a different word, not a
    // misspelling — these have always been ordinary messages.
    assert_eq!(nearest_command("verbosely"), None);
    assert_eq!(nearest_command("models-are-great"), None);
    assert_eq!(nearest_command("tempo"), None);
    // But extending some *other*, unrelated command is no reason to
    // throw a real typo away: `temperatur` begins with `temp`.
    assert_eq!(nearest_command("temperatur"), Some("temperature"));
    // The knowingly-accepted overlap, called out so a change is loud.
    assert_eq!(nearest_command("tmp"), Some("temp"));
    // And the best match wins, not merely the first in range.
    assert_eq!(nearest_command("temperatur"), Some("temperature"));
}

#[test]
fn edit_distance_counts_characters_not_bytes() {
    assert_eq!(edit_distance("model", "model"), 0);
    assert_eq!(edit_distance("mode", "model"), 1);
    assert_eq!(edit_distance("mdoel", "model"), 2);
    // A multi-byte character is one edit, not one per byte.
    assert_eq!(edit_distance("café", "cafe"), 1);
}

#[test]
fn primary_argument_finds_a_file_path() {
    assert_eq!(
        primary_argument(r#"{"filepath":"src/main.rs","content":"x"}"#),
        Some("src/main.rs".to_string())
    );
}

#[test]
fn primary_argument_finds_a_terminal_command() {
    assert_eq!(
        primary_argument(r#"{"command":"cargo test","timeout_secs":30}"#),
        Some("cargo test".to_string())
    );
}

#[test]
fn primary_argument_finds_a_directory() {
    assert_eq!(
        primary_argument(r#"{"dirpath":"src"}"#),
        Some("src".to_string())
    );
}

#[test]
fn primary_argument_is_none_without_a_recognized_key() {
    assert_eq!(
        primary_argument(r#"{"search":"foo","replace":"bar"}"#),
        None
    );
    assert_eq!(primary_argument("not json"), None);
    assert_eq!(primary_argument("{}"), None);
}

#[test]
fn tool_call_fields_adds_the_default_working_dir_for_a_terminal_command() {
    let fields = tool_call_fields(
        "run_terminal_command",
        r#"{"command":"cargo test"}"#,
        Some("/work".to_string()),
    );
    let working_dir = fields.iter().find(|(key, _)| key == "working_dir");
    assert!(working_dir.is_some(), "{fields:?}");
    assert_eq!(working_dir.unwrap().1, "/work");
}

#[test]
fn tool_call_fields_keeps_an_explicit_working_dir_as_is() {
    let fields = tool_call_fields(
        "run_terminal_command",
        r#"{"command":"ls","working_dir":"/tmp"}"#,
        Some("/work".to_string()),
    );
    assert_eq!(
        fields,
        vec![
            ("command".to_string(), "ls".to_string()),
            ("working_dir".to_string(), "/tmp".to_string()),
        ]
    );
}

#[test]
fn tool_call_fields_leaves_other_tools_unchanged() {
    let fields = tool_call_fields(
        "write_file",
        r#"{"filepath":"a.rs","content":"x"}"#,
        Some("/work".to_string()),
    );
    assert!(
        !fields.iter().any(|(key, _)| key == "working_dir"),
        "{fields:?}"
    );
}

#[test]
fn what_a_provider_sends_as_json_is_shown_field_by_field() {
    assert_eq!(
        json_fields(r#"{"a":"x","b":12,"c":[1,2],"d":null}"#),
        vec![
            ("a".to_string(), "x".to_string()),
            ("b".to_string(), "12".to_string()),
            ("c".to_string(), "[1,2]".to_string()),
            ("d".to_string(), "null".to_string()),
        ]
    );
    assert!(json_fields("[1]").is_empty());
    assert!(json_fields("{").is_empty());
}

#[test]
fn fields_are_found_by_name_and_kind() {
    let fields = vec![
        (
            "dirpath".to_string(),
            JsonField::Other {
                shown: "7".to_string(),
                unsigned: Some(7),
            },
        ),
        (
            "command".to_string(),
            JsonField::Text("ls\n-l".to_string()),
        ),
    ];
    assert_eq!(text_of(&fields, "dirpath"), None);
    assert_eq!(unsigned_of(&fields, "dirpath"), Some(7));
    assert_eq!(unsigned_of(&fields, "command"), None);
    assert_eq!(primary_field(&fields), Some("ls\n-l".to_string()));
    assert_eq!(field_rows(&fields)[1].1, "ls -l");
}

#[test]
fn approvals_are_summed_up_on_one_line() {
    let request = ApprovalRequest {
        tool_name: "write_file".to_string(),
        category: "write",
        arguments: r#"{"filepath":"a.rs"}"#.to_string(),
    };
    assert_eq!(approval_summary(&request), "write_file: a.rs");
    assert_eq!(category_label("write"), "Write to disk");
    assert_eq!(category_label("read"), "Read from disk");
    assert_eq!(category_label("terminal"), "Terminal command");
    assert_eq!(category_label("other"), "Unknown action");
}

#[test]
fn switches_are_read_in_any_case() {
    assert_eq!(parse_bool("ON"), Ok(true));
    assert_eq!(parse_bool("0"), Ok(false));
    assert_eq!(
        parse_bool("maybe"),
        Err("Invalid boolean value: 'maybe'. Use true/false, on/off, yes/no, or 1/0".to_string())
    );
    assert!(yes_word("y"));
    assert!(!yes_word("Y"));
}

#[test]
fn labels_and_notices_read_as_sentences() {
    assert_eq!(response_label("m", &None), "m");
    assert_eq!(response_label("m", &Some("high".to_string())), "m (high)");
    assert_eq!(notice("Verbose", true, "on"), "Verbose set to on");
    assert_eq!(notice("Verbose", false, "off"), "Verbose is off");
    assert_eq!(summarize("  a\n\tb  ", 10), "a  b");
    assert_eq!(summarize("abcdef", 3), "abc\u{2026}");
}

#[test]
fn distances_are_symmetric_and_bounded() {
    assert_eq!(edit_distance("kitten", "sitting"), 3);
    assert_eq!(edit_distance("sitting", "kitten"), 3);
    assert_eq!(edit_distance("", "abc"), 3);
    // By way of a third text it is no shorter.
    let words = ["kitten", "sitting", "mitten", "", "k\u{ef}tten"];
    for a in words {
        for b in words {
            for c in words {
                assert!(edit_distance(a, c) <= edit_distance(a, b) + edit_distance(b, c));
            }
        }
    }
    assert_eq!(max_distance_for(4), 1);
    assert_eq!(max_distance_for(5), 2);
}

#[test]
fn a_line_without_a_slash_is_sent_as_it_is() {
    assert_eq!(
        classify("hello there"),
        Submission::Message("hello there".to_string())
    );
}
