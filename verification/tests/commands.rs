use comms::commands::{
    chosen_session, cmd_approval, cmd_effort_level, cmd_effort_style, cmd_endpoint, cmd_headers,
    cmd_max_iterations, cmd_model, cmd_models, cmd_sandbox, cmd_status, cmd_stream,
    cmd_temperature, deleted_line, list_sessions, login_endpoint, login_key, matching_session,
    resume_menu, resume_plan, session_heading, ApprovalCommand, CommandStep, HeaderCommand,
    ResumePlan,
};
use comms::config::{
    load_config, resolve_effort_level, resolve_max_iterations, resolve_model, resolve_temperature,
    ApprovalSettings, Config, Temperature, DEFAULT_MODEL,
};
use comms::store::{SessionSummary, KIND_AGENT_CHAT, KIND_CHAT};
use comms::terminal_ui::Output;

fn shown(outputs: &[Output]) -> String {
    outputs
        .iter()
        .map(|output| match output {
            Output::Text(spans) => spans.iter().map(|s| s.content.as_str()).collect(),
            Output::Line(spans) => {
                let line: String = spans.iter().map(|s| s.content.as_str()).collect();
                format!("{line}\n")
            }
            _ => String::new(),
        })
        .collect()
}

fn changed(step: CommandStep, text: &str) {
    assert!(step.save && !step.fails);
    assert_eq!(shown(&step.outputs), format!("\u{2713} {text}\n"));
}

fn answered(step: CommandStep, text: &str) {
    assert!(!step.save && !step.fails);
    assert_eq!(shown(&step.outputs), format!("{text}\n"));
}

fn refused(step: CommandStep, text: &str) {
    assert!(!step.save && step.fails);
    assert_eq!(shown(&step.outputs), format!("\u{2717} {text}\n"));
}

fn temperature(value: f32) -> Option<Temperature> {
    Some(Temperature {
        bits: value.to_bits(),
    })
}

fn summary(id: &str, kind: &str, title: &str) -> SessionSummary {
    SessionSummary {
        id: id.to_string(),
        title: title.to_string(),
        model: "m".to_string(),
        kind: kind.to_string(),
        effort_level: None,
        verbose: false,
        highlight: true,
        max_iterations: None,
        temperature: None,
        approval: ApprovalSettings::default(),
        sandbox: true,
        stream: true,
        working_dir: None,
        activity: None,
        activity_detail: None,
        created_at: 0,
        updated_at: 0,
    }
}

#[test]
fn the_model_is_set_shown_and_cleared() {
    let mut config = Config::default();
    answered(
        cmd_model(&mut config, None, false),
        &format!("Current default model: {DEFAULT_MODEL}"),
    );
    changed(
        cmd_model(&mut config, Some("x/y".to_string()), false),
        "Default model set to x/y",
    );
    assert_eq!(config.default_model.as_deref(), Some("x/y"));
    changed(
        cmd_model(&mut config, None, true),
        &format!("Default model cleared, falling back to {DEFAULT_MODEL}"),
    );
    assert_eq!(config.default_model, None);
}

#[test]
fn an_endpoint_loses_its_slashes() {
    let mut config = Config::default();
    let step = cmd_endpoint(&mut config, Some("https://e.com/v1//".to_string()), false);
    assert!(step.save);
    assert_eq!(config.base_url, "https://e.com/v1");
    assert!(shown(&step.outputs).starts_with("\u{2713} Endpoint set to https://e.com/v1\ni Remember"));
    answered(
        cmd_endpoint(&mut config, None, false),
        "Current endpoint: https://e.com/v1",
    );
    cmd_endpoint(&mut config, None, true);
    assert_eq!(config.base_url, Config::default().base_url);
}

#[test]
fn only_known_effort_styles_are_taken() {
    let mut config = Config::default();
    changed(
        cmd_effort_style(&mut config, Some("FLAT".to_string()), false),
        "Effort style set to flat",
    );
    refused(
        cmd_effort_style(&mut config, Some("loud".to_string()), false),
        "Invalid effort style 'loud'. Valid values: flat, nested, none",
    );
    assert_eq!(config.effort_style.as_deref(), Some("flat"));
    answered(
        cmd_effort_style(&mut config, None, false),
        "Current effort style: flat",
    );
    changed(
        cmd_effort_style(&mut config, None, true),
        "Effort style cleared, falling back to nested",
    );
    changed(
        cmd_effort_level(&mut config, Some("high".to_string()), false),
        "Effort level set to high",
    );
    answered(
        cmd_effort_level(&mut config, None, false),
        "Current effort level: high",
    );
    changed(
        cmd_effort_level(&mut config, None, true),
        "Effort level cleared, falling back to provider default",
    );
}

#[test]
fn numbers_are_held_to_their_ranges() {
    let mut config = Config::default();
    refused(
        cmd_max_iterations(&mut config, Some(0), false),
        "max-iterations must be greater than 0",
    );
    assert_eq!(config.max_iterations, Config::default().max_iterations);
    changed(
        cmd_max_iterations(&mut config, Some(7), false),
        "Default max iterations set to 7",
    );
    answered(
        cmd_max_iterations(&mut config, None, false),
        "Current default max iterations: 7",
    );
    assert!(cmd_max_iterations(&mut config, None, true).save);
    assert_eq!(config.max_iterations, None);

    for bad in [-0.1f32, 2.1, f32::NAN, f32::INFINITY] {
        refused(
            cmd_temperature(&mut config, temperature(bad), false, "x", &None),
            "temperature must be between 0 and 2",
        );
    }
    for good in [0.0f32, -0.0, 0.7, 2.0] {
        changed(
            cmd_temperature(
                &mut config,
                temperature(good),
                false,
                &good.to_string(),
                &None,
            ),
            &format!("Default temperature set to {good}"),
        );
        assert_eq!(config.temperature, temperature(good));
    }
    answered(
        cmd_temperature(&mut config, None, false, "", &Some("2".to_string())),
        "Current default temperature: 2",
    );
    assert!(cmd_temperature(&mut config, None, true, "", &None).save);
    assert_eq!(config.temperature, None);
}

#[test]
fn switches_are_set_and_shown() {
    let mut config = Config::default();
    changed(
        cmd_sandbox(&mut config, Some(false)),
        "Sandbox set to off \u{2014} writes allowed anywhere",
    );
    assert!(!config.sandbox);
    answered(
        cmd_sandbox(&mut config, None),
        "Sandbox is off \u{2014} writes allowed anywhere",
    );
    changed(
        cmd_stream(&mut config, Some(false)),
        "Streaming responses disabled",
    );
    answered(cmd_stream(&mut config, None), "Streaming responses: off");
}

#[test]
fn a_header_is_set_once_and_removed() {
    let mut config = Config::default();
    answered(
        cmd_headers(&mut config, HeaderCommand::Show),
        "No extra headers set.",
    );
    let put = |name: &str, value: &str| HeaderCommand::Put {
        name: name.to_string(),
        value: value.to_string(),
    };
    changed(
        cmd_headers(&mut config, put("X-Title", "a")),
        "Header set: X-Title: a",
    );
    cmd_headers(&mut config, put("Other", "b"));
    cmd_headers(&mut config, put("X-Title", "c"));
    assert_eq!(
        config.extra_headers,
        vec![
            ("X-Title".to_string(), "c".to_string()),
            ("Other".to_string(), "b".to_string())
        ]
    );
    let step = cmd_headers(&mut config, HeaderCommand::Show);
    assert_eq!(
        shown(&step.outputs),
        "Extra headers:\n\n  X-Title: c\n  Other: b\n"
    );
    changed(
        cmd_headers(
            &mut config,
            HeaderCommand::Unset {
                name: "X-Title".to_string(),
            },
        ),
        "Header removed: X-Title",
    );
    answered(
        cmd_headers(
            &mut config,
            HeaderCommand::Unset {
                name: "X-Title".to_string(),
            },
        ),
        "No header named 'X-Title' was set.",
    );
    assert_eq!(config.extra_headers.len(), 1);
}

#[test]
fn approvals_are_switched_by_category() {
    let mut config = Config::default();
    let step = cmd_approval(
        &mut config,
        ApprovalCommand::Write {
            enabled: "OFF".to_string(),
        },
    )
    .unwrap();
    assert!(step.save);
    assert_eq!(
        shown(&step.outputs),
        "\u{2713} Write approval set to \u{2717} Auto\n"
    );
    assert_eq!(
        config.approval,
        ApprovalSettings {
            read_disk: true,
            write_disk: false,
            terminal: true
        }
    );
    assert_eq!(
        cmd_approval(
            &mut config,
            ApprovalCommand::Read {
                enabled: "perhaps".to_string()
            }
        ),
        Err(
            "Invalid boolean value: 'perhaps'. Use true/false, on/off, yes/no, or 1/0".to_string()
        )
    );
    cmd_approval(
        &mut config,
        ApprovalCommand::All {
            enabled: "no".to_string(),
        },
    )
    .unwrap();
    assert!(!config.approval.read_disk && !config.approval.terminal);
    cmd_approval(
        &mut config,
        ApprovalCommand::Terminal {
            enabled: "1".to_string(),
        },
    )
    .unwrap();
    let overview = cmd_approval(&mut config, ApprovalCommand::Show).unwrap();
    let text = shown(&overview.outputs);
    assert!(text.starts_with(
        "Approval Settings:\n  Read from disk:    \u{2717} Auto\n  Write to disk:     \u{2717} Auto\n  Terminal commands: \u{2713} Ask\n\nUsage:\n"
    ), "{text}");
}

#[test]
fn logging_in_keeps_what_is_new() {
    let mut config = Config::default();
    let same = config.base_url.clone();
    let step = login_endpoint(&mut config, &format!("  {same}/  "));
    assert!(!step.save);
    assert!(step.outputs.is_empty());
    assert!(!login_endpoint(&mut config, "   ").save);
    let step = login_endpoint(&mut config, "https://e.com/");
    assert!(step.save);
    assert_eq!(
        shown(&step.outputs),
        "\u{2713} Endpoint set to https://e.com\n\n"
    );
    assert_eq!(config.base_url, "https://e.com");
    assert_eq!(login_key("  key \n"), Ok("key".to_string()));
    refused(login_key(" \n").unwrap_err(), "API key cannot be empty");
}

#[test]
fn the_overview_shows_every_setting() {
    let mut config = Config::default();
    config
        .extra_headers
        .push(("A".to_string(), "b".to_string()));
    let text = shown(&cmd_status(
        &config,
        true,
        &Some("0.7".to_string()),
        "/home/me/config.json",
    ));
    for line in [
        "AI Comms CLI Configuration:",
        "  Base URL: https://openrouter.ai/api/v1",
        "  API Key: \u{2713} Set (OS keychain)",
        "  Max iterations: 20",
        "  Temperature: 0.7",
        "  Effort level: (not set, provider default)",
        "  Effort style: nested",
        "  Streaming: on",
        "  Sandbox: on",
        "  Extra headers: 1",
        "  Config file: /home/me/config.json",
        "  Terminal commands: \u{2713} Ask",
    ] {
        assert!(text.lines().any(|l| l == line), "{line} in {text}");
    }
    assert!(shown(&cmd_status(&config, false, &None, "x")).contains("\u{2717} Not set"));
}

#[test]
fn twenty_models_are_named() {
    let models: Vec<String> = (0..23).map(|i| format!("m{i}")).collect();
    let text = shown(&cmd_models(&models));
    assert!(text.starts_with("\u{2713} \n\nAvailable models (23):\n\n  1. m0\n"));
    assert!(text.ends_with("  20. m19\n  ... and 3 more\n"), "{text}");
    assert!(shown(&cmd_models(&models[..2].to_vec())).ends_with("  2. m1\n"));
}

#[test]
fn a_session_is_found_or_picked() {
    assert_eq!(resume_plan("pick".to_string()), ResumePlan::Pick);
    assert_eq!(
        resume_plan("ab".to_string()),
        ResumePlan::Find("ab".to_string())
    );
    assert_eq!(
        matching_session("ab", None).unwrap_err(),
        "No session found matching 'ab'"
    );
    let sessions = || {
        vec![
            summary("aaaaaaaa-1", KIND_AGENT_CHAT, "One"),
            summary("bbbbbbbb-2", KIND_CHAT, "Two"),
        ]
    };
    assert_eq!(
        resume_menu(&Vec::new()).unwrap_err(),
        "No saved sessions to resume"
    );
    assert_eq!(
        shown(&resume_menu(&sessions()).unwrap()),
        "Select a session to resume:\n\n  1. aaaaaaaa  agent One\n  2. bbbbbbbb  chat  Two\n\nSession number: "
    );
    assert_eq!(chosen_session(sessions(), " 2 \n").unwrap().title, "Two");
    assert_eq!(
        chosen_session(sessions(), "0").unwrap_err(),
        "Invalid selection: 0"
    );
    assert_eq!(
        chosen_session(sessions(), "3").unwrap_err(),
        "Invalid selection: 3"
    );
    assert_eq!(
        chosen_session(sessions(), "two").unwrap_err(),
        "Invalid selection: 'two'"
    );
}

#[test]
fn saved_sessions_are_listed() {
    assert_eq!(shown(&list_sessions(&Vec::new())), "No saved sessions.\n");
    let one = summary("aaaaaaaa-1", KIND_CHAT, "One");
    assert_eq!(
        shown(&list_sessions(&vec![one.clone()])),
        "Saved sessions:\n\n  aaaaaaaa  [chat]  m  One\n"
    );
    assert_eq!(
        shown(&session_heading(&one)),
        "Session: aaaaaaaa-1 (chat, m)\n\n"
    );
    assert_eq!(
        shown(&[deleted_line(&one)]),
        "\u{2713} Deleted session aaaaaaaa-1 (One)\n"
    );
}

#[test]
fn flags_come_before_the_configuration() {
    let mut config = Config::default();
    assert_eq!(resolve_model(&config, None), DEFAULT_MODEL);
    config.default_model = Some("c".to_string());
    config.effort_level = Some("low".to_string());
    assert_eq!(resolve_model(&config, None), "c");
    assert_eq!(resolve_model(&config, Some("f".to_string())), "f");
    assert_eq!(resolve_max_iterations(&config, None), Some(20));
    assert_eq!(resolve_max_iterations(&config, Some(1)), Some(1));
    assert_eq!(resolve_temperature(&config, None), temperature(0.7));
    assert_eq!(
        resolve_temperature(&config, temperature(1.0)),
        temperature(1.0)
    );
    assert_eq!(resolve_effort_level(&config, None).as_deref(), Some("low"));
    assert_eq!(
        resolve_effort_level(&config, Some("high".to_string())).as_deref(),
        Some("high")
    );
}

#[test]
fn an_old_key_is_taken_out_of_the_configuration() {
    let (config, key) = load_config(None);
    assert_eq!(config.base_url, Config::default().base_url);
    assert_eq!(key, None);
    let old = Config {
        api_key: Some("k".to_string()),
        ..Config::default()
    };
    let (config, key) = load_config(Some(old));
    assert_eq!(config.api_key, None);
    assert_eq!(key.as_deref(), Some("k"));
}

#[test]
fn categories_are_independent() {
    let all = ApprovalSettings::default();
    let off = all.with_category("read", false);
    assert!(!off.read_disk && off.write_disk && off.terminal);
    assert_eq!(off.with_category("read", true), all);
    assert_eq!(all.with_category("nonsense", false), all);
}
