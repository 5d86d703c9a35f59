use cmdk::provider::{
    build_full_prompt, get_current_provider, get_current_provider_name, plan_dispatch,
    run_mock_query, run_query, sidecar_protocol_result, pipe_protocol_result, DispatchPlan,
    Provider, SpawnOutcome,
};

#[test]
fn test_build_prompt() {
    let prompt = build_full_prompt("list files", "## Context\nShell: zsh", None);
    assert!(prompt.contains("list files"));
    assert!(prompt.contains("terminal command assistant"));
}

#[test]
fn build_prompt_includes_history_block_only_when_non_empty() {
    let with = build_full_prompt("q", "ctx", Some("## User: a\n"));
    assert!(with.contains("## Previous Conversation:"));
    let empty = build_full_prompt("q", "ctx", Some(""));
    assert!(!empty.contains("## Previous Conversation:"));
    let none = build_full_prompt("q", "ctx", None);
    assert!(!none.contains("## Previous Conversation:"));
    assert!(none.ends_with("\n## User: q\n"));
}

#[test]
fn provider_resolution_is_stable_for_unchanged_settings() {
    let settings = "ai_provider=mock\n";
    let first = get_current_provider(settings, false, false);
    let second = get_current_provider(settings, false, false);
    assert_eq!(first.as_ref().unwrap(), &Provider::Mock);
    assert_eq!(first.unwrap(), second.unwrap());
}

#[test]
fn provider_auto_detect_prefers_first_tool() {
    assert_eq!(get_current_provider("", true, true).unwrap(), Provider::Quill);
    assert_eq!(get_current_provider("", false, true).unwrap(), Provider::Codex);
    assert_eq!(
        get_current_provider("", false, false).unwrap_err(),
        "No AI CLI found (install quill or codex)"
    );
}

#[test]
fn provider_explicit_names_fail_without_the_tool() {
    assert_eq!(
        get_current_provider("ai_provider=quill\n", false, true).unwrap_err(),
        "quill not found in PATH"
    );
    assert_eq!(
        get_current_provider("ai_provider=codex\n", true, false).unwrap_err(),
        "codex not found in PATH"
    );
    assert_eq!(
        get_current_provider("ai_provider=custom\n", true, true).unwrap_err(),
        "custom_provider_cmd not set"
    );
    let custom = get_current_provider(
        "ai_provider=custom\ncustom_provider_cmd=mytool --flag\n",
        false,
        false,
    );
    assert_eq!(custom.unwrap(), Provider::Custom("mytool --flag".to_string()));
}

#[test]
fn provider_names_follow_resolution() {
    assert_eq!(get_current_provider_name("", true, false), "Quill (auto)");
    assert_eq!(get_current_provider_name("ai_provider=auto\n", false, true), "Codex (auto)");
    assert_eq!(get_current_provider_name("ai_provider=quill\n", true, false), "Quill");
    assert_eq!(get_current_provider_name("ai_provider=mock\n", false, false), "Mock (test)");
    assert_eq!(get_current_provider_name("ai_provider=quill\n", false, false), "None");
}

#[test]
fn mock_query_echoes_last_prompt_line() {
    assert_eq!(
        run_mock_query("first\nsecond").unwrap(),
        "echo 'Mock response for: second'"
    );
    assert_eq!(run_mock_query("").unwrap(), "echo 'Mock response for: empty'");
}

#[test]
fn sidecar_missing_output_file_is_an_error_even_on_success() {
    let r = sidecar_protocol_result(true, None);
    assert_eq!(r.unwrap_err(), "Codex did not produce output");
}

#[test]
fn sidecar_blank_file_with_failed_exit_is_an_error() {
    assert_eq!(sidecar_protocol_result(false, Some("  \n")).unwrap_err(), "Codex error");
    assert_eq!(sidecar_protocol_result(true, Some("  \n")).unwrap(), "");
    assert_eq!(sidecar_protocol_result(false, Some(" ls -la \n")).unwrap(), "ls -la");
}

#[test]
fn pipe_protocol_trims_output_and_prefixes_errors() {
    assert_eq!(pipe_protocol_result(true, "  ls\n", "", "Quill error: ").unwrap(), "ls");
    assert_eq!(
        pipe_protocol_result(false, "", "boom", "Quill error: ").unwrap_err(),
        "Quill error: boom"
    );
}

#[test]
fn dispatch_is_the_single_choke_point() {
    let ok = SpawnOutcome {
        exit_ok: true,
        stdout: " du -sh \n".to_string(),
        stderr: String::new(),
        output_file: None,
    };
    assert_eq!(run_query(&Provider::Quill, "p", &ok).unwrap(), "du -sh");
    assert_eq!(
        run_query(&Provider::Codex, "p", &ok).unwrap_err(),
        "Codex did not produce output"
    );
    assert_eq!(run_query(&Provider::Custom("x".into()), "p", &ok).unwrap(), "du -sh");
    assert_eq!(run_query(&Provider::Mock, "a\nb", &ok).unwrap(), "echo 'Mock response for: b'");
    let failed = SpawnOutcome {
        exit_ok: false,
        stdout: String::new(),
        stderr: "denied".to_string(),
        output_file: Some("result".to_string()),
    };
    assert_eq!(
        run_query(&Provider::Custom("x".into()), "p", &failed).unwrap_err(),
        "Custom command error: denied"
    );
    assert_eq!(run_query(&Provider::Codex, "p", &failed).unwrap(), "result");
}

#[test]
fn dispatch_plans_have_the_fixed_shapes() {
    match plan_dispatch(&Provider::Quill, "/tmp", 7).unwrap() {
        DispatchPlan::Pipe { program, args } => {
            assert_eq!(program, "quill");
            assert_eq!(args, vec!["--print".to_string()]);
        },
        _ => panic!("expected a pipe plan"),
    }
    match plan_dispatch(&Provider::Codex, "/tmp", 4321).unwrap() {
        DispatchPlan::Sidecar { program, args, output_file } => {
            assert_eq!(program, "codex");
            assert_eq!(output_file, "/tmp/cmdk-codex-4321.txt");
            assert_eq!(args.len(), 7);
            assert_eq!(args[0], "exec");
            assert_eq!(args[5], "/tmp/cmdk-codex-4321.txt");
            assert_eq!(args[6], "-");
        },
        _ => panic!("expected a sidecar plan"),
    }
    match plan_dispatch(&Provider::Custom("mytool -a  b".to_string()), "/tmp", 1).unwrap() {
        DispatchPlan::Pipe { program, args } => {
            assert_eq!(program, "mytool");
            assert_eq!(args, vec!["-a".to_string(), "b".to_string()]);
        },
        _ => panic!("expected a pipe plan"),
    }
    assert_eq!(
        plan_dispatch(&Provider::Custom("   ".to_string()), "/tmp", 1).unwrap_err(),
        "Empty custom command"
    );
}
