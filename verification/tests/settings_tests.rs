use cmdk::settings::{
    get_all_settings, get_default_setting, get_setting, get_settings_file, is_enabled,
    next_provider_setting, privacy_settings, set_setting, setting_keys, toggle_setting,
};

#[test]
fn test_default_settings() {
    assert_eq!(get_default_setting("ai_provider"), "auto");
    assert_eq!(get_default_setting("send_git_status"), "true");
}

#[test]
fn default_custom_command_is_empty() {
    assert_eq!(get_default_setting("custom_provider_cmd"), "");
    assert_eq!(get_default_setting("some_unknown_key"), "true");
}

#[test]
fn get_setting_reads_last_binding_and_falls_back_to_default() {
    let content = "# comment\nai_provider=quill\n\nai_provider = codex\n";
    assert_eq!(get_setting(content, "ai_provider"), "codex");
    assert_eq!(get_setting(content, "send_git_status"), "true");
    assert_eq!(get_setting("", "ai_provider"), "auto");
}

#[test]
fn set_setting_rewrites_the_binding_and_keeps_comments() {
    let content = "# keep me\nai_provider=auto\nsend_git_status=true\n";
    let updated = set_setting(content, "ai_provider", "mock");
    assert_eq!(updated, "# keep me\nai_provider=mock\nsend_git_status=true\n");
    let appended = set_setting("# only a comment\n", "ai_provider", "quill");
    assert_eq!(appended, "# only a comment\nai_provider=quill\n");
}

#[test]
fn toggle_setting_flips_booleans() {
    let content = "send_git_status=true\n";
    let off = toggle_setting(content, "send_git_status");
    assert_eq!(get_setting(&off, "send_git_status"), "false");
    assert!(!is_enabled(&off, "send_git_status"));
    let on = toggle_setting(&off, "send_git_status");
    assert!(is_enabled(&on, "send_git_status"));
}

#[test]
fn all_settings_cover_every_key() {
    let all = get_all_settings("ai_provider=mock\n");
    assert_eq!(all.len(), 10);
    assert_eq!(setting_keys().len(), 10);
    assert!(all.iter().any(|kv| kv.0 == "ai_provider" && kv.1 == "mock"));
    assert!(all.iter().any(|kv| kv.0 == "send_shell_history" && kv.1 == "true"));
}

#[test]
fn privacy_settings_list_the_eight_flags() {
    let p = privacy_settings();
    assert_eq!(p.len(), 8);
    assert_eq!(p[0].0, "send_terminal_content");
    assert_eq!(p[2].1, "Git repository status");
}

#[test]
fn provider_cycle_goes_auto_quill_codex_auto() {
    assert_eq!(next_provider_setting("auto"), "quill");
    assert_eq!(next_provider_setting("quill"), "codex");
    assert_eq!(next_provider_setting("codex"), "auto");
    assert_eq!(next_provider_setting("weird"), "auto");
}

#[test]
fn settings_file_is_under_the_given_dir() {
    assert_eq!(get_settings_file("/home/u/.command-k"), "/home/u/.command-k/settings.conf");
}
