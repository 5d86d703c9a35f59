use cmdk::context::{
    format_git_status, gather_context, gather_context_display, recent_history, shell_name_of,
    ContextInputs,
};
use cmdk::nvim::{nvim_action_str, nvim_buffer_file, parse_u32, NvimApp, NvimContext,
    NvimResultAction};
use cmdk::text::{sort_strings, u64_to_string};
use cmdk::app::App;
use cmdk::events::KeyAction;

fn sample_inputs() -> ContextInputs {
    ContextInputs {
        shell: Some("/bin/zsh".to_string()),
        cwd: Some("/tmp/project".to_string()),
        term_size: Some((120, 40)),
        env_names: vec!["HOME".to_string(), "PATH".to_string()],
        git_branch: Some("main\n".to_string()),
        git_status: Some(" M src/lib.rs\n".to_string()),
        shell_history: Some("ls\ngit status\n".to_string()),
    }
}

#[test]
fn context_holds_only_enabled_sections_in_fixed_order() {
    let all = gather_context(&sample_inputs(), "");
    assert!(all.starts_with("## Terminal Context\n\n"));
    assert!(all.contains("**Shell:** zsh\n"));
    assert!(all.contains("**Working Directory:** /tmp/project\n"));
    assert!(all.contains("**Terminal Size:** 120x40\n"));
    assert!(all.contains("### Environment Variables (names only)\n```\nHOME PATH\n```"));
    assert!(all.contains("### Git Status\nBranch: main\nModified files:\n M src/lib.rs\n"));
    assert!(all.contains("### Recent Shell History\n```\nls\ngit status\n```"));
    let shell_index = all.find("**Shell:**").unwrap();
    let git_index = all.find("### Git Status").unwrap();
    assert!(shell_index < git_index);

    let muted = gather_context(
        &sample_inputs(),
        "send_shell_type=false\nsend_git_status=false\nsend_env_var_names=false\n",
    );
    assert!(!muted.contains("**Shell:**"));
    assert!(!muted.contains("Git Status"));
    assert!(!muted.contains("Environment Variables"));
    assert!(muted.contains("**Working Directory:**"));
}

#[test]
fn context_display_lists_one_fact_per_line() {
    let text = gather_context_display(&sample_inputs(), "");
    assert!(text.contains("Shell: zsh"));
    assert!(text.contains("Working Directory: /tmp/project"));
    assert!(text.contains("Terminal Size: 120x40"));
    assert!(text.contains("\nGit Status:\n  Branch: main\n  Modified files:\n   M src/lib.rs"));
    assert!(text.contains("Environment Variables: 2 names"));
    assert!(text.contains("Shell History: last 20 commands"));
}

#[test]
fn shell_names_are_the_final_path_component() {
    assert_eq!(shell_name_of("/bin/zsh"), "zsh");
    assert_eq!(shell_name_of("/usr/local/bin/fish/"), "fish");
    assert_eq!(shell_name_of("bash"), "bash");
    assert_eq!(shell_name_of("/"), "/");
    assert_eq!(shell_name_of("/bin/.."), "/bin/..");
    assert_eq!(shell_name_of("."), ".");
}

#[test]
fn zsh_history_lines_are_unwrapped() {
    let content = ": 1700000000:0;git log\nplain command\n";
    assert_eq!(recent_history(content).unwrap(), "git log\nplain command");
    assert_eq!(recent_history(""), None);
    let many: String = (0..30).map(|i| format!("cmd{}\n", i)).collect();
    let recent = recent_history(&many).unwrap();
    assert!(recent.starts_with("cmd10\n"));
    assert!(recent.ends_with("cmd29"));
}

#[test]
fn git_block_needs_something_to_show() {
    assert_eq!(format_git_status(None, None), None);
    assert_eq!(format_git_status(Some("  \n"), Some("")), None);
    assert_eq!(format_git_status(Some("main\n"), None).unwrap(), "Branch: main\n");
    let block = format_git_status(Some("main"), Some("a\nb\n")).unwrap();
    assert_eq!(block, "Branch: main\nModified files:\na\nb\n");
    let many: String = (0..15).map(|i| format!("f{}\n", i)).collect();
    let capped = format_git_status(None, Some(&many)).unwrap();
    assert!(capped.contains("f9\n"));
    assert!(!capped.contains("f10\n"));
}

#[test]
fn nvim_context_parses_the_plugin_file() {
    let content = "CMDK_NVIM_FILEPATH=/tmp/a.rs\nCMDK_NVIM_FILENAME=a.rs\nCMDK_NVIM_FILETYPE=rust\nCMDK_NVIM_CURSOR_LINE=12\nCMDK_NVIM_CURSOR_COL=+3\nCMDK_NVIM_CURRENT_LINE=fn main() {}\nCMDK_NVIM_VISUAL_SELECTION=a\\nb\nCMDK_NVIM_LSP_DIAGNOSTICS=\nCMDK_NVIM_BUFFER_FILE=/tmp/buf\n";
    let ctx = NvimContext::from_text(content);
    assert_eq!(ctx.filepath.as_deref(), Some("/tmp/a.rs"));
    assert_eq!(ctx.filename.as_deref(), Some("a.rs"));
    assert_eq!(ctx.filetype.as_deref(), Some("rust"));
    assert_eq!(ctx.cursor_line, Some(12));
    assert_eq!(ctx.cursor_col, Some(3));
    assert_eq!(ctx.current_line.as_deref(), Some("fn main() {}"));
    assert_eq!(ctx.visual_selection.as_deref(), Some("a\nb"));
    assert_eq!(ctx.lsp_diagnostics, None);
    assert_eq!(ctx.buffer_content, None);
    assert_eq!(nvim_buffer_file(content).as_deref(), Some("/tmp/buf"));
    assert_eq!(nvim_buffer_file("no bindings here"), None);
}

#[test]
fn number_parsing_follows_the_standard_rules() {
    assert_eq!(parse_u32("12"), Some(12));
    assert_eq!(parse_u32("+7"), Some(7));
    assert_eq!(parse_u32(""), None);
    assert_eq!(parse_u32("+"), None);
    assert_eq!(parse_u32("1a"), None);
    assert_eq!(parse_u32("4294967295"), Some(4294967295));
    assert_eq!(parse_u32("4294967296"), None);
}

#[test]
fn nvim_markdown_renders_the_present_fields() {
    let mut ctx = NvimContext::from_text(
        "CMDK_NVIM_FILEPATH=/tmp/a.rs\nCMDK_NVIM_FILETYPE=rust\nCMDK_NVIM_CURSOR_LINE=2\nCMDK_NVIM_CURSOR_COL=5\n",
    );
    ctx.buffer_content = Some("fn main() {}".to_string());
    let md = ctx.to_markdown();
    assert!(md.starts_with("## Neovim Context\n\n"));
    assert!(md.contains("**File:** /tmp/a.rs\n"));
    assert!(md.contains("**Cursor Position:** Line 2, Column 5\n"));
    assert!(md.contains("**Buffer Content:**\n```rust\nfn main() {}\n```"));
}

#[test]
fn nvim_app_combines_contexts_and_drives_its_action_menu() {
    let ctx = NvimContext::from_text("CMDK_NVIM_FILENAME=a.rs\n");
    let base = App::new(0, String::new());
    let mut app = NvimApp::new(base, ctx, "/tmp/ctx".to_string());
    assert_eq!(app.nvim_actions.len(), 5);
    let full = app.gather_full_context("terminal part");
    assert!(full.starts_with("terminal part\n## Neovim Context\n"));
    let display = app.get_context_display("Shell: zsh");
    assert!(display.starts_with("=== Neovim Context ===\n"));
    assert!(display.ends_with("=== Terminal Context ===\n\nShell: zsh"));

    app.handle_nvim_result_key(KeyAction::Down);
    assert_eq!(app.nvim_selected, 1);
    let chosen = app.handle_nvim_result_key(KeyAction::Select);
    assert_eq!(chosen, Some(NvimResultAction::Replace));
    assert!(!app.base.running);
    assert_eq!(nvim_action_str(&NvimResultAction::Replace), "replace");
    assert_eq!(nvim_action_str(&NvimResultAction::Cancel), "cancel");
}

#[test]
fn string_sort_is_lexicographic() {
    let names = vec![
        "PATH".to_string(),
        "HOME".to_string(),
        "HOME".to_string(),
        "EDITOR".to_string(),
    ];
    let sorted = sort_strings(&names);
    assert_eq!(
        sorted,
        vec![
            "EDITOR".to_string(),
            "HOME".to_string(),
            "HOME".to_string(),
            "PATH".to_string(),
        ]
    );
    let mut by_std = names.clone();
    by_std.sort();
    assert_eq!(sorted, by_std);
    assert_eq!(sort_strings(&Vec::new()), Vec::<String>::new());
}

#[test]
fn decimal_formatting_is_exact() {
    assert_eq!(u64_to_string(0), "0");
    assert_eq!(u64_to_string(7), "7");
    assert_eq!(u64_to_string(120), "120");
    assert_eq!(u64_to_string(18446744073709551615), "18446744073709551615");
}
