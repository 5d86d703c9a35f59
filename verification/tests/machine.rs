use cmdk::app::{App, AppState, Effect, MenuItem, QueryPoll, ResultAction, SettingsMenuItem};
use cmdk::events::{key_to_action, key_to_input_action, EventHandler, KeyAction, KeyMods, KeyPress};

fn no_mods() -> KeyMods {
    KeyMods { ctrl: false, alt: false, shift: false }
}

#[test]
fn new_app_starts_on_the_main_menu() {
    let app = App::new(3, "Quill".to_string());
    assert!(matches!(app.state, AppState::MainMenu));
    assert!(app.running);
    assert_eq!(app.menu_items.len(), 6);
    assert_eq!(app.menu_items[0], MenuItem::AskQuestion);
    assert_eq!(app.result_actions[0], ResultAction::RunCommand);
    assert_eq!(app.session_turns, 3);
    assert_eq!(app.current_provider, "Quill");
    assert!(app.pending_query.is_none());
}

#[test]
fn spinner_wraps_after_ten_frames() {
    let mut app = App::new(0, String::new());
    for _ in 0..9 {
        app.tick_spinner();
    }
    assert_eq!(app.spinner_frame, 9);
    app.tick_spinner();
    assert_eq!(app.spinner_frame, 0);
}

#[test]
fn submit_enters_loading_and_completion_reaches_exactly_one_terminal_state() {
    let mut app = App::new(0, String::new());
    app.state = AppState::PromptInput;
    app.input = vec!['l', 's'];
    app.cursor_position = 2;
    let eff = app.handle_input_key(KeyAction::Select);
    assert!(matches!(eff, Effect::StartQuery { ref text } if text == "ls"));
    assert!(matches!(app.state, AppState::Loading));
    assert_eq!(app.pending_query.as_deref(), Some("ls"));

    let (done, _) = app.check_query_complete(QueryPoll::Pending);
    assert!(!done);
    assert!(matches!(app.state, AppState::Loading));

    let (done, eff) = app.check_query_complete(QueryPoll::Ready(Ok("ls -la".to_string())));
    assert!(done);
    assert!(matches!(app.state, AppState::ShowingResult { ref response } if response == "ls -la"));
    assert!(matches!(eff, Effect::PersistTurn { ref user, ref response }
        if user == "ls" && response == "ls -la"));
    assert!(app.pending_query.is_none());
}

#[test]
fn failure_and_disconnection_surface_as_error_states() {
    let mut app = App::new(0, String::new());
    let (done, _) = app.check_query_complete(QueryPoll::Ready(Err("boom".to_string())));
    assert!(done);
    assert!(matches!(app.state, AppState::Error { ref message } if message == "boom"));

    let mut app2 = App::new(0, String::new());
    app2.pending_query = Some("x".to_string());
    let (done, _) = app2.check_query_complete(QueryPoll::Disconnected);
    assert!(done);
    assert!(
        matches!(app2.state, AppState::Error { ref message } if message == "query thread disconnected")
    );
    assert!(app2.pending_query.is_none());
}

#[test]
fn blank_input_is_not_submitted() {
    let mut app = App::new(0, String::new());
    app.state = AppState::PromptInput;
    app.input = vec![' ', ' '];
    app.cursor_position = 2;
    let eff = app.handle_input_key(KeyAction::Select);
    assert!(matches!(eff, Effect::Nothing));
    assert!(matches!(app.state, AppState::PromptInput));
}

#[test]
fn input_editing_moves_the_cursor() {
    let mut app = App::new(0, String::new());
    app.handle_input_key(KeyAction::Char('a'));
    app.handle_input_key(KeyAction::Char('b'));
    app.handle_input_key(KeyAction::Left);
    app.handle_input_key(KeyAction::Char('x'));
    assert_eq!(app.input, vec!['a', 'x', 'b']);
    assert_eq!(app.cursor_position, 2);
    app.handle_input_key(KeyAction::Backspace);
    assert_eq!(app.input, vec!['a', 'b']);
    app.handle_input_key(KeyAction::Home);
    app.handle_input_key(KeyAction::Delete);
    assert_eq!(app.input, vec!['b']);
    app.handle_input_key(KeyAction::End);
    assert_eq!(app.cursor_position, 1);
}

#[test]
fn settings_navigation_skips_separators_and_never_wraps() {
    let mut app = App::new(0, String::new());
    app.settings_items = vec![
        SettingsMenuItem::ChangeProvider,
        SettingsMenuItem::Separator,
        SettingsMenuItem::Toggle {
            key: "send_git_status".to_string(),
            label: "Git repository status".to_string(),
            enabled: true,
        },
        SettingsMenuItem::Separator2,
        SettingsMenuItem::Back,
    ];
    app.settings_selected = 0;
    app.state = AppState::SettingsMenu;
    app.handle_settings_key(KeyAction::Down);
    assert_eq!(app.settings_selected, 2);
    app.handle_settings_key(KeyAction::Down);
    assert_eq!(app.settings_selected, 4);
    app.handle_settings_key(KeyAction::Down);
    assert_eq!(app.settings_selected, 4);
    app.handle_settings_key(KeyAction::Up);
    assert_eq!(app.settings_selected, 2);
    app.handle_settings_key(KeyAction::Up);
    assert_eq!(app.settings_selected, 0);
    app.handle_settings_key(KeyAction::Up);
    assert_eq!(app.settings_selected, 0);
}

#[test]
fn settings_selection_hands_out_the_right_effects() {
    let mut app = App::new(0, String::new());
    app.refresh_settings_items("send_git_status=false\n", "Quill".to_string());
    assert_eq!(app.settings_items.len(), 14);
    assert!(matches!(app.settings_items[0], SettingsMenuItem::ChangeProvider));
    assert!(
        matches!(app.settings_items[4], SettingsMenuItem::Toggle { ref key, enabled, .. }
        if key == "send_git_status" && !enabled)
    );
    app.settings_selected = 0;
    assert!(matches!(app.handle_settings_key(KeyAction::Select), Effect::CycleProvider));
    app.settings_selected = 4;
    assert!(
        matches!(app.handle_settings_key(KeyAction::Select), Effect::ToggleSetting { ref key }
        if key == "send_git_status")
    );
    app.settings_selected = 11;
    assert!(
        matches!(app.handle_settings_key(KeyAction::Select), Effect::SetAllPrivacy { enabled: true })
    );
    app.settings_selected = 12;
    assert!(
        matches!(app.handle_settings_key(KeyAction::Select), Effect::SetAllPrivacy { enabled: false })
    );
    app.settings_selected = 13;
    assert!(matches!(app.handle_settings_key(KeyAction::Select), Effect::Nothing));
    assert!(matches!(app.state, AppState::MainMenu));
}

#[test]
fn main_menu_selection_requests_the_right_work() {
    let mut app = App::new(0, String::new());
    app.selected_index = 1;
    assert!(matches!(app.handle_main_menu_key(KeyAction::Select), Effect::LoadRecentPrompts));
    app.selected_index = 2;
    assert!(matches!(app.handle_main_menu_key(KeyAction::Select), Effect::LoadContextDisplay));
    app.selected_index = 3;
    assert!(matches!(app.handle_main_menu_key(KeyAction::Select), Effect::OpenSettings));
    app.session_turns = 9;
    app.selected_index = 4;
    assert!(matches!(app.handle_main_menu_key(KeyAction::Select), Effect::ClearSession));
    assert_eq!(app.session_turns, 0);
    app.selected_index = 0;
    assert!(matches!(app.handle_main_menu_key(KeyAction::Select), Effect::Nothing));
    assert!(matches!(app.state, AppState::PromptInput));
    assert!(app.input.is_empty());
}

#[test]
fn result_actions_behave_as_the_menu_promises() {
    let mut app = App::new(0, String::new());
    app.last_response = Some("ls".to_string());
    app.state = AppState::ShowingResult { response: "ls".to_string() };
    app.result_selected = 0;
    assert!(app.should_run_command());
    app.handle_result_key(KeyAction::Select);
    assert!(!app.running);

    let mut app2 = App::new(0, String::new());
    app2.last_response = Some("ls".to_string());
    app2.state = AppState::ShowingResult { response: "ls".to_string() };
    app2.result_selected = 1;
    assert!(!app2.should_run_command());
    let eff = app2.handle_result_key(KeyAction::Select);
    assert!(matches!(eff, Effect::CopyToClipboard { ref text } if text == "ls"));
    assert!(matches!(app2.state, AppState::MainMenu));
}

#[test]
fn recent_prompt_selection_resubmits_the_prompt() {
    let mut app = App::new(0, String::new());
    app.enter_recent_prompts(vec!["git status".to_string(), "ls".to_string()]);
    assert!(matches!(app.state, AppState::RecentPrompts));
    app.handle_prompts_key(KeyAction::Down);
    assert_eq!(app.prompts_selected, 1);
    let eff = app.handle_prompts_key(KeyAction::Select);
    assert!(matches!(eff, Effect::StartQuery { ref text } if text == "ls"));
    assert!(matches!(app.state, AppState::Loading));
}

#[test]
fn loading_ignores_key_presses() {
    let mut app = App::new(0, String::new());
    app.state = AppState::Loading;
    let eff = app.handle_key(KeyPress::Char('q'), no_mods());
    assert!(matches!(eff, Effect::Nothing));
    assert!(matches!(app.state, AppState::Loading));
    assert!(app.running);
}

#[test]
fn error_state_recovers_with_one_keypress() {
    let mut app = App::new(0, String::new());
    app.state = AppState::Error { message: "x".to_string() };
    app.handle_key(KeyPress::Enter, no_mods());
    assert!(matches!(app.state, AppState::MainMenu));
}

#[test]
fn key_tables_decode_as_documented() {
    assert_eq!(key_to_action(KeyPress::Char('k'), no_mods()), KeyAction::Up);
    assert_eq!(key_to_action(KeyPress::Char('j'), no_mods()), KeyAction::Down);
    assert_eq!(key_to_action(KeyPress::Char('q'), no_mods()), KeyAction::Quit);
    assert_eq!(
        key_to_action(KeyPress::Char('c'), KeyMods { ctrl: true, alt: false, shift: false }),
        KeyAction::Quit
    );
    assert_eq!(key_to_action(KeyPress::Enter, no_mods()), KeyAction::Select);
    assert_eq!(key_to_action(KeyPress::Esc, no_mods()), KeyAction::Back);
    assert_eq!(key_to_input_action(KeyPress::Char('q'), no_mods()), KeyAction::Char('q'));
    assert_eq!(key_to_input_action(KeyPress::Char('k'), no_mods()), KeyAction::Char('k'));
    assert_eq!(key_to_input_action(KeyPress::Up, no_mods()), KeyAction::Up);
    let handler = EventHandler::new(100);
    assert_eq!(handler.tick_rate_ms, 100);
}
