//! The interactive session state machine: the interface states, the key
//! handlers that drive transitions between them, and the asynchronous
//! query lifecycle from submission to exactly one terminal state.
//!
//! Everything that touches the world outside — files, subprocesses, the
//! clipboard, the terminal — is returned to the surrounding program as an
//! [`Effect`] to perform; the handlers themselves only decide.
use vstd::prelude::*;
use vstd::string::*;

use crate::events::KeyAction;
use crate::settings::{is_enabled, privacy_settings, privacy_keys_spec, privacy_labels_spec,
    get_setting_spec};
use crate::text::{chars_to_string, trim, trim_spec};

verus! {

/// The interface state; exactly one is active at a time.
#[derive(Debug, Clone)]
pub enum AppState {
    MainMenu,
    PromptInput,
    Loading,
    ShowingResult { response: String },
    ContextView,
    SettingsMenu,
    RecentPrompts,
    Error { message: String },
}

/// Main menu entries, in display order.
#[derive(Debug, Clone, Copy, PartialEq, Eq, Structural)]
pub enum MenuItem {
    AskQuestion,
    RecentPrompts,
    ViewContext,
    PrivacySettings,
    ClearConversation,
    Exit,
}

/// Actions offered on a shown result, in display order.
#[derive(Debug, Clone, Copy, PartialEq, Eq, Structural)]
pub enum ResultAction {
    RunCommand,
    CopyToClipboard,
    AskFollowUp,
    BackToMenu,
}

/// Settings menu rows; the separators are display-only and can never be
/// selected.
#[derive(Debug, Clone)]
pub enum SettingsMenuItem {
    ChangeProvider,
    Separator,
    Toggle { key: String, label: String, enabled: bool },
    Separator2,
    EnableAll,
    DisableAll,
    Back,
}

pub open spec fn is_separator(it: SettingsMenuItem) -> bool {
    it is Separator || it is Separator2
}

/// A settings list fit for navigation: non-empty, with selectable rows at
/// both ends, so skipping over separators can always come to rest.
pub open spec fn settings_list_wf(items: Seq<SettingsMenuItem>) -> bool {
    &&& items.len() > 0
    &&& !is_separator(items[0])
    &&& !is_separator(items[items.len() - 1])
}

/// What the state machine asks the surrounding program to do after a key
/// was handled. Everything here is outside work: reading files, writing
/// settings, spawning the query worker, or the clipboard.
pub enum Effect {
    /// Nothing to do.
    Nothing,
    /// Load the deduplicated recent prompts, then call
    /// [`App::enter_recent_prompts`].
    LoadRecentPrompts,
    /// Gather the context display text, then call
    /// [`App::enter_context_view`].
    LoadContextDisplay,
    /// Rebuild the settings rows ([`App::refresh_settings_items`]), then
    /// call [`App::enter_settings_menu`].
    OpenSettings,
    /// Delete the transcript file.
    ClearSession,
    /// Append `text` to the prompt history, compose the full prompt, and
    /// spawn the query worker.
    StartQuery { text: String },
    /// Write `text` to the clipboard, best-effort.
    CopyToClipboard { text: String },
    /// Cycle the provider setting and rebuild the settings rows.
    CycleProvider,
    /// Toggle the named privacy flag and rebuild the settings rows.
    ToggleSetting { key: String },
    /// Set every privacy flag to `enabled` and rebuild the settings rows.
    SetAllPrivacy { enabled: bool },
    /// Append the completed turn to the transcript and refresh the turn
    /// counter.
    PersistTurn { user: String, response: String },
}

/// What one non-blocking look at the result channel showed: nothing yet,
/// the single result, or a sender gone without sending.
pub enum QueryPoll {
    Pending,
    Ready(Result<String, String>),
    Disconnected,
}

/// The interactive session: interface state, menu cursors, the input
/// buffer, and the at-most-one pending query.
pub struct App {
    pub state: AppState,
    pub running: bool,
    pub menu_items: Vec<MenuItem>,
    pub selected_index: usize,
    pub input: Vec<char>,
    pub cursor_position: usize,
    pub result_actions: Vec<ResultAction>,
    pub result_selected: usize,
    pub last_response: Option<String>,
    pub settings_items: Vec<SettingsMenuItem>,
    pub settings_selected: usize,
    pub current_provider: String,
    pub recent_prompts: Vec<String>,
    pub prompts_selected: usize,
    pub context_display: String,
    pub session_turns: usize,
    pub spinner_frame: usize,
    pub pending_query: Option<String>,
}

pub open spec fn standard_menu() -> Seq<MenuItem> {
    seq![
        MenuItem::AskQuestion,
        MenuItem::RecentPrompts,
        MenuItem::ViewContext,
        MenuItem::PrivacySettings,
        MenuItem::ClearConversation,
        MenuItem::Exit,
    ]
}

pub open spec fn standard_result_actions() -> Seq<ResultAction> {
    seq![
        ResultAction::RunCommand,
        ResultAction::CopyToClipboard,
        ResultAction::AskFollowUp,
        ResultAction::BackToMenu,
    ]
}

impl App {
    /// The structural invariant every handler preserves: the fixed menus
    /// keep their shape and every cursor stays inside its list.
    pub open spec fn wf(self) -> bool {
        &&& self.menu_items@ == standard_menu()
        &&& self.result_actions@ == standard_result_actions()
        &&& self.selected_index < self.menu_items@.len()
        &&& self.result_selected < self.result_actions@.len()
        &&& self.cursor_position <= self.input@.len()
        &&& (self.settings_selected < self.settings_items@.len() || self.settings_selected == 0)
        &&& (self.prompts_selected < self.recent_prompts@.len() || self.prompts_selected == 0)
    }

    pub fn new(session_turns: usize, current_provider: String) -> (r: App)
        ensures
            r.wf(),
            r.state is MainMenu,
            r.running,
            r.selected_index == 0,
            r.input@.len() == 0,
            r.cursor_position == 0,
            r.result_selected == 0,
            r.last_response is None,
            r.settings_items@.len() == 0,
            r.settings_selected == 0,
            r.current_provider == current_provider,
            r.recent_prompts@.len() == 0,
            r.prompts_selected == 0,
            r.context_display@.len() == 0,
            r.session_turns == session_turns,
            r.spinner_frame == 0,
            r.pending_query is None,
    {
        let mut menu_items: Vec<MenuItem> = Vec::new();
        menu_items.push(MenuItem::AskQuestion);
        menu_items.push(MenuItem::RecentPrompts);
        menu_items.push(MenuItem::ViewContext);
        menu_items.push(MenuItem::PrivacySettings);
        menu_items.push(MenuItem::ClearConversation);
        menu_items.push(MenuItem::Exit);
        let mut result_actions: Vec<ResultAction> = Vec::new();
        result_actions.push(ResultAction::RunCommand);
        result_actions.push(ResultAction::CopyToClipboard);
        result_actions.push(ResultAction::AskFollowUp);
        result_actions.push(ResultAction::BackToMenu);
        proof {
            assert(menu_items@ =~= standard_menu());
            assert(result_actions@ =~= standard_result_actions());
        }
        App {
            state: AppState::MainMenu,
            running: true,
            menu_items,
            selected_index: 0,
            input: Vec::new(),
            cursor_position: 0,
            result_actions,
            result_selected: 0,
            last_response: None,
            settings_items: Vec::new(),
            settings_selected: 0,
            current_provider,
            recent_prompts: Vec::new(),
            prompts_selected: 0,
            context_display: String::new(),
            session_turns,
            spinner_frame: 0,
            pending_query: None,
        }
    }

    /// Advances the spinner animation one frame, wrapping after ten.
    pub fn tick_spinner(&mut self)
        ensures
            final(self).spinner_frame == (old(self).spinner_frame + 1) % 10,
            *final(self) == (App { spinner_frame: final(self).spinner_frame, ..*old(self) }),
    {
        let m = self.spinner_frame % 10;
        if m == 9 {
            self.spinner_frame = 0;
        } else {
            self.spinner_frame = m + 1;
        }
    }

    /// Whether leaving the loop should run the shown command: only from a
    /// result view with `Run` selected.
    pub fn should_run_command(&self) -> (r: bool)
        requires
            self.wf(),
        ensures
            r == (self.state is ShowingResult && self.result_actions@[self.result_selected as int]
                is RunCommand),
    {
        if let AppState::ShowingResult { .. } = &self.state {
            match self.result_actions[self.result_selected] {
                ResultAction::RunCommand => true,
                _ => false,
            }
        } else {
            false
        }
    }
}

/// Submitting `text` moved the machine to `Loading` with `text` as the one
/// pending query, touching nothing else.
pub open spec fn submit_transition(pre: App, post: App, text: Seq<char>) -> bool {
    &&& post.state is Loading
    &&& post.pending_query matches Some(q) && q@ == text
    &&& post == App { state: post.state, pending_query: post.pending_query, ..pre }
}

/// How one poll of the result channel moved the machine: not at all while
/// pending; to `ShowingResult` with the turn persisted on success; to
/// `Error` on failure or on a disconnected worker.
pub open spec fn complete_transition(
    pre: App,
    post: App,
    poll: QueryPoll,
    handled: bool,
    eff: Effect,
) -> bool {
    match poll {
        QueryPoll::Pending => !handled && post == pre && eff is Nothing,
        QueryPoll::Ready(res) => match res {
            Ok(resp) => {
                &&& handled
                &&& post.state matches AppState::ShowingResult { response } && response@ == resp@
                &&& post.last_response matches Some(l) && l@ == resp@
                &&& post.result_selected == 0
                &&& post.pending_query is None
                &&& eff matches Effect::PersistTurn { user, response: pr } && pr@ == resp@ && (
                match pre.pending_query {
                    Some(q) => user@ == q@,
                    None => user@ == Seq::<char>::empty(),
                })
                &&& post == App {
                    state: post.state,
                    last_response: post.last_response,
                    result_selected: post.result_selected,
                    pending_query: post.pending_query,
                    ..pre
                }
            },
            Err(e) => {
                &&& handled
                &&& post.state matches AppState::Error { message } && message@ == e@
                &&& post.pending_query is None
                &&& eff is Nothing
                &&& post == App { state: post.state, pending_query: post.pending_query, ..pre }
            },
        },
        QueryPoll::Disconnected => {
            &&& handled
            &&& post.state matches AppState::Error { message } && message@
                == "query thread disconnected"@
            &&& post.pending_query is None
            &&& eff is Nothing
            &&& post == App { state: post.state, pending_query: post.pending_query, ..pre }
        },
    }
}

impl App {
    /// Starts the asynchronous query: records the text as pending and
    /// enters `Loading`. The caller performs the returned
    /// [`Effect::StartQuery`].
    pub fn submit_query(&mut self, query: String) -> (r: Effect)
        requires
            trim_spec(query@).len() > 0,
        ensures
            submit_transition(*old(self), *final(self), query@),
            old(self).wf() ==> final(self).wf(),
            r matches Effect::StartQuery { text } && text@ == query@,
    {
        self.pending_query = Some(query.clone());
        self.state = AppState::Loading;
        Effect::StartQuery { text: query }
    }

    /// One non-blocking check of the result channel, as the loop makes it
    /// every tick while `Loading`. Returns whether the poll was terminal,
    /// and the persistence work a success entails.
    pub fn check_query_complete(&mut self, poll: QueryPoll) -> (r: (bool, Effect))
        ensures
            complete_transition(*old(self), *final(self), poll, r.0, r.1),
            old(self).wf() ==> final(self).wf(),
    {
        match poll {
            QueryPoll::Pending => (false, Effect::Nothing),
            QueryPoll::Ready(res) => {
                let user = match self.pending_query.take() {
                    Some(q) => q,
                    None => String::new(),
                };
                match res {
                    Ok(response) => {
                        self.last_response = Some(response.clone());
                        self.result_selected = 0;
                        self.state = AppState::ShowingResult { response: response.clone() };
                        (true, Effect::PersistTurn { user, response })
                    },
                    Err(e) => {
                        self.state = AppState::Error { message: e };
                        (true, Effect::Nothing)
                    },
                }
            },
            QueryPoll::Disconnected => {
                self.pending_query = None;
                self.state = AppState::Error {
                    message: String::from_str("query thread disconnected"),
                };
                (true, Effect::Nothing)
            },
        }
    }
}

/// What selecting the highlighted main-menu entry does: entering the
/// prompt clears the buffer; the data-backed views are requested as
/// effects; clearing the conversation resets the turn counter.
pub open spec fn main_menu_select_post(pre: App, post: App, eff: Effect) -> bool {
    match pre.menu_items@[pre.selected_index as int] {
        MenuItem::AskQuestion => {
            &&& post.state is PromptInput
            &&& post.input@.len() == 0
            &&& post.cursor_position == 0
            &&& post == (App {
                state: post.state,
                input: post.input,
                cursor_position: 0,
                ..pre
            })
            &&& eff is Nothing
        },
        MenuItem::RecentPrompts => post == pre && eff is LoadRecentPrompts,
        MenuItem::ViewContext => post == pre && eff is LoadContextDisplay,
        MenuItem::PrivacySettings => post == pre && eff is OpenSettings,
        MenuItem::ClearConversation => post == (App { session_turns: 0, ..pre }) && eff
            is ClearSession,
        MenuItem::Exit => post == (App { running: false, ..pre }) && eff is Nothing,
    }
}

/// Everything one key does on the main menu.
pub open spec fn main_menu_key_post(pre: App, post: App, action: KeyAction, eff: Effect) -> bool {
    match action {
        KeyAction::Up => post.selected_index == (if pre.selected_index > 0 {
            pre.selected_index - 1
        } else {
            0int
        }) && post == (App { selected_index: post.selected_index, ..pre }) && (eff is Nothing),
        KeyAction::Down => post.selected_index == (if pre.selected_index + 1
            < pre.menu_items@.len() {
            pre.selected_index + 1
        } else {
            pre.selected_index as int
        }) && post == (App { selected_index: post.selected_index, ..pre }) && (eff is Nothing),
        KeyAction::Select => main_menu_select_post(pre, post, eff),
        KeyAction::Quit => post == (App { running: false, ..pre }) && (eff is Nothing),
        _ => post == pre && (eff is Nothing),
    }
}

impl App {
    pub fn handle_main_menu_key(&mut self, action: KeyAction) -> (r: Effect)
        requires
            old(self).wf(),
        ensures
            final(self).wf(),
            main_menu_key_post(*old(self), *final(self), action, r),
    {
        match action {
            KeyAction::Up => {
                if self.selected_index > 0 {
                    self.selected_index = self.selected_index - 1;
                }
                Effect::Nothing
            },
            KeyAction::Down => {
                if self.selected_index < self.menu_items.len() - 1 {
                    self.selected_index = self.selected_index + 1;
                }
                Effect::Nothing
            },
            KeyAction::Select => {
                match self.menu_items[self.selected_index] {
                    MenuItem::AskQuestion => {
                        self.input = Vec::new();
                        self.cursor_position = 0;
                        self.state = AppState::PromptInput;
                        Effect::Nothing
                    },
                    MenuItem::RecentPrompts => Effect::LoadRecentPrompts,
                    MenuItem::ViewContext => Effect::LoadContextDisplay,
                    MenuItem::PrivacySettings => Effect::OpenSettings,
                    MenuItem::ClearConversation => {
                        self.session_turns = 0;
                        Effect::ClearSession
                    },
                    MenuItem::Exit => {
                        self.running = false;
                        Effect::Nothing
                    },
                }
            },
            KeyAction::Quit => {
                self.running = false;
                Effect::Nothing
            },
            _ => Effect::Nothing,
        }
    }

    /// The data-backed entry into the recent-prompts view, made once the
    /// prompts were read back.
    pub fn enter_recent_prompts(&mut self, prompts: Vec<String>)
        ensures
            final(self).state is RecentPrompts,
            final(self).recent_prompts == prompts,
            *final(self) == (App {
                state: final(self).state,
                recent_prompts: prompts,
                prompts_selected: 0,
                ..*old(self)
            }),
            old(self).wf() ==> final(self).wf(),
    {
        self.recent_prompts = prompts;
        self.prompts_selected = 0;
        self.state = AppState::RecentPrompts;
    }

    /// The data-backed entry into the context view, made once the context
    /// snapshot was gathered.
    pub fn enter_context_view(&mut self, text: String)
        ensures
            final(self).state is ContextView,
            final(self).context_display == text,
            *final(self) == (App {
                state: final(self).state,
                context_display: text,
                ..*old(self)
            }),
            old(self).wf() ==> final(self).wf(),
    {
        self.context_display = text;
        self.state = AppState::ContextView;
    }

    /// The entry into the settings menu, made after the rows were rebuilt.
    pub fn enter_settings_menu(&mut self)
        ensures
            final(self).state is SettingsMenu,
            *final(self) == (App {
                state: final(self).state,
                settings_selected: 0,
                ..*old(self)
            }),
            old(self).wf() ==> final(self).wf(),
    {
        self.settings_selected = 0;
        self.state = AppState::SettingsMenu;
    }

    /// Rebuilds the settings rows from the settings text: the provider
    /// line, a separator, one toggle per privacy flag showing its current
    /// value, and the bulk and back entries.
    pub fn refresh_settings_items(&mut self, settings_content: &str, provider_name: String)
        ensures
            final(self).current_provider == provider_name,
            final(self).settings_items@.len() == 14,
            final(self).settings_items@[0] is ChangeProvider,
            final(self).settings_items@[1] is Separator,
            forall|i: int|
                0 <= i < 8 ==> (#[trigger] final(self).settings_items@[2 + i] matches
                    SettingsMenuItem::Toggle { key, label, enabled } && key@
                    == privacy_keys_spec()[i] && label@ == privacy_labels_spec()[i] && enabled == (
                get_setting_spec(settings_content@, privacy_keys_spec()[i]) == "true"@)),
            final(self).settings_items@[10] is Separator2,
            final(self).settings_items@[11] is EnableAll,
            final(self).settings_items@[12] is DisableAll,
            final(self).settings_items@[13] is Back,
            settings_list_wf(final(self).settings_items@),
            *final(self) == (App {
                settings_items: final(self).settings_items,
                current_provider: provider_name,
                ..*old(self)
            }),
            old(self).wf() && (old(self).settings_selected < 14 || old(self).settings_selected
                == 0) ==> final(self).wf(),
    {
        self.current_provider = provider_name;
        let mut items: Vec<SettingsMenuItem> = Vec::new();
        items.push(SettingsMenuItem::ChangeProvider);
        items.push(SettingsMenuItem::Separator);
        let privacy = privacy_settings();
        let mut i: usize = 0;
        while i < privacy.len()
            invariant
                privacy.len() == 8,
                forall|k: int|
                    0 <= k < 8 ==> (#[trigger] privacy@[k]).0@ == privacy_keys_spec()[k]
                        && privacy@[k].1@ == privacy_labels_spec()[k],
                i <= 8,
                items@.len() == 2 + i,
                items@[0] is ChangeProvider,
                items@[1] is Separator,
                forall|k: int|
                    0 <= k < i ==> (#[trigger] items@[2 + k] matches SettingsMenuItem::Toggle {
                        key,
                        label,
                        enabled,
                    } && key@ == privacy_keys_spec()[k] && label@ == privacy_labels_spec()[k]
                        && enabled == (get_setting_spec(settings_content@, privacy_keys_spec()[k])
                        == "true"@)),
            decreases 8 - i,
        {
            let (key, label) = privacy[i];
            let enabled = is_enabled(settings_content, key);
            let ghost before = items@;
            items.push(SettingsMenuItem::Toggle {
                key: String::from_str(key),
                label: String::from_str(label),
                enabled,
            });
            proof {
                assert forall|k: int|
                    0 <= k < i + 1 implies #[trigger] items@[2 + k] matches
                        SettingsMenuItem::Toggle { key: k2, label: l2, enabled: e2 } && k2@
                        == privacy_keys_spec()[k] && l2@ == privacy_labels_spec()[k] && e2 == (
                    get_setting_spec(settings_content@, privacy_keys_spec()[k]) == "true"@) by {
                    if k < i {
                        assert(items@[2 + k] == before[2 + k]);
                    }
                }
            }
            i = i + 1;
        }
        items.push(SettingsMenuItem::Separator2);
        items.push(SettingsMenuItem::EnableAll);
        items.push(SettingsMenuItem::DisableAll);
        items.push(SettingsMenuItem::Back);
        self.settings_items = items;
    }
}

/// What submitting from the prompt does: text that is non-empty after
/// trimming starts the query; blank text does nothing.
pub open spec fn input_select_post(pre: App, post: App, eff: Effect) -> bool {
    if trim_spec(pre.input@).len() > 0 {
        &&& submit_transition(pre, post, pre.input@)
        &&& eff matches Effect::StartQuery { text } && text@ == pre.input@
    } else {
        post == pre && eff is Nothing
    }
}

/// Everything one key does in the prompt editor.
pub open spec fn input_key_post(pre: App, post: App, action: KeyAction, eff: Effect) -> bool {
    match action {
        KeyAction::Char(c) => post.input@ == pre.input@.insert(pre.cursor_position as int, c)
            && post.cursor_position == pre.cursor_position + 1 && post == (App {
            input: post.input,
            cursor_position: post.cursor_position,
            ..pre
        }) && (eff is Nothing),
        KeyAction::Backspace => (if pre.cursor_position > 0 {
            post.cursor_position == pre.cursor_position - 1 && post.input@ == pre.input@.remove(
                pre.cursor_position - 1,
            ) && post == (App {
                input: post.input,
                cursor_position: post.cursor_position,
                ..pre
            })
        } else {
            post == pre
        }) && (eff is Nothing),
        KeyAction::Delete => (if pre.cursor_position < pre.input@.len() {
            post.input@ == pre.input@.remove(pre.cursor_position as int) && post == (App {
                input: post.input,
                ..pre
            })
        } else {
            post == pre
        }) && (eff is Nothing),
        KeyAction::Left => post.cursor_position == (if pre.cursor_position > 0 {
            pre.cursor_position - 1
        } else {
            0int
        }) && post == (App { cursor_position: post.cursor_position, ..pre }) && (eff is Nothing),
        KeyAction::Right => post.cursor_position == (if pre.cursor_position < pre.input@.len() {
            pre.cursor_position + 1
        } else {
            pre.cursor_position as int
        }) && post == (App { cursor_position: post.cursor_position, ..pre }) && (eff is Nothing),
        KeyAction::Home => post == (App { cursor_position: 0, ..pre }) && (eff is Nothing),
        KeyAction::End => post.cursor_position == pre.input@.len() && post == (App {
            cursor_position: post.cursor_position,
            ..pre
        }) && (eff is Nothing),
        KeyAction::Select => input_select_post(pre, post, eff),
        KeyAction::Back => post.state is MainMenu && post == (App { state: post.state, ..pre })
            && (eff is Nothing),
        KeyAction::Quit => post == (App { running: false, ..pre }) && (eff is Nothing),
        _ => post == pre && (eff is Nothing),
    }
}

impl App {
    pub fn handle_input_key(&mut self, action: KeyAction) -> (r: Effect)
        requires
            old(self).wf(),
        ensures
            final(self).wf(),
            input_key_post(*old(self), *final(self), action, r),
    {
        match action {
            KeyAction::Char(c) => {
                self.input.insert(self.cursor_position, c);
                let new_len = self.input.len();
                proof {
                    assert(self.cursor_position < new_len);
                }
                self.cursor_position = self.cursor_position + 1;
                Effect::Nothing
            },
            KeyAction::Backspace => {
                if self.cursor_position > 0 {
                    self.cursor_position = self.cursor_position - 1;
                    self.input.remove(self.cursor_position);
                }
                Effect::Nothing
            },
            KeyAction::Delete => {
                if self.cursor_position < self.input.len() {
                    self.input.remove(self.cursor_position);
                }
                Effect::Nothing
            },
            KeyAction::Left => {
                if self.cursor_position > 0 {
                    self.cursor_position = self.cursor_position - 1;
                }
                Effect::Nothing
            },
            KeyAction::Right => {
                if self.cursor_position < self.input.len() {
                    self.cursor_position = self.cursor_position + 1;
                }
                Effect::Nothing
            },
            KeyAction::Home => {
                self.cursor_position = 0;
                Effect::Nothing
            },
            KeyAction::End => {
                self.cursor_position = self.input.len();
                Effect::Nothing
            },
            KeyAction::Select => {
                let text = chars_to_string(&self.input);
                let t = trim(text.as_str());
                if t.unicode_len() > 0 {
                    self.submit_query(text)
                } else {
                    Effect::Nothing
                }
            },
            KeyAction::Back => {
                self.state = AppState::MainMenu;
                Effect::Nothing
            },
            KeyAction::Quit => {
                self.running = false;
                Effect::Nothing
            },
            _ => Effect::Nothing,
        }
    }
}

/// What acting on a shown result does: `Run` leaves the loop so the
/// command can run after teardown; `Copy` asks for a best-effort clipboard
/// write and returns to the menu; a follow-up reopens a cleared prompt.
pub open spec fn result_action_post(
    pre: App,
    post: App,
    action: ResultAction,
    eff: Effect,
) -> bool {
    match action {
        ResultAction::RunCommand => (if pre.last_response is Some {
            post == (App { running: false, ..pre })
        } else {
            post == pre
        }) && eff is Nothing,
        ResultAction::CopyToClipboard => {
            &&& post.state is MainMenu
            &&& post == (App { state: post.state, ..pre })
            &&& match pre.last_response {
                Some(t) => eff matches Effect::CopyToClipboard { text } && text@ == t@,
                None => eff is Nothing,
            }
        },
        ResultAction::AskFollowUp => {
            &&& post.state is PromptInput
            &&& post.input@.len() == 0
            &&& post.cursor_position == 0
            &&& post == (App {
                state: post.state,
                input: post.input,
                cursor_position: 0,
                ..pre
            })
            &&& eff is Nothing
        },
        ResultAction::BackToMenu => post.state is MainMenu && post == (App {
            state: post.state,
            ..pre
        }) && eff is Nothing,
    }
}

/// Everything one key does on the result view.
pub open spec fn result_key_post(pre: App, post: App, action: KeyAction, eff: Effect) -> bool {
    match action {
        KeyAction::Up => post.result_selected == (if pre.result_selected > 0 {
            pre.result_selected - 1
        } else {
            0int
        }) && post == (App { result_selected: post.result_selected, ..pre }) && (eff is Nothing),
        KeyAction::Down => post.result_selected == (if pre.result_selected + 1
            < pre.result_actions@.len() {
            pre.result_selected + 1
        } else {
            pre.result_selected as int
        }) && post == (App { result_selected: post.result_selected, ..pre }) && (eff is Nothing),
        KeyAction::Select => result_action_post(
            pre,
            post,
            pre.result_actions@[pre.result_selected as int],
            eff,
        ),
        KeyAction::Back => post.state is MainMenu && post == (App { state: post.state, ..pre })
            && (eff is Nothing),
        KeyAction::Quit => post == (App { running: false, ..pre }) && (eff is Nothing),
        _ => post == pre && (eff is Nothing),
    }
}

/// Everything one key does on the context view or an error notice:
/// acknowledging returns to the menu.
pub open spec fn acknowledge_post(pre: App, post: App, action: KeyAction, eff: Effect) -> bool {
    &&& eff is Nothing
    &&& match action {
        KeyAction::Back | KeyAction::Select => post.state is MainMenu && post == (App {
            state: post.state,
            ..pre
        }),
        KeyAction::Quit => post == (App { running: false, ..pre }),
        _ => post == pre,
    }
}

impl App {
    pub fn handle_result_action(&mut self, action: &ResultAction) -> (r: Effect)
        requires
            old(self).wf(),
        ensures
            final(self).wf(),
            result_action_post(*old(self), *final(self), *action, r),
    {
        match action {
            ResultAction::RunCommand => {
                if self.last_response.is_some() {
                    self.running = false;
                }
                Effect::Nothing
            },
            ResultAction::CopyToClipboard => {
                let eff = match &self.last_response {
                    Some(t) => Effect::CopyToClipboard { text: t.clone() },
                    None => Effect::Nothing,
                };
                self.state = AppState::MainMenu;
                eff
            },
            ResultAction::AskFollowUp => {
                self.input = Vec::new();
                self.cursor_position = 0;
                self.state = AppState::PromptInput;
                Effect::Nothing
            },
            ResultAction::BackToMenu => {
                self.state = AppState::MainMenu;
                Effect::Nothing
            },
        }
    }

    pub fn handle_result_key(&mut self, action: KeyAction) -> (r: Effect)
        requires
            old(self).wf(),
        ensures
            final(self).wf(),
            result_key_post(*old(self), *final(self), action, r),
    {
        match action {
            KeyAction::Up => {
                if self.result_selected > 0 {
                    self.result_selected = self.result_selected - 1;
                }
                Effect::Nothing
            },
            KeyAction::Down => {
                if self.result_selected < self.result_actions.len() - 1 {
                    self.result_selected = self.result_selected + 1;
                }
                Effect::Nothing
            },
            KeyAction::Select => {
                let chosen = self.result_actions[self.result_selected];
                self.handle_result_action(&chosen)
            },
            KeyAction::Back => {
                self.state = AppState::MainMenu;
                Effect::Nothing
            },
            KeyAction::Quit => {
                self.running = false;
                Effect::Nothing
            },
            _ => Effect::Nothing,
        }
    }

    pub fn handle_context_key(&mut self, action: KeyAction) -> (r: Effect)
        requires
            old(self).wf(),
        ensures
            final(self).wf(),
            acknowledge_post(*old(self), *final(self), action, r),
    {
        match action {
            KeyAction::Back | KeyAction::Select => {
                self.state = AppState::MainMenu;
            },
            KeyAction::Quit => {
                self.running = false;
            },
            _ => {},
        }
        Effect::Nothing
    }

    pub fn handle_error_key(&mut self, action: KeyAction) -> (r: Effect)
        requires
            old(self).wf(),
        ensures
            final(self).wf(),
            acknowledge_post(*old(self), *final(self), action, r),
    {
        match action {
            KeyAction::Select | KeyAction::Back => {
                self.state = AppState::MainMenu;
            },
            KeyAction::Quit => {
                self.running = false;
            },
            _ => {},
        }
        Effect::Nothing
    }
}

/// What submitting a recent prompt does: a selected non-blank entry starts
/// the query exactly as the prompt input would.
pub open spec fn prompts_select_post(pre: App, post: App, eff: Effect) -> bool {
    if pre.recent_prompts@.len() > 0 && pre.prompts_selected < pre.recent_prompts@.len() {
        let t = pre.recent_prompts@[pre.prompts_selected as int];
        if trim_spec(t@).len() > 0 {
            &&& submit_transition(pre, post, t@)
            &&& eff matches Effect::StartQuery { text } && text@ == t@
        } else {
            post == pre && eff is Nothing
        }
    } else {
        post == pre && eff is Nothing
    }
}

/// Everything one key does on the recent-prompts list.
pub open spec fn prompts_key_post(pre: App, post: App, action: KeyAction, eff: Effect) -> bool {
    match action {
        KeyAction::Up => post.prompts_selected == (if pre.prompts_selected > 0 {
            pre.prompts_selected - 1
        } else {
            0int
        }) && post == (App { prompts_selected: post.prompts_selected, ..pre }) && (eff
            is Nothing),
        KeyAction::Down => post.prompts_selected == (if pre.prompts_selected + 1
            < pre.recent_prompts@.len() {
            pre.prompts_selected + 1
        } else {
            pre.prompts_selected as int
        }) && post == (App { prompts_selected: post.prompts_selected, ..pre }) && (eff
            is Nothing),
        KeyAction::Select => prompts_select_post(pre, post, eff),
        KeyAction::Back => post.state is MainMenu && post == (App { state: post.state, ..pre })
            && (eff is Nothing),
        KeyAction::Quit => post == (App { running: false, ..pre }) && (eff is Nothing),
        _ => post == pre && (eff is Nothing),
    }
}

impl App {
    pub fn handle_prompts_key(&mut self, action: KeyAction) -> (r: Effect)
        requires
            old(self).wf(),
        ensures
            final(self).wf(),
            prompts_key_post(*old(self), *final(self), action, r),
    {
        match action {
            KeyAction::Up => {
                if self.prompts_selected > 0 {
                    self.prompts_selected = self.prompts_selected - 1;
                }
                Effect::Nothing
            },
            KeyAction::Down => {
                if self.recent_prompts.len() > 0 && self.prompts_selected
                    < self.recent_prompts.len() - 1 {
                    self.prompts_selected = self.prompts_selected + 1;
                }
                Effect::Nothing
            },
            KeyAction::Select => {
                if self.recent_prompts.len() > 0 && self.prompts_selected
                    < self.recent_prompts.len() {
                    let text = self.recent_prompts[self.prompts_selected].clone();
                    let t = trim(text.as_str());
                    if t.unicode_len() > 0 {
                        self.submit_query(text)
                    } else {
                        Effect::Nothing
                    }
                } else {
                    Effect::Nothing
                }
            },
            KeyAction::Back => {
                self.state = AppState::MainMenu;
                Effect::Nothing
            },
            KeyAction::Quit => {
                self.running = false;
                Effect::Nothing
            },
            _ => Effect::Nothing,
        }
    }
}

/// Moving up in the settings menu: the selection lands on the nearest
/// selectable row above — every row skipped over is a separator — and
/// stays put at the top; it never wraps and, on a list fit for
/// navigation, never rests on a separator.
pub open spec fn settings_nav_up_post(pre: App, post: App) -> bool {
    &&& post == (App { settings_selected: post.settings_selected, ..pre })
    &&& post.settings_selected <= pre.settings_selected
    &&& (settings_list_wf(pre.settings_items@) && pre.settings_selected
        < pre.settings_items@.len() ==> {
        let items = pre.settings_items@;
        if pre.settings_selected > 0 {
            &&& post.settings_selected < pre.settings_selected
            &&& !is_separator(items[post.settings_selected as int])
            &&& forall|k: int|
                post.settings_selected < k < pre.settings_selected ==> is_separator(
                    #[trigger] items[k],
                )
        } else {
            post.settings_selected == pre.settings_selected
        }
    })
}

/// Moving down in the settings menu: the selection lands on the nearest
/// selectable row below — every row skipped over is a separator — and
/// stays put at the bottom; it never wraps and, on a list fit for
/// navigation, never rests on a separator.
pub open spec fn settings_nav_down_post(pre: App, post: App) -> bool {
    &&& post == (App { settings_selected: post.settings_selected, ..pre })
    &&& post.settings_selected >= pre.settings_selected
    &&& (pre.settings_items@.len() > 0 ==> post.settings_selected < pre.settings_items@.len()
        || post.settings_selected == pre.settings_selected)
    &&& (settings_list_wf(pre.settings_items@) && pre.settings_selected
        < pre.settings_items@.len() ==> {
        let items = pre.settings_items@;
        if pre.settings_selected + 1 < items.len() {
            &&& pre.settings_selected < post.settings_selected < items.len()
            &&& !is_separator(items[post.settings_selected as int])
            &&& forall|k: int|
                pre.settings_selected < k < post.settings_selected ==> is_separator(
                    #[trigger] items[k],
                )
        } else {
            post.settings_selected == pre.settings_selected
        }
    })
}

/// What selecting a settings row does: every row that changes
/// configuration is handed out as an effect to perform and re-render;
/// separators do nothing; `Back` returns to the menu.
pub open spec fn settings_select_post(pre: App, post: App, eff: Effect) -> bool {
    if pre.settings_selected < pre.settings_items@.len() {
        match pre.settings_items@[pre.settings_selected as int] {
            SettingsMenuItem::ChangeProvider => post == pre && eff is CycleProvider,
            SettingsMenuItem::Toggle { key, .. } => post == pre && (eff matches
                Effect::ToggleSetting { key: k } && k@ == key@),
            SettingsMenuItem::EnableAll => post == pre && (eff matches Effect::SetAllPrivacy {
                enabled,
            } && enabled),
            SettingsMenuItem::DisableAll => post == pre && (eff matches Effect::SetAllPrivacy {
                enabled,
            } && !enabled),
            SettingsMenuItem::Back => post.state is MainMenu && post == (App {
                state: post.state,
                ..pre
            }) && eff is Nothing,
            _ => post == pre && eff is Nothing,
        }
    } else {
        post == pre && eff is Nothing
    }
}

/// Everything one key does on the settings menu.
pub open spec fn settings_key_post(pre: App, post: App, action: KeyAction, eff: Effect) -> bool {
    match action {
        KeyAction::Up => settings_nav_up_post(pre, post) && (eff is Nothing),
        KeyAction::Down => settings_nav_down_post(pre, post) && (eff is Nothing),
        KeyAction::Select => settings_select_post(pre, post, eff),
        KeyAction::Back => post.state is MainMenu && post == (App { state: post.state, ..pre })
            && (eff is Nothing),
        KeyAction::Quit => post == (App { running: false, ..pre }) && (eff is Nothing),
        _ => post == pre && (eff is Nothing),
    }
}

impl App {
    pub fn handle_settings_key(&mut self, action: KeyAction) -> (r: Effect)
        requires
            old(self).wf(),
        ensures
            final(self).wf(),
            settings_key_post(*old(self), *final(self), action, r),
    {
        match action {
            KeyAction::Up => {
                if self.settings_selected > 0 {
                    self.settings_selected = self.settings_selected - 1;
                    while self.settings_selected > 0 && matches!(
                        self.settings_items[self.settings_selected],
                        SettingsMenuItem::Separator | SettingsMenuItem::Separator2
                    )
                        invariant
                            self.settings_selected < old(self).settings_selected
                                <= self.settings_items@.len(),
                            forall|k: int|
                                self.settings_selected < k < old(self).settings_selected
                                    ==> is_separator(#[trigger] self.settings_items@[k]),
                            *self == (App {
                                settings_selected: self.settings_selected,
                                ..*old(self)
                            }),
                        decreases self.settings_selected,
                    {
                        self.settings_selected = self.settings_selected - 1;
                    }
                }
                Effect::Nothing
            },
            KeyAction::Down => {
                if self.settings_items.len() > 0 && self.settings_selected
                    < self.settings_items.len() - 1 {
                    self.settings_selected = self.settings_selected + 1;
                    while self.settings_selected < self.settings_items.len() - 1 && matches!(
                        self.settings_items[self.settings_selected],
                        SettingsMenuItem::Separator | SettingsMenuItem::Separator2
                    )
                        invariant
                            old(self).settings_selected < self.settings_selected
                                < self.settings_items@.len(),
                            self.settings_items@.len() > 0,
                            forall|k: int|
                                old(self).settings_selected < k < self.settings_selected
                                    ==> is_separator(#[trigger] self.settings_items@[k]),
                            *self == (App {
                                settings_selected: self.settings_selected,
                                ..*old(self)
                            }),
                        decreases self.settings_items@.len() - self.settings_selected,
                    {
                        self.settings_selected = self.settings_selected + 1;
                    }
                }
                Effect::Nothing
            },
            KeyAction::Select => {
                if self.settings_selected < self.settings_items.len() {
                    let mut go_back = false;
                    let eff = match &self.settings_items[self.settings_selected] {
                        SettingsMenuItem::ChangeProvider => Effect::CycleProvider,
                        SettingsMenuItem::Toggle { key, .. } => Effect::ToggleSetting {
                            key: key.clone(),
                        },
                        SettingsMenuItem::EnableAll => Effect::SetAllPrivacy { enabled: true },
                        SettingsMenuItem::DisableAll => Effect::SetAllPrivacy { enabled: false },
                        SettingsMenuItem::Back => {
                            go_back = true;
                            Effect::Nothing
                        },
                        _ => Effect::Nothing,
                    };
                    if go_back {
                        self.state = AppState::MainMenu;
                    }
                    eff
                } else {
                    Effect::Nothing
                }
            },
            KeyAction::Back => {
                self.state = AppState::MainMenu;
                Effect::Nothing
            },
            KeyAction::Quit => {
                self.running = false;
                Effect::Nothing
            },
            _ => Effect::Nothing,
        }
    }

    /// Routes one key press to the active state's handler; no input is
    /// accepted while a query is loading.
    pub fn handle_key(&mut self, key: crate::events::KeyPress, mods: crate::events::KeyMods) -> (r:
        Effect)
        requires
            old(self).wf(),
        ensures
            final(self).wf(),
            match old(self).state {
                AppState::MainMenu => main_menu_key_post(
                    *old(self),
                    *final(self),
                    crate::events::key_to_action_spec(key, mods),
                    r,
                ),
                AppState::PromptInput => input_key_post(
                    *old(self),
                    *final(self),
                    crate::events::key_to_input_action_spec(key, mods),
                    r,
                ),
                AppState::Loading => *final(self) == *old(self) && (r is Nothing),
                AppState::ShowingResult { .. } => result_key_post(
                    *old(self),
                    *final(self),
                    crate::events::key_to_action_spec(key, mods),
                    r,
                ),
                AppState::ContextView => acknowledge_post(
                    *old(self),
                    *final(self),
                    crate::events::key_to_action_spec(key, mods),
                    r,
                ),
                AppState::SettingsMenu => settings_key_post(
                    *old(self),
                    *final(self),
                    crate::events::key_to_action_spec(key, mods),
                    r,
                ),
                AppState::RecentPrompts => prompts_key_post(
                    *old(self),
                    *final(self),
                    crate::events::key_to_action_spec(key, mods),
                    r,
                ),
                AppState::Error { .. } => acknowledge_post(
                    *old(self),
                    *final(self),
                    crate::events::key_to_action_spec(key, mods),
                    r,
                ),
            },
    {
        match &self.state {
            AppState::MainMenu => {
                let a = crate::events::key_to_action(key, mods);
                self.handle_main_menu_key(a)
            },
            AppState::PromptInput => {
                let a = crate::events::key_to_input_action(key, mods);
                self.handle_input_key(a)
            },
            AppState::Loading => Effect::Nothing,
            AppState::ShowingResult { .. } => {
                let a = crate::events::key_to_action(key, mods);
                self.handle_result_key(a)
            },
            AppState::ContextView => {
                let a = crate::events::key_to_action(key, mods);
                self.handle_context_key(a)
            },
            AppState::SettingsMenu => {
                let a = crate::events::key_to_action(key, mods);
                self.handle_settings_key(a)
            },
            AppState::RecentPrompts => {
                let a = crate::events::key_to_action(key, mods);
                self.handle_prompts_key(a)
            },
            AppState::Error { .. } => {
                let a = crate::events::key_to_action(key, mods);
                self.handle_error_key(a)
            },
        }
    }
}

/// The query lifecycle law: a submitted query shows as `Loading`, and the
/// first terminal poll leaves exactly one terminal state — `ShowingResult`
/// exactly on success, `Error` exactly on failure or disconnection — never
/// both and never neither.
pub proof fn lemma_query_lifecycle(
    pre: App,
    mid: App,
    post: App,
    text: Seq<char>,
    poll: QueryPoll,
    handled: bool,
    eff: Effect,
)
    requires
        submit_transition(pre, mid, text),
        complete_transition(mid, post, poll, handled, eff),
        !(poll is Pending),
    ensures
        mid.state is Loading,
        handled,
        (post.state is ShowingResult) <==> (poll matches QueryPoll::Ready(res) && res is Ok),
        (post.state is ShowingResult) != (post.state is Error),
{
}

} // verus!
