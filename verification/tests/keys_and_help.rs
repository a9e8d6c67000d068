use goose_input::capture::{Capture, ConsoleReply};
use goose_input::commands::Notice;
use goose_input::console::ConsoleRecord;
use goose_input::help::{
    additional_builtin_help, editor_help_text, help_text, join, notice_text, CommandInfo,
};
use goose_input::keys::{
    get_newline_key, key_bindings, typed_char, BoundKey, CtrlCHandler, HintStatus, KeyAction,
    KeyCode, KeyCommand, KeyModifiers, KeyPress, PasteAwareEnterHandler, PasteCaptureHandler,
};
use goose_input::paste::PasteState;

fn command(name: &str, description: &str) -> CommandInfo {
    CommandInfo {
        name: name.to_string(),
        description: description.to_string(),
    }
}

fn modes() -> Vec<String> {
    vec!["auto".to_string(), "approve".to_string(), "chat".to_string()]
}

#[test]
fn help_lists_builtin_agent_commands() {
    let commands = vec![
        command("prompts", "List prompts"),
        command("prompt", "Run a prompt"),
        command("compact", "Compact the conversation"),
        command("clear", "Clear the conversation"),
        command("skills", "List skills"),
        command("status", "Show the status"),
        command("doctor", "Check the setup"),
        command("goal", "Set a goal"),
    ];
    let help = help_text(&modes(), 'j', &commands);

    for command in &commands {
        assert!(
            help.contains(&format!("/{}", command.name)),
            "help output should list /{}",
            command.name
        );
    }
    assert!(help.contains("\nCtrl+J - Add a newline (configurable via GOOSE_CLI_NEWLINE_KEY)\n"));
    assert!(help.contains("information.\n/doctor - Check the setup\n/goal - Set a goal\n/status - "));
}

#[test]
fn help_text_in_full() {
    let help = help_text(&modes(), 'k', &Vec::new());
    let expected = "Available commands:
/exit or /quit - Exit the session
/t - Toggle Light/Dark/Ansi theme
/t <name> - Set theme directly (light, dark, ansi)
/r - Toggle full tool output display (show complete tool parameters without truncation)
/extension <command> - Add a stdio extension (format: ENV1=val1 command args...)
/builtin <names> - Add builtin extensions by name (comma-separated)
/prompts [--extension <name>] - List all available prompts, optionally filtered by extension
/prompt <n> [--info] [key=value...] - Get prompt info or execute a prompt
/mode <name> - Set the goose mode to use (auto, approve, chat)
/model [name] - Show the current model, or switch models for this session while keeping the same provider
/plan <message_text> -  Enters 'plan' mode with optional message. Create a plan based on the current messages and asks user if they want to act on it.
                        If user acts on the plan, goose mode is set to 'auto' and returns to 'normal' goose mode.
                        To warm up goose before using '/plan', we recommend setting '/mode approve' & putting appropriate context into goose.
                        The model is used based on $GOOSE_PLANNER_PROVIDER and $GOOSE_PLANNER_MODEL environment variables.
                        If no model is set, the default model is used.
/endplan - Exit plan mode and return to 'normal' goose mode.
/recipe [filepath] - Generate a recipe from the current conversation and save it to the specified filepath (must end with .yaml).
                       If no filepath is provided, it will be saved to ./recipe.yaml.
/compact - Compact the current conversation to reduce context length while preserving key information.
/status - Show session status: model, provider, mode, and token usage.
/edit [text] - Open your prompt editor to compose a message. Optionally pre-fill with text.
               Uses $GOOSE_PROMPT_EDITOR, $VISUAL, or $EDITOR (in that order).
/skills - List available skills or enable skills by name (usage: /skills [<name>...])
/? or /help - Display this help message
/clear - Clears the current chat history

Navigation:
Enter - Send message
Ctrl+K - Add a newline (configurable via GOOSE_CLI_NEWLINE_KEY)
Ctrl+C - Clear current line if text is entered, otherwise exit the session
Up/Down arrows - Navigate through command history";
    assert_eq!(help, expected);
}

#[test]
fn editor_help_in_full() {
    let expected = "Editor Input:
  /edit opens your configured editor for composing prompts.
  Use '/edit some text' to pre-fill the editor with initial text.
  Previous conversation is included as markdown headings for context.
  Configure editor: goose configure set goose_prompt_editor \"vim\"
  Falls back to $VISUAL or $EDITOR if goose_prompt_editor is not set.
  When goose_prompt_editor is set, the editor is used for every prompt by default.
  To use inline prompts with on-demand /edit: goose configure set goose_prompt_editor_always false";
    assert_eq!(editor_help_text(), expected);
}

#[test]
fn additional_help_leaves_out_what_is_documented() {
    let commands = vec![command("clear", "c"), command("a", "first"), command("b", "second")];
    assert_eq!(additional_builtin_help(&commands), "/a - first\n/b - second");
    assert_eq!(additional_builtin_help(&vec![command("status", "s")]), "");
    assert_eq!(join(&modes(), ", "), modes().join(", "));
    assert_eq!(join(&Vec::new(), ", "), "");
}

#[test]
fn notices_and_their_texts() {
    let commands = vec![command("a", "first")];
    let show = |notice: Notice| notice_text(&notice, &modes(), 'j', &commands);
    assert_eq!(
        show(Notice::Help),
        vec![help_text(&modes(), 'j', &commands), editor_help_text()]
    );
    assert_eq!(
        show(Notice::ThemeUnavailable("blue".to_string())),
        vec!["Theme Unavailable: blue Available themes are: light, dark, ansi"]
    );
    assert_eq!(
        show(Notice::SummarizeRenamed),
        vec!["⚠️  Note: /summarize has been renamed to /compact and will be removed in a future release."]
    );
    assert_eq!(show(Notice::RecipePathNotYaml), vec!["Filepath must end with .yaml"]);
}

#[test]
fn newline_key_is_configurable() {
    assert_eq!(get_newline_key(None), 'j');
    assert_eq!(get_newline_key(Some("")), 'j');
    assert_eq!(get_newline_key(Some("k")), 'k');
    assert_eq!(get_newline_key(Some("Kx")), 'k');
    assert_eq!(get_newline_key(Some("é")), 'é');
    for taken in ["m", "M", "c", "C", "mk"] {
        assert_eq!(get_newline_key(Some(taken)), 'j');
    }
}

#[test]
fn bound_keys() {
    let bound = key_bindings(get_newline_key(Some("K")));
    assert_eq!(bound.len(), 5);
    assert!(matches!(bound[0].key, BoundKey::AnyOther));
    assert!(matches!(bound[0].action, KeyAction::CapturePaste));
    assert!(matches!(bound[1].key, BoundKey::Enter));
    assert!(matches!(bound[1].action, KeyAction::SubmitOrCapture));
    assert!(matches!(bound[2].key, BoundKey::Ctrl('m')));
    assert!(matches!(bound[2].action, KeyAction::SubmitOrCapture));
    assert!(matches!(bound[3].key, BoundKey::Ctrl('k')));
    assert!(matches!(bound[3].action, KeyAction::InsertNewline));
    assert!(matches!(bound[4].key, BoundKey::Ctrl('c')));
    assert!(matches!(bound[4].action, KeyAction::ClearOrExit));
}

#[test]
fn ctrl_c_clears_then_warns_then_exits() {
    let mut handler = CtrlCHandler::new(HintStatus::MaybeExit);
    assert!(matches!(handler.handle("text"), KeyCommand::KillWholeBuffer));
    assert_eq!(handler.hint_status, HintStatus::Default);
    assert!(matches!(handler.handle(""), KeyCommand::Repaint));
    assert_eq!(handler.hint_status, HintStatus::MaybeExit);
    assert!(matches!(handler.handle(""), KeyCommand::Interrupt));
    assert_eq!(handler.hint_status, HintStatus::MaybeExit);
}

fn press(code: KeyCode, modifiers: KeyModifiers) -> Option<KeyPress> {
    Some(KeyPress { code, modifiers })
}

#[test]
fn plain_and_shifted_characters_are_typed() {
    assert_eq!(typed_char(press(KeyCode::Char('a'), KeyModifiers::Plain)), Some('a'));
    assert_eq!(typed_char(press(KeyCode::Char('A'), KeyModifiers::Shift)), Some('A'));
    assert_eq!(typed_char(press(KeyCode::Char('a'), KeyModifiers::Other)), None);
    assert_eq!(typed_char(press(KeyCode::Other, KeyModifiers::Plain)), None);
    assert_eq!(typed_char(None), None);
}

fn burst(text: &str) -> Capture {
    let mut capture = Capture::start();
    capture.reply(ConsoleReply::Pending(2));
    capture.reply(ConsoleReply::Pending(1000));
    for unit in text.encode_utf16() {
        capture.reply(ConsoleReply::Pending(1));
        let record = ConsoleRecord { key_event: true, key_down: true, unit };
        capture.reply(ConsoleReply::Record(Some(record)));
    }
    capture.reply(ConsoleReply::Pending(1));
    capture.reply(ConsoleReply::Record(None));
    capture
}

#[test]
fn capture_handler_inserts_chips() {
    let mut handler = PasteCaptureHandler::new(PasteState::default());
    let key = press(KeyCode::Char('a'), KeyModifiers::Plain);
    assert!(handler.handle(key, &Capture::start()).is_none());
    assert!(matches!(
        handler.handle(key, &burst("\nb")),
        Some(KeyCommand::Insert(text)) if text == "[Pasted 2 lines #1]"
    ));
    assert_eq!(handler.paste_state.pastes[0].content, "a\nb");
    let other = press(KeyCode::Char('a'), KeyModifiers::Other);
    assert!(handler.handle(other, &burst("\nb")).is_none());
    assert_eq!(handler.paste_state.next_id, 1);
}

#[test]
fn enter_handler_accepts_or_folds_in() {
    let mut handler = PasteAwareEnterHandler::new(PasteState::default());
    assert!(matches!(handler.handle(&Capture::start()), KeyCommand::AcceptLine));
    assert!(matches!(
        handler.handle(&burst("x")),
        KeyCommand::Insert(text) if text == "[Pasted 2 lines #1]"
    ));
    assert_eq!(handler.paste_state.pastes[0].content, "\nx");
}
