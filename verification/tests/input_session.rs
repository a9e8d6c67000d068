use goose_input::commands::{InputResult, Notice};
use goose_input::session::{
    begin_input, extract_recent_messages, get_input, interpret_line, should_use_editor_always,
    submitted_line, InputAction, InputEvent, InputFailure, InputPhase, ReadFailure, NO_HELPER,
};

#[test]
fn test_editor_always_defaults_true_when_prompt_editor_set() {
    assert!(should_use_editor_always(Some("vim"), None));
}

#[test]
fn test_editor_always_defaults_false_when_no_prompt_editor() {
    assert!(!should_use_editor_always(None, None));
}

#[test]
fn test_editor_always_defaults_false_when_prompt_editor_empty() {
    assert!(!should_use_editor_always(Some(""), None));
}

#[test]
fn test_editor_always_explicit_false_overrides_default() {
    // Even with a prompt editor configured, explicit false wins
    assert!(!should_use_editor_always(Some("vim"), Some(false)));
}

#[test]
fn test_editor_always_explicit_true_without_editor() {
    // Explicit true works even without a prompt editor configured
    assert!(should_use_editor_always(None, Some(true)));
}

#[test]
fn test_editor_always_explicit_true_with_editor() {
    assert!(should_use_editor_always(Some("vim"), Some(true)));
}

#[test]
fn test_editor_always_explicit_false_without_editor() {
    assert!(!should_use_editor_always(None, Some(false)));
}

/// A step in a session without a conversation.
fn step(phase: InputPhase, event: InputEvent) -> (InputPhase, InputAction) {
    get_input(phase, event, None)
}

fn configured(editor: Option<&str>, always: Option<bool>) -> InputEvent {
    InputEvent::Configured {
        prompt_editor: editor.map(String::from),
        editor_always: always,
    }
}

#[test]
fn prompt_without_an_editor() {
    let (phase, action) = begin_input();
    assert!(matches!(action, InputAction::ReadConfig));
    let (phase, action) = step(phase, configured(None, None));
    assert!(matches!(action, InputAction::FindHelper));
    let (phase, action) = step(phase, InputEvent::HelperFound);
    assert!(matches!(action, InputAction::ReadLine));
    let (phase, action) = step(phase, InputEvent::LineRead(" hello \n".to_string()));
    assert!(matches!(action, InputAction::Record(entry) if entry == " hello \n"));
    let (phase, action) = step(phase, InputEvent::Recorded);
    assert!(matches!(phase, InputPhase::Finished));
    match action {
        InputAction::Finish(outcome) => {
            assert!(outcome.notice.is_none());
            assert!(matches!(outcome.result, InputResult::Message(text) if text == "hello"));
        }
        other => panic!("{:?}", other),
    }
}

#[test]
fn editor_message_is_kept_word_for_word() {
    let (phase, _) = begin_input();
    let (phase, action) = step(phase, configured(Some("vim"), None));
    assert!(matches!(action, InputAction::FindEditor));
    let conversation = vec!["newest".to_string(), "older".to_string()];
    let found = InputEvent::EditorFound(Some("vim".to_string()));
    let (phase, action) = get_input(phase, found, Some(&conversation));
    match action {
        InputAction::OpenEditor { command, messages } => {
            assert_eq!(command, "vim");
            assert_eq!(messages, conversation);
        }
        other => panic!("{:?}", other),
    }
    let edited = InputEvent::Edited {
        message: " /exit ".to_string(),
        has_meaningful_content: true,
    };
    let (phase, action) = step(phase, edited);
    assert!(matches!(action, InputAction::Record(entry) if entry == " /exit "));
    let (_, action) = step(phase, InputEvent::Recorded);
    match action {
        InputAction::Finish(outcome) => {
            assert!(matches!(outcome.result, InputResult::Message(text) if text == " /exit "));
        }
        other => panic!("{:?}", other),
    }
}

#[test]
fn prompt_takes_over_from_the_editor() {
    // Nothing was written.
    let edited = InputEvent::Edited {
        message: "template".to_string(),
        has_meaningful_content: false,
    };
    let (phase, action) = step(InputPhase::Editing, edited);
    assert!(matches!(phase, InputPhase::FindingHelper));
    assert!(matches!(action, InputAction::FindHelper));
    // The editor is asked for, but none is configured.
    let (phase, _) = begin_input();
    let (phase, action) = step(phase, configured(None, Some(true)));
    assert!(matches!(action, InputAction::FindEditor));
    let (_, action) = step(phase, InputEvent::EditorFound(None));
    assert!(matches!(action, InputAction::FindHelper));
    let (_, action) =
        step(InputPhase::FindingEditor, InputEvent::EditorFound(Some(String::new())));
    assert!(matches!(action, InputAction::FindHelper));
    // The editor is configured, but not for every prompt.
    let (phase, _) = begin_input();
    let (_, action) = step(phase, configured(Some("vim"), Some(false)));
    assert!(matches!(action, InputAction::FindHelper));
}

#[test]
fn read_failures() {
    for failure in [ReadFailure::Interrupted, ReadFailure::Eof] {
        let (_, action) = step(InputPhase::Prompting, InputEvent::ReadFailed(failure));
        match action {
            InputAction::Finish(outcome) => assert!(matches!(outcome.result, InputResult::Exit)),
            other => panic!("{:?}", other),
        }
    }
    let (_, action) =
        step(InputPhase::Prompting, InputEvent::ReadFailed(ReadFailure::Other));
    assert!(matches!(action, InputAction::Fail(InputFailure::Read)));
}

#[test]
fn failures_end_the_input() {
    let (phase, action) = step(InputPhase::Editing, InputEvent::EditorFailed);
    assert!(matches!(phase, InputPhase::Finished));
    assert!(matches!(action, InputAction::Fail(InputFailure::Editor)));

    let (phase, action) = step(InputPhase::FindingHelper, InputEvent::HelperMissing);
    assert!(matches!(phase, InputPhase::Finished));
    assert!(matches!(action, InputAction::Fail(InputFailure::NoHelper)));
    assert_eq!(NO_HELPER, "Editor helper not set");

    let (phase, _) = step(InputPhase::Prompting, InputEvent::LineRead("hello".to_string()));
    let (phase, action) = step(phase, InputEvent::HistoryFailed);
    assert!(matches!(phase, InputPhase::Finished));
    assert!(matches!(action, InputAction::Fail(InputFailure::History)));
}

#[test]
fn editor_without_a_conversation() {
    let found = InputEvent::EditorFound(Some("vim".to_string()));
    let (_, action) = step(InputPhase::FindingEditor, found);
    assert!(matches!(
        action,
        InputAction::OpenEditor { command, messages } if command == "vim" && messages.is_empty()
    ));
}

#[test]
fn blank_lines_are_retried_and_not_recorded() {
    for line in ["", "   ", "\t\u{3000}\n"] {
        let (phase, action) =
            step(InputPhase::Prompting, InputEvent::LineRead(line.to_string()));
        assert!(matches!(phase, InputPhase::Finished));
        match action {
            InputAction::Finish(outcome) => assert!(matches!(outcome.result, InputResult::Retry)),
            other => panic!("{:?}", other),
        }
    }
}

#[test]
fn unasked_events_change_nothing() {
    let (phase, action) = step(InputPhase::Prompting, InputEvent::Recorded);
    assert!(matches!(phase, InputPhase::Prompting));
    assert!(matches!(action, InputAction::Wait));
    let (phase, action) = step(InputPhase::Finished, configured(None, None));
    assert!(matches!(phase, InputPhase::Finished));
    assert!(matches!(action, InputAction::Wait));
}

#[test]
fn lines_and_what_they_mean() {
    for line in ["exit", "QUIT", "  Exit  ", "/exit", "/quit  "] {
        assert!(matches!(interpret_line(line).result, InputResult::Exit), "{line}");
    }
    for (line, text) in [
        ("hello", "hello"),
        ("  hello world ", "hello world"),
        ("exit now", "exit now"),
        // Only a slash at the very front begins a command.
        (" /exit", "/exit"),
        // No such command.
        ("/unknown thing ", "/unknown thing"),
        ("/", "/"),
    ] {
        let outcome = interpret_line(line);
        assert!(outcome.notice.is_none());
        assert!(matches!(outcome.result, InputResult::Message(t) if t == text), "{line}");
    }
    let outcome = interpret_line("/help");
    assert!(matches!(outcome.notice, Some(Notice::Help)));
    assert!(matches!(outcome.result, InputResult::Retry));
    assert!(matches!(interpret_line("/clear").result, InputResult::Clear));
}

#[test]
fn recent_messages_are_handed_on() {
    let messages = vec!["newest".to_string(), "older".to_string()];
    assert_eq!(extract_recent_messages(Some(&messages)), messages);
    assert!(extract_recent_messages(None).is_empty());
}

#[test]
fn line_without_pastes_stays() {
    assert_eq!(submitted_line("[Pasted 2 lines #1]".to_string(), None), "[Pasted 2 lines #1]");
}
