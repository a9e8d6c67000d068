//! Getting one input from the user: by the editor or at the prompt, and what the
//! line that was entered means.

use crate::commands::{
    run_slash_command, slash_outcome, InputResult, InputResultView, Notice, NoticeView,
    SlashOutcome,
};
use crate::paste::{expand_pastes, expanded, Paste, PasteState};
use crate::command_laws::{law_messages_are_no_command, law_refusals_are_retried};
use crate::text::{
    ascii_lower, ascii_lowercase, eq_ignore_ascii_case, is_blank, is_white_space,
    law_trim_empty_iff_blank, law_trim_ignores_padding, law_trim_takes_only_the_ends, strip_prefix,
    trim, trimmed,
};
use vstd::prelude::*;

verus! {

/// Determine whether the editor should be used for every prompt.
///
/// When `goose_prompt_editor` is configured, defaults to `true`. Users can
/// override by explicitly setting `goose_prompt_editor_always` to `false`. When
/// no editor is configured, defaults to `false`.
pub fn should_use_editor_always(
    prompt_editor: Option<&str>,
    editor_always_override: Option<bool>,
) -> (b: bool)
    ensures
        b == editor_always(prompt_editor.deep_view(), editor_always_override),
{
    match editor_always_override {
        Some(always) => always,
        None => match prompt_editor {
            Some(editor) => !editor.is_empty(),
            None => false,
        },
    }
}

/// Whether the editor is used for every prompt: as set, and where it is not set,
/// exactly when an editor is configured under a non-empty name.
pub open spec fn editor_always(
    prompt_editor: Option<Seq<char>>,
    editor_always_override: Option<bool>,
) -> bool {
    match editor_always_override {
        Some(always) => always,
        None => prompt_editor matches Some(editor) && editor.len() > 0,
    }
}

/// Extract recent messages for editor context.
pub fn extract_recent_messages(conversation_messages: Option<&Vec<String>>) -> (r: Vec<String>)
    ensures
        match conversation_messages {
            Some(messages) => r@ == messages@,
            None => r@.len() == 0,
        },
        r.deep_view() == recent_messages(conversation_messages.deep_view()),
{
    match conversation_messages {
        // The messages stand in reverse chronological order (newest first)
        Some(messages) => {
            let r: Vec<String> = messages.clone();
            assert(r@ == messages@);
            assert(r.deep_view() == messages.deep_view());
            r
        },
        None => {
            let r: Vec<String> = Vec::new();
            assert(r.deep_view() == Seq::<Seq<char>>::empty());
            r
        },
    }
}

/// The messages of the conversation, none where there is no conversation.
pub open spec fn recent_messages(conversation: Option<Seq<Seq<char>>>) -> Seq<Seq<char>> {
    match conversation {
        Some(messages) => messages,
        None => Seq::empty(),
    }
}

/// The line `input` as it is submitted: with its chips expanded, where the
/// pastes can be had.
pub fn submitted_line(input: String, pastes: Option<&PasteState>) -> (r: String)
    requires
        pastes matches Some(state) ==> forall|k: int|
            0 <= k < state.pastes@.len() ==> (#[trigger] state.pastes@[k]).marker@.len() > 0,
    ensures
        r@ == (match pastes {
            Some(state) => expanded(input@, state.blocks()),
            None => input@,
        }),
{
    match pastes {
        Some(state) => {
            let pastes: &[Paste] = state.pastes.as_slice();
            assert(pastes.deep_view() == state.blocks());
            expand_pastes(input.as_str(), pastes)
        },
        None => input,
    }
}

/// What a submitted line asks for, and what is shown beside it.
#[derive(Debug)]
pub struct LineOutcome {
    pub notice: Option<Notice>,
    pub result: InputResult,
}

/// A [`LineOutcome`] with its strings as character sequences.
pub struct LineOutcomeView {
    pub notice: Option<NoticeView>,
    pub result: InputResultView,
}

impl DeepView for LineOutcome {
    type V = LineOutcomeView;

    open spec fn deep_view(&self) -> LineOutcomeView {
        LineOutcomeView { notice: self.notice.deep_view(), result: self.result.deep_view() }
    }
}

/// The outcome that shows nothing.
pub open spec fn plain(result: InputResultView) -> LineOutcomeView {
    LineOutcomeView { notice: None, result }
}

/// The outcome of the line `input`. A line that begins with a slash is a command
/// if there is such a command; any other line is a message, unless it is blank or
/// asks to leave.
pub open spec fn line_outcome(input: Seq<char>) -> LineOutcomeView {
    if "/"@.is_prefix_of(input) {
        match slash_outcome(input).result {
            Some(result) => LineOutcomeView { notice: slash_outcome(input).notice, result },
            None => plain(InputResultView::Message(trimmed(input))),
        }
    } else if trimmed(input).len() == 0 {
        plain(InputResultView::Retry)
    } else if ascii_lowercase(trimmed(input)) == "exit"@ || ascii_lowercase(trimmed(input))
        == "quit"@ {
        plain(InputResultView::Exit)
    } else {
        plain(InputResultView::Message(trimmed(input)))
    }
}

/// Finds out what the line `input` asks for.
pub fn interpret_line(input: &str) -> (r: LineOutcome)
    ensures
        r.deep_view() == line_outcome(input@),
{
    // Handle non-slash commands first
    if strip_prefix(input, "/").is_none() {
        let text: String = trim(input);
        if text.as_str().is_empty() {
            return LineOutcome { notice: None, result: InputResult::Retry };
        }
        proof {
            lemma_leaving_words();
        }
        if eq_ignore_ascii_case(text.as_str(), "exit") || eq_ignore_ascii_case(
            text.as_str(),
            "quit",
        ) {
            return LineOutcome { notice: None, result: InputResult::Exit };
        }
        return LineOutcome { notice: None, result: InputResult::Message(text) };
    }
    // Handle slash commands
    let SlashOutcome { notice, result } = run_slash_command(input);
    match result {
        Some(result) => LineOutcome { notice, result },
        None => LineOutcome { notice: None, result: InputResult::Message(trim(input)) },
    }
}

proof fn lemma_leaving_words()
    ensures
        ascii_lowercase("exit"@) == "exit"@,
        ascii_lowercase("quit"@) == "quit"@,
{
    reveal_strlit("exit");
    reveal_strlit("quit");
}

/// Why no line could be read.
#[derive(Clone, Copy, Debug)]
pub enum ReadFailure {
    /// Ctrl+C on an empty line.
    Interrupted,
    /// The end of the input.
    Eof,
    /// Anything else.
    Other,
}

/// Why no input could be had.
#[derive(Clone, Copy, Debug)]
pub enum InputFailure {
    /// The editor could not be run.
    Editor,
    /// The line editor has no helper. This is reported as [`NO_HELPER`].
    NoHelper,
    /// No line could be read, for another reason than an interrupt or the end of
    /// the input.
    Read,
    /// The history did not take the entry.
    History,
}

/// The report of a line editor without a helper.
pub const NO_HELPER: &'static str = "Editor helper not set";

/// How far getting an input has come.
#[derive(Debug)]
pub enum InputPhase {
    /// The configuration is being read.
    Configuring,
    /// The editor's command is being looked up.
    FindingEditor,
    /// The editor is open.
    Editing,
    /// The line editor's helper is being looked up.
    FindingHelper,
    /// The prompt waits for a line.
    Prompting,
    /// The input is being added to the history; then this is the outcome.
    Recording(LineOutcome),
    /// The input has been handed out, or getting one has failed.
    Finished,
}

/// What happened.
#[derive(Debug)]
pub enum InputEvent {
    /// The configuration says this.
    Configured { prompt_editor: Option<String>, editor_always: Option<bool> },
    /// The configured editor's command, if there is one.
    EditorFound(Option<String>),
    /// The editor was closed.
    Edited { message: String, has_meaningful_content: bool },
    /// The editor could not be run.
    EditorFailed,
    /// The line editor has a helper.
    HelperFound,
    /// The line editor has no helper.
    HelperMissing,
    /// A line was submitted, with its chips expanded.
    LineRead(String),
    /// No line could be read.
    ReadFailed(ReadFailure),
    /// The history took the entry.
    Recorded,
    /// The history did not take the entry.
    HistoryFailed,
}

/// What is to be done next.
#[derive(Debug)]
pub enum InputAction {
    /// Read the configuration.
    ReadConfig,
    /// Look up the configured editor's command.
    FindEditor,
    /// Open this editor on these messages.
    OpenEditor { command: String, messages: Vec<String> },
    /// Look up the line editor's helper.
    FindHelper,
    /// Bind the keys, see [`crate::keys::key_bindings`], and read a line at the
    /// prompt.
    ReadLine,
    /// Add an entry to the history.
    Record(String),
    /// Show the notice, and hand out the result.
    Finish(LineOutcome),
    /// Report why no input could be had.
    Fail(InputFailure),
    /// Nothing: what happened was not asked for.
    Wait,
}

/// An [`InputPhase`] with its strings as character sequences.
pub enum InputPhaseView {
    Configuring,
    FindingEditor,
    Editing,
    FindingHelper,
    Prompting,
    Recording(LineOutcomeView),
    Finished,
}

/// An [`InputEvent`] with its strings as character sequences.
pub enum InputEventView {
    Configured { prompt_editor: Option<Seq<char>>, editor_always: Option<bool> },
    EditorFound(Option<Seq<char>>),
    Edited { message: Seq<char>, has_meaningful_content: bool },
    EditorFailed,
    HelperFound,
    HelperMissing,
    LineRead(Seq<char>),
    ReadFailed(ReadFailure),
    Recorded,
    HistoryFailed,
}

/// An [`InputAction`] with its strings as character sequences.
pub enum InputActionView {
    ReadConfig,
    FindEditor,
    OpenEditor { command: Seq<char>, messages: Seq<Seq<char>> },
    FindHelper,
    ReadLine,
    Record(Seq<char>),
    Finish(LineOutcomeView),
    Fail(InputFailure),
    Wait,
}

impl DeepView for InputPhase {
    type V = InputPhaseView;

    open spec fn deep_view(&self) -> InputPhaseView {
        match self {
            InputPhase::Configuring => InputPhaseView::Configuring,
            InputPhase::FindingEditor => InputPhaseView::FindingEditor,
            InputPhase::Editing => InputPhaseView::Editing,
            InputPhase::FindingHelper => InputPhaseView::FindingHelper,
            InputPhase::Prompting => InputPhaseView::Prompting,
            InputPhase::Recording(outcome) => InputPhaseView::Recording(outcome.deep_view()),
            InputPhase::Finished => InputPhaseView::Finished,
        }
    }
}

impl DeepView for InputEvent {
    type V = InputEventView;

    open spec fn deep_view(&self) -> InputEventView {
        match self {
            InputEvent::Configured { prompt_editor, editor_always } => InputEventView::Configured {
                prompt_editor: prompt_editor.deep_view(),
                editor_always: *editor_always,
            },
            InputEvent::EditorFound(command) => InputEventView::EditorFound(command.deep_view()),
            InputEvent::Edited { message, has_meaningful_content } => InputEventView::Edited {
                message: message@,
                has_meaningful_content: *has_meaningful_content,
            },
            InputEvent::EditorFailed => InputEventView::EditorFailed,
            InputEvent::HelperFound => InputEventView::HelperFound,
            InputEvent::HelperMissing => InputEventView::HelperMissing,
            InputEvent::LineRead(line) => InputEventView::LineRead(line@),
            InputEvent::ReadFailed(failure) => InputEventView::ReadFailed(*failure),
            InputEvent::Recorded => InputEventView::Recorded,
            InputEvent::HistoryFailed => InputEventView::HistoryFailed,
        }
    }
}

impl DeepView for InputAction {
    type V = InputActionView;

    open spec fn deep_view(&self) -> InputActionView {
        match self {
            InputAction::ReadConfig => InputActionView::ReadConfig,
            InputAction::FindEditor => InputActionView::FindEditor,
            InputAction::OpenEditor { command, messages } => InputActionView::OpenEditor {
                command: command@,
                messages: messages.deep_view(),
            },
            InputAction::FindHelper => InputActionView::FindHelper,
            InputAction::ReadLine => InputActionView::ReadLine,
            InputAction::Record(entry) => InputActionView::Record(entry@),
            InputAction::Finish(outcome) => InputActionView::Finish(outcome.deep_view()),
            InputAction::Fail(failure) => InputActionView::Fail(*failure),
            InputAction::Wait => InputActionView::Wait,
        }
    }
}

/// Getting an input is over: `failure` is reported.
pub open spec fn failed(failure: InputFailure) -> (InputPhaseView, InputActionView) {
    (InputPhaseView::Finished, InputActionView::Fail(failure))
}

/// Where `event` takes getting an input in a session with this conversation, and
/// what is to be done then.
pub open spec fn next_step(
    phase: InputPhaseView,
    event: InputEventView,
    conversation: Option<Seq<Seq<char>>>,
) -> (InputPhaseView, InputActionView) {
    match (phase, event) {
        (
            InputPhaseView::Configuring,
            InputEventView::Configured { prompt_editor, editor_always: set },
        ) => if editor_always(prompt_editor, set) {
            (InputPhaseView::FindingEditor, InputActionView::FindEditor)
        } else {
            (InputPhaseView::FindingHelper, InputActionView::FindHelper)
        },
        (InputPhaseView::FindingEditor, InputEventView::EditorFound(command)) => match command {
            Some(command) if command.len() > 0 => (
                InputPhaseView::Editing,
                InputActionView::OpenEditor { command, messages: recent_messages(conversation) },
            ),
            _ => (InputPhaseView::FindingHelper, InputActionView::FindHelper),
        },
        (
            InputPhaseView::Editing,
            InputEventView::Edited { message, has_meaningful_content },
        ) => if has_meaningful_content {
            (
                InputPhaseView::Recording(plain(InputResultView::Message(message))),
                InputActionView::Record(message),
            )
        } else {
            (InputPhaseView::FindingHelper, InputActionView::FindHelper)
        },
        (InputPhaseView::Editing, InputEventView::EditorFailed) => failed(InputFailure::Editor),
        (InputPhaseView::FindingHelper, InputEventView::HelperFound) => (
            InputPhaseView::Prompting,
            InputActionView::ReadLine,
        ),
        (InputPhaseView::FindingHelper, InputEventView::HelperMissing) => failed(
            InputFailure::NoHelper,
        ),
        (InputPhaseView::Prompting, InputEventView::LineRead(line)) => if trimmed(line).len() > 0 {
            (InputPhaseView::Recording(line_outcome(line)), InputActionView::Record(line))
        } else {
            (InputPhaseView::Finished, InputActionView::Finish(line_outcome(line)))
        },
        (InputPhaseView::Prompting, InputEventView::ReadFailed(failure)) => match failure {
            ReadFailure::Other => failed(InputFailure::Read),
            _ => (
                InputPhaseView::Finished,
                InputActionView::Finish(plain(InputResultView::Exit)),
            ),
        },
        (InputPhaseView::Recording(outcome), InputEventView::Recorded) => (
            InputPhaseView::Finished,
            InputActionView::Finish(outcome),
        ),
        (InputPhaseView::Recording(_), InputEventView::HistoryFailed) => failed(
            InputFailure::History,
        ),
        _ => (phase, InputActionView::Wait),
    }
}

/// The beginning of getting an input.
pub fn begin_input() -> (r: (InputPhase, InputAction))
    ensures
        r.0 is Configuring,
        r.1 is ReadConfig,
{
    (InputPhase::Configuring, InputAction::ReadConfig)
}

/// One step of getting an input: from what happened to what is to be done next.
pub fn get_input(
    phase: InputPhase,
    event: InputEvent,
    conversation_messages: Option<&Vec<String>>,
) -> (r: (InputPhase, InputAction))
    ensures
        (r.0.deep_view(), r.1.deep_view()) == next_step(
            phase.deep_view(),
            event.deep_view(),
            conversation_messages.deep_view(),
        ),
{
    match (phase, event) {
        (
            InputPhase::Configuring,
            InputEvent::Configured { prompt_editor, editor_always },
        ) => {
            let use_editor: bool = match &prompt_editor {
                Some(editor) => should_use_editor_always(Some(editor.as_str()), editor_always),
                None => should_use_editor_always(None, editor_always),
            };
            if use_editor {
                (InputPhase::FindingEditor, InputAction::FindEditor)
            } else {
                (InputPhase::FindingHelper, InputAction::FindHelper)
            }
        },
        (InputPhase::FindingEditor, InputEvent::EditorFound(command)) => {
            match command {
                Some(command) => {
                    if command.as_str().is_empty() {
                        (InputPhase::FindingHelper, InputAction::FindHelper)
                    } else {
                        let messages: Vec<String> = extract_recent_messages(
                            conversation_messages,
                        );
                        (InputPhase::Editing, InputAction::OpenEditor { command, messages })
                    }
                },
                None => (InputPhase::FindingHelper, InputAction::FindHelper),
            }
        },
        (InputPhase::Editing, InputEvent::Edited { message, has_meaningful_content }) => {
            if has_meaningful_content {
                let entry: String = message.clone();
                let outcome: LineOutcome = LineOutcome {
                    notice: None,
                    result: InputResult::Message(message),
                };
                (InputPhase::Recording(outcome), InputAction::Record(entry))
            } else {
                // Empty editor content: fall through to inline prompt
                (InputPhase::FindingHelper, InputAction::FindHelper)
            }
        },
        (InputPhase::Editing, InputEvent::EditorFailed) => {
            (InputPhase::Finished, InputAction::Fail(InputFailure::Editor))
        },
        (InputPhase::FindingHelper, InputEvent::HelperFound) => {
            (InputPhase::Prompting, InputAction::ReadLine)
        },
        (InputPhase::FindingHelper, InputEvent::HelperMissing) => {
            (InputPhase::Finished, InputAction::Fail(InputFailure::NoHelper))
        },
        (InputPhase::Prompting, InputEvent::LineRead(line)) => {
            let outcome: LineOutcome = interpret_line(line.as_str());
            // Add valid input to history
            if trim(line.as_str()).as_str().is_empty() {
                (InputPhase::Finished, InputAction::Finish(outcome))
            } else {
                (InputPhase::Recording(outcome), InputAction::Record(line))
            }
        },
        (InputPhase::Prompting, InputEvent::ReadFailed(failure)) => {
            match failure {
                ReadFailure::Other => {
                    (InputPhase::Finished, InputAction::Fail(InputFailure::Read))
                },
                _ => {
                    let outcome: LineOutcome = LineOutcome {
                        notice: None,
                        result: InputResult::Exit,
                    };
                    (InputPhase::Finished, InputAction::Finish(outcome))
                },
            }
        },
        (InputPhase::Recording(outcome), InputEvent::Recorded) => {
            (InputPhase::Finished, InputAction::Finish(outcome))
        },
        (InputPhase::Recording(_), InputEvent::HistoryFailed) => {
            (InputPhase::Finished, InputAction::Fail(InputFailure::History))
        },
        (phase, _) => (phase, InputAction::Wait),
    }
}

/// An explicit setting decides whether the editor is used for every prompt,
/// whatever editor is configured.
pub proof fn law_explicit_setting_wins(prompt_editor: Option<Seq<char>>, always: bool)
    ensures
        editor_always(prompt_editor, Some(always)) == always,
{
}

/// A line that names no command is sent as a message, without the white space
/// around it: nothing that is entered is lost.
pub proof fn law_unknown_command_is_a_message(input: Seq<char>)
    requires
        "/"@.is_prefix_of(input),
        slash_outcome(input).result is None,
    ensures
        line_outcome(input) == plain(InputResultView::Message(trimmed(input))),
{
}

/// A blank line asks for another one, and only such a line does, besides the
/// commands that are answered on the spot.
pub proof fn law_blank_line_is_retried(input: Seq<char>)
    ensures
        is_blank(input) ==> line_outcome(input) == plain(InputResultView::Retry),
        line_outcome(input) == plain(InputResultView::Retry) ==> is_blank(input),
{
    law_trim_empty_iff_blank(input);
    reveal_strlit("/");
    if "/"@.is_prefix_of(input) {
        assert(input[0] == "/"@[0]);
        assert(!is_blank(input));
        law_refusals_are_retried(input);
    }
}

/// White space around a line that does not begin with a slash changes nothing,
/// as long as the line still does not.
pub proof fn law_padded_message_is_the_same(before: Seq<char>, input: Seq<char>, after: Seq<char>)
    requires
        is_blank(before),
        is_blank(after),
        !("/"@.is_prefix_of(input)),
    ensures
        line_outcome(before + input + after) == line_outcome(input),
{
    law_trim_ignores_padding(before, input, after);
    reveal_strlit("/");
    let padded = before + input + after;
    if "/"@.is_prefix_of(padded) {
        assert(padded[0] == "/"@[0]);
        if before.len() > 0 {
            assert(padded[0] == before[0]);
        } else if input.len() > 0 {
            assert(padded[0] == input[0]);
            assert("/"@ =~= input.subrange(0, 1));
        } else {
            assert(padded[0] == after[0]);
        }
    }
}

/// `exit` and `quit` leave the session in any case and with white space around.
pub proof fn law_leaving_ignores_case(before: Seq<char>, word: Seq<char>, after: Seq<char>)
    requires
        is_blank(before),
        is_blank(after),
        ascii_lowercase(word) == "exit"@ || ascii_lowercase(word) == "quit"@,
    ensures
        line_outcome(before + word + after) == plain(InputResultView::Exit),
{
    reveal_strlit("exit");
    reveal_strlit("quit");
    reveal_strlit("/");
    assert(ascii_lowercase(word).len() == word.len());
    assert(ascii_lowercase(word)[0] == ascii_lower(word[0]));
    assert(ascii_lowercase(word)[3] == ascii_lower(word[3]));
    assert(trimmed(word) == word);
    if "/"@.is_prefix_of(word) {
        assert(word[0] == "/"@[0]);
    }
    law_padded_message_is_the_same(before, word, after);
}

/// How many steps are left at most in `phase`.
pub open spec fn steps_left(phase: InputPhaseView) -> nat {
    match phase {
        InputPhaseView::Configuring => 6,
        InputPhaseView::FindingEditor => 5,
        InputPhaseView::Editing => 4,
        InputPhaseView::FindingHelper => 3,
        InputPhaseView::Prompting => 2,
        InputPhaseView::Recording(_) => 1,
        InputPhaseView::Finished => 0,
    }
}

/// Getting an input comes to an end: every event that was asked for brings it
/// closer, and any other changes nothing.
pub proof fn law_input_comes_to_an_end(
    phase: InputPhaseView,
    event: InputEventView,
    conversation: Option<Seq<Seq<char>>>,
)
    ensures
        ({
            let (next, action) = next_step(phase, event, conversation);
            &&& action is Wait ==> next == phase
            &&& !(action is Wait) ==> steps_left(next) < steps_left(phase)
        }),
{
}

/// An input is handed out, or the failure reported, exactly when getting it is
/// finished.
pub proof fn law_finish_is_final(
    phase: InputPhaseView,
    event: InputEventView,
    conversation: Option<Seq<Seq<char>>>,
)
    requires
        !(phase is Finished),
    ensures
        ({
            let (next, action) = next_step(phase, event, conversation);
            next is Finished <==> action is Finish || action is Fail
        }),
{
}

/// Whatever goes wrong, be it the editor, the helper, the prompt or the history,
/// ends getting an input with a report of it, and nothing else does: an interrupt
/// or the end of the input is no failure.
pub proof fn law_failures_are_reported(
    phase: InputPhaseView,
    event: InputEventView,
    conversation: Option<Seq<Seq<char>>>,
    failure: InputFailure,
)
    ensures
        next_step(phase, event, conversation) == failed(failure) <==> (match failure {
            InputFailure::Editor => phase is Editing && event is EditorFailed,
            InputFailure::NoHelper => phase is FindingHelper && event is HelperMissing,
            InputFailure::Read => phase is Prompting && event == InputEventView::ReadFailed(
                ReadFailure::Other,
            ),
            InputFailure::History => phase is Recording && event is HistoryFailed,
        }),
{
}

/// No key is bound and no line is read before the line editor's helper was found.
pub proof fn law_no_line_without_a_helper(
    phase: InputPhaseView,
    event: InputEventView,
    conversation: Option<Seq<Seq<char>>>,
)
    ensures
        next_step(phase, event, conversation).1 is ReadLine <==> phase is FindingHelper
            && event is HelperFound,
        next_step(phase, event, conversation).0 is Prompting && !(phase is Prompting)
            ==> phase is FindingHelper && event is HelperFound,
{
}

/// The editor is opened under the command that is configured, on the messages of
/// the conversation as they stand.
pub proof fn law_editor_opens_on_the_conversation(
    command: Seq<char>,
    messages: Seq<Seq<char>>,
)
    requires
        command.len() > 0,
    ensures
        next_step(
            InputPhaseView::FindingEditor,
            InputEventView::EditorFound(Some(command)),
            Some(messages),
        ).1 == (InputActionView::OpenEditor { command, messages }),
{
}

/// What goes to the history at the prompt is the submitted line as it stands, and
/// a blank line does not go there.
pub proof fn law_history_takes_non_blank_lines(
    line: Seq<char>,
    conversation: Option<Seq<Seq<char>>>,
)
    ensures
        next_step(InputPhaseView::Prompting, InputEventView::LineRead(line), conversation).1 == (
        if is_blank(line) {
            InputActionView::Finish(plain(InputResultView::Retry))
        } else {
            InputActionView::Record(line)
        }),
{
    law_trim_empty_iff_blank(line);
    law_blank_line_is_retried(line);
}

/// A line that went to the history is answered by what it asks for.
pub proof fn law_recorded_line_is_answered(
    line: Seq<char>,
    conversation: Option<Seq<Seq<char>>>,
)
    requires
        !is_blank(line),
    ensures
        ({
            let recording = next_step(
                InputPhaseView::Prompting,
                InputEventView::LineRead(line),
                conversation,
            ).0;
            next_step(recording, InputEventView::Recorded, conversation).1
                == InputActionView::Finish(line_outcome(line))
        }),
{
    law_trim_empty_iff_blank(line);
}

/// What the editor leaves is sent word for word, slash or not, if it has
/// meaningful content; if not, the prompt takes over.
pub proof fn law_editor_message_is_kept(
    message: Seq<char>,
    conversation: Option<Seq<Seq<char>>>,
)
    ensures
        ({
            let (recording, action) = next_step(
                InputPhaseView::Editing,
                InputEventView::Edited { message, has_meaningful_content: true },
                conversation,
            );
            &&& action == InputActionView::Record(message)
            &&& next_step(recording, InputEventView::Recorded, conversation).1
                == InputActionView::Finish(plain(InputResultView::Message(message)))
        }),
        next_step(
            InputPhaseView::Editing,
            InputEventView::Edited { message, has_meaningful_content: false },
            conversation,
        ) == (InputPhaseView::FindingHelper, InputActionView::FindHelper),
{
}

/// Where nothing is set, the editor is used for every prompt exactly when one is
/// configured under a name.
pub proof fn law_configured_editor_is_used(prompt_editor: Option<Seq<char>>)
    ensures
        editor_always(prompt_editor, None) <==> prompt_editor is Some && prompt_editor->0.len() > 0,
{
}

/// A line that begins with no slash and does not ask to leave is sent as a message
/// that is the line itself, character by character, but for the white space at its
/// ends.
pub proof fn law_message_is_the_line_itself(
    before: Seq<char>,
    text: Seq<char>,
    after: Seq<char>,
)
    requires
        is_blank(before),
        is_blank(after),
        text.len() > 0,
        !is_white_space(text[0]),
        !is_white_space(text.last()),
        (before + text + after)[0] != '/',
        ascii_lowercase(text) != "exit"@,
        ascii_lowercase(text) != "quit"@,
    ensures
        line_outcome(before + text + after).result == InputResultView::Message(text),
        line_outcome(before + text + after).notice is None,
{
    let line = before + text + after;
    law_trim_ignores_padding(before, text, after);
    assert(trimmed(text) == text);
    reveal_strlit("/");
    if "/"@.is_prefix_of(line) {
        assert(line[0] == "/"@[0]);
    }
}

/// A message is never made up: it is what was entered, without white space at its
/// ends, be it a plain line or a slash with no command behind it.
pub proof fn law_message_is_what_was_entered(input: Seq<char>, message: Seq<char>)
    requires
        line_outcome(input).result == InputResultView::Message(message),
    ensures
        message.len() > 0,
        !is_white_space(message[0]),
        !is_white_space(message.last()),
        exists|before: Seq<char>, after: Seq<char>|
            is_blank(before) && is_blank(after) && input == #[trigger] (before + message + after),
        line_outcome(input).notice is None,
{
    law_messages_are_no_command(input);
    law_trim_takes_only_the_ends(input);
    law_trim_empty_iff_blank(input);
    reveal_strlit("/");
    if "/"@.is_prefix_of(input) {
        assert(input[0] == "/"@[0]);
        assert(!is_blank(input));
    }
    assert(message == trimmed(input));
}

/// Only `exit` and `quit` leave the session, in any case and with white space
/// around, or as commands in lower case.
pub proof fn law_only_the_leaving_words_leave(input: Seq<char>)
    ensures
        line_outcome(input).result is Exit ==> {
            ||| ascii_lowercase(trimmed(input)) == "exit"@
            ||| ascii_lowercase(trimmed(input)) == "quit"@
            ||| trimmed(input) == "/exit"@
            ||| trimmed(input) == "/quit"@
        },
{
}

/// A line that begins with a slash and is a command has the outcome of the
/// command, with its notice.
pub proof fn law_command_line_runs_the_command(rest: Seq<char>)
    ensures
        ({
            let input = seq!['/'] + rest;
            slash_outcome(input).result matches Some(result) ==> line_outcome(input).result
                == result && line_outcome(input).notice == slash_outcome(input).notice
        }),
{
    reveal_strlit("/");
    let input = seq!['/'] + rest;
    assert("/"@.is_prefix_of(input));
}

/// Only a slash at the very front begins a command: any other line is a message,
/// leaves the session, or is blank, and shows nothing.
pub proof fn law_plain_line_runs_no_command(input: Seq<char>)
    requires
        input.len() == 0 || input[0] != '/',
    ensures
        line_outcome(input).notice is None,
        line_outcome(input).result is Message || line_outcome(input).result is Exit
            || line_outcome(input).result is Retry,
{
    reveal_strlit("/");
    if "/"@.is_prefix_of(input) {
        assert(input[0] == "/"@[0]);
    }
}

/// The editor is looked for exactly when it is used for every prompt; if not, and
/// if none is found, the prompt takes over.
pub proof fn law_prompt_stands_in_for_the_editor(
    prompt_editor: Option<Seq<char>>,
    set: Option<bool>,
    conversation: Option<Seq<Seq<char>>>,
)
    ensures
        ({
            let event = InputEventView::Configured { prompt_editor, editor_always: set };
            next_step(InputPhaseView::Configuring, event, conversation) == if set == Some(true) || (
            set is None && prompt_editor is Some && prompt_editor->0.len() > 0) {
                (InputPhaseView::FindingEditor, InputActionView::FindEditor)
            } else {
                (InputPhaseView::FindingHelper, InputActionView::FindHelper)
            }
        }),
        next_step(
            InputPhaseView::FindingEditor,
            InputEventView::EditorFound(None),
            conversation,
        ) == (InputPhaseView::FindingHelper, InputActionView::FindHelper),
        next_step(
            InputPhaseView::FindingEditor,
            InputEventView::EditorFound(Some(Seq::empty())),
            conversation,
        ) == (InputPhaseView::FindingHelper, InputActionView::FindHelper),
{
}

/// The editor, once opened, is waited for; without a conversation it is opened on
/// no messages.
pub proof fn law_opened_editor_is_waited_for(
    command: Seq<char>,
    conversation: Option<Seq<Seq<char>>>,
)
    requires
        command.len() > 0,
    ensures
        ({
            let (next, action) = next_step(
                InputPhaseView::FindingEditor,
                InputEventView::EditorFound(Some(command)),
                conversation,
            );
            &&& next is Editing
            &&& action is OpenEditor
            &&& action->command == command
            &&& conversation is None ==> action->messages.len() == 0
            &&& conversation matches Some(messages) ==> action->messages == messages
        }),
{
}

/// Once the helper is found a line is read at the prompt; an interrupt or the end
/// of the input there leaves the session quietly.
pub proof fn law_interrupt_leaves_the_session(conversation: Option<Seq<Seq<char>>>)
    ensures
        next_step(InputPhaseView::FindingHelper, InputEventView::HelperFound, conversation) == (
            InputPhaseView::Prompting,
            InputActionView::ReadLine,
        ),
        forall|failure: ReadFailure|
            failure is Interrupted || failure is Eof ==> #[trigger] next_step(
                InputPhaseView::Prompting,
                InputEventView::ReadFailed(failure),
                conversation,
            ) == (
                InputPhaseView::Finished,
                InputActionView::Finish(
                    LineOutcomeView { notice: None, result: InputResultView::Exit },
                ),
            ),
{
}

/// What is handed out once the history has taken an entry is the outcome that was
/// waiting for it, whatever it is.
pub proof fn law_waiting_outcome_is_handed_out(
    outcome: LineOutcomeView,
    conversation: Option<Seq<Seq<char>>>,
)
    ensures
        next_step(
            InputPhaseView::Recording(outcome),
            InputEventView::Recorded,
            conversation,
        ).1 == InputActionView::Finish(outcome),
{
}

/// An event that was not asked for changes nothing.
pub proof fn law_unasked_event_changes_nothing(
    phase: InputPhaseView,
    event: InputEventView,
    conversation: Option<Seq<Seq<char>>>,
)
    requires
        match event {
            InputEventView::Configured { .. } => !(phase is Configuring),
            InputEventView::EditorFound(_) => !(phase is FindingEditor),
            InputEventView::Edited { .. } | InputEventView::EditorFailed => !(phase is Editing),
            InputEventView::HelperFound | InputEventView::HelperMissing => !(
            phase is FindingHelper),
            InputEventView::LineRead(_) | InputEventView::ReadFailed(_) => !(phase is Prompting),
            InputEventView::Recorded | InputEventView::HistoryFailed => !(phase is Recording),
        },
    ensures
        next_step(phase, event, conversation) == (phase, InputActionView::Wait),
{
}

/// A failure ends getting an input, and the report names it.
pub proof fn law_failure_is_named(failure: InputFailure)
    ensures
        failed(failure).0 is Finished,
        failed(failure).1 == InputActionView::Fail(failure),
{
}

} // verus!
