//! What the views of results, notices and steps show: every value with its own
//! texts, character by character.

use crate::commands::{
    InputResult, InputResultView, Notice, NoticeView, PromptCommandOptions, SlashOutcome,
};
use crate::help::CommandInfo;
use crate::paste::{Paste, PasteState};
use crate::session::{
    InputAction, InputActionView, InputEvent, InputEventView, InputPhase, InputPhaseView,
    LineOutcome,
};
use vstd::prelude::*;

verus! {

/// A result is viewed with the text or the texts that it holds.
pub proof fn law_result_shows_its_texts(result: InputResult)
    ensures
        match (result, result.deep_view()) {
            (InputResult::Message(a), InputResultView::Message(b)) => b == a@,
            (InputResult::AddExtension(a), InputResultView::AddExtension(b)) => b == a@,
            (InputResult::AddBuiltin(a), InputResultView::AddBuiltin(b)) => b == a@,
            (InputResult::SelectTheme(a), InputResultView::SelectTheme(b)) => b == a@,
            (InputResult::GooseMode(a), InputResultView::GooseMode(b)) => b == a@,
            (InputResult::ListPrompts(a), InputResultView::ListPrompts(b)) => {
                &&& a is Some <==> b is Some
                &&& a matches Some(text) ==> b == Some(text@)
            },
            (InputResult::Model(a), InputResultView::Model(b)) => {
                &&& a is Some <==> b is Some
                &&& a matches Some(text) ==> b == Some(text@)
            },
            (InputResult::Recipe(a), InputResultView::Recipe(b)) => {
                &&& a is Some <==> b is Some
                &&& a matches Some(text) ==> b == Some(text@)
            },
            (InputResult::Edit(a), InputResultView::Edit(b)) => {
                &&& a is Some <==> b is Some
                &&& a matches Some(text) ==> b == Some(text@)
            },
            (InputResult::Exit, InputResultView::Exit) => true,
            (InputResult::ToggleTheme, InputResultView::ToggleTheme) => true,
            (InputResult::Retry, InputResultView::Retry) => true,
            (InputResult::EndPlan, InputResultView::EndPlan) => true,
            (InputResult::Clear, InputResultView::Clear) => true,
            (InputResult::Compact, InputResultView::Compact) => true,
            (InputResult::ToggleFullToolOutput, InputResultView::ToggleFullToolOutput) => true,
            (InputResult::ListSkills, InputResultView::ListSkills) => true,
            (InputResult::PromptCommand(a), InputResultView::PromptCommand(b)) => b.name == a.name@
                && b.info == a.info && b.arguments == a.arguments@,
            (InputResult::Plan(a), InputResultView::Plan(b)) => b == a.message_text@,
            (InputResult::LoadSkills(a), InputResultView::LoadSkills(b)) => b.len() == a@.len() && (
            forall|i: int| 0 <= i < a@.len() ==> #[trigger] b[i] == a@[i]@),
            _ => false,
        },
{
}

/// A prompt is viewed with its name, its flag and its arguments.
pub proof fn law_prompt_shows_its_parts(options: PromptCommandOptions)
    ensures
        options.deep_view().name == options.name@,
        options.deep_view().info == options.info,
        options.deep_view().arguments == options.arguments@,
{
}

/// A notice is viewed with the name that it tells.
pub proof fn law_notice_shows_its_name(notice: Notice)
    ensures
        match (notice, notice.deep_view()) {
            (Notice::Help, NoticeView::Help) => true,
            (Notice::ThemeUnavailable(a), NoticeView::ThemeUnavailable(b)) => b == a@,
            (Notice::SummarizeRenamed, NoticeView::SummarizeRenamed) => true,
            (Notice::RecipePathNotYaml, NoticeView::RecipePathNotYaml) => true,
            _ => false,
        },
{
}

/// An outcome is viewed with its notice and its result, where it has them.
pub proof fn law_outcome_shows_both_parts(command: SlashOutcome, line: LineOutcome)
    ensures
        command.notice is Some <==> command.deep_view().notice is Some,
        command.notice matches Some(notice) ==> command.deep_view().notice == Some(
            notice.deep_view(),
        ),
        command.result is Some <==> command.deep_view().result is Some,
        command.result matches Some(result) ==> command.deep_view().result == Some(
            result.deep_view(),
        ),
        line.notice is Some <==> line.deep_view().notice is Some,
        line.notice matches Some(notice) ==> line.deep_view().notice == Some(notice.deep_view()),
        line.deep_view().result == line.result.deep_view(),
{
}

/// A phase is viewed as itself, with the outcome that waits in it.
pub proof fn law_phase_shows_its_outcome(phase: InputPhase)
    ensures
        match (phase, phase.deep_view()) {
            (InputPhase::Configuring, InputPhaseView::Configuring) => true,
            (InputPhase::FindingEditor, InputPhaseView::FindingEditor) => true,
            (InputPhase::Editing, InputPhaseView::Editing) => true,
            (InputPhase::FindingHelper, InputPhaseView::FindingHelper) => true,
            (InputPhase::Prompting, InputPhaseView::Prompting) => true,
            (InputPhase::Recording(a), InputPhaseView::Recording(b)) => b == a.deep_view(),
            (InputPhase::Finished, InputPhaseView::Finished) => true,
            _ => false,
        },
{
}

/// An event is viewed with what happened.
pub proof fn law_event_shows_what_happened(event: InputEvent)
    ensures
        match (event, event.deep_view()) {
            (
                InputEvent::Configured { prompt_editor: a, editor_always: set },
                InputEventView::Configured { prompt_editor: b, editor_always: viewed },
            ) => {
                &&& a is Some <==> b is Some
                &&& a matches Some(editor) ==> b == Some(editor@)
                &&& viewed == set
            },
            (InputEvent::EditorFound(a), InputEventView::EditorFound(b)) => {
                &&& a is Some <==> b is Some
                &&& a matches Some(command) ==> b == Some(command@)
            },
            (
                InputEvent::Edited { message: a, has_meaningful_content: content },
                InputEventView::Edited { message: b, has_meaningful_content: viewed },
            ) => b == a@ && viewed == content,
            (InputEvent::EditorFailed, InputEventView::EditorFailed) => true,
            (InputEvent::HelperFound, InputEventView::HelperFound) => true,
            (InputEvent::HelperMissing, InputEventView::HelperMissing) => true,
            (InputEvent::LineRead(a), InputEventView::LineRead(b)) => b == a@,
            (InputEvent::ReadFailed(a), InputEventView::ReadFailed(b)) => b == a,
            (InputEvent::Recorded, InputEventView::Recorded) => true,
            (InputEvent::HistoryFailed, InputEventView::HistoryFailed) => true,
            _ => false,
        },
{
}

/// An action is viewed with what it is done with.
pub proof fn law_action_shows_what_to_do(action: InputAction)
    ensures
        match (action, action.deep_view()) {
            (InputAction::ReadConfig, InputActionView::ReadConfig) => true,
            (InputAction::FindEditor, InputActionView::FindEditor) => true,
            (
                InputAction::OpenEditor { command: a, messages: held },
                InputActionView::OpenEditor { command: b, messages: viewed },
            ) => {
                &&& b == a@
                &&& viewed.len() == held@.len()
                &&& forall|i: int| 0 <= i < held@.len() ==> #[trigger] viewed[i] == held@[i]@
            },
            (InputAction::FindHelper, InputActionView::FindHelper) => true,
            (InputAction::ReadLine, InputActionView::ReadLine) => true,
            (InputAction::Record(a), InputActionView::Record(b)) => b == a@,
            (InputAction::Finish(a), InputActionView::Finish(b)) => b == a.deep_view(),
            (InputAction::Fail(a), InputActionView::Fail(b)) => b == a,
            (InputAction::Wait, InputActionView::Wait) => true,
            _ => false,
        },
{
}

/// The pastes are viewed one by one, each with its chip and its block.
pub proof fn law_pastes_show_their_blocks(state: PasteState, paste: Paste)
    ensures
        paste.deep_view().marker == paste.marker@,
        paste.deep_view().content == paste.content@,
        state.blocks().len() == state.pastes@.len(),
        forall|i: int|
            0 <= i < state.pastes@.len() ==> #[trigger] state.blocks()[i]
                == state.pastes@[i].deep_view(),
{
}

/// A command is viewed with its name and what it does.
pub proof fn law_command_shows_its_description(command: CommandInfo)
    ensures
        command.deep_view().name == command.name@,
        command.deep_view().description == command.description@,
{
}

} // verus!
