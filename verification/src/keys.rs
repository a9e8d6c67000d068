//! What the keys that the session binds do: Ctrl+C, Enter, printable characters
//! and the key for a newline.

use crate::capture::{capture_paste, captures, Capture};
use crate::paste::PasteState;
use crate::text::{ascii_lower, chars_of, to_ascii_lowercase};
use vstd::prelude::*;

verus! {

/// The hint shown under an empty line.
#[derive(Clone, Copy, Debug, PartialEq, Eq, Structural)]
pub enum HintStatus {
    Default,
    /// One more Ctrl+C leaves the session.
    MaybeExit,
}

/// What the line editor is told to do.
#[derive(Debug)]
pub enum KeyCommand {
    /// Clear the whole line.
    KillWholeBuffer,
    /// Leave the session.
    Interrupt,
    /// Draw the line again.
    Repaint,
    /// Insert text at the cursor.
    Insert(String),
    /// Submit the line.
    AcceptLine,
}

/// Handles Ctrl+C.
#[derive(Debug)]
pub struct CtrlCHandler {
    pub hint_status: HintStatus,
}

/// What Ctrl+C does on a line: the hint that is shown then, and the command.
pub open spec fn on_ctrl_c(line: Seq<char>, hint: HintStatus) -> (HintStatus, KeyCommand) {
    if line.len() > 0 {
        (HintStatus::Default, KeyCommand::KillWholeBuffer)
    } else if hint == HintStatus::MaybeExit {
        (hint, KeyCommand::Interrupt)
    } else {
        (HintStatus::MaybeExit, KeyCommand::Repaint)
    }
}

impl CtrlCHandler {
    /// A handler that finds this hint shown.
    pub fn new(hint_status: HintStatus) -> (r: Self)
        ensures
            r.hint_status == hint_status,
    {
        CtrlCHandler { hint_status }
    }

    /// Handle Ctrl+C to clear the line if text is entered, otherwise check if we
    /// should exit.
    pub fn handle(&mut self, line: &str) -> (r: KeyCommand)
        ensures
            (final(self).hint_status, r) == on_ctrl_c(line@, old(self).hint_status),
    {
        if !line.is_empty() {
            // Clear the line if there's text
            self.hint_status = HintStatus::Default;
            KeyCommand::KillWholeBuffer
        } else if self.hint_status == HintStatus::MaybeExit {
            KeyCommand::Interrupt
        } else {
            self.hint_status = HintStatus::MaybeExit;
            KeyCommand::Repaint
        }
    }
}

/// On an empty line the second Ctrl+C in a row leaves the session, whatever the
/// hint was.
pub proof fn law_second_ctrl_c_exits(hint: HintStatus)
    ensures
        on_ctrl_c(Seq::empty(), on_ctrl_c(Seq::empty(), hint).0).1 == KeyCommand::Interrupt,
{
}

/// Ctrl+C on a line with text clears it and never leaves the session; the next
/// one, on the empty line, does not leave it either.
pub proof fn law_ctrl_c_spares_a_line_with_text(line: Seq<char>, hint: HintStatus)
    requires
        line.len() > 0,
    ensures
        on_ctrl_c(line, hint).1 == KeyCommand::KillWholeBuffer,
        on_ctrl_c(Seq::empty(), on_ctrl_c(line, hint).0).1 == KeyCommand::Repaint,
{
}

/// The key of a keystroke.
#[derive(Clone, Copy, Debug)]
pub enum KeyCode {
    Char(char),
    Other,
}

/// The modifiers held down with a key.
#[derive(Clone, Copy, Debug)]
pub enum KeyModifiers {
    Plain,
    Shift,
    Other,
}

/// A keystroke.
#[derive(Clone, Copy, Debug)]
pub struct KeyPress {
    pub code: KeyCode,
    pub modifiers: KeyModifiers,
}

/// The character that the first keystroke of an event types: a character key
/// with no modifier but Shift.
pub open spec fn types_char(press: Option<KeyPress>) -> Option<char> {
    match press {
        Some(KeyPress { code: KeyCode::Char(c), modifiers: KeyModifiers::Plain }) => Some(c),
        Some(KeyPress { code: KeyCode::Char(c), modifiers: KeyModifiers::Shift }) => Some(c),
        _ => None,
    }
}

/// Computes [`types_char`].
pub fn typed_char(press: Option<KeyPress>) -> (r: Option<char>)
    ensures
        r == types_char(press),
{
    match press {
        Some(KeyPress { code: KeyCode::Char(c), modifiers: KeyModifiers::Plain }) => Some(c),
        Some(KeyPress { code: KeyCode::Char(c), modifiers: KeyModifiers::Shift }) => Some(c),
        _ => None,
    }
}

/// Intercepts printable characters so a pasted burst is captured into
/// [`PasteState`] instead of being echoed line by line.
#[derive(Debug)]
pub struct PasteCaptureHandler {
    pub paste_state: PasteState,
}

impl PasteCaptureHandler {
    /// A handler for the line with these pastes.
    pub fn new(paste_state: PasteState) -> (r: Self)
        ensures
            r.paste_state == paste_state,
    {
        PasteCaptureHandler { paste_state }
    }

    /// Handles a keystroke at which `capture` was made. `None` leaves the key to
    /// its usual meaning.
    pub fn handle(&mut self, press: Option<KeyPress>, capture: &Capture) -> (r: Option<KeyCommand>)
        requires
            old(self).paste_state.next_id < usize::MAX,
        ensures
            match types_char(press) {
                Some(first) => {
                    match r {
                        Some(KeyCommand::Insert(text)) => captures(
                            old(self).paste_state,
                            first,
                            *capture,
                            final(self).paste_state,
                            Some(text@),
                        ),
                        Some(_) => false,
                        None => captures(
                            old(self).paste_state,
                            first,
                            *capture,
                            final(self).paste_state,
                            None,
                        ),
                    }
                },
                None => r is None && *final(self) == *old(self),
            },
            old(self).paste_state.well_formed() ==> final(self).paste_state.well_formed(),
    {
        match typed_char(press) {
            Some(first) => match capture_paste(&mut self.paste_state, first, capture) {
                Some(text) => Some(KeyCommand::Insert(text)),
                None => None,
            },
            None => None,
        }
    }
}

/// Handles Enter: a newline that begins a paste burst is folded into the pasted
/// block; a genuine keystroke accepts the line.
#[derive(Debug)]
pub struct PasteAwareEnterHandler {
    pub paste_state: PasteState,
}

impl PasteAwareEnterHandler {
    /// A handler for the line with these pastes.
    pub fn new(paste_state: PasteState) -> (r: Self)
        ensures
            r.paste_state == paste_state,
    {
        PasteAwareEnterHandler { paste_state }
    }

    /// Handles the keystroke at which `capture` was made.
    pub fn handle(&mut self, capture: &Capture) -> (r: KeyCommand)
        requires
            old(self).paste_state.next_id < usize::MAX,
        ensures
            match r {
                KeyCommand::Insert(text) => captures(
                    old(self).paste_state,
                    '\n',
                    *capture,
                    final(self).paste_state,
                    Some(text@),
                ),
                KeyCommand::AcceptLine => captures(
                    old(self).paste_state,
                    '\n',
                    *capture,
                    final(self).paste_state,
                    None,
                ),
                _ => false,
            },
            old(self).paste_state.well_formed() ==> final(self).paste_state.well_formed(),
    {
        match capture_paste(&mut self.paste_state, '\n', capture) {
            Some(text) => KeyCommand::Insert(text),
            None => KeyCommand::AcceptLine,
        }
    }
}

/// The key that, with Ctrl, inserts a newline, when `configured` is the setting.
pub open spec fn newline_key(configured: Option<Seq<char>>) -> char {
    match configured {
        Some(s) if s.len() > 0 && ascii_lower(s[0]) != 'm' && ascii_lower(s[0]) != 'c' =>
            ascii_lower(s[0]),
        _ => 'j',
    }
}

/// The Ctrl-modified character that inserts a newline instead of submitting the
/// prompt. Configurable via `GOOSE_CLI_NEWLINE_KEY`, whose value is `configured`,
/// defaulting to `j` (Ctrl+J). Characters already bound to other actions are
/// rejected: `m` (Ctrl+M is Enter) and `c` (Ctrl+C interrupts), both of which
/// would otherwise shadow the paste and interrupt handlers.
pub fn get_newline_key(configured: Option<&str>) -> (key: char)
    ensures
        key == newline_key(configured.deep_view()),
        key != 'm' && key != 'M' && key != 'c' && key != 'C',
{
    match configured {
        Some(s) => {
            let v: Vec<char> = chars_of(s);
            if v.len() > 0 {
                let key: char = to_ascii_lowercase(v[0]);
                if key != 'm' && key != 'c' {
                    return key;
                }
            }
            'j'
        },
        None => 'j',
    }
}

/// A key that the prompt binds.
#[derive(Clone, Copy, Debug)]
pub enum BoundKey {
    /// Every key that is not bound by itself.
    AnyOther,
    /// Enter without modifiers.
    Enter,
    /// This character with Ctrl.
    Ctrl(char),
}

/// What a bound key does.
#[derive(Clone, Copy, Debug)]
pub enum KeyAction {
    /// [`PasteCaptureHandler`] handles it.
    CapturePaste,
    /// [`PasteAwareEnterHandler`] handles it.
    SubmitOrCapture,
    /// It inserts a newline.
    InsertNewline,
    /// [`CtrlCHandler`] handles it.
    ClearOrExit,
}

/// A key with what it does.
#[derive(Clone, Copy, Debug)]
pub struct KeyBinding {
    pub key: BoundKey,
    pub action: KeyAction,
}

/// The keys that the prompt binds, when `newline_key` inserts a newline.
pub open spec fn bindings(newline_key: char) -> Seq<KeyBinding> {
    seq![
        KeyBinding { key: BoundKey::AnyOther, action: KeyAction::CapturePaste },
        KeyBinding { key: BoundKey::Enter, action: KeyAction::SubmitOrCapture },
        KeyBinding { key: BoundKey::Ctrl('m'), action: KeyAction::SubmitOrCapture },
        KeyBinding { key: BoundKey::Ctrl(newline_key), action: KeyAction::InsertNewline },
        KeyBinding { key: BoundKey::Ctrl('c'), action: KeyAction::ClearOrExit },
    ]
}

/// Lists the keys that the prompt binds, in the order in which it binds them.
pub fn key_bindings(newline_key: char) -> (r: Vec<KeyBinding>)
    ensures
        r@ == bindings(newline_key),
{
    vec![
        KeyBinding { key: BoundKey::AnyOther, action: KeyAction::CapturePaste },
        KeyBinding { key: BoundKey::Enter, action: KeyAction::SubmitOrCapture },
        KeyBinding { key: BoundKey::Ctrl('m'), action: KeyAction::SubmitOrCapture },
        KeyBinding { key: BoundKey::Ctrl(newline_key), action: KeyAction::InsertNewline },
        KeyBinding { key: BoundKey::Ctrl('c'), action: KeyAction::ClearOrExit },
    ]
}

/// Whatever is configured, no key is bound twice: the newline key shadows neither
/// Enter nor Ctrl+C.
pub proof fn law_no_key_is_bound_twice(configured: Option<Seq<char>>)
    ensures
        forall|i: int, j: int|
            #![trigger bindings(newline_key(configured))[i], bindings(newline_key(configured))[j]]
            0 <= i < j < bindings(newline_key(configured)).len() ==> bindings(
                newline_key(configured),
            )[i].key != bindings(newline_key(configured))[j].key,
{
}

/// The session is left by Ctrl+C exactly on an empty line that warns of it. On any
/// other empty line Ctrl+C warns and does no more; on a line with text it clears
/// the line and the warning.
pub proof fn law_ctrl_c_leaves_only_after_a_warning(line: Seq<char>, hint: HintStatus)
    ensures
        on_ctrl_c(line, hint).1 == KeyCommand::Interrupt <==> line.len() == 0 && hint
            == HintStatus::MaybeExit,
        on_ctrl_c(line, hint).0 == HintStatus::MaybeExit <==> line.len() == 0,
        on_ctrl_c(line, hint).1 == KeyCommand::Repaint <==> line.len() == 0 && hint
            == HintStatus::Default,
        on_ctrl_c(line, hint).1 == KeyCommand::KillWholeBuffer <==> line.len() > 0,
{
}

/// A keystroke types a character exactly when its key is that character, and no
/// modifier but Shift is held down.
pub proof fn law_only_plain_characters_are_typed(press: Option<KeyPress>, c: char)
    ensures
        types_char(press) == Some(c) <==> press is Some && press->0.code == KeyCode::Char(c) && (
        press->0.modifiers is Plain || press->0.modifiers is Shift),
{
}

/// The first character of the setting is the newline key, in lower case, whatever
/// follows it; `j` is it where there is none, or where it would be `m` or `c`.
pub proof fn law_first_character_is_the_newline_key(first: char, rest: Seq<char>)
    ensures
        newline_key(None) == 'j',
        newline_key(Some(Seq::empty())) == 'j',
        first == 'm' || first == 'M' || first == 'c' || first == 'C' ==> newline_key(
            Some(seq![first] + rest),
        ) == 'j',
        !(first == 'm' || first == 'M' || first == 'c' || first == 'C') ==> newline_key(
            Some(seq![first] + rest),
        ) == ascii_lower(first),
{
}

/// What each bound key does, whichever key inserts a newline.
pub proof fn law_bound_keys_do_their_part(newline_key: char, binding: KeyBinding)
    ensures
        bindings(newline_key).contains(binding) <==> (match binding.action {
            KeyAction::CapturePaste => binding.key is AnyOther,
            KeyAction::SubmitOrCapture => binding.key is Enter || binding.key == BoundKey::Ctrl(
                'm',
            ),
            KeyAction::InsertNewline => binding.key == BoundKey::Ctrl(newline_key),
            KeyAction::ClearOrExit => binding.key == BoundKey::Ctrl('c'),
        }),
        bindings(newline_key).len() == 5,
{
    let all = bindings(newline_key);
    assert(all[0].action is CapturePaste && all[1].action is SubmitOrCapture
        && all[2].action is SubmitOrCapture && all[3].action is InsertNewline
        && all[4].action is ClearOrExit);
    assert(all[0].key is AnyOther && all[1].key is Enter);
    if binding == all[0] || binding == all[1] || binding == all[2] || binding == all[3] || binding
        == all[4] {
        assert(all.contains(binding));
    }
}

} // verus!
