//! The texts shown to the user: the help on commands and on the editor, and the
//! notices of commands.

use crate::commands::{Notice, NoticeView};
use crate::text::{ascii_upper, contains_text, eq_str, matches_at, to_ascii_uppercase};
use vstd::prelude::*;

verus! {

pub const HELP_OPENING: &'static str = "Available commands:\n/exit or /quit - Exit the session\n/t - Toggle Light/Dark/Ansi theme\n/t <name> - Set theme directly (light, dark, ansi)\n/r - Toggle full tool output display (show complete tool parameters without truncation)\n/extension <command> - Add a stdio extension (format: ENV1=val1 command args...)\n/builtin <names> - Add builtin extensions by name (comma-separated)\n";

pub const HELP_PROMPTS: &'static str = " [--extension <name>] - List all available prompts, optionally filtered by extension\n";

pub const HELP_PROMPT_AND_MODE: &'static str = " <n> [--info] [key=value...] - Get prompt info or execute a prompt\n/mode <name> - Set the goose mode to use (";

pub const HELP_MODEL_TO_RECIPE: &'static str = ")\n/model [name] - Show the current model, or switch models for this session while keeping the same provider\n/plan <message_text> -  Enters 'plan' mode with optional message. Create a plan based on the current messages and asks user if they want to act on it.\n                        If user acts on the plan, goose mode is set to 'auto' and returns to 'normal' goose mode.\n                        To warm up goose before using '/plan', we recommend setting '/mode approve' & putting appropriate context into goose.\n                        The model is used based on $GOOSE_PLANNER_PROVIDER and $GOOSE_PLANNER_MODEL environment variables.\n                        If no model is set, the default model is used.\n/endplan - Exit plan mode and return to 'normal' goose mode.\n/recipe [filepath] - Generate a recipe from the current conversation and save it to the specified filepath (must end with .yaml).\n                       If no filepath is provided, it will be saved to ./recipe.yaml.\n";

pub const HELP_COMPACT: &'static str = " - Compact the current conversation to reduce context length while preserving key information.";

pub const HELP_STATUS_AND_EDIT: &'static str = " - Show session status: model, provider, mode, and token usage.\n/edit [text] - Open your prompt editor to compose a message. Optionally pre-fill with text.\n               Uses $GOOSE_PROMPT_EDITOR, $VISUAL, or $EDITOR (in that order).\n";

pub const HELP_SKILLS: &'static str = " - List available skills or enable skills by name (usage: /skills [<name>...])\n/? or /help - Display this help message\n";

pub const HELP_CLEAR_AND_ENTER: &'static str = " - Clears the current chat history\n\nNavigation:\nEnter - Send message";

pub const HELP_NEWLINE: &'static str = " - Add a newline (configurable via GOOSE_CLI_NEWLINE_KEY)";

pub const HELP_CLOSING: &'static str = "Ctrl+C - Clear current line if text is entered, otherwise exit the session\nUp/Down arrows - Navigate through command history";

pub const EDITOR_HELP: &'static str = "Editor Input:\n  /edit opens your configured editor for composing prompts.\n  Use '/edit some text' to pre-fill the editor with initial text.\n  Previous conversation is included as markdown headings for context.\n  Configure editor: goose configure set goose_prompt_editor \"vim\"\n  Falls back to $VISUAL or $EDITOR if goose_prompt_editor is not set.\n  When goose_prompt_editor is set, the editor is used for every prompt by default.\n  To use inline prompts with on-demand /edit: goose configure set goose_prompt_editor_always false";

/// A command of the agent, with what it does.
#[derive(Debug)]
pub struct CommandInfo {
    pub name: String,
    pub description: String,
}

/// A [`CommandInfo`] as character sequences.
pub struct CommandInfoView {
    pub name: Seq<char>,
    pub description: Seq<char>,
}

impl DeepView for CommandInfo {
    type V = CommandInfoView;

    open spec fn deep_view(&self) -> CommandInfoView {
        CommandInfoView { name: self.name@, description: self.description@ }
    }
}

/// `lines` with `separator` between each two.
pub open spec fn joined(lines: Seq<Seq<char>>, separator: Seq<char>) -> Seq<char>
    decreases lines.len(),
{
    if lines.len() == 0 {
        Seq::empty()
    } else if lines.len() == 1 {
        lines[0]
    } else {
        joined(lines.drop_last(), separator) + separator + lines.last()
    }
}

/// Joins `lines` with `separator`.
pub fn join(lines: &Vec<String>, separator: &str) -> (r: String)
    ensures
        r@ == joined(lines.deep_view(), separator@),
{
    let ghost views = lines.deep_view();
    let mut r: String = String::new();
    let mut i: usize = 0;
    while i < lines.len()
        invariant
            i <= lines@.len(),
            views == lines.deep_view(),
            r@ == joined(views.take(i as int), separator@),
        decreases lines@.len() - i,
    {
        assert(views.take(i + 1).drop_last() == views.take(i as int));
        assert(views.take(i + 1).last() == lines@[i as int]@);
        if i > 0 {
            r.append(separator);
        }
        r.append(lines[i].as_str());
        i += 1;
    }
    assert(views.take(views.len() as int) == views);
    r
}

/// Puts `parts` together.
fn concat(parts: &Vec<String>) -> (r: String)
    ensures
        r@ == parts.deep_view().flatten(),
{
    let ghost views = parts.deep_view();
    let mut r: String = String::new();
    let mut i: usize = 0;
    assert(views.take(0) == Seq::<Seq<char>>::empty());
    while i < parts.len()
        invariant
            i <= parts@.len(),
            views == parts.deep_view(),
            r@ == views.take(i as int).flatten(),
        decreases parts@.len() - i,
    {
        proof {
            assert(views.take(i + 1) == views.take(i as int).push(parts@[i as int]@));
            views.take(i as int).lemma_flatten_push(parts@[i as int]@);
        }
        r.append(parts[i].as_str());
        i += 1;
    }
    assert(views.take(views.len() as int) == views);
    r
}

/// Whether the help describes the command `name` in words of its own.
pub open spec fn is_documented(name: Seq<char>) -> bool {
    name == "prompts"@ || name == "prompt"@ || name == "compact"@ || name == "clear"@ || name
        == "skills"@ || name == "status"@
}

/// The line of help for a command that has none of its own.
pub open spec fn extra_line(command: CommandInfoView) -> Option<Seq<char>> {
    if is_documented(command.name) {
        None
    } else {
        Some("/"@ + command.name + " - "@ + command.description)
    }
}

/// The lines of help for the commands that have none of their own, in order.
pub open spec fn extra_help(commands: Seq<CommandInfoView>) -> Seq<char> {
    joined(commands.filter_map(|c: CommandInfoView| extra_line(c)), "\n"@)
}

/// Help on the commands that the help does not describe in words of its own.
pub fn additional_builtin_help(commands: &Vec<CommandInfo>) -> (r: String)
    ensures
        r@ == extra_help(commands.deep_view()),
{
    let ghost views = commands.deep_view();
    let ghost extra = |c: CommandInfoView| extra_line(c);
    let mut lines: Vec<String> = Vec::new();
    let mut i: usize = 0;
    assert(lines.deep_view() == views.take(0).filter_map(extra)) by {
        reveal(Seq::filter_map);
    }
    while i < commands.len()
        invariant
            i <= commands@.len(),
            views == commands.deep_view(),
            extra == (|c: CommandInfoView| extra_line(c)),
            lines.deep_view() == views.take(i as int).filter_map(extra),
        decreases commands@.len() - i,
    {
        let name: &str = commands[i].name.as_str();
        let ghost before = lines.deep_view();
        proof {
            views.lemma_filter_map_take_succ(extra, i as int);
            assert(views[i as int] == commands@[i as int].deep_view());
        }
        if !(eq_str(name, "prompts") || eq_str(name, "prompt") || eq_str(name, "compact") || eq_str(
            name,
            "clear",
        ) || eq_str(name, "skills") || eq_str(name, "status")) {
            let mut line: String = String::new();
            line.append("/");
            line.append(name);
            line.append(" - ");
            line.append(commands[i].description.as_str());
            let ghost text = line@;
            assert(text == "/"@ + name@ + " - "@ + commands@[i as int].description@);
            lines.push(line);
            assert(lines.deep_view() == before.push(text));
        }
        i += 1;
    }
    assert(views.take(views.len() as int) == views);
    join(&lines, "\n")
}

/// The parts of the help, one behind the other.
pub open spec fn help_parts(
    modes: Seq<Seq<char>>,
    newline_key: char,
    commands: Seq<CommandInfoView>,
) -> Seq<Seq<char>> {
    let extra = extra_help(commands);
    seq![
        HELP_OPENING@,
        "/prompts"@,
        HELP_PROMPTS@,
        "/prompt"@,
        HELP_PROMPT_AND_MODE@,
        joined(modes, ", "@),
        HELP_MODEL_TO_RECIPE@,
        "/compact"@,
        HELP_COMPACT@,
        "\n"@,
        if extra.len() == 0 {
            extra
        } else {
            extra + "\n"@
        },
        "/status"@,
        HELP_STATUS_AND_EDIT@,
        "/skills"@,
        HELP_SKILLS@,
        "/clear"@,
        HELP_CLEAR_AND_ENTER@,
        "\n"@,
        "Ctrl+"@,
        seq![ascii_upper(newline_key)],
        HELP_NEWLINE@,
        "\n"@,
        HELP_CLOSING@,
    ]
}

/// The help on commands: `modes` are the modes of the session, `newline_key` the
/// key that inserts a newline, and `commands` the commands of the agent.
pub fn help_text(modes: &Vec<String>, newline_key: char, commands: &Vec<CommandInfo>) -> (r: String)
    ensures
        r@ == help_parts(modes.deep_view(), newline_key, commands.deep_view()).flatten(),
{
    let mut extra: String = additional_builtin_help(commands);
    if !extra.as_str().is_empty() {
        extra.append("\n");
    }
    let mut key: String = String::new();
    key.push(to_ascii_uppercase(newline_key));
    let parts: Vec<String> = vec![
        HELP_OPENING.to_owned(),
        "/prompts".to_owned(),
        HELP_PROMPTS.to_owned(),
        "/prompt".to_owned(),
        HELP_PROMPT_AND_MODE.to_owned(),
        join(modes, ", "),
        HELP_MODEL_TO_RECIPE.to_owned(),
        "/compact".to_owned(),
        HELP_COMPACT.to_owned(),
        "\n".to_owned(),
        extra,
        "/status".to_owned(),
        HELP_STATUS_AND_EDIT.to_owned(),
        "/skills".to_owned(),
        HELP_SKILLS.to_owned(),
        "/clear".to_owned(),
        HELP_CLEAR_AND_ENTER.to_owned(),
        "\n".to_owned(),
        "Ctrl+".to_owned(),
        key,
        HELP_NEWLINE.to_owned(),
        "\n".to_owned(),
        HELP_CLOSING.to_owned(),
    ];
    assert(parts.deep_view() =~= help_parts(
        modes.deep_view(),
        newline_key,
        commands.deep_view(),
    ));
    concat(&parts)
}

/// Help on writing a message in an editor.
pub fn editor_help_text() -> (r: String)
    ensures
        r@ == EDITOR_HELP@,
{
    EDITOR_HELP.to_owned()
}

/// What a notice shows, text by text.
pub open spec fn notice_texts(
    notice: NoticeView,
    modes: Seq<Seq<char>>,
    newline_key: char,
    commands: Seq<CommandInfoView>,
) -> Seq<Seq<char>> {
    match notice {
        NoticeView::Help => seq![
            help_parts(modes, newline_key, commands).flatten(),
            EDITOR_HELP@,
        ],
        NoticeView::ThemeUnavailable(name) => seq![
            "Theme Unavailable: "@ + name + " Available themes are: light, dark, ansi"@,
        ],
        NoticeView::SummarizeRenamed => seq![
            "⚠️  Note: /summarize has been renamed to /compact and will be removed in a future release."@,
        ],
        NoticeView::RecipePathNotYaml => seq!["Filepath must end with .yaml"@],
    }
}

/// The texts that a notice shows, one behind the other.
pub fn notice_text(
    notice: &Notice,
    modes: &Vec<String>,
    newline_key: char,
    commands: &Vec<CommandInfo>,
) -> (r: Vec<String>)
    ensures
        r.deep_view() == notice_texts(
            notice.deep_view(),
            modes.deep_view(),
            newline_key,
            commands.deep_view(),
        ),
{
    let mut r: Vec<String> = Vec::new();
    match notice {
        Notice::Help => {
            r.push(help_text(modes, newline_key, commands));
            r.push(editor_help_text());
        },
        Notice::ThemeUnavailable(name) => {
            let mut text: String = String::new();
            text.append("Theme Unavailable: ");
            text.append(name.as_str());
            text.append(" Available themes are: light, dark, ansi");
            assert(text@ == "Theme Unavailable: "@ + name@
                + " Available themes are: light, dark, ansi"@);
            r.push(text);
        },
        Notice::SummarizeRenamed => {
            r.push(
                "⚠️  Note: /summarize has been renamed to /compact and will be removed in a future release.".to_owned(),
            );
        },
        Notice::RecipePathNotYaml => {
            r.push("Filepath must end with .yaml".to_owned());
        },
    }
    assert(r.deep_view() =~= notice_texts(
        notice.deep_view(),
        modes.deep_view(),
        newline_key,
        commands.deep_view(),
    ));
    r
}

proof fn lemma_contains_within(
    before: Seq<char>,
    text: Seq<char>,
    after: Seq<char>,
    pattern: Seq<char>,
)
    requires
        contains_text(text, pattern),
    ensures
        contains_text(before + text + after, pattern),
{
    let at = choose|at: int| matches_at(text, at, pattern);
    let whole = before + text + after;
    let to = before.len() + at;
    assert(whole.subrange(to, to + pattern.len()) == text.subrange(at, at + pattern.len()));
    assert(matches_at(whole, to, pattern));
}

proof fn lemma_contains_in_parts(parts: Seq<Seq<char>>, i: int, pattern: Seq<char>)
    requires
        0 <= i < parts.len(),
        contains_text(parts[i], pattern),
    ensures
        contains_text(parts.flatten(), pattern),
    decreases parts.len(),
{
    let earlier = parts.drop_last();
    earlier.lemma_flatten_push(parts.last());
    assert(earlier.push(parts.last()) == parts);
    let none = Seq::<char>::empty();
    if i == parts.len() - 1 {
        lemma_contains_within(earlier.flatten(), parts.last(), none, pattern);
        assert(earlier.flatten() + parts.last() + none == parts.flatten());
    } else {
        lemma_contains_in_parts(earlier, i, pattern);
        lemma_contains_within(none, earlier.flatten(), parts.last(), pattern);
        assert(none + earlier.flatten() + parts.last() == parts.flatten());
    }
}

proof fn lemma_contains_in_joined(
    lines: Seq<Seq<char>>,
    separator: Seq<char>,
    i: int,
    pattern: Seq<char>,
)
    requires
        0 <= i < lines.len(),
        contains_text(lines[i], pattern),
    ensures
        contains_text(joined(lines, separator), pattern),
    decreases lines.len(),
{
    let none = Seq::<char>::empty();
    if lines.len() > 1 {
        let earlier = joined(lines.drop_last(), separator);
        if i == lines.len() - 1 {
            lemma_contains_within(earlier + separator, lines.last(), none, pattern);
            assert(earlier + separator + lines.last() + none == joined(lines, separator));
        } else {
            lemma_contains_in_joined(lines.drop_last(), separator, i, pattern);
            lemma_contains_within(none, earlier, separator + lines.last(), pattern);
            assert(none + earlier + (separator + lines.last()) == joined(lines, separator));
        }
    }
}

proof fn lemma_contains_itself(text: Seq<char>)
    ensures
        contains_text(text, text),
{
    assert(text.subrange(0, text.len() as int) == text);
    assert(matches_at(text, 0, text));
}

proof fn lemma_documented_keywords(name: Seq<char>)
    requires
        is_documented(name),
    ensures
        "/"@ + name == "/prompts"@ || "/"@ + name == "/prompt"@ || "/"@ + name == "/compact"@ || "/"@
            + name == "/clear"@ || "/"@ + name == "/skills"@ || "/"@ + name == "/status"@,
{
    reveal_strlit("/");
    reveal_strlit("prompts");
    reveal_strlit("prompt");
    reveal_strlit("compact");
    reveal_strlit("clear");
    reveal_strlit("skills");
    reveal_strlit("status");
    reveal_strlit("/prompts");
    reveal_strlit("/prompt");
    reveal_strlit("/compact");
    reveal_strlit("/clear");
    reveal_strlit("/skills");
    reveal_strlit("/status");
    if name == "prompts"@ {
        assert("/"@ + name =~= "/prompts"@);
    } else if name == "prompt"@ {
        assert("/"@ + name =~= "/prompt"@);
    } else if name == "compact"@ {
        assert("/"@ + name =~= "/compact"@);
    } else if name == "clear"@ {
        assert("/"@ + name =~= "/clear"@);
    } else if name == "skills"@ {
        assert("/"@ + name =~= "/skills"@);
    } else {
        assert("/"@ + name =~= "/status"@);
    }
}

proof fn lemma_extra_line_stands(commands: Seq<CommandInfoView>, i: int)
    requires
        0 <= i < commands.len(),
        !is_documented(commands[i].name),
    ensures
        commands.filter_map(|c: CommandInfoView| extra_line(c)).contains(
            extra_line(commands[i])->0,
        ),
    decreases commands.len(),
{
    reveal(Seq::filter_map);
    let extra = |c: CommandInfoView| extra_line(c);
    let line = extra_line(commands[i])->0;
    let lines = commands.filter_map(extra);
    let earlier = commands.drop_last().filter_map(extra);
    if i == commands.len() - 1 {
        assert(lines.last() == line);
    } else {
        lemma_extra_line_stands(commands.drop_last(), i);
        let k = choose|k: int| 0 <= k < earlier.len() && earlier[k] == line;
        assert(lines[k] == line);
    }
}

/// The help lists every command of the agent, whatever commands there are.
pub proof fn law_help_lists_every_command(
    modes: Seq<Seq<char>>,
    newline_key: char,
    commands: Seq<CommandInfoView>,
    i: int,
)
    requires
        0 <= i < commands.len(),
    ensures
        contains_text(
            help_parts(modes, newline_key, commands).flatten(),
            "/"@ + commands[i].name,
        ),
{
    let name = commands[i].name;
    let pattern = "/"@ + name;
    let parts = help_parts(modes, newline_key, commands);
    lemma_contains_itself(pattern);
    if is_documented(name) {
        lemma_documented_keywords(name);
        if pattern == "/prompts"@ {
            lemma_contains_in_parts(parts, 1, pattern);
        } else if pattern == "/prompt"@ {
            lemma_contains_in_parts(parts, 3, pattern);
        } else if pattern == "/compact"@ {
            lemma_contains_in_parts(parts, 7, pattern);
        } else if pattern == "/status"@ {
            lemma_contains_in_parts(parts, 11, pattern);
        } else if pattern == "/skills"@ {
            lemma_contains_in_parts(parts, 13, pattern);
        } else {
            lemma_contains_in_parts(parts, 15, pattern);
        }
    } else {
        let extra = |c: CommandInfoView| extra_line(c);
        let lines = commands.filter_map(extra);
        let line = extra_line(commands[i])->0;
        let none = Seq::<char>::empty();
        lemma_extra_line_stands(commands, i);
        let k = choose|k: int| 0 <= k < lines.len() && lines[k] == line;
        lemma_contains_within(none, pattern, " - "@ + commands[i].description, pattern);
        assert(none + pattern + (" - "@ + commands[i].description) == line);
        lemma_contains_in_joined(lines, "\n"@, k, pattern);
        let text = extra_help(commands);
        lemma_contains_within(none, text, "\n"@, pattern);
        assert(none + text + "\n"@ == text + "\n"@);
        lemma_contains_in_parts(parts, 10, pattern);
    }
}

proof fn lemma_regroup(
    a: Seq<char>,
    b: Seq<char>,
    c: Seq<char>,
    d: Seq<char>,
    e: Seq<char>,
)
    ensures
        a + (b + c + d) + e == (a + b) + (c + d + e),
        a + (b + c + d) + e == (a + b + c) + (d + e),
{
}

proof fn lemma_line_in_joined(lines: Seq<Seq<char>>, separator: Seq<char>, i: int)
    requires
        0 <= i < lines.len(),
    ensures
        contains_text(
            separator + joined(lines, separator) + separator,
            separator + lines[i] + separator,
        ),
    decreases lines.len(),
{
    let none = Seq::<char>::empty();
    let line = separator + lines[i] + separator;
    lemma_contains_itself(line);
    if lines.len() > 1 {
        let earlier = joined(lines.drop_last(), separator);
        lemma_regroup(separator, earlier, separator, lines.last(), separator);
        if i == lines.len() - 1 {
            let front = separator + earlier;
            lemma_contains_within(front, line, none, line);
            assert(front + line + none == front + line);
        } else {
            let front = separator + earlier + separator;
            let back = lines.last() + separator;
            assert(lines.drop_last()[i] == lines[i]);
            lemma_line_in_joined(lines.drop_last(), separator, i);
            lemma_contains_within(none, front, back, line);
            assert(none + front == front);
        }
    }
}

proof fn lemma_run_of_parts(parts: Seq<Seq<char>>, from: int, to: int)
    requires
        0 <= from <= to <= parts.len(),
    ensures
        contains_text(parts.flatten(), parts.subrange(from, to).flatten()),
{
    let before = parts.take(from);
    let run = parts.subrange(from, to);
    let after = parts.skip(to);
    vstd::seq_lib::lemma_flatten_concat(before, run);
    vstd::seq_lib::lemma_flatten_concat(before + run, after);
    assert(before + run + after == parts);
    lemma_contains_itself(run.flatten());
    lemma_contains_within(before.flatten(), run.flatten(), after.flatten(), run.flatten());
}

proof fn lemma_extra_help_line(commands: Seq<CommandInfoView>, i: int)
    requires
        0 <= i < commands.len(),
        !is_documented(commands[i].name),
    ensures
        extra_help(commands).len() > 0,
        contains_text(
            "\n"@ + extra_help(commands) + "\n"@,
            "\n"@ + extra_line(commands[i])->0 + "\n"@,
        ),
{
    let lines = commands.filter_map(|c: CommandInfoView| extra_line(c));
    let line = extra_line(commands[i])->0;
    lemma_extra_line_stands(commands, i);
    let k = choose|k: int| 0 <= k < lines.len() && lines[k] == line;
    lemma_line_in_joined(lines, "\n"@, k);
    lemma_contains_itself(line);
    lemma_contains_in_joined(lines, "\n"@, k, line);
    reveal_strlit("/");
    assert(line.len() > 0);
}

proof fn lemma_extra_help_in_parts(
    modes: Seq<Seq<char>>,
    newline_key: char,
    commands: Seq<CommandInfoView>,
)
    requires
        extra_help(commands).len() > 0,
    ensures
        contains_text(
            help_parts(modes, newline_key, commands).flatten(),
            "\n"@ + extra_help(commands) + "\n"@,
        ),
{
    let parts = help_parts(modes, newline_key, commands);
    let extra = extra_help(commands);
    let run = parts.subrange(9, 11);
    lemma_run_of_parts(parts, 9, 11);
    assert(run == seq!["\n"@, extra + "\n"@]);
    reveal_with_fuel(Seq::flatten, 3);
    assert(run.flatten() == "\n"@ + extra + "\n"@);
}

/// A command that the help does not describe in words of its own has a line of
/// its own: its name and what it does, between two newlines.
pub proof fn law_help_has_a_line_for_each_command(
    modes: Seq<Seq<char>>,
    newline_key: char,
    commands: Seq<CommandInfoView>,
    i: int,
)
    requires
        0 <= i < commands.len(),
        !is_documented(commands[i].name),
    ensures
        contains_text(
            help_parts(modes, newline_key, commands).flatten(),
            "\n"@ + ("/"@ + commands[i].name + " - "@ + commands[i].description) + "\n"@,
        ),
{
    lemma_extra_help_line(commands, i);
    lemma_extra_help_in_parts(modes, newline_key, commands);
    lemma_contains_through(
        help_parts(modes, newline_key, commands).flatten(),
        "\n"@ + extra_help(commands) + "\n"@,
        "\n"@ + extra_line(commands[i])->0 + "\n"@,
    );
}

proof fn lemma_contains_through(text: Seq<char>, middle: Seq<char>, pattern: Seq<char>)
    requires
        contains_text(text, middle),
        contains_text(middle, pattern),
    ensures
        contains_text(text, pattern),
{
    let at = choose|at: int| matches_at(text, at, middle);
    lemma_contains_within(text.take(at), middle, text.skip(at + middle.len()), pattern);
    assert(text.take(at) + middle + text.skip(at + middle.len()) == text);
}

/// The help has a line for the key that, with Ctrl, inserts a newline, and shows
/// it in upper case.
pub proof fn law_help_shows_the_newline_key(
    modes: Seq<Seq<char>>,
    newline_key: char,
    commands: Seq<CommandInfoView>,
)
    ensures
        contains_text(
            help_parts(modes, newline_key, commands).flatten(),
            "\n"@ + ("Ctrl+"@ + seq![ascii_upper(newline_key)] + HELP_NEWLINE@) + "\n"@,
        ),
{
    let parts = help_parts(modes, newline_key, commands);
    lemma_run_of_parts(parts, 17, 22);
    let run = parts.subrange(17, 22);
    reveal_with_fuel(Seq::flatten, 6);
    assert(run.flatten() =~= "\n"@ + ("Ctrl+"@ + seq![ascii_upper(newline_key)] + HELP_NEWLINE@)
        + "\n"@);
}

/// Joining puts the separator between each two lines and nowhere else: no lines
/// make no text, one makes itself, and of two lists joined one behind the other
/// the texts stand with the separator between them.
pub proof fn law_joining_separates_the_lines(
    lines: Seq<Seq<char>>,
    more: Seq<Seq<char>>,
    line: Seq<char>,
    separator: Seq<char>,
)
    ensures
        joined(Seq::empty(), separator).len() == 0,
        joined(seq![line], separator) == line,
        lines.len() > 0 && more.len() > 0 ==> joined(lines + more, separator) == joined(
            lines,
            separator,
        ) + separator + joined(more, separator),
    decreases more.len(),
{
    if lines.len() > 0 && more.len() > 0 {
        let all = lines + more;
        assert(all.drop_last() == lines + more.drop_last());
        assert(all.last() == more.last());
        if more.len() == 1 {
            assert(lines + more.drop_last() == lines);
        } else {
            let rest = more.drop_last();
            law_joining_separates_the_lines(lines, rest, line, separator);
            assert(joined(lines, separator) + separator + joined(rest, separator) + separator
                + more.last() == joined(lines, separator) + separator + (joined(rest, separator)
                + separator + more.last()));
        }
    }
}

/// Six commands are described in words of their own, and no others.
pub proof fn law_documented_commands(name: Seq<char>)
    ensures
        is_documented(name) <==> seq![
            "prompts"@,
            "prompt"@,
            "compact"@,
            "clear"@,
            "skills"@,
            "status"@,
        ].contains(name),
{
    let all = seq!["prompts"@, "prompt"@, "compact"@, "clear"@, "skills"@, "status"@];
    assert(all[0] == "prompts"@ && all[1] == "prompt"@ && all[2] == "compact"@ && all[3]
        == "clear"@ && all[4] == "skills"@ && all[5] == "status"@);
}

/// One command more adds a line behind the others, with its name and what it does,
/// unless it is described in words of its own: then it adds nothing.
pub proof fn law_each_command_adds_its_line(
    commands: Seq<CommandInfoView>,
    command: CommandInfoView,
)
    ensures
        extra_help(Seq::empty()).len() == 0,
        extra_help(commands.push(command)) == if is_documented(command.name) {
            extra_help(commands)
        } else if forall|i: int|
            0 <= i < commands.len() ==> is_documented((#[trigger] commands[i]).name) {
            "/"@ + command.name + " - "@ + command.description
        } else {
            extra_help(commands) + "\n"@ + ("/"@ + command.name + " - "@ + command.description)
        },
{
    let extra = |c: CommandInfoView| extra_line(c);
    let lines = commands.filter_map(extra);
    reveal(Seq::filter_map);
    assert(commands.push(command).drop_last() == commands);
    if !is_documented(command.name) {
        let line = extra_line(command)->0;
        assert(commands.push(command).filter_map(extra) == lines.push(line));
        assert(lines.push(line).drop_last() == lines);
        if forall|i: int|
            0 <= i < commands.len() ==> is_documented((#[trigger] commands[i]).name) {
            lemma_no_extra_lines(commands);
            assert(lines.push(line)[0] == line);
        } else {
            let i = choose|i: int|
                0 <= i < commands.len() && !is_documented((#[trigger] commands[i]).name);
            lemma_extra_line_stands(commands, i);
            assert(lines.len() > 0);
        }
    }
}

proof fn lemma_no_extra_lines(commands: Seq<CommandInfoView>)
    requires
        forall|i: int| 0 <= i < commands.len() ==> is_documented((#[trigger] commands[i]).name),
    ensures
        commands.filter_map(|c: CommandInfoView| extra_line(c)).len() == 0,
    decreases commands.len(),
{
    reveal(Seq::filter_map);
    if commands.len() > 0 {
        let earlier = commands.drop_last();
        assert forall|i: int| 0 <= i < earlier.len() implies is_documented(
            (#[trigger] earlier[i]).name,
        ) by {
            assert(earlier[i] == commands[i]);
        }
        assert(is_documented(commands[commands.len() - 1].name));
        lemma_no_extra_lines(earlier);
    }
}

proof fn lemma_around(parts: Seq<Seq<char>>, i: int)
    requires
        0 <= i < parts.len(),
    ensures
        parts.flatten() == parts.take(i).flatten() + parts[i] + parts.skip(i + 1).flatten(),
{
    let before = parts.take(i);
    let after = parts.skip(i + 1);
    before.lemma_flatten_push(parts[i]);
    vstd::seq_lib::lemma_flatten_concat(before.push(parts[i]), after);
    assert(before.push(parts[i]) + after == parts);
}

/// The modes fill one place in the help: two helps that differ in them alone read
/// the same around it.
pub proof fn law_modes_fill_one_place(
    modes: Seq<Seq<char>>,
    others: Seq<Seq<char>>,
    newline_key: char,
    commands: Seq<CommandInfoView>,
)
    ensures
        exists|before: Seq<char>, after: Seq<char>|
            help_parts(modes, newline_key, commands).flatten() == #[trigger] (before + joined(
                modes,
                ", "@,
            ) + after) && help_parts(others, newline_key, commands).flatten() == before + joined(
                others,
                ", "@,
            ) + after,
{
    let parts = help_parts(modes, newline_key, commands);
    let other_parts = help_parts(others, newline_key, commands);
    lemma_around(parts, 5);
    lemma_around(other_parts, 5);
    assert(parts.take(5) == other_parts.take(5));
    assert(parts.skip(6) == other_parts.skip(6));
    let before = parts.take(5).flatten();
    let after = parts.skip(6).flatten();
    assert(parts.flatten() == before + joined(modes, ", "@) + after);
}

/// The newline key fills one place in the help: two helps that differ in it alone
/// read the same around it.
pub proof fn law_newline_key_fills_one_place(
    modes: Seq<Seq<char>>,
    newline_key: char,
    other_key: char,
    commands: Seq<CommandInfoView>,
)
    ensures
        exists|before: Seq<char>, after: Seq<char>|
            help_parts(modes, newline_key, commands).flatten() == #[trigger] (before + seq![
                ascii_upper(newline_key),
            ] + after) && help_parts(modes, other_key, commands).flatten() == before + seq![
                ascii_upper(other_key),
            ] + after,
{
    let parts = help_parts(modes, newline_key, commands);
    let other_parts = help_parts(modes, other_key, commands);
    lemma_around(parts, 19);
    lemma_around(other_parts, 19);
    assert(parts.take(19) == other_parts.take(19));
    assert(parts.skip(20) == other_parts.skip(20));
    let before = parts.take(19).flatten();
    let after = parts.skip(20).flatten();
    assert(parts.flatten() == before + seq![ascii_upper(newline_key)] + after);
}

/// The agent's commands fill one place in the help, right before the line of
/// `/status`: each line that they add ends there with a newline, and around it the
/// help reads as it does without any commands.
pub proof fn law_commands_fill_one_place(
    modes: Seq<Seq<char>>,
    newline_key: char,
    commands: Seq<CommandInfoView>,
)
    ensures
        exists|before: Seq<char>, after: Seq<char>|
            help_parts(modes, newline_key, Seq::empty()).flatten() == #[trigger] (before + after)
                && "\n"@.is_suffix_of(before) && "/status"@.is_prefix_of(after) && help_parts(
                modes,
                newline_key,
                commands,
            ).flatten() == before + (if extra_help(commands).len() == 0 {
                Seq::empty()
            } else {
                extra_help(commands) + "\n"@
            }) + after,
{
    let none = Seq::<CommandInfoView>::empty();
    let parts = help_parts(modes, newline_key, commands);
    let plain_parts = help_parts(modes, newline_key, none);
    law_each_command_adds_its_line(none, CommandInfoView { name: seq![], description: seq![] });
    lemma_around(parts, 10);
    lemma_around(plain_parts, 10);
    assert(parts.take(10) == plain_parts.take(10));
    assert(parts.skip(11) == plain_parts.skip(11));
    let before = parts.take(10).flatten();
    let after = parts.skip(11).flatten();
    assert(extra_help(none) == Seq::<char>::empty());
    assert(plain_parts.flatten() == before + after);
    assert("\n"@.is_suffix_of(before)) by {
        let front = parts.take(9);
        front.lemma_flatten_push("\n"@);
        assert(front.push("\n"@) == parts.take(10));
        assert(before.skip(front.flatten().len() as int) == "\n"@);
    }
    assert("/status"@.is_prefix_of(after)) by {
        let rest = parts.skip(11);
        assert(rest.first() == "/status"@);
        assert(rest.flatten() == rest.first() + rest.drop_first().flatten());
    }
    assert(extra_help(commands).len() == 0 ==> extra_help(commands) == Seq::<char>::empty());
}

/// What each notice shows: the two helps; the name of the theme there is none of,
/// with those there are; and a fixed text for each of the others.
pub proof fn law_notices_tell_their_reason(
    name: Seq<char>,
    modes: Seq<Seq<char>>,
    newline_key: char,
    commands: Seq<CommandInfoView>,
)
    ensures
        ({
            let shown = |notice: NoticeView| notice_texts(notice, modes, newline_key, commands);
            &&& shown(NoticeView::Help) == seq![
                help_parts(modes, newline_key, commands).flatten(),
                EDITOR_HELP@,
            ]
            &&& shown(NoticeView::ThemeUnavailable(name)) == seq![
                "Theme Unavailable: "@ + name + " Available themes are: light, dark, ansi"@,
            ]
            &&& shown(NoticeView::SummarizeRenamed) == seq![
                "⚠️  Note: /summarize has been renamed to /compact and will be removed in a future release."@,
            ]
            &&& shown(NoticeView::RecipePathNotYaml) == seq!["Filepath must end with .yaml"@]
        }),
{
}

} // verus!
