//! Slash commands: what a line that begins with `/` asks for.

use crate::arguments::PromptArguments;
use crate::text::{
    after_prefix, at_white_space, ends_with, eq_str, lowercase, split_at_first, split_once,
    split_whitespace, strip_prefix, to_lowercase, trim, trimmed, words,
};
use vstd::prelude::*;

verus! {

/// What a line of input asks the session to do.
#[derive(Debug)]
pub enum InputResult {
    Message(String),
    Exit,
    AddExtension(String),
    AddBuiltin(String),
    ToggleTheme,
    SelectTheme(String),
    Retry,
    ListPrompts(Option<String>),
    PromptCommand(PromptCommandOptions),
    GooseMode(String),
    Model(Option<String>),
    Plan(PlanCommandOptions),
    EndPlan,
    Clear,
    Recipe(Option<String>),
    Compact,
    ToggleFullToolOutput,
    Edit(Option<String>),
    ListSkills,
    LoadSkills(Vec<String>),
}

/// The prompt that `/prompt` names, and how to run it.
#[derive(Debug)]
pub struct PromptCommandOptions {
    pub name: String,
    pub info: bool,
    pub arguments: PromptArguments,
}

/// The message that `/plan` starts from.
#[derive(Debug)]
pub struct PlanCommandOptions {
    pub message_text: String,
}

/// What is shown to the user beside the result of a command.
#[derive(Debug)]
pub enum Notice {
    /// The help on commands and on the editor.
    Help,
    /// No theme has this name.
    ThemeUnavailable(String),
    /// `/summarize` is now `/compact`.
    SummarizeRenamed,
    /// A recipe is saved as YAML only.
    RecipePathNotYaml,
}

/// The outcome of a slash command. Without a result the line is no command.
#[derive(Debug)]
pub struct SlashOutcome {
    pub notice: Option<Notice>,
    pub result: Option<InputResult>,
}

/// An [`InputResult`] with its strings as character sequences.
pub enum InputResultView {
    Message(Seq<char>),
    Exit,
    AddExtension(Seq<char>),
    AddBuiltin(Seq<char>),
    ToggleTheme,
    SelectTheme(Seq<char>),
    Retry,
    ListPrompts(Option<Seq<char>>),
    PromptCommand(PromptView),
    GooseMode(Seq<char>),
    Model(Option<Seq<char>>),
    Plan(Seq<char>),
    EndPlan,
    Clear,
    Recipe(Option<Seq<char>>),
    Compact,
    ToggleFullToolOutput,
    Edit(Option<Seq<char>>),
    ListSkills,
    LoadSkills(Seq<Seq<char>>),
}

/// [`PromptCommandOptions`] with its strings as character sequences.
#[verifier::ext_equal]
pub struct PromptView {
    pub name: Seq<char>,
    pub info: bool,
    pub arguments: Map<Seq<char>, Seq<char>>,
}

/// A [`Notice`] with its strings as character sequences.
pub enum NoticeView {
    Help,
    ThemeUnavailable(Seq<char>),
    SummarizeRenamed,
    RecipePathNotYaml,
}

/// A [`SlashOutcome`] with its strings as character sequences.
pub struct SlashOutcomeView {
    pub notice: Option<NoticeView>,
    pub result: Option<InputResultView>,
}

impl DeepView for PromptCommandOptions {
    type V = PromptView;

    open spec fn deep_view(&self) -> PromptView {
        PromptView { name: self.name@, info: self.info, arguments: self.arguments@ }
    }
}

impl DeepView for InputResult {
    type V = InputResultView;

    open spec fn deep_view(&self) -> InputResultView {
        match self {
            InputResult::Message(text) => InputResultView::Message(text@),
            InputResult::Exit => InputResultView::Exit,
            InputResult::AddExtension(command) => InputResultView::AddExtension(command@),
            InputResult::AddBuiltin(names) => InputResultView::AddBuiltin(names@),
            InputResult::ToggleTheme => InputResultView::ToggleTheme,
            InputResult::SelectTheme(name) => InputResultView::SelectTheme(name@),
            InputResult::Retry => InputResultView::Retry,
            InputResult::ListPrompts(extension) => InputResultView::ListPrompts(
                extension.deep_view(),
            ),
            InputResult::PromptCommand(options) => InputResultView::PromptCommand(
                options.deep_view(),
            ),
            InputResult::GooseMode(mode) => InputResultView::GooseMode(mode@),
            InputResult::Model(model) => InputResultView::Model(model.deep_view()),
            InputResult::Plan(options) => InputResultView::Plan(options.message_text@),
            InputResult::EndPlan => InputResultView::EndPlan,
            InputResult::Clear => InputResultView::Clear,
            InputResult::Recipe(filepath) => InputResultView::Recipe(filepath.deep_view()),
            InputResult::Compact => InputResultView::Compact,
            InputResult::ToggleFullToolOutput => InputResultView::ToggleFullToolOutput,
            InputResult::Edit(prefill) => InputResultView::Edit(prefill.deep_view()),
            InputResult::ListSkills => InputResultView::ListSkills,
            InputResult::LoadSkills(names) => InputResultView::LoadSkills(names.deep_view()),
        }
    }
}

impl DeepView for Notice {
    type V = NoticeView;

    open spec fn deep_view(&self) -> NoticeView {
        match self {
            Notice::Help => NoticeView::Help,
            Notice::ThemeUnavailable(name) => NoticeView::ThemeUnavailable(name@),
            Notice::SummarizeRenamed => NoticeView::SummarizeRenamed,
            Notice::RecipePathNotYaml => NoticeView::RecipePathNotYaml,
        }
    }
}

impl DeepView for SlashOutcome {
    type V = SlashOutcomeView;

    open spec fn deep_view(&self) -> SlashOutcomeView {
        SlashOutcomeView { notice: self.notice.deep_view(), result: self.result.deep_view() }
    }
}

/// The result of `shlex::split` on a string with these characters.
pub uninterp spec fn shlex_words(s: Seq<char>) -> Option<Seq<Seq<char>>>;

/// Whether `s` holds none of the characters by which the shell quotes, escapes or
/// begins a comment.
pub open spec fn is_unquoted(s: Seq<char>) -> bool {
    forall|i: int|
        0 <= i < s.len() ==> #[trigger] s[i] != '"' && s[i] != '\'' && s[i] != '\\' && s[i] != '#'
}

/// The blanks of the shell as separators of words.
pub open spec fn at_shell_blank() -> spec_fn(char) -> bool {
    |c: char| c == ' ' || c == '\t' || c == '\n'
}

/// The words of `s` by the rules of the shell, `None` where a quotation or an
/// escape is not ended.
pub open spec fn shell_words(s: Seq<char>) -> Option<Seq<Seq<char>>> {
    if is_unquoted(s) {
        Some(words(s, at_shell_blank()))
    } else {
        shlex_words(s)
    }
}

/// `shlex::split`: the words of `in_str` by the rules of a POSIX shell, or `None`
/// if it ends inside a quotation or behind a backslash. The result depends on the
/// characters alone. Where nothing is quoted, escaped or commented out the words
/// are what stands between blanks, tabs and newlines; of other strings nothing
/// but the name is stated.
pub assume_specification[ shlex::split ](in_str: &str) -> (r: Option<Vec<String>>)
    ensures
        r.deep_view() == shell_words(in_str@),
        !is_unquoted(in_str@) ==> r.deep_view() == shlex_words(in_str@),
;

/// The words of a command's arguments; none where they cannot be split.
pub open spec fn argument_words(args: Seq<char>) -> Seq<Seq<char>> {
    match shell_words(args) {
        Some(parts) => parts,
        None => Seq::empty(),
    }
}

/// Splits a command's arguments into words.
fn split_arguments(args: &str) -> (parts: Vec<String>)
    ensures
        parts.deep_view() == argument_words(args@),
{
    match shlex::split(args) {
        Some(parts) => parts,
        None => {
            let parts: Vec<String> = Vec::new();
            assert(parts.deep_view() == Seq::<Seq<char>>::empty());
            parts
        },
    }
}

/// The word behind the first `--extension` that has one.
pub open spec fn extension_filter(parts: Seq<Seq<char>>) -> Option<Seq<char>>
    decreases parts.len(),
{
    if parts.len() < 2 {
        None
    } else if parts[0] == "--extension"@ {
        Some(parts[1])
    } else {
        extension_filter(parts.skip(1))
    }
}

/// `/prompts` with its arguments split into `parts`.
pub fn list_prompts(parts: &Vec<String>) -> (r: InputResult)
    ensures
        r.deep_view() == InputResultView::ListPrompts(extension_filter(parts.deep_view())),
{
    let n: usize = parts.len();
    let ghost views = parts.deep_view();
    let mut i: usize = 0;
    assert(views.skip(0) == views);
    while i < n
        invariant
            i <= n == parts@.len(),
            views == parts.deep_view(),
            extension_filter(views) == extension_filter(views.skip(i as int)),
        decreases n - i,
    {
        assert(views.skip(i as int).skip(1) == views.skip(i + 1));
        assert(views.skip(i as int)[0] == parts@[i as int]@);
        if eq_str(parts[i].as_str(), "--extension") && i < n - 1 {
            let name: String = parts[i + 1].clone();
            assert(views.skip(i as int)[1] == name@);
            return InputResult::ListPrompts(Some(name));
        }
        i += 1;
    }
    InputResult::ListPrompts(None)
}

/// Parse arguments for the `/prompts` command.
pub fn parse_prompts_command(args: &str) -> (r: Option<InputResult>)
    ensures
        r.deep_view() == Some(
            InputResultView::ListPrompts(extension_filter(argument_words(args@))),
        ),
{
    let parts: Vec<String> = split_arguments(args);
    Some(list_prompts(&parts))
}

/// The `key=value` pairs behind the first word; words that are no such pair are
/// passed over, and of two values for one key the later counts.
pub open spec fn prompt_arguments(parts: Seq<Seq<char>>) -> Map<Seq<char>, Seq<char>>
    decreases parts.len(),
{
    if parts.len() < 2 {
        Map::empty()
    } else {
        let earlier = prompt_arguments(parts.drop_last());
        match split_at_first(parts.last(), '=') {
            Some((key, value)) => earlier.insert(key, value),
            None => earlier,
        }
    }
}

/// The prompt that `parts` ask for: its name, whether only information on it is
/// wanted, and its arguments.
pub open spec fn prompt_request(parts: Seq<Seq<char>>) -> PromptView {
    PromptView {
        name: if parts.len() > 0 {
            parts[0]
        } else {
            Seq::empty()
        },
        info: parts.contains("--info"@),
        arguments: prompt_arguments(parts),
    }
}

/// `/prompt` with its arguments split into `parts`.
pub fn prompt_options(parts: &Vec<String>) -> (r: PromptCommandOptions)
    ensures
        r.deep_view() == prompt_request(parts.deep_view()),
{
    let n: usize = parts.len();
    let ghost views = parts.deep_view();
    // Without a name the empty one stands; rendering reports it.
    let name: String = if n > 0 {
        parts[0].clone()
    } else {
        String::new()
    };
    let mut info: bool = false;
    let mut arguments: PromptArguments = PromptArguments::new();
    let mut i: usize = 0;
    while i < n
        invariant
            i <= n == parts@.len(),
            views == parts.deep_view(),
            info == views.take(i as int).contains("--info"@),
            arguments@ == prompt_arguments(views.take(i as int)),
        decreases n - i,
    {
        let ghost seen = views.take(i as int);
        assert(views.take(i + 1) == seen.push(parts@[i as int]@));
        assert(views.take(i + 1).drop_last() == seen);
        assert(views.take(i + 1)[i as int] == parts@[i as int]@);
        if eq_str(parts[i].as_str(), "--info") {
            info = true;
        }
        proof {
            vstd::seq_lib::lemma_seq_contains_after_push(seen, parts@[i as int]@, "--info"@);
        }
        if i > 0 {
            match split_once(parts[i].as_str(), '=') {
                Some((key, value)) => {
                    arguments.insert(key, value);
                },
                None => {},
            }
        }
        i += 1;
    }
    assert(views.take(n as int) == views);
    PromptCommandOptions { name, info, arguments }
}

/// Parse arguments for the `/prompt` command.
pub fn parse_prompt_command(args: &str) -> (r: Option<InputResult>)
    ensures
        r.deep_view() == Some(
            InputResultView::PromptCommand(prompt_request(argument_words(args@))),
        ),
{
    let parts: Vec<String> = split_arguments(args);
    Some(InputResult::PromptCommand(prompt_options(&parts)))
}

/// Parse the text behind `/plan`.
pub fn parse_plan_command(input: String) -> (r: Option<InputResult>)
    ensures
        r.deep_view() == Some(InputResultView::Plan(trimmed(input@))),
{
    let options: PlanCommandOptions = PlanCommandOptions { message_text: trim(input.as_str()) };
    Some(InputResult::Plan(options))
}

/// The outcome of a command that shows nothing.
pub open spec fn quietly(result: InputResultView) -> SlashOutcomeView {
    SlashOutcomeView { notice: None, result: Some(result) }
}

/// The outcome of a command that shows `notice`.
pub open spec fn with_notice(notice: NoticeView, result: InputResultView) -> SlashOutcomeView {
    SlashOutcomeView { notice: Some(notice), result: Some(result) }
}

/// The outcome of a line that is no command.
pub open spec fn no_command() -> SlashOutcomeView {
    SlashOutcomeView { notice: None, result: None }
}

/// Makes [`quietly`].
fn quiet(result: InputResult) -> (r: SlashOutcome)
    ensures
        r.deep_view() == quietly(result.deep_view()),
{
    SlashOutcome { notice: None, result: Some(result) }
}

/// The outcome of `/recipe` for a path whose lower case is `lowered`.
pub open spec fn recipe_at(filepath: Seq<char>, lowered: Seq<char>) -> SlashOutcomeView {
    if ".yaml"@.is_suffix_of(lowered) {
        quietly(InputResultView::Recipe(Some(filepath)))
    } else {
        with_notice(NoticeView::RecipePathNotYaml, InputResultView::Retry)
    }
}

/// The outcome of `/recipe` with `argument` behind it.
pub open spec fn recipe_outcome(argument: Seq<char>) -> SlashOutcomeView {
    let filepath = trimmed(argument);
    if filepath.len() == 0 {
        quietly(InputResultView::Recipe(None))
    } else {
        recipe_at(filepath, lowercase(filepath))
    }
}

/// Accepts a recipe path that ends with `.yaml` in lower case, and refuses any
/// other.
pub fn check_recipe_path(filepath: String, lowered: &str) -> (r: SlashOutcome)
    ensures
        r.deep_view() == recipe_at(filepath@, lowered@),
{
    if ends_with(lowered, ".yaml") {
        quiet(InputResult::Recipe(Some(filepath)))
    } else {
        SlashOutcome { notice: Some(Notice::RecipePathNotYaml), result: Some(InputResult::Retry) }
    }
}

/// Parse the `/recipe` command `s`.
pub fn parse_recipe_command(s: &str) -> (r: SlashOutcome)
    requires
        "/recipe"@.is_prefix_of(s@),
    ensures
        r.deep_view() == recipe_outcome(s@.skip("/recipe"@.len() as int)),
{
    let filepath: String = match strip_prefix(s, "/recipe") {
        Some(argument) => trim(argument.as_str()),
        None => String::new(),
    };
    if filepath.as_str().is_empty() {
        // No filepath provided, use default
        return quiet(InputResult::Recipe(None));
    }
    let lowered: String = to_lowercase(filepath.as_str());
    check_recipe_path(filepath, lowered.as_str())
}

/// The outcome of `/t` with a theme's name in lower case behind it.
pub open spec fn theme_outcome(name: Seq<char>) -> SlashOutcomeView {
    if name == "light"@ || name == "dark"@ || name == "ansi"@ {
        quietly(InputResultView::SelectTheme(name))
    } else {
        with_notice(NoticeView::ThemeUnavailable(name), InputResultView::Retry)
    }
}

/// Selects the theme `name`, given in lower case, if there is one.
pub fn select_theme(name: String) -> (r: SlashOutcome)
    ensures
        r.deep_view() == theme_outcome(name@),
{
    if eq_str(name.as_str(), "light") || eq_str(name.as_str(), "dark") || eq_str(
        name.as_str(),
        "ansi",
    ) {
        quiet(InputResult::SelectTheme(name))
    } else {
        SlashOutcome {
            notice: Some(Notice::ThemeUnavailable(name)),
            result: Some(InputResult::Retry),
        }
    }
}

/// `s` without white space at its ends, `None` where nothing else is in it.
pub open spec fn non_blank(s: Seq<char>) -> Option<Seq<char>> {
    if trimmed(s).len() == 0 {
        None
    } else {
        Some(trimmed(s))
    }
}

/// Computes [`non_blank`].
fn trim_to_option(s: &str) -> (r: Option<String>)
    ensures
        r.deep_view() == non_blank(s@),
{
    let t: String = trim(s);
    if t.as_str().is_empty() {
        None
    } else {
        Some(t)
    }
}

/// The outcome of `/skills` with `argument` behind it.
pub open spec fn skills_outcome(argument: Seq<char>) -> SlashOutcomeView {
    match non_blank(argument) {
        None => quietly(InputResultView::ListSkills),
        Some(names) => quietly(InputResultView::LoadSkills(words(names, at_white_space()))),
    }
}

/// The outcome of the trimmed line `s`: the commands that are a word by itself,
/// and those that take what follows a prefix.
pub open spec fn command_outcome(s: Seq<char>) -> SlashOutcomeView {
    if s == "/exit"@ || s == "/quit"@ {
        quietly(InputResultView::Exit)
    } else if s == "/?"@ || s == "/help"@ {
        with_notice(NoticeView::Help, InputResultView::Retry)
    } else if s == "/t"@ {
        quietly(InputResultView::ToggleTheme)
    } else if let Some(name) = after_prefix(s, "/t "@) {
        theme_outcome(lowercase(trimmed(name)))
    } else if s == "/prompts"@ {
        quietly(InputResultView::ListPrompts(None))
    } else if let Some(args) = after_prefix(s, "/prompts "@) {
        quietly(InputResultView::ListPrompts(extension_filter(argument_words(args))))
    } else if s == "/prompt"@ {
        quietly(InputResultView::PromptCommand(prompt_request(Seq::empty())))
    } else if let Some(args) = after_prefix(s, "/prompt "@) {
        quietly(InputResultView::PromptCommand(prompt_request(argument_words(args))))
    } else if let Some(command) = after_prefix(s, "/extension "@) {
        quietly(InputResultView::AddExtension(command))
    } else if let Some(names) = after_prefix(s, "/builtin "@) {
        quietly(InputResultView::AddBuiltin(names))
    } else if let Some(mode) = after_prefix(s, "/mode "@) {
        quietly(InputResultView::GooseMode(mode))
    } else if s == "/model"@ {
        quietly(InputResultView::Model(None))
    } else if let Some(model) = after_prefix(s, "/model "@) {
        quietly(InputResultView::Model(non_blank(model)))
    } else if let Some(message) = after_prefix(s, "/plan"@) {
        quietly(InputResultView::Plan(trimmed(message)))
    } else if s == "/endplan"@ {
        quietly(InputResultView::EndPlan)
    } else if s == "/clear"@ {
        quietly(InputResultView::Clear)
    } else if let Some(argument) = after_prefix(s, "/recipe"@) {
        recipe_outcome(argument)
    } else if s == "/compact"@ {
        quietly(InputResultView::Compact)
    } else if s == "/skills"@ {
        quietly(InputResultView::ListSkills)
    } else if let Some(argument) = after_prefix(s, "/skills "@) {
        skills_outcome(argument)
    } else if s == "/summarize"@ {
        with_notice(NoticeView::SummarizeRenamed, InputResultView::Compact)
    } else if s == "/r"@ {
        quietly(InputResultView::ToggleFullToolOutput)
    } else if s == "/edit"@ {
        quietly(InputResultView::Edit(None))
    } else if let Some(prefill) = after_prefix(s, "/edit "@) {
        quietly(InputResultView::Edit(non_blank(prefill)))
    } else {
        no_command()
    }
}

/// The outcome of the line `input`.
pub open spec fn slash_outcome(input: Seq<char>) -> SlashOutcomeView {
    command_outcome(trimmed(input))
}

/// Runs the slash command in `input`: what it asks for, and what is to be shown.
pub fn run_slash_command(input: &str) -> (r: SlashOutcome)
    ensures
        r.deep_view() == slash_outcome(input@),
{
    let trimmed_input: String = trim(input);
    let s: &str = trimmed_input.as_str();
    if eq_str(s, "/exit") || eq_str(s, "/quit") {
        return quiet(InputResult::Exit);
    }
    if eq_str(s, "/?") || eq_str(s, "/help") {
        return SlashOutcome { notice: Some(Notice::Help), result: Some(InputResult::Retry) };
    }
    if eq_str(s, "/t") {
        return quiet(InputResult::ToggleTheme);
    }
    if let Some(name) = strip_prefix(s, "/t ") {
        let name: String = trim(name.as_str());
        return select_theme(to_lowercase(name.as_str()));
    }
    if eq_str(s, "/prompts") {
        return quiet(InputResult::ListPrompts(None));
    }
    if let Some(args) = strip_prefix(s, "/prompts ") {
        return SlashOutcome { notice: None, result: parse_prompts_command(args.as_str()) };
    }
    if eq_str(s, "/prompt") {
        let options: PromptCommandOptions = PromptCommandOptions {
            name: String::new(),
            info: false,
            arguments: PromptArguments::new(),
        };
        assert(options.deep_view() == prompt_request(Seq::empty()));
        return quiet(InputResult::PromptCommand(options));
    }
    if let Some(args) = strip_prefix(s, "/prompt ") {
        return SlashOutcome { notice: None, result: parse_prompt_command(args.as_str()) };
    }
    if let Some(command) = strip_prefix(s, "/extension ") {
        return quiet(InputResult::AddExtension(command));
    }
    if let Some(names) = strip_prefix(s, "/builtin ") {
        return quiet(InputResult::AddBuiltin(names));
    }
    if let Some(mode) = strip_prefix(s, "/mode ") {
        return quiet(InputResult::GooseMode(mode));
    }
    if eq_str(s, "/model") {
        return quiet(InputResult::Model(None));
    }
    if let Some(model) = strip_prefix(s, "/model ") {
        return quiet(InputResult::Model(trim_to_option(model.as_str())));
    }
    if let Some(message) = strip_prefix(s, "/plan") {
        return SlashOutcome { notice: None, result: parse_plan_command(message) };
    }
    if eq_str(s, "/endplan") {
        return quiet(InputResult::EndPlan);
    }
    if eq_str(s, "/clear") {
        return quiet(InputResult::Clear);
    }
    if strip_prefix(s, "/recipe").is_some() {
        return parse_recipe_command(s);
    }
    if eq_str(s, "/compact") {
        return quiet(InputResult::Compact);
    }
    if eq_str(s, "/skills") {
        return quiet(InputResult::ListSkills);
    }
    if let Some(argument) = strip_prefix(s, "/skills ") {
        return match trim_to_option(argument.as_str()) {
            None => quiet(InputResult::ListSkills),
            Some(names) => quiet(InputResult::LoadSkills(split_whitespace(names.as_str()))),
        };
    }
    if eq_str(s, "/summarize") {
        return SlashOutcome {
            notice: Some(Notice::SummarizeRenamed),
            result: Some(InputResult::Compact),
        };
    }
    if eq_str(s, "/r") {
        return quiet(InputResult::ToggleFullToolOutput);
    }
    if eq_str(s, "/edit") {
        return quiet(InputResult::Edit(None));
    }
    if let Some(prefill) = strip_prefix(s, "/edit ") {
        return quiet(InputResult::Edit(trim_to_option(prefill.as_str())));
    }
    SlashOutcome { notice: None, result: None }
}

/// What the slash command in `input` asks for; `None` if it is no command.
pub fn handle_slash_command(input: &str) -> (r: Option<InputResult>)
    ensures
        r.deep_view() == slash_outcome(input@).result,
{
    run_slash_command(input).result
}

} // verus!
