//! What each line asks for, command by command: the lines that give a result, and
//! no others do.

use crate::command_laws::{
    law_pair_is_split_at_the_first_equals_sign, lemma_keyword_chars, lemma_keywords,
};
use crate::commands::{
    argument_words, at_shell_blank, command_outcome, extension_filter, is_unquoted, non_blank,
    prompt_arguments, prompt_request, quietly, recipe_at, recipe_outcome, shell_words,
    shlex_words, skills_outcome, slash_outcome, theme_outcome, with_notice, InputResultView, NoticeView,
    PromptView,
};
use crate::text::{
    after_prefix, at_white_space, is_blank, is_white_space, law_split_at_the_first_mark,
    law_trim_empty_iff_blank, law_trim_takes_only_the_ends, lowercase, split_at_first, trimmed,
    words,
};
use vstd::prelude::*;

verus! {

proof fn lemma_word_exit()
    ensures
        command_outcome("/exit"@) == quietly(InputResultView::Exit),
{
    lemma_keywords();
    lemma_keyword_chars("/exit"@);
}

proof fn lemma_word_quit()
    ensures
        command_outcome("/quit"@) == quietly(InputResultView::Exit),
{
    lemma_keywords();
    lemma_keyword_chars("/quit"@);
}

proof fn lemma_word_question()
    ensures
        command_outcome("/?"@) == with_notice(NoticeView::Help, InputResultView::Retry),
{
    lemma_keywords();
    lemma_keyword_chars("/?"@);
}

proof fn lemma_word_help()
    ensures
        command_outcome("/help"@) == with_notice(NoticeView::Help, InputResultView::Retry),
{
    lemma_keywords();
    lemma_keyword_chars("/help"@);
}

proof fn lemma_word_t()
    ensures
        command_outcome("/t"@) == quietly(InputResultView::ToggleTheme),
{
    lemma_keywords();
    lemma_keyword_chars("/t"@);
}

proof fn lemma_word_prompts()
    ensures
        command_outcome("/prompts"@) == quietly(InputResultView::ListPrompts(None)),
{
    lemma_keywords();
    lemma_keyword_chars("/prompts"@);
}

proof fn lemma_word_prompt()
    ensures
        command_outcome("/prompt"@) == quietly(InputResultView::PromptCommand(prompt_request(Seq::empty()))),
{
    lemma_keywords();
    lemma_keyword_chars("/prompt"@);
}

proof fn lemma_word_model()
    ensures
        command_outcome("/model"@) == quietly(InputResultView::Model(None)),
{
    lemma_keywords();
    lemma_keyword_chars("/model"@);
}

proof fn lemma_word_endplan()
    ensures
        command_outcome("/endplan"@) == quietly(InputResultView::EndPlan),
{
    lemma_keywords();
    lemma_keyword_chars("/endplan"@);
}

proof fn lemma_word_clear()
    ensures
        command_outcome("/clear"@) == quietly(InputResultView::Clear),
{
    lemma_keywords();
    lemma_keyword_chars("/clear"@);
}

proof fn lemma_word_compact()
    ensures
        command_outcome("/compact"@) == quietly(InputResultView::Compact),
{
    lemma_keywords();
    lemma_keyword_chars("/compact"@);
}

proof fn lemma_word_skills()
    ensures
        command_outcome("/skills"@) == quietly(InputResultView::ListSkills),
{
    lemma_keywords();
    lemma_keyword_chars("/skills"@);
}

proof fn lemma_word_summarize()
    ensures
        command_outcome("/summarize"@) == with_notice(NoticeView::SummarizeRenamed, InputResultView::Compact),
{
    lemma_keywords();
    lemma_keyword_chars("/summarize"@);
}

proof fn lemma_word_r()
    ensures
        command_outcome("/r"@) == quietly(InputResultView::ToggleFullToolOutput),
{
    lemma_keywords();
    lemma_keyword_chars("/r"@);
}

proof fn lemma_word_edit()
    ensures
        command_outcome("/edit"@) == quietly(InputResultView::Edit(None)),
{
    lemma_keywords();
    lemma_keyword_chars("/edit"@);
}

proof fn lemma_behind_theme(a: Seq<char>)
    ensures
        command_outcome("/t "@ + a) == theme_outcome(lowercase(trimmed(a))),
{
    lemma_keywords();
    let s = "/t "@ + a;
    lemma_keyword_chars(s);
    assert(s[0] == '/' && s[1] == 't' && s[2] == ' ');
    assert(s.skip(3) == a);
    assert("/t "@.is_prefix_of(s));
}

proof fn lemma_behind_prompts(a: Seq<char>)
    ensures
        command_outcome("/prompts "@ + a) == quietly(InputResultView::ListPrompts(extension_filter(argument_words(a)))),
{
    lemma_keywords();
    let s = "/prompts "@ + a;
    lemma_keyword_chars(s);
    assert(s[0] == '/' && s[1] == 'p' && s[2] == 'r' && s[3] == 'o' && s[4] == 'm' && s[5] == 'p' && s[6] == 't' && s[7] == 's' && s[8] == ' ');
    assert(s.skip(9) == a);
    assert("/prompts "@.is_prefix_of(s));
}

proof fn lemma_behind_prompt(a: Seq<char>)
    ensures
        command_outcome("/prompt "@ + a) == quietly(InputResultView::PromptCommand(prompt_request(argument_words(a)))),
{
    lemma_keywords();
    let s = "/prompt "@ + a;
    lemma_keyword_chars(s);
    assert(s[0] == '/' && s[1] == 'p' && s[2] == 'r' && s[3] == 'o' && s[4] == 'm' && s[5] == 'p' && s[6] == 't' && s[7] == ' ');
    assert(s.skip(8) == a);
    assert("/prompt "@.is_prefix_of(s));
}

proof fn lemma_behind_extension(a: Seq<char>)
    ensures
        command_outcome("/extension "@ + a) == quietly(InputResultView::AddExtension(a)),
{
    lemma_keywords();
    let s = "/extension "@ + a;
    lemma_keyword_chars(s);
    assert(s[0] == '/' && s[1] == 'e' && s[2] == 'x' && s[3] == 't' && s[4] == 'e' && s[5] == 'n' && s[6] == 's' && s[7] == 'i' && s[8] == 'o' && s[9] == 'n' && s[10] == ' ');
    assert(s.skip(11) == a);
    assert("/extension "@.is_prefix_of(s));
}

proof fn lemma_behind_builtin(a: Seq<char>)
    ensures
        command_outcome("/builtin "@ + a) == quietly(InputResultView::AddBuiltin(a)),
{
    lemma_keywords();
    let s = "/builtin "@ + a;
    lemma_keyword_chars(s);
    assert(s[0] == '/' && s[1] == 'b' && s[2] == 'u' && s[3] == 'i' && s[4] == 'l' && s[5] == 't' && s[6] == 'i' && s[7] == 'n' && s[8] == ' ');
    assert(s.skip(9) == a);
    assert("/builtin "@.is_prefix_of(s));
}

proof fn lemma_behind_mode(a: Seq<char>)
    ensures
        command_outcome("/mode "@ + a) == quietly(InputResultView::GooseMode(a)),
{
    lemma_keywords();
    let s = "/mode "@ + a;
    lemma_keyword_chars(s);
    assert(s[0] == '/' && s[1] == 'm' && s[2] == 'o' && s[3] == 'd' && s[4] == 'e' && s[5] == ' ');
    assert(s.skip(6) == a);
    assert("/mode "@.is_prefix_of(s));
}

proof fn lemma_behind_model(a: Seq<char>)
    ensures
        command_outcome("/model "@ + a) == quietly(InputResultView::Model(non_blank(a))),
{
    lemma_keywords();
    let s = "/model "@ + a;
    lemma_keyword_chars(s);
    assert(s[0] == '/' && s[1] == 'm' && s[2] == 'o' && s[3] == 'd' && s[4] == 'e' && s[5] == 'l' && s[6] == ' ');
    assert(s.skip(7) == a);
    assert("/model "@.is_prefix_of(s));
}

proof fn lemma_behind_plan(a: Seq<char>)
    ensures
        command_outcome("/plan"@ + a) == quietly(InputResultView::Plan(trimmed(a))),
{
    lemma_keywords();
    let s = "/plan"@ + a;
    lemma_keyword_chars(s);
    assert(s[0] == '/' && s[1] == 'p' && s[2] == 'l' && s[3] == 'a' && s[4] == 'n');
    assert(s.skip(5) == a);
    assert("/plan"@.is_prefix_of(s));
}

proof fn lemma_behind_recipe(a: Seq<char>)
    ensures
        command_outcome("/recipe"@ + a) == recipe_outcome(a),
{
    lemma_keywords();
    let s = "/recipe"@ + a;
    lemma_keyword_chars(s);
    assert(s[0] == '/' && s[1] == 'r' && s[2] == 'e' && s[3] == 'c' && s[4] == 'i' && s[5] == 'p' && s[6] == 'e');
    assert(s.skip(7) == a);
    assert("/recipe"@.is_prefix_of(s));
}

proof fn lemma_behind_skills(a: Seq<char>)
    ensures
        command_outcome("/skills "@ + a) == skills_outcome(a),
{
    lemma_keywords();
    let s = "/skills "@ + a;
    lemma_keyword_chars(s);
    assert(s[0] == '/' && s[1] == 's' && s[2] == 'k' && s[3] == 'i' && s[4] == 'l' && s[5] == 'l' && s[6] == 's' && s[7] == ' ');
    assert(s.skip(8) == a);
    assert("/skills "@.is_prefix_of(s));
}

proof fn lemma_behind_edit(a: Seq<char>)
    ensures
        command_outcome("/edit "@ + a) == quietly(InputResultView::Edit(non_blank(a))),
{
    lemma_keywords();
    let s = "/edit "@ + a;
    lemma_keyword_chars(s);
    assert(s[0] == '/' && s[1] == 'e' && s[2] == 'd' && s[3] == 'i' && s[4] == 't' && s[5] == ' ');
    assert(s.skip(6) == a);
    assert("/edit "@.is_prefix_of(s));
}

proof fn lemma_prefix_parts(s: Seq<char>)
    ensures
        forall|p: Seq<char>| #[trigger]
            after_prefix(s, p) matches Some(rest) ==> s == p + rest,
{
    assert forall|p: Seq<char>| #[trigger] after_prefix(s, p) is Some implies s == p
        + after_prefix(s, p)->0 by {}
}

/// A line that is none of the command words and begins with none of the words that
/// take an argument is no command, shows nothing, and is left to whoever takes
/// messages; and every other line is a command.
pub proof fn law_any_other_line_is_no_command(input: Seq<char>)
    ensures
        ({
            let s = trimmed(input);
            slash_outcome(input).result is None <==> {
                &&& s != "/exit"@
                &&& s != "/quit"@
                &&& s != "/?"@
                &&& s != "/help"@
                &&& s != "/t"@
                &&& s != "/prompts"@
                &&& s != "/prompt"@
                &&& s != "/model"@
                &&& s != "/endplan"@
                &&& s != "/clear"@
                &&& s != "/compact"@
                &&& s != "/skills"@
                &&& s != "/summarize"@
                &&& s != "/r"@
                &&& s != "/edit"@
                &&& !"/t "@.is_prefix_of(s)
                &&& !"/prompts "@.is_prefix_of(s)
                &&& !"/prompt "@.is_prefix_of(s)
                &&& !"/extension "@.is_prefix_of(s)
                &&& !"/builtin "@.is_prefix_of(s)
                &&& !"/mode "@.is_prefix_of(s)
                &&& !"/model "@.is_prefix_of(s)
                &&& !"/plan"@.is_prefix_of(s)
                &&& !"/recipe"@.is_prefix_of(s)
                &&& !"/skills "@.is_prefix_of(s)
                &&& !"/edit "@.is_prefix_of(s)
            }
        }),
        slash_outcome(input).result is None ==> slash_outcome(input).notice is None,
{
}

/// The commands without an argument: each comes of its own word, with white space
/// around it, and of nothing else.
pub proof fn law_commands_come_of_their_words(input: Seq<char>)
    ensures
        ({
            let s = trimmed(input);
            let result = slash_outcome(input).result;
            &&& result == Some(InputResultView::Exit) <==> s == "/exit"@ || s == "/quit"@
            &&& result == Some(InputResultView::ToggleTheme) <==> s == "/t"@
            &&& result == Some(InputResultView::EndPlan) <==> s == "/endplan"@
            &&& result == Some(InputResultView::Clear) <==> s == "/clear"@
            &&& result == Some(InputResultView::Compact) <==> s == "/compact"@ || s
                == "/summarize"@
            &&& result == Some(InputResultView::ToggleFullToolOutput) <==> s == "/r"@
        }),
{
    lemma_word_exit();
    lemma_word_quit();
    lemma_word_t();
    lemma_word_endplan();
    lemma_word_clear();
    lemma_word_compact();
    lemma_word_summarize();
    lemma_word_r();
}

/// `/extension`, `/builtin` and `/mode` hand on what stands behind their blank,
/// and what they hand on stands there.
pub proof fn law_handed_on_is_what_follows(input: Seq<char>, argument: Seq<char>)
    ensures
        ({
            let s = trimmed(input);
            let result = slash_outcome(input).result;
            &&& result == Some(InputResultView::AddExtension(argument)) <==> s == "/extension "@
                + argument
            &&& result == Some(InputResultView::AddBuiltin(argument)) <==> s == "/builtin "@
                + argument
            &&& result == Some(InputResultView::GooseMode(argument)) <==> s == "/mode "@ + argument
        }),
{
    lemma_prefix_parts(trimmed(input));
    lemma_behind_extension(argument);
    lemma_behind_builtin(argument);
    lemma_behind_mode(argument);
}

proof fn lemma_blank_at_the_end()
    ensures
        "/model "@.len() > 0 && is_white_space("/model "@.last()),
        "/edit "@.len() > 0 && is_white_space("/edit "@.last()),
        "/skills "@.len() > 0 && is_white_space("/skills "@.last()),
        "/recipe"@.len() > 0,
{
    lemma_keywords();
}

proof fn lemma_argument_not_blank(input: Seq<char>, keyword: Seq<char>, a: Seq<char>)
    requires
        trimmed(input) == keyword + a,
        keyword.len() > 0,
        is_white_space(keyword.last()) || a.len() > 0,
    ensures
        trimmed(a).len() > 0,
{
    let s = trimmed(input);
    law_trim_takes_only_the_ends(input);
    law_trim_empty_iff_blank(a);
    if a.len() == 0 {
        assert(s == keyword);
    } else {
        assert(s.last() == a[a.len() - 1]);
    }
}

/// `/model` asks for a model exactly when one is named behind its blank, and the
/// name is what stands there, trimmed.
pub proof fn law_model_is_the_one_named(input: Seq<char>, model: Seq<char>)
    ensures
        slash_outcome(input).result == Some(InputResultView::Model(None)) <==> trimmed(input)
            == "/model"@,
        slash_outcome(input).result == Some(InputResultView::Model(Some(model))) <==> exists|
            a: Seq<char>,
        | trimmed(input) == #[trigger] ("/model "@ + a) && model == trimmed(a),
{
    let s = trimmed(input);
    lemma_blank_at_the_end();
    lemma_word_model();
    lemma_prefix_parts(s);
    if let Some(a) = after_prefix(s, "/model "@) {
        lemma_argument_not_blank(input, "/model "@, a);
    }
    assert forall|a: Seq<char>| s == #[trigger] ("/model "@ + a) implies command_outcome(s)
        == quietly(InputResultView::Model(Some(trimmed(a)))) by {
        lemma_behind_model(a);
        lemma_argument_not_blank(input, "/model "@, a);
    }
}

/// `/edit` takes over exactly what stands behind its blank, trimmed; by itself it
/// takes nothing over.
pub proof fn law_edit_takes_over_what_follows(input: Seq<char>, prefill: Seq<char>)
    ensures
        slash_outcome(input).result == Some(InputResultView::Edit(None)) <==> trimmed(input)
            == "/edit"@,
        slash_outcome(input).result == Some(InputResultView::Edit(Some(prefill))) <==> exists|
            a: Seq<char>,
        | trimmed(input) == #[trigger] ("/edit "@ + a) && prefill == trimmed(a),
{
    let s = trimmed(input);
    lemma_blank_at_the_end();
    lemma_word_edit();
    lemma_prefix_parts(s);
    if let Some(a) = after_prefix(s, "/edit "@) {
        lemma_argument_not_blank(input, "/edit "@, a);
    }
    assert forall|a: Seq<char>| s == #[trigger] ("/edit "@ + a) implies command_outcome(s)
        == quietly(InputResultView::Edit(Some(trimmed(a)))) by {
        lemma_behind_edit(a);
        lemma_argument_not_blank(input, "/edit "@, a);
    }
}

/// `/plan` starts from what stands behind it, trimmed, joined to it or not.
pub proof fn law_plan_starts_from_what_follows(input: Seq<char>, message: Seq<char>)
    ensures
        slash_outcome(input).result == Some(InputResultView::Plan(message)) <==> exists|
            a: Seq<char>,
        | trimmed(input) == #[trigger] ("/plan"@ + a) && message == trimmed(a),
{
    let s = trimmed(input);
    lemma_prefix_parts(s);
    assert forall|a: Seq<char>| s == #[trigger] ("/plan"@ + a) implies command_outcome(s)
        == quietly(InputResultView::Plan(trimmed(a))) by {
        lemma_behind_plan(a);
    }
}

/// `/recipe` names no path exactly where nothing stands behind it; a path that
/// stands there is taken, trimmed, exactly when its lower case ends with `.yaml`,
/// and refused with a notice if not.
pub proof fn law_recipe_path_is_what_follows(input: Seq<char>, path: Seq<char>)
    ensures
        slash_outcome(input).result == Some(InputResultView::Recipe(None)) <==> trimmed(input)
            == "/recipe"@,
        slash_outcome(input).result == Some(InputResultView::Recipe(Some(path))) <==> path.len() > 0
            && ".yaml"@.is_suffix_of(lowercase(path)) && exists|a: Seq<char>|
            trimmed(input) == #[trigger] ("/recipe"@ + a) && path == trimmed(a),
        slash_outcome(input).notice == Some(NoticeView::RecipePathNotYaml) <==> exists|
            a: Seq<char>,
        |
            trimmed(input) == #[trigger] ("/recipe"@ + a) && trimmed(a).len() > 0
                && !".yaml"@.is_suffix_of(lowercase(trimmed(a))),
{
    let s = trimmed(input);
    let none = Seq::<char>::empty();
    lemma_prefix_parts(s);
    lemma_behind_recipe(none);
    assert("/recipe"@ + none == "/recipe"@);
    assert(trimmed(none) == none);
    if let Some(a) = after_prefix(s, "/recipe"@) {
        if a.len() > 0 {
            lemma_blank_at_the_end();
            lemma_argument_not_blank(input, "/recipe"@, a);
        } else {
            assert(s == "/recipe"@);
        }
    }
    assert forall|a: Seq<char>| s == #[trigger] ("/recipe"@ + a) implies command_outcome(s)
        == recipe_outcome(a) by {
        lemma_behind_recipe(a);
    }
}

/// `/skills` lists the skills exactly where it stands by itself, and enables
/// exactly the words behind its blank.
pub proof fn law_skills_enabled_are_those_named(input: Seq<char>, names: Seq<Seq<char>>)
    ensures
        slash_outcome(input).result == Some(InputResultView::ListSkills) <==> trimmed(input)
            == "/skills"@,
        slash_outcome(input).result == Some(InputResultView::LoadSkills(names)) <==> exists|
            a: Seq<char>,
        |
            trimmed(input) == #[trigger] ("/skills "@ + a) && names == words(
                trimmed(a),
                at_white_space(),
            ),
{
    let s = trimmed(input);
    lemma_blank_at_the_end();
    lemma_word_skills();
    lemma_prefix_parts(s);
    if let Some(a) = after_prefix(s, "/skills "@) {
        lemma_argument_not_blank(input, "/skills "@, a);
    }
    assert forall|a: Seq<char>| s == #[trigger] ("/skills "@ + a) implies command_outcome(s)
        == quietly(InputResultView::LoadSkills(words(trimmed(a), at_white_space()))) by {
        lemma_behind_skills(a);
        lemma_argument_not_blank(input, "/skills "@, a);
    }
}

/// `/prompts` lists all prompts where it stands by itself, and else those of the
/// extension that its arguments name.
pub proof fn law_prompts_are_filtered(input: Seq<char>, extension: Option<Seq<char>>)
    ensures
        slash_outcome(input).result == Some(InputResultView::ListPrompts(extension)) <==> (trimmed(
            input,
        ) == "/prompts"@ && extension is None) || exists|a: Seq<char>|
            trimmed(input) == #[trigger] ("/prompts "@ + a) && extension == extension_filter(
                argument_words(a),
            ),
{
    let s = trimmed(input);
    lemma_word_prompts();
    lemma_prefix_parts(s);
    assert forall|a: Seq<char>| s == #[trigger] ("/prompts "@ + a) implies command_outcome(s)
        == quietly(InputResultView::ListPrompts(extension_filter(argument_words(a)))) by {
        lemma_behind_prompts(a);
    }
}

/// `/prompt` asks for the prompt that its words name; by itself it has none.
pub proof fn law_prompt_is_the_one_named(input: Seq<char>, request: PromptView)
    ensures
        slash_outcome(input).result == Some(InputResultView::PromptCommand(request)) <==> (trimmed(
            input,
        ) == "/prompt"@ && request == prompt_request(Seq::empty())) || exists|a: Seq<char>|
            trimmed(input) == #[trigger] ("/prompt "@ + a) && request == prompt_request(
                argument_words(a),
            ),
{
    let s = trimmed(input);
    lemma_word_prompt();
    lemma_prefix_parts(s);
    assert forall|a: Seq<char>| s == #[trigger] ("/prompt "@ + a) implies command_outcome(s)
        == quietly(InputResultView::PromptCommand(prompt_request(argument_words(a)))) by {
        lemma_behind_prompt(a);
    }
}

/// A theme is selected exactly when its name, trimmed and in lower case, stands
/// behind `/t` and a blank and is one of the three there are; any other name is
/// refused with a notice that tells it.
pub proof fn law_theme_is_the_one_named(input: Seq<char>, name: Seq<char>)
    ensures
        slash_outcome(input).result == Some(InputResultView::SelectTheme(name)) <==> (name
            == "light"@ || name == "dark"@ || name == "ansi"@) && exists|a: Seq<char>|
            trimmed(input) == #[trigger] ("/t "@ + a) && name == lowercase(trimmed(a)),
        slash_outcome(input).notice == Some(NoticeView::ThemeUnavailable(name)) <==> name
            != "light"@ && name != "dark"@ && name != "ansi"@ && exists|a: Seq<char>|
            trimmed(input) == #[trigger] ("/t "@ + a) && name == lowercase(trimmed(a)),
{
    let s = trimmed(input);
    lemma_prefix_parts(s);
    assert forall|a: Seq<char>| s == #[trigger] ("/t "@ + a) implies command_outcome(s)
        == theme_outcome(lowercase(trimmed(a))) by {
        lemma_behind_theme(a);
    }
}

/// The help is shown by `/help` and `/?` alone, and the note on the new name of
/// `/summarize` by `/summarize` alone.
pub proof fn law_notices_come_of_their_words(input: Seq<char>)
    ensures
        slash_outcome(input).notice == Some(NoticeView::Help) <==> trimmed(input) == "/help"@
            || trimmed(input) == "/?"@,
        slash_outcome(input).notice == Some(NoticeView::SummarizeRenamed) <==> trimmed(input)
            == "/summarize"@,
{
    lemma_word_help();
    lemma_word_question();
    lemma_word_summarize();
}

/// The extension is the word behind the first `--extension` that has one, whatever
/// stands around them.
pub proof fn law_extension_follows_the_flag(
    before: Seq<Seq<char>>,
    name: Seq<char>,
    after: Seq<Seq<char>>,
)
    requires
        forall|i: int| 0 <= i < before.len() ==> #[trigger] before[i] != "--extension"@,
    ensures
        extension_filter(before + seq!["--extension"@, name] + after) == Some(name),
    decreases before.len(),
{
    let parts = before + seq!["--extension"@, name] + after;
    if before.len() > 0 {
        assert(parts[0] == before[0]);
        assert(parts.skip(1) == before.skip(1) + seq!["--extension"@, name] + after);
        assert forall|i: int| 0 <= i < before.skip(1).len() implies #[trigger] before.skip(1)[i]
            != "--extension"@ by {
            assert(before.skip(1)[i] == before[i + 1]);
        }
        law_extension_follows_the_flag(before.skip(1), name, after);
    } else {
        assert(parts[0] == "--extension"@ && parts[1] == name);
    }
}

/// Without `--extension`, or with nothing behind it, no extension is named.
pub proof fn law_no_flag_no_extension(parts: Seq<Seq<char>>)
    requires
        forall|i: int| 0 <= i < parts.len() - 1 ==> #[trigger] parts[i] != "--extension"@,
    ensures
        extension_filter(parts) is None,
    decreases parts.len(),
{
    if parts.len() >= 2 {
        assert(parts[0] != "--extension"@);
        let rest = parts.skip(1);
        assert forall|i: int| 0 <= i < rest.len() - 1 implies #[trigger] rest[i]
            != "--extension"@ by {
            assert(rest[i] == parts[i + 1]);
        }
        law_no_flag_no_extension(rest);
    }
}

/// Only information on a prompt is asked for exactly when one of the words is
/// `--info`.
pub proof fn law_info_is_asked_for(parts: Seq<Seq<char>>)
    ensures
        prompt_request(parts).info <==> exists|i: int|
            0 <= i < parts.len() && #[trigger] parts[i] == "--info"@,
{
}

/// The first word is the prompt's name and never an argument; without words the
/// name is empty. The arguments come of the words alone.
pub proof fn law_first_word_is_the_name(name: Seq<char>, rest: Seq<Seq<char>>)
    ensures
        prompt_request(seq![name] + rest).name == name,
        prompt_request(Seq::empty()).name.len() == 0,
        prompt_request(seq![name]).arguments == Map::<Seq<char>, Seq<char>>::empty(),
        prompt_request(Seq::empty()).arguments == Map::<Seq<char>, Seq<char>>::empty(),
        prompt_request(seq![name] + rest).arguments == prompt_arguments(seq![name] + rest),
{
}

/// A key has a value exactly when some word behind the name is a pair for it.
pub proof fn law_arguments_are_the_pairs(parts: Seq<Seq<char>>, key: Seq<char>)
    ensures
        prompt_arguments(parts).contains_key(key) <==> exists|i: int|
            1 <= i < parts.len() && is_pair_for(#[trigger] parts[i], key),
    decreases parts.len(),
{
    if parts.len() >= 2 {
        let earlier = parts.drop_last();
        law_arguments_are_the_pairs(earlier, key);
        lemma_pair_is_split(parts.last(), key);
        assert(parts[parts.len() - 1] == parts.last());
        if prompt_arguments(earlier).contains_key(key) {
            let i = choose|i: int| 1 <= i < earlier.len() && is_pair_for(#[trigger] earlier[i], key);
            assert(is_pair_for(parts[i], key));
        }
        if exists|i: int| 1 <= i < parts.len() && is_pair_for(#[trigger] parts[i], key) {
            let i = choose|i: int| 1 <= i < parts.len() && is_pair_for(#[trigger] parts[i], key);
            if i < earlier.len() {
                assert(is_pair_for(earlier[i], key));
            }
        }
    }
}

/// The value of a key is what stands behind the first equals sign of the last pair
/// for it, whatever words stand before and behind.
pub proof fn law_last_pair_counts(
    before: Seq<Seq<char>>,
    key: Seq<char>,
    value: Seq<char>,
    after: Seq<Seq<char>>,
)
    requires
        before.len() > 0,
        !key.contains('='),
        forall|j: int| 0 <= j < after.len() ==> !is_pair_for(#[trigger] after[j], key),
    ensures
        prompt_arguments(before.push(key.push('=') + value) + after).contains_key(key),
        prompt_arguments(before.push(key.push('=') + value) + after)[key] == value,
    decreases after.len(),
{
    let word = key.push('=') + value;
    let parts = before.push(word) + after;
    if after.len() == 0 {
        assert(parts.drop_last() == before);
        assert(parts.last() == word);
        assert(forall|i: int| 0 <= i < key.len() ==> key.contains(#[trigger] key[i]));
        law_pair_is_split_at_the_first_equals_sign(key, value);
    } else {
        let rest = after.drop_last();
        assert forall|j: int| 0 <= j < rest.len() implies !is_pair_for(
            #[trigger] rest[j],
            key,
        ) by {
            assert(rest[j] == after[j]);
        }
        law_last_pair_counts(before, key, value, rest);
        assert(parts.drop_last() == before.push(word) + rest);
        assert(parts.last() == after[after.len() - 1]);
        lemma_pair_is_split(parts.last(), key);
    }
}

/// Whether `word` is a pair for `key`: the key, which holds no equals sign, then
/// one, then any text.
pub open spec fn is_pair_for(word: Seq<char>, key: Seq<char>) -> bool {
    !key.contains('=') && key.push('=').is_prefix_of(word)
}

proof fn lemma_pair_is_split(word: Seq<char>, key: Seq<char>)
    ensures
        is_pair_for(word, key) <==> (split_at_first(word, '=') is Some && (split_at_first(
            word,
            '=',
        )->0).0 == key),
        is_pair_for(word, key) ==> word == key.push('=') + (split_at_first(word, '=')->0).1,
{
    law_split_at_the_first_mark(word, '=');
    let front = key.push('=');
    if is_pair_for(word, key) {
        let rest = word.skip(front.len() as int);
        assert(word == front + rest);
        assert(forall|i: int| 0 <= i < key.len() ==> key.contains(#[trigger] key[i]));
        law_pair_is_split_at_the_first_equals_sign(key, rest);
    }
    if split_at_first(word, '=') is Some && (split_at_first(word, '=')->0).0 == key {
        assert(front.is_prefix_of(word));
    }
}

/// The words of the arguments are those of the shell, and none where the shell
/// finds a quotation that is not ended. Without quoting they are what stands
/// between blanks, tabs and newlines.
pub proof fn law_arguments_are_split_by_the_shell(args: Seq<char>, c: char)
    ensures
        shell_words(args) matches Some(parts) ==> argument_words(args) == parts,
        shell_words(args) is None ==> argument_words(args).len() == 0,
        at_shell_blank()(c) <==> c == ' ' || c == '\t' || c == '\n',
        !args.contains('"') && !args.contains('\'') && !args.contains('\\') && !args.contains('#')
            ==> argument_words(args) == words(args, at_shell_blank()),
        args.contains('"') || args.contains('\'') || args.contains('\\') || args.contains('#')
            ==> shell_words(args) == shlex_words(args),
{
    assert(forall|i: int| 0 <= i < args.len() ==> args.contains(#[trigger] args[i]));
    if !is_unquoted(args) {
        let i = choose|i: int|
            0 <= i < args.len() && !(#[trigger] args[i] != '"' && args[i] != '\'' && args[i] != '\\'
                && args[i] != '#');
        assert(args.contains(args[i]));
    }
}

/// A recipe path is accepted, as it stands, exactly when its lower case ends with
/// `.yaml`, and refused with a notice in every other case.
pub proof fn law_recipe_path_goes_by_its_lower_case(filepath: Seq<char>, lowered: Seq<char>)
    ensures
        recipe_at(filepath, lowered).result == Some(InputResultView::Recipe(Some(filepath)))
            <==> exists|stem: Seq<char>| lowered == #[trigger] (stem + ".yaml"@),
        recipe_at(filepath, lowered).result == Some(InputResultView::Recipe(Some(filepath)))
            || recipe_at(filepath, lowered).result == Some(InputResultView::Retry),
        recipe_at(filepath, lowered).notice == if recipe_at(filepath, lowered).result == Some(
            InputResultView::Retry,
        ) {
            Some(NoticeView::RecipePathNotYaml)
        } else {
            None
        },
{
    let suffix = ".yaml"@;
    if suffix.is_suffix_of(lowered) {
        let stem = lowered.take(lowered.len() - suffix.len());
        assert(lowered == stem + suffix);
    }
    assert forall|stem: Seq<char>| lowered == #[trigger] (stem + suffix) implies suffix.is_suffix_of(
        lowered,
    ) by {
        assert(lowered.subrange(stem.len() as int, lowered.len() as int) == suffix);
    }
}

/// Behind `/recipe`, white space alone names no path, and any other text names the
/// path that it is without white space at its ends.
pub proof fn law_recipe_argument_names_the_path(argument: Seq<char>)
    ensures
        is_blank(argument) <==> recipe_outcome(argument).result == Some(
            InputResultView::Recipe(None),
        ),
        is_blank(argument) ==> recipe_outcome(argument).notice is None,
        !is_blank(argument) ==> recipe_outcome(argument) == recipe_at(
            trimmed(argument),
            lowercase(trimmed(argument)),
        ),
{
    law_trim_empty_iff_blank(argument);
}

/// Three names select a theme, each itself; any other is refused with a notice
/// that tells it.
pub proof fn law_three_themes_can_be_selected(name: Seq<char>)
    ensures
        ({
            let known = name == "light"@ || name == "dark"@ || name == "ansi"@;
            &&& known ==> theme_outcome(name).result == Some(InputResultView::SelectTheme(name))
                && theme_outcome(name).notice is None
            &&& !known ==> theme_outcome(name).result == Some(InputResultView::Retry)
                && theme_outcome(name).notice == Some(NoticeView::ThemeUnavailable(name))
        }),
{
}

} // verus!
