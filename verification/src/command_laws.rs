//! What holds of slash commands as a whole.

use crate::commands::{
    argument_words, extension_filter, no_command, non_blank, prompt_arguments, prompt_request, quietly,
    slash_outcome, theme_outcome, with_notice, InputResultView, NoticeView,
};
use crate::text::{
    ascii_lowercase, at_white_space, is_blank, is_white_space, is_word, law_trim_empty_iff_blank,
    law_trim_ignores_padding, law_trim_takes_only_the_ends, law_words_hold_the_rest,
    lowercase, split_at_first, split_state, trimmed, words,
};
use vstd::utf8::is_ascii_chars;
use vstd::prelude::*;

verus! {

/// White space around a command changes nothing.
pub proof fn law_padding_is_ignored(before: Seq<char>, input: Seq<char>, after: Seq<char>)
    requires
        is_blank(before),
        is_blank(after),
    ensures
        slash_outcome(before + input + after) == slash_outcome(input),
{
    law_trim_ignores_padding(before, input, after);
}

/// Reveals the characters of every keyword.
pub(crate) proof fn lemma_keywords()
    ensures
        "/exit"@ == seq!['/', 'e', 'x', 'i', 't'],
        "/quit"@ == seq!['/', 'q', 'u', 'i', 't'],
        "/?"@ == seq!['/', '?'],
        "/help"@ == seq!['/', 'h', 'e', 'l', 'p'],
        "/t"@ == seq!['/', 't'],
        "/t "@ == seq!['/', 't', ' '],
        "/prompts"@ == seq!['/', 'p', 'r', 'o', 'm', 'p', 't', 's'],
        "/prompts "@ == seq!['/', 'p', 'r', 'o', 'm', 'p', 't', 's', ' '],
        "/prompt"@ == seq!['/', 'p', 'r', 'o', 'm', 'p', 't'],
        "/prompt "@ == seq!['/', 'p', 'r', 'o', 'm', 'p', 't', ' '],
        "/extension "@ == seq!['/', 'e', 'x', 't', 'e', 'n', 's', 'i', 'o', 'n', ' '],
        "/builtin "@ == seq!['/', 'b', 'u', 'i', 'l', 't', 'i', 'n', ' '],
        "/mode "@ == seq!['/', 'm', 'o', 'd', 'e', ' '],
        "/model"@ == seq!['/', 'm', 'o', 'd', 'e', 'l'],
        "/model "@ == seq!['/', 'm', 'o', 'd', 'e', 'l', ' '],
        "/plan"@ == seq!['/', 'p', 'l', 'a', 'n'],
        "/endplan"@ == seq!['/', 'e', 'n', 'd', 'p', 'l', 'a', 'n'],
        "/clear"@ == seq!['/', 'c', 'l', 'e', 'a', 'r'],
        "/recipe"@ == seq!['/', 'r', 'e', 'c', 'i', 'p', 'e'],
        "/compact"@ == seq!['/', 'c', 'o', 'm', 'p', 'a', 'c', 't'],
        "/skills"@ == seq!['/', 's', 'k', 'i', 'l', 'l', 's'],
        "/skills "@ == seq!['/', 's', 'k', 'i', 'l', 'l', 's', ' '],
        "/summarize"@ == seq!['/', 's', 'u', 'm', 'm', 'a', 'r', 'i', 'z', 'e'],
        "/r"@ == seq!['/', 'r'],
        "/edit"@ == seq!['/', 'e', 'd', 'i', 't'],
        "/edit "@ == seq!['/', 'e', 'd', 'i', 't', ' '],
{
    reveal_strlit("/exit");
    reveal_strlit("/quit");
    reveal_strlit("/?");
    reveal_strlit("/help");
    reveal_strlit("/t");
    reveal_strlit("/t ");
    reveal_strlit("/prompts");
    reveal_strlit("/prompts ");
    reveal_strlit("/prompt");
    reveal_strlit("/prompt ");
    reveal_strlit("/extension ");
    reveal_strlit("/builtin ");
    reveal_strlit("/mode ");
    reveal_strlit("/model");
    reveal_strlit("/model ");
    reveal_strlit("/plan");
    reveal_strlit("/endplan");
    reveal_strlit("/clear");
    reveal_strlit("/recipe");
    reveal_strlit("/compact");
    reveal_strlit("/skills");
    reveal_strlit("/skills ");
    reveal_strlit("/summarize");
    reveal_strlit("/r");
    reveal_strlit("/edit");
    reveal_strlit("/edit ");
}

/// Every command begins with a slash: any other line is none.
pub proof fn law_commands_begin_with_a_slash(input: Seq<char>)
    requires
        trimmed(input).len() == 0 || trimmed(input)[0] != '/',
    ensures
        slash_outcome(input).result is None,
        slash_outcome(input).notice is None,
{
    lemma_keywords();
    let s = trimmed(input);
    assert forall|p: Seq<char>| p.len() > 0 && p[0] == '/' implies !(
    #[trigger] p.is_prefix_of(s)) && s != p by {
        if p.is_prefix_of(s) {
            assert(s[0] == p[0]);
        }
    }
}

/// The user is asked again exactly when the help was shown or a request was
/// refused, and then the reason is shown.
pub proof fn law_refusals_are_retried(input: Seq<char>)
    ensures
        slash_outcome(input).result == Some(InputResultView::Retry) <==> (slash_outcome(
            input,
        ).notice matches Some(notice) && (notice is Help || notice is ThemeUnavailable
            || notice is RecipePathNotYaml)),
{
}

/// Whether `s` ends with something other than white space.
pub open spec fn ends_solid(s: Seq<char>) -> bool {
    s.len() > 0 && !is_white_space(s.last())
}

proof fn lemma_solid_is_trimmed(s: Seq<char>)
    requires
        ends_solid(s),
        !is_white_space(s[0]),
    ensures
        trimmed(s) == s,
{
}

/// Compares `s` with every keyword character by character.
pub(crate) proof fn lemma_keyword_chars(s: Seq<char>)
    ensures
        forall|p: Seq<char>, i: int|
            #![trigger p.is_prefix_of(s), p[i]]
            p.is_prefix_of(s) && 0 <= i < p.len() ==> i < s.len() && s[i] == p[i],
{
}

/// `/extension` and `/builtin` and `/mode` hand on what follows, as it stands.
pub proof fn law_argument_is_handed_on(argument: Seq<char>)
    requires
        ends_solid(argument),
    ensures
        slash_outcome("/extension "@ + argument) == quietly(
            InputResultView::AddExtension(argument),
        ),
        slash_outcome("/builtin "@ + argument) == quietly(InputResultView::AddBuiltin(argument)),
        slash_outcome("/mode "@ + argument) == quietly(InputResultView::GooseMode(argument)),
{
    lemma_keywords();
    let s = "/extension "@ + argument;
    lemma_solid_is_trimmed(s);
    lemma_keyword_chars(s);
    assert(s[0] == '/' && s[1] == 'e' && s[2] == 'x' && s[3] == 't' && s[4] == 'e');
    assert(s.skip(11) == argument);
    assert("/extension "@.is_prefix_of(s));
    let s = "/builtin "@ + argument;
    lemma_solid_is_trimmed(s);
    lemma_keyword_chars(s);
    assert(s[0] == '/' && s[1] == 'b' && s[2] == 'u' && s[3] == 'i' && s[4] == 'l');
    assert(s.skip(9) == argument);
    assert("/builtin "@.is_prefix_of(s));
    let s = "/mode "@ + argument;
    lemma_solid_is_trimmed(s);
    lemma_keyword_chars(s);
    assert(s[0] == '/' && s[1] == 'm' && s[2] == 'o' && s[3] == 'd' && s[4] == 'e');
    assert(s.skip(6) == argument);
    assert("/mode "@.is_prefix_of(s));
}

/// `/model`, `/edit` and `/plan` take what follows without the white space
/// around it.
pub proof fn law_argument_is_trimmed(argument: Seq<char>)
    requires
        ends_solid(argument),
    ensures
        slash_outcome("/model "@ + argument) == quietly(
            InputResultView::Model(Some(trimmed(argument))),
        ),
        slash_outcome("/edit "@ + argument) == quietly(
            InputResultView::Edit(Some(trimmed(argument))),
        ),
        slash_outcome("/plan "@ + argument) == quietly(InputResultView::Plan(trimmed(argument))),
{
    law_trim_empty_iff_blank(argument);
    assert(!is_blank(argument));
    lemma_model(argument);
    lemma_edit(argument);
    lemma_plan(argument);
}

proof fn lemma_model(argument: Seq<char>)
    requires
        ends_solid(argument),
    ensures
        slash_outcome("/model "@ + argument) == quietly(
            InputResultView::Model(non_blank(argument)),
        ),
{
    lemma_keywords();
    let s = "/model "@ + argument;
    lemma_solid_is_trimmed(s);
    lemma_keyword_chars(s);
    assert(s[0] == '/' && s[1] == 'm' && s[2] == 'o' && s[5] == 'l');
    assert(s.skip(7) == argument);
    assert("/model "@.is_prefix_of(s));
}

proof fn lemma_edit(argument: Seq<char>)
    requires
        ends_solid(argument),
    ensures
        slash_outcome("/edit "@ + argument) == quietly(InputResultView::Edit(non_blank(argument))),
{
    lemma_keywords();
    let s = "/edit "@ + argument;
    lemma_solid_is_trimmed(s);
    lemma_keyword_chars(s);
    assert(s[0] == '/' && s[1] == 'e' && s[2] == 'd' && s[3] == 'i' && s[4] == 't');
    assert(s.skip(6) == argument);
    assert("/edit "@.is_prefix_of(s));
}

proof fn lemma_plan(argument: Seq<char>)
    requires
        ends_solid(argument),
    ensures
        slash_outcome("/plan "@ + argument) == quietly(InputResultView::Plan(trimmed(argument))),
{
    lemma_keywords();
    reveal_strlit("/plan ");
    let s = "/plan "@ + argument;
    let blank = seq![' '];
    let none = Seq::<char>::empty();
    lemma_solid_is_trimmed(s);
    lemma_keyword_chars(s);
    assert(s[0] == '/' && s[1] == 'p' && s[2] == 'l' && s[3] == 'a' && s[4] == 'n');
    assert(s.skip(5) == blank + argument + none);
    law_trim_ignores_padding(blank, argument, none);
    assert("/plan"@.is_prefix_of(s));
}

/// Without an argument, or with white space for one, a command that can take one
/// asks for its default.
pub proof fn law_blank_argument_is_none(pad: Seq<char>)
    requires
        is_blank(pad),
    ensures
        slash_outcome("/model"@ + pad) == quietly(InputResultView::Model(None)),
        slash_outcome("/edit"@ + pad) == quietly(InputResultView::Edit(None)),
        slash_outcome("/skills"@ + pad) == quietly(InputResultView::ListSkills),
        slash_outcome("/recipe"@ + pad) == quietly(InputResultView::Recipe(None)),
        slash_outcome("/prompts"@ + pad) == quietly(InputResultView::ListPrompts(None)),
        slash_outcome("/prompt"@ + pad) == quietly(
            InputResultView::PromptCommand(prompt_request(Seq::empty())),
        ),
        slash_outcome("/plan"@ + pad) == quietly(InputResultView::Plan(Seq::empty())),
{
    lemma_keywords();
    let none = Seq::<char>::empty();
    lemma_padded_keyword("/model"@, pad);
    lemma_padded_keyword("/edit"@, pad);
    lemma_padded_keyword("/skills"@, pad);
    lemma_padded_keyword("/recipe"@, pad);
    lemma_padded_keyword("/prompts"@, pad);
    lemma_padded_keyword("/prompt"@, pad);
    lemma_padded_keyword("/plan"@, pad);
    lemma_keyword_chars("/model"@);
    lemma_keyword_chars("/edit"@);
    lemma_keyword_chars("/skills"@);
    lemma_keyword_chars("/recipe"@);
    lemma_keyword_chars("/prompts"@);
    lemma_keyword_chars("/prompt"@);
    lemma_keyword_chars("/plan"@);
    assert("/recipe"@.skip(7) == none);
    assert("/plan"@.skip(5) == none);
    assert(trimmed(none) == none);
}

proof fn lemma_padded_keyword(keyword: Seq<char>, pad: Seq<char>)
    requires
        is_blank(pad),
        ends_solid(keyword),
        keyword[0] == '/',
    ensures
        trimmed(keyword + pad) == keyword,
{
    let none = Seq::<char>::empty();
    law_trim_ignores_padding(none, keyword, pad);
    assert(none + keyword + pad == keyword + pad);
    lemma_solid_is_trimmed(keyword);
}

/// Without a blank behind it, a keyword that takes its argument behind a blank
/// does not begin a command: `/skillsextra` is none.
pub proof fn law_joined_word_is_no_command(tail: Seq<char>)
    requires
        ends_solid(tail),
        tail[0] != ' ',
    ensures
        slash_outcome("/t"@ + tail) == no_command(),
        slash_outcome("/edit"@ + tail) == no_command(),
        slash_outcome("/model"@ + tail) == no_command(),
        slash_outcome("/skills"@ + tail) == no_command(),
        slash_outcome("/prompts"@ + tail) == no_command(),
        tail[0] != 's' ==> slash_outcome("/prompt"@ + tail) == no_command(),
{
    lemma_joined_t(tail);
    lemma_joined_edit(tail);
    lemma_joined_model(tail);
    lemma_joined_skills(tail);
    lemma_joined_prompts(tail);
    if tail[0] != 's' {
        lemma_joined_prompt(tail);
    }
}

proof fn lemma_joined_t(tail: Seq<char>)
    requires
        ends_solid(tail),
        tail[0] != ' ',
    ensures
        slash_outcome("/t"@ + tail) == no_command(),
{
    lemma_keywords();
    let s = "/t"@ + tail;
    lemma_solid_is_trimmed(s);
    lemma_keyword_chars(s);
    assert(s[0] == '/' && s[1] == 't' && s[2] == tail[0]);
}

proof fn lemma_joined_edit(tail: Seq<char>)
    requires
        ends_solid(tail),
        tail[0] != ' ',
    ensures
        slash_outcome("/edit"@ + tail) == no_command(),
{
    lemma_keywords();
    let s = "/edit"@ + tail;
    lemma_solid_is_trimmed(s);
    lemma_keyword_chars(s);
    assert(s[0] == '/' && s[1] == 'e' && s[2] == 'd' && s[3] == 'i' && s[4] == 't' && s[5] == tail[0]);
}

proof fn lemma_joined_model(tail: Seq<char>)
    requires
        ends_solid(tail),
        tail[0] != ' ',
    ensures
        slash_outcome("/model"@ + tail) == no_command(),
{
    lemma_keywords();
    let s = "/model"@ + tail;
    lemma_solid_is_trimmed(s);
    lemma_keyword_chars(s);
    assert(s[0] == '/' && s[1] == 'm' && s[2] == 'o' && s[3] == 'd' && s[4] == 'e' && s[5] == 'l' && s[6] == tail[0]);
}

proof fn lemma_joined_skills(tail: Seq<char>)
    requires
        ends_solid(tail),
        tail[0] != ' ',
    ensures
        slash_outcome("/skills"@ + tail) == no_command(),
{
    lemma_keywords();
    let s = "/skills"@ + tail;
    lemma_solid_is_trimmed(s);
    lemma_keyword_chars(s);
    assert(s[0] == '/' && s[1] == 's' && s[2] == 'k' && s[3] == 'i' && s[4] == 'l' && s[5] == 'l' && s[6] == 's' && s[7] == tail[0]);
}

proof fn lemma_joined_prompts(tail: Seq<char>)
    requires
        ends_solid(tail),
        tail[0] != ' ',
    ensures
        slash_outcome("/prompts"@ + tail) == no_command(),
{
    lemma_keywords();
    let s = "/prompts"@ + tail;
    lemma_solid_is_trimmed(s);
    lemma_keyword_chars(s);
    assert(s[0] == '/' && s[1] == 'p' && s[2] == 'r' && s[3] == 'o' && s[4] == 'm' && s[5] == 'p' && s[6] == 't' && s[7] == 's' && s[8] == tail[0]);
}

proof fn lemma_joined_prompt(tail: Seq<char>)
    requires
        ends_solid(tail),
        tail[0] != ' ',
        tail[0] != 's',
    ensures
        slash_outcome("/prompt"@ + tail) == no_command(),
{
    lemma_keywords();
    let s = "/prompt"@ + tail;
    lemma_solid_is_trimmed(s);
    lemma_keyword_chars(s);
    assert(s[0] == '/' && s[1] == 'p' && s[2] == 'r' && s[3] == 'o' && s[4] == 'm' && s[5] == 'p' && s[6] == 't' && s[7] == tail[0]);
}

/// A theme is looked up by its name in lower case: the case of ASCII letters does
/// not matter.
pub proof fn law_theme_names_ignore_case(name: Seq<char>)
    requires
        ends_solid(name),
        !is_white_space(name[0]),
    ensures
        slash_outcome("/t "@ + name) == theme_outcome(lowercase(name)),
        is_ascii_chars(name) ==> slash_outcome("/t "@ + name) == theme_outcome(
            ascii_lowercase(name),
        ),
{
    lemma_keywords();
    let s = "/t "@ + name;
    lemma_solid_is_trimmed(s);
    lemma_solid_is_trimmed(name);
    lemma_keyword_chars(s);
    assert(s[0] == '/' && s[1] == 't' && s[2] == ' ');
    assert(s.skip(3) == name);
    assert("/t "@.is_prefix_of(s));
}

/// A theme that is selected is one of the three there are.
pub proof fn law_selected_theme_exists(input: Seq<char>)
    ensures
        slash_outcome(input).result matches Some(InputResultView::SelectTheme(name)) ==> name
            == "light"@ || name == "dark"@ || name == "ansi"@,
{
}

/// A recipe path is accepted, as it stands, exactly when it ends with `.yaml` in
/// lower case; in an ASCII path the case of the letters does not matter.
pub proof fn law_recipe_path_must_be_yaml(path: Seq<char>)
    requires
        ends_solid(path),
        !is_white_space(path[0]),
    ensures
        slash_outcome("/recipe "@ + path) == (if ".yaml"@.is_suffix_of(lowercase(path)) {
            quietly(InputResultView::Recipe(Some(path)))
        } else {
            with_notice(NoticeView::RecipePathNotYaml, InputResultView::Retry)
        }),
        is_ascii_chars(path) ==> lowercase(path) == ascii_lowercase(path),
{
    lemma_keywords();
    reveal_strlit("/recipe ");
    let s = "/recipe "@ + path;
    let blank = seq![' '];
    let none = Seq::<char>::empty();
    lemma_solid_is_trimmed(s);
    lemma_solid_is_trimmed(path);
    lemma_keyword_chars(s);
    assert(s[0] == '/' && s[1] == 'r' && s[2] == 'e' && s[3] == 'c');
    assert(s.skip(7) == blank + path + none);
    law_trim_ignores_padding(blank, path, none);
    assert("/recipe"@.is_prefix_of(s));
}

/// `/prompt` parses its arguments as the shell would, and `/prompts` looks for
/// the extension among them.
pub proof fn law_prompt_arguments_are_split(argument: Seq<char>)
    requires
        ends_solid(argument),
    ensures
        slash_outcome("/prompt "@ + argument) == quietly(
            InputResultView::PromptCommand(prompt_request(argument_words(argument))),
        ),
        slash_outcome("/prompts "@ + argument) == quietly(
            InputResultView::ListPrompts(extension_filter(argument_words(argument))),
        ),
{
    lemma_keywords();
    let s = "/prompt "@ + argument;
    lemma_solid_is_trimmed(s);
    lemma_keyword_chars(s);
    assert(s[0] == '/' && s[1] == 'p' && s[2] == 'r' && s[6] == 't' && s[7] == ' ');
    assert(s.skip(8) == argument);
    assert("/prompt "@.is_prefix_of(s));
    let s = "/prompts "@ + argument;
    lemma_solid_is_trimmed(s);
    lemma_keyword_chars(s);
    assert(s[0] == '/' && s[1] == 'p' && s[2] == 'r' && s[7] == 's' && s[8] == ' ');
    assert(s.skip(9) == argument);
    assert("/prompts "@.is_prefix_of(s));
}

/// `/skills` with names enables exactly the skills named.
pub proof fn law_skills_are_the_words(argument: Seq<char>)
    requires
        ends_solid(argument),
    ensures
        slash_outcome("/skills "@ + argument) == quietly(
            InputResultView::LoadSkills(words(trimmed(argument), at_white_space())),
        ),
        words(trimmed(argument), at_white_space()).len() > 0,
        forall|i: int|
            0 <= i < words(trimmed(argument), at_white_space()).len() ==> is_word(
                #[trigger] words(trimmed(argument), at_white_space())[i],
                at_white_space(),
            ),
{
    lemma_keywords();
    law_trim_empty_iff_blank(argument);
    assert(!is_blank(argument));
    let s = "/skills "@ + argument;
    lemma_solid_is_trimmed(s);
    lemma_keyword_chars(s);
    assert(s[0] == '/' && s[1] == 's' && s[2] == 'k' && s[7] == ' ');
    assert(s.skip(8) == argument);
    assert("/skills "@.is_prefix_of(s));
    law_words_hold_the_rest(trimmed(argument), at_white_space());
    law_trim_takes_only_the_ends(argument);
    let t = trimmed(argument);
    assert(split_state(t, at_white_space()).1.len() > 0);
}

/// A word behind the prompt's name that is no `key=value` pair changes no
/// argument.
pub proof fn law_other_words_are_ignored(parts: Seq<Seq<char>>, word: Seq<char>)
    requires
        parts.len() > 0,
        split_at_first(word, '=') is None,
    ensures
        prompt_arguments(parts.push(word)) == prompt_arguments(parts),
{
    assert(parts.push(word).drop_last() == parts);
}

/// A later value for a key takes the place of an earlier one, and leaves the
/// other keys alone.
pub proof fn law_later_value_counts(
    parts: Seq<Seq<char>>,
    word: Seq<char>,
    key: Seq<char>,
    value: Seq<char>,
)
    requires
        parts.len() > 0,
        split_at_first(word, '=') == Some((key, value)),
    ensures
        prompt_arguments(parts.push(word)) == prompt_arguments(parts).insert(key, value),
{
    assert(parts.push(word).drop_last() == parts);
}

/// A pair is split at its first equals sign: what follows may hold more of them.
pub proof fn law_pair_is_split_at_the_first_equals_sign(key: Seq<char>, value: Seq<char>)
    requires
        forall|i: int| 0 <= i < key.len() ==> #[trigger] key[i] != '=',
    ensures
        split_at_first(key.push('=') + value, '=') == Some((key, value)),
    decreases key.len(),
{
    let s = key.push('=') + value;
    if key.len() == 0 {
        assert(s.skip(1) == value);
        assert(key == Seq::<char>::empty());
    } else {
        law_pair_is_split_at_the_first_equals_sign(key.skip(1), value);
        assert(s.skip(1) == key.skip(1).push('=') + value);
        assert(seq![key[0]] + key.skip(1) == key);
    }
}

/// `--info` counts wherever it stands, and is never taken for an argument.
pub proof fn law_info_counts_anywhere(before: Seq<Seq<char>>, after: Seq<Seq<char>>)
    ensures
        prompt_request(before.push("--info"@) + after).info,
        before.len() > 0 ==> prompt_arguments(before.push("--info"@) + after) == prompt_arguments(
            before + after,
        ),
    decreases after.len(),
{
    let parts = before.push("--info"@) + after;
    assert(parts[before.len() as int] == "--info"@);
    if before.len() > 0 {
        if after.len() == 0 {
            assert(parts.drop_last() == before);
            assert(before + after == before);
            reveal_strlit("--info");
            reveal_with_fuel(split_at_first, 8);
        } else {
            law_info_counts_anywhere(before, after.drop_last());
            assert(parts.drop_last() == before.push("--info"@) + after.drop_last());
            assert((before + after).drop_last() == before + after.drop_last());
        }
    }
}

/// A command never sends a message.
pub proof fn law_messages_are_no_command(input: Seq<char>)
    ensures
        !(slash_outcome(input).result matches Some(result) && result is Message),
{
}

} // verus!
