use goose_input::commands::{
    check_recipe_path, handle_slash_command, list_prompts, parse_plan_command,
    parse_prompt_command, parse_prompts_command, parse_recipe_command, prompt_options,
    run_slash_command, select_theme, InputResult, Notice,
};

#[test]
fn test_handle_slash_command() {
    // Test exit commands
    assert!(matches!(
        handle_slash_command("/exit"),
        Some(InputResult::Exit)
    ));
    assert!(matches!(
        handle_slash_command("/quit"),
        Some(InputResult::Exit)
    ));

    // Test help commands
    assert!(matches!(
        handle_slash_command("/help"),
        Some(InputResult::Retry)
    ));
    assert!(matches!(
        handle_slash_command("/?"),
        Some(InputResult::Retry)
    ));

    // Test theme toggle
    assert!(matches!(
        handle_slash_command("/t"),
        Some(InputResult::ToggleTheme)
    ));

    // Test full tool output toggle
    assert!(matches!(
        handle_slash_command("/r"),
        Some(InputResult::ToggleFullToolOutput)
    ));

    // Test extension command
    if let Some(InputResult::AddExtension(cmd)) = handle_slash_command("/extension foo bar") {
        assert_eq!(cmd, "foo bar");
    } else {
        panic!("Expected AddExtension");
    }

    // Test builtin command
    if let Some(InputResult::AddBuiltin(names)) = handle_slash_command("/builtin dev,git") {
        assert_eq!(names, "dev,git");
    } else {
        panic!("Expected AddBuiltin");
    }

    // Test model command
    assert!(matches!(
        handle_slash_command("/model"),
        Some(InputResult::Model(None))
    ));
    assert!(matches!(
        handle_slash_command("/model   "),
        Some(InputResult::Model(None))
    ));
    if let Some(InputResult::Model(Some(model))) = handle_slash_command("/model gpt-4.1") {
        assert_eq!(model, "gpt-4.1");
    } else {
        panic!("Expected Model");
    }

    // Test unknown commands
    assert!(handle_slash_command("/unknown").is_none());
}

#[test]
fn test_prompts_command() {
    // Test basic prompts command
    if let Some(InputResult::ListPrompts(extension)) = handle_slash_command("/prompts") {
        assert!(extension.is_none());
    } else {
        panic!("Expected ListPrompts");
    }

    // Test prompts with extension filter
    if let Some(InputResult::ListPrompts(extension)) =
        handle_slash_command("/prompts --extension test")
    {
        assert_eq!(extension, Some("test".to_string()));
    } else {
        panic!("Expected ListPrompts with extension");
    }
}

#[test]
fn test_prompt_command() {
    // Test basic prompt info command
    if let Some(InputResult::PromptCommand(opts)) =
        handle_slash_command("/prompt test-prompt --info")
    {
        assert_eq!(opts.name, "test-prompt");
        assert!(opts.info);
        assert!(opts.arguments.is_empty());
    } else {
        panic!("Expected PromptCommand");
    }

    // Test prompt with arguments
    if let Some(InputResult::PromptCommand(opts)) =
        handle_slash_command("/prompt test-prompt arg1=val1 arg2=val2")
    {
        assert_eq!(opts.name, "test-prompt");
        assert!(!opts.info);
        assert_eq!(opts.arguments.len(), 2);
        assert_eq!(opts.arguments.get("arg1"), Some(&"val1".to_string()));
        assert_eq!(opts.arguments.get("arg2"), Some(&"val2".to_string()));
    } else {
        panic!("Expected PromptCommand");
    }
}

#[test]
fn test_whitespace_handling() {
    // Leading/trailing whitespace in extension command
    if let Some(InputResult::AddExtension(cmd)) = handle_slash_command("  /extension foo bar  ")
    {
        assert_eq!(cmd, "foo bar");
    } else {
        panic!("Expected AddExtension");
    }

    // Leading/trailing whitespace in builtin command
    if let Some(InputResult::AddBuiltin(names)) = handle_slash_command("  /builtin dev,git  ") {
        assert_eq!(names, "dev,git");
    } else {
        panic!("Expected AddBuiltin");
    }
}

#[test]
fn test_prompt_no_args() {
    // Test just "/prompt" with no arguments
    if let Some(InputResult::PromptCommand(opts)) = handle_slash_command("/prompt") {
        assert_eq!(opts.name, "");
        assert!(!opts.info);
        assert!(opts.arguments.is_empty());
    } else {
        panic!("Expected PromptCommand");
    }

    // Test invalid prompt command
    assert!(handle_slash_command("/promptxyz").is_none());
}

#[test]
fn test_quoted_arguments() {
    // Test prompt with quoted arguments
    if let Some(InputResult::PromptCommand(opts)) = handle_slash_command(
        r#"/prompt test-prompt arg1="value with spaces" arg2="another value""#,
    ) {
        assert_eq!(opts.name, "test-prompt");
        assert_eq!(opts.arguments.len(), 2);
        assert_eq!(
            opts.arguments.get("arg1"),
            Some(&"value with spaces".to_string())
        );
        assert_eq!(
            opts.arguments.get("arg2"),
            Some(&"another value".to_string())
        );
    } else {
        panic!("Expected PromptCommand");
    }

    // Test prompt with mixed quoted and unquoted arguments
    if let Some(InputResult::PromptCommand(opts)) = handle_slash_command(
        r#"/prompt test-prompt simple=value quoted="value with \"nested\" quotes""#,
    ) {
        assert_eq!(opts.name, "test-prompt");
        assert_eq!(opts.arguments.len(), 2);
        assert_eq!(opts.arguments.get("simple"), Some(&"value".to_string()));
        assert_eq!(
            opts.arguments.get("quoted"),
            Some(&r#"value with "nested" quotes"#.to_string())
        );
    } else {
        panic!("Expected PromptCommand");
    }
}

#[test]
fn test_invalid_arguments() {
    // Test prompt with invalid arguments
    if let Some(InputResult::PromptCommand(opts)) =
        handle_slash_command(r#"/prompt test-prompt valid=value invalid_arg another_invalid"#)
    {
        assert_eq!(opts.name, "test-prompt");
        assert_eq!(opts.arguments.len(), 1);
        assert_eq!(opts.arguments.get("valid"), Some(&"value".to_string()));
        // Invalid arguments are ignored but logged
    } else {
        panic!("Expected PromptCommand");
    }
}

#[test]
fn test_plan_mode() {
    // Test plan mode with no text
    let result = handle_slash_command("/plan");
    assert!(result.is_some());

    // Test plan mode with text
    let result = handle_slash_command("/plan hello world");
    assert!(result.is_some());
    let options = result.unwrap();
    match options {
        InputResult::Plan(options) => {
            assert_eq!(options.message_text, "hello world");
        }
        _ => panic!("Expected Plan"),
    }
}

#[test]
fn test_recipe_command() {
    // Test recipe with no filepath
    if let Some(InputResult::Recipe(filepath)) = handle_slash_command("/recipe") {
        assert!(filepath.is_none());
    } else {
        panic!("Expected Recipe");
    }

    // Test recipe with filepath
    if let Some(InputResult::Recipe(filepath)) =
        handle_slash_command("/recipe /path/to/file.yaml")
    {
        assert_eq!(filepath, Some("/path/to/file.yaml".to_string()));
    } else {
        panic!("Expected recipe with filepath");
    }

    // Test recipe with invalid extension
    let result = handle_slash_command("/recipe /path/to/file.txt");
    assert!(matches!(result, Some(InputResult::Retry)));
}

#[test]
fn test_edit_command() {
    // Test /edit with no arguments
    assert!(matches!(
        handle_slash_command("/edit"),
        Some(InputResult::Edit(None))
    ));

    // Test /edit with prefill text
    if let Some(InputResult::Edit(Some(text))) = handle_slash_command("/edit fix the login bug")
    {
        assert_eq!(text, "fix the login bug");
    } else {
        panic!("Expected Edit with prefill text");
    }

    // Test /edit with only whitespace after command
    assert!(matches!(
        handle_slash_command("/edit   "),
        Some(InputResult::Edit(None))
    ));

    // Test /editfoo is not a valid command
    assert!(handle_slash_command("/editfoo").is_none());
}

#[test]
fn test_skill_command() {
    // Test with a single skill name
    let Some(InputResult::LoadSkills(names)) = handle_slash_command("/skills coding") else {
        panic!(
            "Expected LoadSkills, got {:?}",
            handle_slash_command("/skills coding")
        );
    };
    assert_eq!(names, vec!["coding"]);

    // Test with multiple skill names
    let Some(InputResult::LoadSkills(names)) = handle_slash_command("/skills coding insight")
    else {
        panic!(
            "Expected LoadSkills, got {:?}",
            handle_slash_command("/skills coding insight")
        );
    };
    assert_eq!(names, vec!["coding", "insight"]);

    // Test with extra whitespace
    let Some(InputResult::LoadSkills(names)) = handle_slash_command("/skills  my-skill  ")
    else {
        panic!(
            "Expected LoadSkills, got {:?}",
            handle_slash_command("/skills  my-skill  ")
        );
    };
    assert_eq!(names, vec!["my-skill"]);

    // Test with no name: ListSkills
    assert!(matches!(
        handle_slash_command("/skills"),
        Some(InputResult::ListSkills)
    ));

    // Test with only whitespace after /skills: ListSkills
    assert!(matches!(
        handle_slash_command("/skills   "),
        Some(InputResult::ListSkills)
    ));
}

fn parts(words: &[&str]) -> Vec<String> {
    words.iter().map(|w| w.to_string()).collect()
}

#[test]
fn remaining_commands() {
    assert!(matches!(handle_slash_command("/endplan"), Some(InputResult::EndPlan)));
    assert!(matches!(handle_slash_command("/clear"), Some(InputResult::Clear)));
    assert!(matches!(handle_slash_command("/compact"), Some(InputResult::Compact)));
    assert!(matches!(
        handle_slash_command("/mode auto"),
        Some(InputResult::GooseMode(mode)) if mode == "auto"
    ));
    // What follows is handed on as it stands.
    assert!(matches!(
        handle_slash_command("/extension   a  b "),
        Some(InputResult::AddExtension(command)) if command == "  a  b"
    ));
    assert!(matches!(
        handle_slash_command("/model   gpt "),
        Some(InputResult::Model(Some(model))) if model == "gpt"
    ));
    // Without a space these are no commands.
    for line in ["/extension", "/builtin", "/mode", "/modelx", "/skillsextra", "/promptsx", "/tx", "/editx"] {
        assert!(handle_slash_command(line).is_none(), "{line}");
    }
    for line in ["", "exit", "help", "  ", "//"] {
        assert!(handle_slash_command(line).is_none(), "{line}");
    }
    assert!(handle_slash_command("/skills\tone").is_none());
}

#[test]
fn plan_and_recipe_take_what_is_joined_to_them() {
    assert!(matches!(
        handle_slash_command("/planets"),
        Some(InputResult::Plan(options)) if options.message_text == "ets"
    ));
    assert!(matches!(
        handle_slash_command("/recipefoo.yaml"),
        Some(InputResult::Recipe(Some(path))) if path == "foo.yaml"
    ));
    assert!(matches!(
        parse_plan_command("  go \n".to_string()),
        Some(InputResult::Plan(options)) if options.message_text == "go"
    ));
}

#[test]
fn themes() {
    for (line, name) in [
        ("/t light", "light"),
        ("/t LIGHT", "light"),
        ("/t   Dark ", "dark"),
        ("/t ansi", "ansi"),
        // The Kelvin sign is a letter k in lower case.
        ("/t dar\u{212A}", "dark"),
    ] {
        let outcome = run_slash_command(line);
        assert!(outcome.notice.is_none());
        assert!(matches!(outcome.result, Some(InputResult::SelectTheme(t)) if t == name));
    }
    let outcome = run_slash_command("/t Solarized");
    assert!(matches!(outcome.notice, Some(Notice::ThemeUnavailable(t)) if t == "solarized"));
    assert!(matches!(outcome.result, Some(InputResult::Retry)));
    assert!(matches!(
        select_theme("ansi".to_string()).result,
        Some(InputResult::SelectTheme(t)) if t == "ansi"
    ));
    assert!(matches!(
        select_theme("ANSI".to_string()).notice,
        Some(Notice::ThemeUnavailable(_))
    ));
}

#[test]
fn notices_come_with_their_commands() {
    for line in ["/help", "/?"] {
        let outcome = run_slash_command(line);
        assert!(matches!(outcome.notice, Some(Notice::Help)));
        assert!(matches!(outcome.result, Some(InputResult::Retry)));
    }
    let outcome = run_slash_command("/summarize");
    assert!(matches!(outcome.notice, Some(Notice::SummarizeRenamed)));
    assert!(matches!(outcome.result, Some(InputResult::Compact)));
    for line in ["/exit", "/compact", "/unknown", "/recipe a.yaml", "no command"] {
        assert!(run_slash_command(line).notice.is_none(), "{line}");
    }
}

#[test]
fn recipe_paths_end_with_yaml_in_any_case() {
    for (line, path) in [
        ("/recipe A.YAML", "A.YAML"),
        ("/recipe  my recipe.Yaml ", "my recipe.Yaml"),
        ("/recipe Ünïcode.YAML", "Ünïcode.YAML"),
        ("/recipe .yaml", ".yaml"),
    ] {
        let outcome = run_slash_command(line);
        assert!(outcome.notice.is_none());
        assert!(matches!(outcome.result, Some(InputResult::Recipe(Some(p))) if p == path));
    }
    for line in ["/recipe a.yml", "/recipe yaml", "/recipe a.yaml.txt"] {
        let outcome = run_slash_command(line);
        assert!(matches!(outcome.notice, Some(Notice::RecipePathNotYaml)));
        assert!(matches!(outcome.result, Some(InputResult::Retry)));
    }
    assert!(matches!(
        parse_recipe_command("/recipe  ").result,
        Some(InputResult::Recipe(None))
    ));
    assert!(matches!(
        check_recipe_path("X".to_string(), "x.yaml").result,
        Some(InputResult::Recipe(Some(p))) if p == "X"
    ));
    assert!(matches!(
        check_recipe_path("X.yaml".to_string(), "x").notice,
        Some(Notice::RecipePathNotYaml)
    ));
}

#[test]
fn extension_filter_is_the_word_behind_the_flag() {
    for (words, expected) in [
        (vec!["--extension", "a"], Some("a")),
        (vec!["x", "--extension", "a", "--extension", "b"], Some("a")),
        (vec!["--extension"], None),
        (vec!["--extension", "--extension"], Some("--extension")),
        (vec!["x", "y"], None),
        (vec![], None),
    ] {
        match list_prompts(&parts(&words)) {
            InputResult::ListPrompts(found) => assert_eq!(found.as_deref(), expected),
            other => panic!("{:?}", other),
        }
    }
    assert!(matches!(
        parse_prompts_command("--extension 'two words'"),
        Some(InputResult::ListPrompts(Some(name))) if name == "two words"
    ));
    // An open quotation leaves no words.
    assert!(matches!(
        parse_prompts_command("--extension 'open"),
        Some(InputResult::ListPrompts(None))
    ));
}

#[test]
fn prompt_options_from_words() {
    let options = prompt_options(&parts(&["name", "k=1", "--info", "k=2", "v=a=b", "=x", "word"]));
    assert_eq!(options.name, "name");
    assert!(options.info);
    assert_eq!(options.arguments.len(), 3);
    assert_eq!(options.arguments.get("k"), Some(&"2".to_string()));
    assert_eq!(options.arguments.get("v"), Some(&"a=b".to_string()));
    assert_eq!(options.arguments.get(""), Some(&"x".to_string()));
    assert_eq!(options.arguments.get("word"), None);
    let keys: Vec<&str> = options.arguments.entries().iter().map(|a| a.key.as_str()).collect();
    assert_eq!(keys, vec!["k", "v", ""]);

    // The first word is the name, even if it looks like an argument.
    let options = prompt_options(&parts(&["a=b"]));
    assert_eq!(options.name, "a=b");
    assert!(options.arguments.is_empty());
    let options = prompt_options(&parts(&["--info"]));
    assert_eq!(options.name, "--info");
    assert!(options.info);
    assert_eq!(prompt_options(&Vec::new()).name, "");
}

#[test]
fn prompt_words_follow_the_shell() {
    for (args, name, value) in [
        ("p k=v", "p", "v"),
        ("p\tk=v", "p", "v"),
        ("'my prompt' k='a b'", "my prompt", "a b"),
        ("p k=a\\ b", "p", "a b"),
        ("p # comment\nk=v", "p", "v"),
    ] {
        match parse_prompt_command(args) {
            Some(InputResult::PromptCommand(options)) => {
                assert_eq!(options.name, name);
                assert_eq!(options.arguments.get("k"), Some(&value.to_string()));
            }
            other => panic!("{:?}", other),
        }
    }
    match parse_prompt_command("p k=\"open") {
        Some(InputResult::PromptCommand(options)) => {
            assert_eq!(options.name, "");
            assert!(!options.info);
            assert!(options.arguments.is_empty());
        }
        other => panic!("{:?}", other),
    }
}

#[test]
fn words_without_quoting_stand_between_blanks() {
    for args in ["a b", "  a\t\tb\nc ", "", "é\u{a0}x y", "k=v --info"] {
        let expected: Vec<String> = args
            .split([' ', '\t', '\n'])
            .filter(|w| !w.is_empty())
            .map(String::from)
            .collect();
        assert_eq!(shlex::split(args), Some(expected));
    }
}
