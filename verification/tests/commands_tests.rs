use cli_chat::commands::{confirms_execution, parse_command, CliAction};
use cli_chat::config::ChatModel;

#[test]
fn exit_words_exit() {
    assert!(matches!(parse_command("exit"), CliAction::Exit));
    assert!(matches!(parse_command("quit"), CliAction::Exit));
    assert!(matches!(parse_command("/exit"), CliAction::Exit));
    assert!(matches!(parse_command("/quit"), CliAction::Exit));
    assert!(matches!(parse_command("q"), CliAction::Exit));
}

#[test]
fn simple_commands_parse() {
    assert!(matches!(parse_command("/stream"), CliAction::ToggleStream));
    assert!(matches!(parse_command("/clear"), CliAction::ClearScreen));
    assert!(matches!(parse_command("/new"), CliAction::NewConversation));
    assert!(matches!(parse_command("/context"), CliAction::ShowContext));
    assert!(matches!(parse_command("/help"), CliAction::Help));
    assert!(matches!(parse_command("/model"), CliAction::ListModels));
}

#[test]
fn surrounding_white_space_is_ignored() {
    assert!(matches!(parse_command("  /stream  "), CliAction::ToggleStream));
    assert!(matches!(parse_command("\texit\n"), CliAction::Exit));
}

#[test]
fn model_switch_parses_the_name() {
    assert!(matches!(parse_command("/model gpt-4o"), CliAction::SetModel(ChatModel::Gpt4o)));
    assert!(matches!(
        parse_command("/model gpt-3.5-turbo"),
        CliAction::SetModel(ChatModel::Gpt35Turbo)
    ));
    assert!(matches!(parse_command("/model gpt-4o-mini"), CliAction::SetModel(ChatModel::Gpt4omini)));
}

#[test]
fn unknown_model_names_are_reported() {
    match parse_command("/model gpt-99") {
        CliAction::InvalidModel(name) => assert_eq!(name, "gpt-99"),
        other => panic!("expected InvalidModel, got {:?}", other),
    }
    // a missing space keeps the whole word as the bad name
    match parse_command("/modelgpt-4o") {
        CliAction::InvalidModel(name) => assert_eq!(name, "/modelgpt-4o"),
        other => panic!("expected InvalidModel, got {:?}", other),
    }
}

#[test]
fn unknown_slash_commands_are_flagged() {
    assert!(matches!(parse_command("/nope"), CliAction::Unknown));
    assert!(matches!(parse_command("/stream extra"), CliAction::Unknown));
}

#[test]
fn bang_lines_become_shell_tasks() {
    match parse_command("!list all files") {
        CliAction::ShellTask(p) => assert_eq!(p, "list all files"),
        other => panic!("expected ShellTask, got {:?}", other),
    }
    match parse_command("!!twice") {
        CliAction::ShellTask(p) => assert_eq!(p, "twice"),
        other => panic!("expected ShellTask, got {:?}", other),
    }
}

#[test]
fn blank_lines_do_nothing() {
    assert!(matches!(parse_command(""), CliAction::Empty));
    assert!(matches!(parse_command("   "), CliAction::Empty));
}

#[test]
fn anything_else_is_a_prompt() {
    match parse_command(" explain monads ") {
        CliAction::Chat(p) => assert_eq!(p, "explain monads"),
        other => panic!("expected Chat, got {:?}", other),
    }
}

#[test]
fn affirmative_answers_confirm() {
    assert!(confirms_execution("y"));
    assert!(confirms_execution("yes"));
    assert!(confirms_execution(" YES "));
    assert!(confirms_execution("Y"));
    assert!(!confirms_execution("no"));
    assert!(!confirms_execution(""));
    assert!(!confirms_execution("yess"));
}
