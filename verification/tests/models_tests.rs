use cli_chat::config::{ApiConfig, ChatModel};
use cli_chat::models::{ChatError, ChatResponse, Choice, Message, ResponseMessage, Role};
use cli_chat::shell::{ShellCommand, ShellType};

#[test]
fn constructors_set_the_role() {
    let u = Message::user("q");
    assert!(u.role == Role::User);
    assert_eq!(u.content, "q");
    let a = Message::assistant("r");
    assert!(a.role == Role::Assistant);
    assert_eq!(a.content, "r");
    let s = Message::system("inst");
    assert!(s.role == Role::System);
    assert_eq!(s.content, "inst");
}

#[test]
fn empty_content_is_allowed() {
    let m = Message::user("");
    assert_eq!(m.content, "");
}

#[test]
fn first_content_reads_the_first_candidate() {
    let resp = ChatResponse {
        choices: vec![
            Choice { message: ResponseMessage { content: "first".to_string() } },
            Choice { message: ResponseMessage { content: "second".to_string() } },
        ],
    };
    assert_eq!(resp.first_content().unwrap(), "first");
}

#[test]
fn first_content_of_an_empty_list_is_malformed() {
    let resp = ChatResponse { choices: vec![] };
    assert_eq!(resp.first_content(), Err(ChatError::MalformedResponse));
}

#[test]
fn model_identifiers_round_trip() {
    for m in [ChatModel::Gpt35Turbo, ChatModel::Gpt4o, ChatModel::Gpt4omini] {
        assert_eq!(ChatModel::from_name(m.as_str()), Some(m));
    }
    assert_eq!(ChatModel::from_name("gpt-99"), None);
}

#[test]
fn the_model_listing_names_all_three() {
    let models = ChatModel::list_available_models();
    assert_eq!(models.len(), 3);
    assert_eq!(models[0].0, "gpt-3.5-turbo");
    assert_eq!(models[1].0, "gpt-4o");
    assert_eq!(models[2].0, "gpt-4o-mini");
    assert!(models[0].1.contains("GPT-3.5 Turbo"));
}

#[test]
fn the_default_model_is_the_cheapest() {
    assert_eq!(ChatModel::default(), ChatModel::Gpt35Turbo);
}

#[test]
fn a_config_keeps_its_parts() {
    let c = ApiConfig::new(Some("secret".to_string()), ChatModel::Gpt4o);
    assert!(c.has_api_key());
    assert_eq!(c.api_key.as_deref(), Some("secret"));
    let bare = ApiConfig::new(None, ChatModel::default());
    assert!(!bare.has_api_key());
}

#[test]
fn shells_are_detected_by_name() {
    assert_eq!(ShellCommand::new("/bin/bash").shell_type(), ShellType::Bash);
    assert_eq!(ShellCommand::new("/usr/bin/zsh").shell_type(), ShellType::Zsh);
    assert_eq!(ShellCommand::new("fish").shell_type(), ShellType::Fish);
    assert_eq!(ShellCommand::new("powershell.exe").shell_type(), ShellType::PowerShell);
    assert_eq!(ShellCommand::new("cmd").shell_type(), ShellType::Cmd);
    // unknown shells fall back to Bash
    assert_eq!(ShellCommand::new("tcsh").shell_type(), ShellType::Bash);
}

#[test]
fn a_shell_command_carries_its_text() {
    let mut sc = ShellCommand::new("/bin/bash");
    assert_eq!(sc.command(), "");
    sc.set_command("echo hi".to_string());
    assert_eq!(sc.command(), "echo hi");
    assert_eq!(sc.shell_type(), ShellType::Bash);
}
