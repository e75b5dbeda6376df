use exopteron::formatting::{terminal_codes, TerminalStyle};
use exopteron::network::chat::{chat_action, ChatAction};
use exopteron::translation::TranslationManager;

#[test]
fn slash_starts_a_command() {
    let t = TranslationManager::default();
    match chat_action(&t, "Bob".to_string(), "/time set 0".to_string()) {
        ChatAction::Command(c) => assert_eq!(c, "time set 0"),
        ChatAction::Broadcast(_) => panic!("a command is not broadcast"),
    }
}

#[test]
fn other_messages_are_broadcast_with_the_name() {
    let t = TranslationManager::default();
    match chat_action(&t, "Bob".to_string(), "hi /all".to_string()) {
        ChatAction::Broadcast(text) => assert_eq!(text, "<Bob> hi /all"),
        ChatAction::Command(_) => panic!("not a command"),
    }
    match chat_action(&t, "Bob".to_string(), String::new()) {
        ChatAction::Broadcast(text) => assert_eq!(text, "<Bob> "),
        ChatAction::Command(_) => panic!("not a command"),
    }
}

#[test]
fn without_a_template_the_key_is_sent() {
    let t = TranslationManager::from_keys(ahash::AHashMap::new());
    match chat_action(&t, "Bob".to_string(), "hi".to_string()) {
        ChatAction::Broadcast(text) => assert_eq!(text, "chat.type.text"),
        ChatAction::Command(_) => panic!("not a command"),
    }
}

#[test]
fn formatting_codes_map_to_terminal_styles() {
    let codes = terminal_codes();
    assert_eq!(codes.len(), 21);
    assert_eq!(codes[0], ('4', TerminalStyle::Red));
    assert!(codes.contains(&('3', TerminalStyle::LightBlue)));
    assert_eq!(codes[20], ('r', TerminalStyle::Reset));
}
