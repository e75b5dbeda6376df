use exopteron::translation::TranslationManager;

fn args(v: &[&str]) -> Option<Vec<String>> {
    Some(v.iter().map(|s| s.to_string()).collect())
}

#[test]
fn default_templates_fill_in_order() {
    let t = TranslationManager::default();
    assert_eq!(t.len(), 4);
    assert_eq!(t.translate("chat.type.text", args(&["Bob", "hi"])), "<Bob> hi");
    assert_eq!(t.translate("multiplayer.player.joined", args(&["Ann"])), "Ann joined the game.");
    assert_eq!(t.translate("multiplayer.disconnect.server_shutdown", None), "Server closed");
}

#[test]
fn unknown_keys_come_back_as_they_are() {
    let t = TranslationManager::default();
    assert_eq!(t.translate("no.such.key", args(&["x"])), "no.such.key");
}

#[test]
fn placeholders_without_entries_stay_and_extra_entries_are_dropped() {
    let t = TranslationManager::default();
    assert_eq!(t.translate("chat.type.text", args(&["Bob"])), "<Bob> %s");
    assert_eq!(t.translate("multiplayer.player.left", args(&["Ann", "extra"])), "Ann left the game.");
    assert_eq!(t.translate("chat.type.text", None), "<%s> %s");
}

#[test]
fn each_entry_fills_the_first_placeholder_left() {
    let t = TranslationManager::default();
    // The first entry brings a placeholder of its own, which the second fills.
    assert_eq!(t.translate("chat.type.text", args(&["%s", "x"])), "<x> %s");
}

#[test]
fn custom_templates() {
    let mut keys = ahash::AHashMap::new();
    keys.insert(String::from("greet"), String::from("Hello, %s!"));
    let t = TranslationManager::from_keys(keys);
    assert_eq!(t.len(), 1);
    assert_eq!(t.translate("greet", args(&["world"])), "Hello, world!");
    assert_eq!(t.translate("greet", None), "Hello, %s!");
}

#[test]
fn templates_without_placeholders_ignore_entries() {
    let t = TranslationManager::default();
    assert_eq!(
        t.translate("multiplayer.disconnect.server_shutdown", args(&["a", "b"])),
        "Server closed"
    );
}

#[test]
fn templates_come_from_and_go_to_json() {
    let t = TranslationManager::from_json("{\"greet\": \"hi %s\", \"bye\": \"ciao\"}").unwrap();
    assert_eq!(t.len(), 2);
    assert_eq!(t.translate("greet", Some(vec!["bob".to_owned()])), "hi bob");
    let text = t.to_json().unwrap();
    let back = TranslationManager::from_json(&text).unwrap();
    assert_eq!(back.len(), 2);
    assert_eq!(back.translate("bye", None), "ciao");
    assert!(TranslationManager::from_json("[1, 2]").is_none());
    assert!(TranslationManager::from_json("{\"a\": 3}").is_none());
}
