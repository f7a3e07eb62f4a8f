use conduit_cli::engine::runtime::launchers::chat::{ChatEvent, ChatManager, RawText};

#[test]
fn new_manager_is_inactive_server() {
    let m = ChatManager::new();
    assert!(!m.is_active());
    assert_eq!(m.get_name(), "Server");
}

#[test]
fn bare_chat_starts_as_server() {
    let mut m = ChatManager::new();
    let r = m.handle_input("  :chat  ");
    assert!(r.handled);
    assert!(m.is_active());
    assert_eq!(m.get_name(), "Server");
    assert!(matches!(r.event, Some(ChatEvent::ChatModeStarted { ref sender }) if sender == "Server"));
    assert!(r.command.is_none());
}

#[test]
fn chat_with_name_starts_under_that_name() {
    let mut m = ChatManager::new();
    let r = m.handle_input(":chat   Steve  ");
    assert!(r.handled);
    assert_eq!(m.get_name(), "Steve");
    assert!(matches!(r.event, Some(ChatEvent::ChatModeStarted { ref sender }) if sender == "Steve"));
}

#[test]
fn chat_name_drops_every_command_occurrence() {
    let mut m = ChatManager::new();
    m.handle_input(":chat Bob:chat Alice");
    assert_eq!(m.get_name(), "BobAlice");
    m.handle_input(":chat Bob :chat Alice");
    assert_eq!(m.get_name(), "Bob Alice");
    m.handle_input(":chat :chat:chat x");
    assert_eq!(m.get_name(), ":chatx");
}

#[test]
fn message_while_active_becomes_tellraw() {
    let mut m = ChatManager::new();
    m.handle_input(":chat Steve");
    let r = m.handle_input("  hello world ");
    assert!(r.handled);
    assert!(r.event.is_none());
    assert_eq!(
        r.command.unwrap(),
        "tellraw @a [{\"text\":\"<Steve> \",\"color\":\"gold\",\"bold\":true},{\"text\":\"hello world\",\"color\":\"white\",\"bold\":false}]"
    );
}

#[test]
fn message_is_json_escaped() {
    let mut m = ChatManager::new();
    m.handle_input(":chat");
    let r = m.handle_input("say \"hi\" \\ now\u{1}x");
    assert_eq!(
        r.command.unwrap(),
        "tellraw @a [{\"text\":\"<Server> \",\"color\":\"gold\",\"bold\":true},{\"text\":\"say \\\"hi\\\" \\\\ now\\u0001x\",\"color\":\"white\",\"bold\":false}]"
    );
}

#[test]
fn message_while_inactive_is_not_handled() {
    let mut m = ChatManager::new();
    let r = m.handle_input("hello");
    assert!(!r.handled);
    assert!(r.event.is_none());
    assert!(r.command.is_none());
}

#[test]
fn exit_commands_stop_chat_mode() {
    for cmd in [":exit", ":e", " :q "] {
        let mut m = ChatManager::new();
        m.handle_input(":chat Alex");
        let r = m.handle_input(cmd);
        assert!(r.handled);
        assert!(matches!(r.event, Some(ChatEvent::ChatModeStopped)));
        assert!(!m.is_active());
        assert_eq!(m.get_name(), "Alex");
    }
}

#[test]
fn exit_while_inactive_is_not_handled() {
    let mut m = ChatManager::new();
    let r = m.handle_input(":exit");
    assert!(!r.handled);
    assert!(r.event.is_none());
}

#[test]
fn empty_line_prompts_only_when_active() {
    let mut m = ChatManager::new();
    let r = m.handle_input("   ");
    assert!(!r.handled);
    m.handle_input(":chat Eve");
    let r = m.handle_input("");
    assert!(r.handled);
    assert!(matches!(r.event, Some(ChatEvent::ChatPromptRequested { ref sender }) if sender == "Eve"));
}

#[test]
fn deactivate_keeps_name() {
    let mut m = ChatManager::new();
    m.handle_input(":chat Zed");
    m.deactivate();
    assert!(!m.is_active());
    assert_eq!(m.get_name(), "Zed");
}

#[test]
fn raw_text_json_omits_unset_fields() {
    let mut out = String::new();
    RawText::new("a\tb").push_json(&mut out);
    assert_eq!(out, "{\"text\":\"a\\tb\"}");
    let mut out = String::new();
    RawText::new("x").bold(false).push_json(&mut out);
    assert_eq!(out, "{\"text\":\"x\",\"bold\":false}");
    let mut out = String::new();
    RawText::new("y").color("red").push_json(&mut out);
    assert_eq!(out, "{\"text\":\"y\",\"color\":\"red\"}");
}

#[test]
fn mode_follows_the_latest_switch() {
    let mut m = ChatManager::new();
    m.handle_input("hello");
    assert!(!m.is_active());
    assert_eq!(m.get_name(), "Server");
    m.handle_input(":chat Alex");
    m.handle_input("hi all");
    assert!(m.is_active());
    assert_eq!(m.get_name(), "Alex");
    m.deactivate();
    m.handle_input("say hi");
    assert!(!m.is_active());
    assert_eq!(m.get_name(), "Alex");
    m.handle_input("  :chat  ");
    assert!(m.is_active());
    assert_eq!(m.get_name(), "Server");
    m.handle_input(":q");
    m.handle_input("");
    assert!(!m.is_active());
    assert_eq!(m.get_name(), "Server");
}
