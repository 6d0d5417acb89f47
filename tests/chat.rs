use exospace::chat::{ChatCommand, ChatMessage, ChatWindow};
use exospace::text::{first_blank, parse_int, same_text, split_word, trimmed};

#[test]
fn test_chat_message_new() {
    let msg = ChatMessage::new("Hello".to_string(), 0xFF0000);
    assert_eq!(msg.text, "Hello");
    assert_eq!(msg.color, 0xFF0000);
}

#[test]
fn test_chat_message_system() {
    let msg = ChatMessage::system("System message");
    assert_eq!(msg.text, "System message");
    assert_eq!(msg.color, 0xFFFF00);
}

#[test]
fn test_chat_message_user() {
    let msg = ChatMessage::user("User input");
    assert_eq!(msg.text, "User input");
    assert_eq!(msg.color, 0x00FF00);
}

#[test]
fn test_chat_message_error() {
    let msg = ChatMessage::error("Error!");
    assert_eq!(msg.text, "Error!");
    assert_eq!(msg.color, 0xFF4444);
}

#[test]
fn test_chat_window_default() {
    let chat = ChatWindow::default();
    assert!(!chat.active);
    assert!(chat.input.is_empty());
    assert_eq!(chat.cursor, 0);
    assert!(chat.messages.is_empty());
}

#[test]
fn test_chat_window_new_has_welcome_message() {
    let chat = ChatWindow::new();
    assert_eq!(chat.messages.len(), 1);
    assert!(chat.messages[0].text.contains("Welcome"));
}

#[test]
fn test_chat_window_toggle() {
    let mut chat = ChatWindow::default();
    assert!(!chat.active);

    chat.toggle();
    assert!(chat.active);

    chat.toggle();
    assert!(!chat.active);
}

#[test]
fn test_chat_window_open_close() {
    let mut chat = ChatWindow::default();

    chat.open();
    assert!(chat.active);

    chat.insert_char('h');
    chat.insert_char('i');
    assert_eq!(chat.input, "hi");

    chat.close();
    assert!(!chat.active);
    assert!(chat.input.is_empty());
    assert_eq!(chat.cursor, 0);
}

#[test]
fn test_chat_window_insert_char() {
    let mut chat = ChatWindow::default();
    chat.insert_char('a');
    chat.insert_char('b');
    chat.insert_char('c');

    assert_eq!(chat.input, "abc");
    assert_eq!(chat.cursor, 3);
}

#[test]
fn test_chat_window_backspace() {
    let mut chat = ChatWindow::default();
    chat.insert_char('a');
    chat.insert_char('b');
    chat.insert_char('c');

    chat.backspace();
    assert_eq!(chat.input, "ab");
    assert_eq!(chat.cursor, 2);

    chat.backspace();
    assert_eq!(chat.input, "a");

    chat.backspace();
    assert!(chat.input.is_empty());

    chat.backspace();
    assert!(chat.input.is_empty());
}

#[test]
fn test_chat_window_cursor_movement() {
    let mut chat = ChatWindow::default();
    chat.insert_char('a');
    chat.insert_char('b');
    chat.insert_char('c');
    assert_eq!(chat.cursor, 3);

    chat.cursor_left();
    assert_eq!(chat.cursor, 2);

    chat.cursor_left();
    assert_eq!(chat.cursor, 1);

    chat.cursor_right();
    assert_eq!(chat.cursor, 2);

    chat.cursor_home();
    assert_eq!(chat.cursor, 0);

    chat.cursor_end();
    assert_eq!(chat.cursor, 3);
}

#[test]
fn test_chat_window_delete() {
    let mut chat = ChatWindow::default();
    chat.insert_char('a');
    chat.insert_char('b');
    chat.insert_char('c');
    chat.cursor_home();

    chat.delete();
    assert_eq!(chat.input, "bc");

    chat.delete();
    assert_eq!(chat.input, "c");
}

#[test]
fn test_chat_window_insert_at_cursor() {
    let mut chat = ChatWindow::default();
    chat.insert_char('a');
    chat.insert_char('c');
    chat.cursor_left();
    chat.insert_char('b');

    assert_eq!(chat.input, "abc");
}

#[test]
fn test_chat_window_submit() {
    let mut chat = ChatWindow::default();
    chat.open();
    chat.insert_char('h');
    chat.insert_char('i');

    let result = chat.submit();
    assert_eq!(result, Some("hi".to_string()));
    assert!(chat.input.is_empty());
    assert!(!chat.active);
}

#[test]
fn test_chat_window_submit_empty() {
    let mut chat = ChatWindow::default();
    chat.open();

    let result = chat.submit();
    assert!(result.is_none());
    assert!(!chat.active);
}

#[test]
fn test_chat_window_add_message() {
    let mut chat = ChatWindow::default();
    chat.add_message(ChatMessage::system("Test 1"));
    chat.add_message(ChatMessage::system("Test 2"));

    assert_eq!(chat.messages.len(), 2);
    assert_eq!(chat.messages[0].text, "Test 1");
    assert_eq!(chat.messages[1].text, "Test 2");
}

#[test]
fn test_chat_window_max_messages() {
    let mut chat = ChatWindow::default();
    chat.max_messages = 3;

    chat.add_message(ChatMessage::system("1"));
    chat.add_message(ChatMessage::system("2"));
    chat.add_message(ChatMessage::system("3"));
    chat.add_message(ChatMessage::system("4"));

    assert_eq!(chat.messages.len(), 3);
    assert_eq!(chat.messages[0].text, "2");
    assert_eq!(chat.messages[2].text, "4");
}

#[test]
fn test_chat_window_visible_messages() {
    let mut chat = ChatWindow::default();
    chat.visible_lines = 2;

    chat.add_message(ChatMessage::system("1"));
    chat.add_message(ChatMessage::system("2"));
    chat.add_message(ChatMessage::system("3"));

    let visible: Vec<_> = chat.visible_messages().iter().collect();
    assert_eq!(visible.len(), 2);
    assert_eq!(visible[0].text, "2");
    assert_eq!(visible[1].text, "3");
}

#[test]
fn test_chat_process_help_command() {
    let mut chat = ChatWindow::default();
    let cmd = chat.process_input("/help");
    assert!(cmd.is_none());
    assert!(!chat.messages.is_empty());
}

#[test]
fn test_chat_process_quit_command() {
    let mut chat = ChatWindow::default();
    let cmd = chat.process_input("/quit");
    assert_eq!(cmd, Some(ChatCommand::Quit));
}

#[test]
fn test_chat_process_pos_command() {
    let mut chat = ChatWindow::default();
    let cmd = chat.process_input("/pos");
    assert_eq!(cmd, Some(ChatCommand::ShowPosition));
}

#[test]
fn test_chat_process_goto_command() {
    let mut chat = ChatWindow::default();
    let cmd = chat.process_input("/goto 100 200");
    assert_eq!(cmd, Some(ChatCommand::Teleport(100, 200)));
}

#[test]
fn test_chat_process_goto_invalid() {
    let mut chat = ChatWindow::default();
    let cmd = chat.process_input("/goto");
    assert!(cmd.is_none());
    assert!(chat.messages.iter().any(|m| m.text.contains("Usage")));
}

#[test]
fn test_chat_process_fx_command() {
    let mut chat = ChatWindow::default();
    let cmd = chat.process_input("/fx");
    assert_eq!(cmd, Some(ChatCommand::ToggleEffects));
}

#[test]
fn test_chat_process_unknown_command() {
    let mut chat = ChatWindow::default();
    let cmd = chat.process_input("/unknowncmd");
    assert!(cmd.is_none());
    assert!(chat.messages.iter().any(|m| m.text.contains("Unknown command")));
}

#[test]
fn test_chat_process_regular_message() {
    let mut chat = ChatWindow::default();
    let cmd = chat.process_input("Hello world");
    assert!(cmd.is_none());
    assert!(chat.messages.iter().any(|m| m.text.contains("You: Hello world")));
}

#[test]
fn test_chat_display_cursor_pos() {
    let mut chat = ChatWindow::default();
    chat.insert_char('a');
    chat.insert_char('b');
    chat.insert_char('c');
    assert_eq!(chat.display_cursor_pos(), 3);

    chat.cursor_left();
    assert_eq!(chat.display_cursor_pos(), 2);

    chat.cursor_home();
    assert_eq!(chat.display_cursor_pos(), 0);
}

#[test]
fn commands_are_case_insensitive_and_trimmed() {
    let mut chat = ChatWindow::default();
    assert_eq!(chat.process_input("  /QUIT  "), Some(ChatCommand::Quit));
    assert_eq!(chat.process_input("/Tp  -5\t7 extra"), Some(ChatCommand::Teleport(-5, 7)));
    assert_eq!(chat.process_input("/WHERE"), Some(ChatCommand::ShowPosition));
    assert_eq!(chat.process_input("/effects"), Some(ChatCommand::ToggleEffects));
    assert!(chat.messages.is_empty());
}

#[test]
fn unknown_command_is_echoed_lowercased() {
    let mut chat = ChatWindow::default();
    assert_eq!(chat.process_input("/DANCE now"), None);
    assert_eq!(chat.messages.len(), 1);
    assert_eq!(chat.messages[0].text, "Unknown command: /dance");
    assert_eq!(chat.messages[0].color, 0xFF4444);
}

#[test]
fn help_lists_six_lines() {
    let mut chat = ChatWindow::default();
    assert_eq!(chat.process_input("/?"), None);
    assert_eq!(chat.messages.len(), 6);
    assert_eq!(chat.messages[0].text, "Commands:");
    assert_eq!(chat.messages[5].text, "  /quit - Exit game");
}

#[test]
fn goto_rejects_bad_numbers() {
    for line in ["/goto 1", "/goto x 2", "/goto 2147483648 0", "/goto + 1", "/goto 1 -"] {
        let mut chat = ChatWindow::default();
        assert_eq!(chat.process_input(line), None, "{}", line);
        assert_eq!(chat.messages[0].text, "Usage: /goto X Y");
    }
    let mut chat = ChatWindow::default();
    assert_eq!(
        chat.process_input("/goto -2147483648 +2147483647"),
        Some(ChatCommand::Teleport(i32::MIN, i32::MAX))
    );
}

#[test]
fn blank_lines_do_nothing() {
    let mut chat = ChatWindow::default();
    assert_eq!(chat.process_input(" \t "), None);
    assert!(chat.messages.is_empty());
}

#[test]
fn editing_non_ascii_counts_characters() {
    let mut chat = ChatWindow::default();
    chat.insert_char('é');
    chat.insert_char('ß');
    assert_eq!(chat.input, "éß");
    assert_eq!(chat.cursor, 2);
    chat.cursor_left();
    chat.backspace();
    assert_eq!(chat.input, "ß");
    assert_eq!(chat.cursor, 0);
}

#[test]
fn text_helpers() {
    assert_eq!(trimmed("\u{3000} a b \n"), "a b");
    assert_eq!(split_word("  ab cd"), ("ab", " cd"));
    assert_eq!(first_blank("ab cd"), 2);
    assert_eq!(first_blank("abcd"), 4);
    assert_eq!(parse_int("+17"), Some(17));
    assert_eq!(parse_int("-0"), Some(0));
    assert_eq!(parse_int(""), None);
    assert_eq!(parse_int("-2147483649"), None);
    assert!(same_text("abc", "abc"));
    assert!(!same_text("abc", "abd"));
}
