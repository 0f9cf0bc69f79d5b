use my_lark::model::{ChatFilter, MessageType};
use my_lark::renderer::ToolbarAction;
use my_lark::session::{ChatTab, NavPage, UiState};

#[test]
fn default_state_is_seeded() {
    let s = UiState::default();
    assert_eq!(s.chats.len(), 2);
    assert_eq!(s.chats[0].id, "1");
    assert_eq!(s.chats[0].name, "Group 1 Chat");
    assert_eq!(s.chats[1].id, "2");
    assert_eq!(s.chats[1].name, "Group 2 Chat");
    assert!(s.chats[0].pin);
    assert!(s.chats[1].pin);
    assert_eq!(s.chats[0].member_count, 200);
    assert_eq!(s.messages.len(), 2);
    assert_eq!(s.messages[0].id, "1-1");
    assert_eq!(s.messages[0].chat_id, "1");
    assert_eq!(s.messages[1].id, "2-1");
    assert_eq!(s.messages[1].chat_id, "2");
    assert_eq!(s.unread_counts.get("1"), Some(3));
    assert_eq!(s.unread_counts.get("2"), Some(3));
    assert_eq!(s.unread_counts.get("3"), None);
    assert_eq!(s.select_chat_id, "1");
    assert_eq!(s.selected_nav_index, 1);
    assert_eq!(s.current_tab, ChatTab::Message);
    assert_eq!(s.current_message_type, MessageType::Text);
    assert_eq!(s.filter, ChatFilter::All);
    assert!(s.input_text.is_empty());
    assert_eq!(s.search_text, "Search Contact/Documents");
}

#[test]
fn select_unknown_chat_is_noop() {
    let mut s = UiState::default();
    s.select_chat("does-not-exist");
    assert_eq!(s.select_chat_id, "1");
    assert_eq!(s.unread_counts.get("1"), Some(3));
    assert_eq!(s.unread_counts.get("2"), Some(3));
    assert_eq!(s.active_messages().len(), 1);
    assert_eq!(s.messages.len(), 2);
}

#[test]
fn select_existing_chat_clears_its_unread() {
    let mut s = UiState::default();
    s.select_chat("2");
    assert_eq!(s.select_chat_id, "2");
    assert_eq!(s.unread_counts.get("2"), Some(0));
    assert_eq!(s.unread_counts.get("1"), Some(3));
    let m = s.chat_list_model();
    assert!(!m.items[0].is_selected);
    assert!(m.items[1].is_selected);
}

#[test]
fn select_changes_active_message_set() {
    let mut s = UiState::default();
    s.select_chat("2");
    let active = s.active_messages();
    assert_eq!(active.len(), 1);
    assert_eq!(active[0].id, "2-1");
    assert_eq!(s.messages.len(), 2);
}

#[test]
fn append_whitespace_only_clears_input_and_keeps_messages() {
    let mut s = UiState::default();
    s.set_input_text("   \t\n  ".to_string());
    s.append_message("2024.05.06 07:08:09".to_string());
    assert_eq!(s.messages.len(), 2);
    assert!(s.input_text.is_empty());
    assert_eq!(s.next_msg_seq, 0);
}

#[test]
fn append_hello_adds_one_message_with_fresh_id() {
    let mut s = UiState::default();
    s.select_chat("2");
    s.set_message_kind(MessageType::Text);
    s.set_input_text("hello".to_string());
    s.append_message("2024.05.06 07:08:09".to_string());
    assert_eq!(s.messages.len(), 3);
    let last = &s.messages[2];
    assert_eq!(last.chat_id, "2");
    assert_eq!(last.content, "hello");
    assert_eq!(last.message_type, MessageType::Text);
    assert_eq!(last.sender, "You");
    assert_eq!(last.avatar, "Y");
    assert_eq!(last.timestamp, "2024.05.06 07:08:09");
    for i in 0..2 {
        assert_ne!(s.messages[i].id, last.id);
    }
    assert!(s.input_text.is_empty());
    assert_eq!(s.next_msg_seq, 1);
}

#[test]
fn appended_ids_stay_distinct_across_sends() {
    let mut s = UiState::default();
    for i in 0..5 {
        s.set_input_text(format!("message {}", i));
        s.append_message("2024.05.06 07:08:09".to_string());
    }
    assert_eq!(s.messages.len(), 7);
    for i in 0..s.messages.len() {
        for j in 0..i {
            assert_ne!(s.messages[i].id, s.messages[j].id);
        }
    }
    assert_eq!(s.messages[2].id, "msg_0");
    assert_eq!(s.messages[6].id, "msg_4");
}

#[test]
fn append_trims_surrounding_whitespace() {
    let mut s = UiState::default();
    s.set_input_text("  hello world \u{3000} ".to_string());
    s.append_message("2024.05.06 07:08:09".to_string());
    assert_eq!(s.messages.len(), 3);
    assert_eq!(s.messages[2].content, "hello world");
}

#[test]
fn send_message_stamps_with_clock() {
    let mut s = UiState::default();
    s.set_input_text("hi there".to_string());
    s.send_message();
    assert_eq!(s.messages.len(), 3);
    assert_eq!(s.messages[2].content, "hi there");
    assert_eq!(s.messages[2].chat_id, "1");
    assert!(s.messages[2].timestamp.len() >= 19);
}

#[test]
fn current_chat_name_follows_selection() {
    let mut s = UiState::default();
    assert_eq!(s.current_chat_name(), "Group 1 Chat");
    s.select_chat("2");
    assert_eq!(s.current_chat_name(), "Group 2 Chat");
    s.select_chat("nope");
    assert_eq!(s.current_chat_name(), "Group 2 Chat");
}

#[test]
fn current_page_maps_nav_indices() {
    let mut s = UiState::default();
    let expected = [
        NavPage::Search,
        NavPage::Message,
        NavPage::Calendar,
        NavPage::Doc,
        NavPage::VideoMeeting,
        NavPage::Table,
        NavPage::Contact,
    ];
    for (i, page) in expected.iter().enumerate() {
        s.set_nav_index(i);
        assert_eq!(s.current_page(), *page);
    }
    s.set_nav_index(99);
    assert_eq!(s.current_page(), NavPage::Message);
}

#[test]
fn toolbar_actions_mutate_compose_state() {
    let mut s = UiState::default();
    assert!(!s.show_emoji_picker);
    s.apply_toolbar_action(ToolbarAction::ToggleEmoji);
    assert!(s.show_emoji_picker);
    s.apply_toolbar_action(ToolbarAction::ToggleEmoji);
    assert!(!s.show_emoji_picker);
    s.apply_toolbar_action(ToolbarAction::SetMessageType(MessageType::Code));
    assert_eq!(s.current_message_type, MessageType::Code);
    s.apply_toolbar_action(ToolbarAction::Idle);
    assert_eq!(s.current_message_type, MessageType::Code);
}

#[test]
fn set_message_kind_applies_to_next_message_only() {
    let mut s = UiState::default();
    s.set_input_text("first".to_string());
    s.append_message("2024.05.06 07:08:09".to_string());
    s.set_message_kind(MessageType::Code);
    s.set_input_text("second".to_string());
    s.append_message("2024.05.06 07:08:10".to_string());
    assert_eq!(s.messages[2].message_type, MessageType::Text);
    assert_eq!(s.messages[3].message_type, MessageType::Code);
}

#[test]
fn filter_toggle_round_trips() {
    let mut s = UiState::default();
    s.set_filter(ChatFilter::Pinned);
    assert_eq!(s.filter, ChatFilter::Pinned);
    assert!(s.show_pin_message);
    s.toggle_filter();
    assert_eq!(s.filter, ChatFilter::All);
    assert!(!s.show_pin_message);
    s.toggle_filter();
    assert_eq!(s.filter, ChatFilter::Pinned);
}

#[test]
fn set_chat_tab_switches_tab() {
    let mut s = UiState::default();
    s.set_chat_tab(ChatTab::Pin);
    assert_eq!(s.current_tab, ChatTab::Pin);
    s.set_chat_tab(ChatTab::File);
    assert_eq!(s.current_tab, ChatTab::File);
}
