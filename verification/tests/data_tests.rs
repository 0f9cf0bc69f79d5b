use my_lark::data::{ChatData, ChatRoomData};
use my_lark::model::{Chat, ChatMessage, ChatType, MessageType};
use my_lark::theme::ThemeMode;

#[test]
fn default_rooms_hold_two_seeded_groups() {
    let rooms = ChatData::create_default_chat_rooms();
    assert_eq!(rooms.len(), 2);
    assert_eq!(rooms[0].chat.id, "1");
    assert_eq!(rooms[0].chat.name, "Group 1 Chat");
    assert_eq!(rooms[0].chat.avatar, "R");
    assert_eq!(rooms[0].chat.last_message.as_deref(), Some("Welcome to the group"));
    assert_eq!(rooms[0].messages.len(), 1);
    assert_eq!(rooms[0].messages[0].id, "1-1");
    assert_eq!(rooms[0].messages[0].sender, "Ray");
    assert_eq!(rooms[0].unread_count, 3);
    assert_eq!(rooms[1].chat.id, "2");
    assert_eq!(rooms[1].messages[0].id, "2-1");
}

#[test]
fn seeded_store_matches_rooms() {
    let data = ChatData::new();
    assert_eq!(data.chats.len(), 2);
    assert_eq!(data.messages.len(), 2);
    assert_eq!(data.unread_counts.get("1"), Some(3));
    assert_eq!(data.unread_counts.get("2"), Some(3));
    assert_eq!(data.unread_counts.get("0"), None);
}

#[test]
fn messages_are_filtered_per_chat() {
    let data = ChatData::new();
    let one = data.get_message_for_chat("1");
    assert_eq!(one.len(), 1);
    assert_eq!(one[0].id, "1-1");
    let none = data.get_message_for_chat("missing");
    assert!(none.is_empty());
}

#[test]
fn add_message_appends_and_counts_unread() {
    let mut data = ChatData::new();
    let msg = ChatMessage {
        id: "x-1".to_string(),
        chat_id: "2".to_string(),
        sender: "Ray".to_string(),
        avatar: "R".to_string(),
        content: "ping".to_string(),
        timestamp: "2024.05.06 07:08:09".to_string(),
        message_type: MessageType::Text,
    };
    data.add_message("2", msg);
    assert_eq!(data.messages.len(), 3);
    assert_eq!(data.unread_counts.get("2"), Some(4));
    assert_eq!(data.unread_counts.get("1"), Some(3));
}

#[test]
fn mark_as_read_zeroes_one_counter() {
    let mut data = ChatData::new();
    data.mark_as_read("1");
    assert_eq!(data.unread_counts.get("1"), Some(0));
    assert_eq!(data.unread_counts.get("2"), Some(3));
    // Unknown ids stay absent.
    data.mark_as_read("7");
    assert_eq!(data.unread_counts.get("7"), None);
}

#[test]
fn room_constructor_keeps_fields() {
    let chat = Chat {
        id: "z".to_string(),
        name: "Zed".to_string(),
        avatar: "Z".to_string(),
        member_count: 1,
        last_message: None,
        chat_type: ChatType::Group,
        pin: false,
    };
    let room = ChatRoomData::new(chat, Vec::new(), 0);
    assert_eq!(room.chat.id, "z");
    assert!(room.messages.is_empty());
    assert_eq!(room.unread_count, 0);
}

#[test]
fn theme_mode_toggles_between_light_and_dark() {
    assert_eq!(ThemeMode::Light.toggled(), ThemeMode::Dark);
    assert_eq!(ThemeMode::Dark.toggled(), ThemeMode::Light);
    assert_eq!(ThemeMode::Light.toggled().toggled(), ThemeMode::Light);
}
