use my_lark::model::{ChatMessage, MessageType};
use my_lark::text::{timestamp_date, timestamp_minute};
use my_lark::renderer::{
    default_toolbar_buttons, lookup_strategy, render_message, RenderStrategy, RenderedContent,
    ToolbarAction,
};

fn message(kind: MessageType) -> ChatMessage {
    ChatMessage {
        id: "m-9".to_string(),
        chat_id: "1".to_string(),
        sender: "Ray".to_string(),
        avatar: "R".to_string(),
        content: "payload".to_string(),
        timestamp: "2024.05.06 07:08:09".to_string(),
        message_type: kind,
    }
}

#[test]
fn dispatch_is_total_over_all_kinds() {
    for kind in [
        MessageType::Text,
        MessageType::Images,
        MessageType::File,
        MessageType::Code,
    ] {
        let strategy = lookup_strategy(kind);
        let matches = match (kind, &strategy) {
            (MessageType::Text, RenderStrategy::Text(_)) => true,
            (MessageType::Code, RenderStrategy::Code(_)) => true,
            (MessageType::File, RenderStrategy::File(_)) => true,
            (MessageType::Images, RenderStrategy::Images(_)) => true,
            _ => false,
        };
        assert!(matches);
    }
}

#[test]
fn text_renders_content_verbatim() {
    match render_message(&message(MessageType::Text)) {
        RenderedContent::PlainText { text } => assert_eq!(text, "payload"),
        _ => panic!("expected plain text"),
    }
}

#[test]
fn code_renders_collapsible_block_keyed_by_id() {
    match render_message(&message(MessageType::Code)) {
        RenderedContent::CollapsibleCode { key, code, default_open } => {
            assert_eq!(key, "m-9");
            assert_eq!(code, "payload");
            assert!(default_open);
        },
        _ => panic!("expected a code block"),
    }
}

#[test]
fn file_renders_attachment_line() {
    match render_message(&message(MessageType::File)) {
        RenderedContent::Attachment { label } => assert_eq!(label, "\u{1F4CE} payload"),
        _ => panic!("expected an attachment"),
    }
}

#[test]
fn images_render_as_placeholder() {
    match render_message(&message(MessageType::Images)) {
        RenderedContent::ImagePlaceholder => {},
        _ => panic!("expected the image placeholder"),
    }
}

#[test]
fn toolbar_has_five_buttons_with_fixed_actions() {
    let buttons = default_toolbar_buttons();
    assert_eq!(buttons.len(), 5);
    assert!(matches!(buttons[0].action, ToolbarAction::ToggleEmoji));
    assert!(matches!(buttons[1].action, ToolbarAction::Idle));
    assert!(matches!(
        buttons[2].action,
        ToolbarAction::SetMessageType(MessageType::File)
    ));
    assert!(matches!(
        buttons[3].action,
        ToolbarAction::SetMessageType(MessageType::Code)
    ));
    assert!(matches!(
        buttons[4].action,
        ToolbarAction::SetMessageType(MessageType::Text)
    ));
    assert_eq!(buttons[0].icon, "\u{e6a2}");
}

fn stamped(sender: &str, ts: &str) -> ChatMessage {
    ChatMessage {
        id: format!("{}-{}", sender, ts),
        chat_id: "1".to_string(),
        sender: sender.to_string(),
        avatar: "X".to_string(),
        content: "body".to_string(),
        timestamp: ts.to_string(),
        message_type: MessageType::Text,
    }
}

#[test]
fn row_plans_group_by_date_sender_and_minute() {
    let messages = vec![
        stamped("Ray", "2021.09.01 12:00:05"),
        stamped("Ray", "2021.09.01 12:00:59"),
        stamped("Ray", "2021.09.01 12:01:00"),
        stamped("You", "2021.09.01 12:01:02"),
        stamped("You", "2021.09.02 08:30:00"),
    ];
    let plans = my_lark::renderer::message_row_plans(&messages);
    assert_eq!(plans.len(), 5);
    // First row always opens a date group and shows the avatar.
    assert!(plans[0].show_date_header && plans[0].show_avatar);
    // Same sender, same minute: folded into the previous row.
    assert!(!plans[1].show_date_header && !plans[1].show_avatar);
    // Minute changed.
    assert!(!plans[2].show_date_header && plans[2].show_avatar);
    // Sender changed.
    assert!(!plans[3].show_date_header && plans[3].show_avatar);
    // Day changed.
    assert!(plans[4].show_date_header && plans[4].show_avatar);
}

#[test]
fn timestamp_columns_split_as_rendered() {
    assert_eq!(timestamp_date("2021.09.01 12:34:56"), "2021.09.01");
    assert_eq!(timestamp_minute("2021.09.01 12:34:56"), "12:34");
    assert_eq!(timestamp_date("nospace"), "nospace");
    assert_eq!(timestamp_minute("nospace"), "");
    assert_eq!(timestamp_minute("day 1230"), "1230");
    assert_eq!(timestamp_date(""), "");
}
