use my_lark::controller::ChatListController;
use my_lark::model::{Chat, ChatEvent, ChatFilter, ChatListModel, ChatType};
use my_lark::unread::UnreadCounts;
use my_lark::view::ChatListView;

fn sample_chats() -> Vec<Chat> {
    let mut chats = Vec::new();
    for (id, name, pin) in [
        ("a", "Alpha", true),
        ("b", "Beta", false),
        ("c", "Gamma", true),
        ("d", "Delta", false),
    ] {
        chats.push(Chat {
            id: id.to_string(),
            name: name.to_string(),
            avatar: "X".to_string(),
            member_count: 5,
            last_message: Some("hi".to_string()),
            chat_type: ChatType::Group,
            pin,
        });
    }
    chats
}

#[test]
fn projection_keeps_order_and_flags() {
    let chats = sample_chats();
    let mut unreads = UnreadCounts::new();
    unreads.set("b", 7);
    let m = ChatListModel::new(&chats, "c", &unreads);
    assert_eq!(m.items.len(), 4);
    assert_eq!(m.items[0].id, "a");
    assert_eq!(m.items[1].id, "b");
    assert_eq!(m.items[2].id, "c");
    assert_eq!(m.items[3].id, "d");
    assert!(!m.items[0].is_selected);
    assert!(m.items[2].is_selected);
    assert_eq!(m.items[1].unread_count, Some(7));
    assert_eq!(m.items[0].unread_count, None);
    assert!(m.items[0].is_pinned);
    assert!(!m.items[1].is_pinned);
    assert_eq!(m.items[0].name, "Alpha");
    assert_eq!(m.items[0].last_message.as_deref(), Some("hi"));
    assert_eq!(m.filter, ChatFilter::All);
}

#[test]
fn projection_is_idempotent() {
    let chats = sample_chats();
    let unreads = UnreadCounts::new();
    let m1 = ChatListModel::new(&chats, "a", &unreads);
    let m2 = ChatListModel::new(&chats, "a", &unreads);
    assert_eq!(m1.items.len(), m2.items.len());
    for (x, y) in m1.items.iter().zip(m2.items.iter()) {
        assert_eq!(x.id, y.id);
        assert_eq!(x.name, y.name);
        assert_eq!(x.is_selected, y.is_selected);
        assert_eq!(x.unread_count, y.unread_count);
        assert_eq!(x.is_pinned, y.is_pinned);
    }
}

#[test]
fn pinned_projection_is_pinned_subsequence_of_all() {
    let chats = sample_chats();
    let unreads = UnreadCounts::new();
    let mut m = ChatListModel::new(&chats, "a", &unreads);

    m.filter = ChatFilter::All;
    let all: Vec<String> = m.filtered().iter().map(|it| it.id.clone()).collect();
    m.filter = ChatFilter::Pinned;
    let pinned: Vec<String> = m.filtered().iter().map(|it| it.id.clone()).collect();

    let expected: Vec<String> = m
        .items
        .iter()
        .filter(|it| it.is_pinned)
        .map(|it| it.id.clone())
        .collect();
    assert_eq!(pinned, expected);
    assert_eq!(all.len(), 4);
    assert_eq!(pinned, vec!["a".to_string(), "c".to_string()]);

    // Same relative order as in the All projection.
    let mut walk = all.iter();
    for id in &pinned {
        assert!(walk.any(|x| x == id));
    }
}

#[test]
fn filtered_all_returns_everything() {
    let chats = sample_chats();
    let unreads = UnreadCounts::new();
    let m = ChatListModel::new(&chats, "a", &unreads);
    let rows = m.filtered();
    assert_eq!(rows.len(), 4);
}

#[test]
fn controller_click_yields_selection_event() {
    let chats = sample_chats();
    let unreads = UnreadCounts::new();
    let mut c = ChatListController::new(&chats, "a", &unreads);
    match c.handle_click("b".to_string()) {
        ChatEvent::Selected { id } => assert_eq!(id, "b"),
        ChatEvent::Idle => panic!("expected a selection event"),
    }
    assert_eq!(c.view().items.len(), 4);
}

#[test]
fn view_prepares_owned_filtered_rows() {
    let chats = sample_chats();
    let unreads = UnreadCounts::new();
    let c = ChatListController::new(&chats, "c", &unreads);
    let view = ChatListView::new(&c);
    let rows = view.prepare_chat_items();
    assert_eq!(rows.len(), 4);
    assert_eq!(rows[2].id, "c");
    assert!(rows[2].is_selected);
}
