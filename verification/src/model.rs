//! The chat data model: chats, messages, message kinds, the list
//! filter, and the display-ready chat-list projection.

use vstd::prelude::*;
use vstd::seq_lib::*;
use vstd::string::*;

verus! {

/// The closed set of content interpretations a message may have.
#[derive(Debug, Clone, Copy, PartialEq, Eq, Hash, Structural)]
pub enum MessageType {
    Text,
    Images,
    File,
    Code,
}

impl Default for MessageType {
    fn default() -> (r: Self)
        ensures
            r == MessageType::Text,
    {
        MessageType::Text
    }
}

/// The kind of conversation a chat is; only group chats exist in the
/// current scope.
#[derive(Debug, Clone, Copy, PartialEq, Eq, Structural)]
pub enum ChatType {
    Group,
}

impl Default for ChatType {
    fn default() -> (r: Self)
        ensures
            r == ChatType::Group,
    {
        ChatType::Group
    }
}

/// The chat-list filter: show every chat, or only the pinned ones.
#[derive(Debug, Clone, Copy, PartialEq, Eq, Structural)]
pub enum ChatFilter {
    All,
    Pinned,
}

impl Default for ChatFilter {
    fn default() -> (r: Self)
        ensures
            r == ChatFilter::All,
    {
        ChatFilter::All
    }
}

/// A named conversation entity with members and a message history.
#[derive(Debug)]
pub struct Chat {
    pub id: String,
    pub name: String,
    pub avatar: String,
    pub member_count: i32,
    pub last_message: Option<String>,
    pub chat_type: ChatType,
    pub pin: bool,
}

impl Clone for Chat {
    fn clone(&self) -> (r: Self)
        ensures
            r == *self,
    {
        Chat {
            id: self.id.clone(),
            name: self.name.clone(),
            avatar: self.avatar.clone(),
            member_count: self.member_count,
            last_message: clone_opt_string(&self.last_message),
            chat_type: self.chat_type,
            pin: self.pin,
        }
    }
}

/// One message of a chat's history.
#[derive(Debug)]
pub struct ChatMessage {
    pub id: String,
    pub chat_id: String,
    pub sender: String,
    pub avatar: String,
    pub content: String,
    pub timestamp: String,
    pub message_type: MessageType,
}

impl Clone for ChatMessage {
    fn clone(&self) -> (r: Self)
        ensures
            r == *self,
    {
        ChatMessage {
            id: self.id.clone(),
            chat_id: self.chat_id.clone(),
            sender: self.sender.clone(),
            avatar: self.avatar.clone(),
            content: self.content.clone(),
            timestamp: self.timestamp.clone(),
            message_type: self.message_type,
        }
    }
}

fn clone_opt_string(o: &Option<String>) -> (r: Option<String>)
    ensures
        r == *o,
{
    match o {
        Option::Some(s) => Option::Some(s.clone()),
        Option::None => Option::None,
    }
}

/// One display-ready row of the chat list.
#[derive(Debug)]
pub struct ChatListItem {
    pub id: String,
    pub name: String,
    pub avatar: String,
    pub last_message: Option<String>,
    pub is_selected: bool,
    pub unread_count: Option<i32>,
    pub is_pinned: bool,
}

impl Clone for ChatListItem {
    fn clone(&self) -> (r: Self)
        ensures
            r == *self,
    {
        ChatListItem {
            id: self.id.clone(),
            name: self.name.clone(),
            avatar: self.avatar.clone(),
            last_message: clone_opt_string(&self.last_message),
            is_selected: self.is_selected,
            unread_count: self.unread_count,
            is_pinned: self.is_pinned,
        }
    }
}

/// What a click in the chat list asks the session to do.
#[derive(Debug)]
pub enum ChatEvent {
    Idle,
    Selected { id: String },
}

/// Whether some chat of `chats` bears the id `id`.
pub open spec fn chat_id_exists(chats: Seq<Chat>, id: Seq<char>) -> bool {
    exists|i: int| 0 <= i < chats.len() && #[trigger] chats[i].id@ == id
}

/// The row the projection derives for `chat` under selection `sel` and
/// unread counts `unreads`.
pub open spec fn item_matches(
    item: ChatListItem,
    chat: Chat,
    sel: Seq<char>,
    unreads: crate::unread::UnreadCounts,
) -> bool {
    &&& item.id == chat.id
    &&& item.name == chat.name
    &&& item.avatar == chat.avatar
    &&& item.last_message == chat.last_message
    &&& item.is_selected == (chat.id@ == sel)
    &&& item.unread_count == unreads.spec_get(chat.id@)
    &&& item.is_pinned == chat.pin
}

/// Whether a row passes the filter: `All` passes everything, `Pinned`
/// only the pinned rows.
pub open spec fn spec_passes(f: ChatFilter, item: ChatListItem) -> bool {
    match f {
        ChatFilter::All => true,
        ChatFilter::Pinned => item.is_pinned,
    }
}

/// The chat-list view model: the derived rows and the active filter.
#[derive(Debug)]
pub struct ChatListModel {
    pub items: Vec<ChatListItem>,
    pub filter: ChatFilter,
}

impl Default for ChatListModel {
    fn default() -> (r: Self)
        ensures
            r.items@.len() == 0,
            r.filter == ChatFilter::All,
    {
        ChatListModel { items: Vec::new(), filter: ChatFilter::All }
    }
}

impl ChatListModel {
    /// Derive one row per chat, in the order of `chats`: selection flag
    /// from `selected_id`, unread badge from `unread_count`, pin flag
    /// and texts from the chat itself.  The filter starts at `All`.
    pub fn new(chats: &[Chat], selected_id: &str, unread_count: &crate::unread::UnreadCounts) -> (r:
        Self)
        ensures
            r.items@.len() == chats@.len(),
            forall|i: int|
                0 <= i < chats@.len() ==> item_matches(
                    #[trigger] r.items@[i],
                    chats@[i],
                    selected_id@,
                    *unread_count,
                ),
            r.filter == ChatFilter::All,
    {
        let owned_sel = selected_id.to_owned();
        let n = chats.len();
        let mut items: Vec<ChatListItem> = Vec::new();
        let mut i: usize = 0;
        while i < n
            invariant
                0 <= i <= n,
                n == chats@.len(),
                owned_sel@ == selected_id@,
                items@.len() == i,
                forall|k: int|
                    0 <= k < i ==> item_matches(
                        #[trigger] items@[k],
                        chats@[k],
                        selected_id@,
                        *unread_count,
                    ),
            decreases n - i,
        {
            let chat = &chats[i];
            let item = ChatListItem {
                id: chat.id.clone(),
                name: chat.name.clone(),
                avatar: chat.avatar.clone(),
                last_message: clone_opt_string(&chat.last_message),
                is_selected: chat.id == owned_sel,
                unread_count: unread_count.get(chat.id.as_str()),
                is_pinned: chat.pin,
            };
            items.push(item);
            i = i + 1;
        }
        ChatListModel { items, filter: ChatFilter::All }
    }

    /// The rows that pass the active filter, in their original order.
    pub fn filtered(&self) -> (r: Vec<&ChatListItem>)
        ensures
            r@.map_values(|it: &ChatListItem| *it) == self.items@.filter(
                |it: ChatListItem| spec_passes(self.filter, it),
            ),
    {
        let ghost pred = |it: ChatListItem| spec_passes(self.filter, it);
        let n = self.items.len();
        let mut r: Vec<&ChatListItem> = Vec::new();
        let mut i: usize = 0;
        proof {
            reveal_with_fuel(Seq::filter, 1);
            assert(self.items@.take(0) =~= Seq::<ChatListItem>::empty());
            assert(r@.map_values(|it: &ChatListItem| *it) =~= self.items@.take(0).filter(pred));
        }
        while i < n
            invariant
                0 <= i <= n,
                n == self.items@.len(),
                r@.map_values(|it: &ChatListItem| *it) == self.items@.take(i as int).filter(
                    |it: ChatListItem| spec_passes(self.filter, it),
                ),
            decreases n - i,
        {
            let passes = match self.filter {
                ChatFilter::All => true,
                ChatFilter::Pinned => self.items[i].is_pinned,
            };
            let ghost prefix = self.items@.take(i as int);
            if passes {
                r.push(&self.items[i]);
            }
            proof {
                reveal_with_fuel(Seq::filter, 1);
                assert(self.items@.take(i + 1).drop_last() =~= prefix);
                assert(self.items@.take(i + 1).last() == self.items@[i as int]);
                if passes {
                    assert(r@.map_values(|it: &ChatListItem| *it) =~= prefix.filter(
                        |it: ChatListItem| spec_passes(self.filter, it),
                    ).push(self.items@[i as int]));
                } else {
                    assert(r@.map_values(|it: &ChatListItem| *it) =~= prefix.filter(
                        |it: ChatListItem| spec_passes(self.filter, it),
                    ));
                }
            }
            i = i + 1;
        }
        proof {
            assert(self.items@.take(n as int) =~= self.items@);
        }
        r
    }
}

/// The projection is a pure read: any two row lists derived from the
/// same chats, selection and unread counts are identical, so repeated
/// projection of unchanged state re-renders the same rows.
pub proof fn lemma_projection_deterministic(
    m1: ChatListModel,
    m2: ChatListModel,
    chats: Seq<Chat>,
    sel: Seq<char>,
    unreads: crate::unread::UnreadCounts,
)
    requires
        m1.items@.len() == chats.len(),
        m2.items@.len() == chats.len(),
        forall|i: int|
            0 <= i < chats.len() ==> item_matches(#[trigger] m1.items@[i], chats[i], sel, unreads),
        forall|i: int|
            0 <= i < chats.len() ==> item_matches(#[trigger] m2.items@[i], chats[i], sel, unreads),
    ensures
        m1.items@ =~= m2.items@,
{
    assert forall|i: int| 0 <= i < chats.len() implies m1.items@[i] == m2.items@[i] by {
        let a = m1.items@[i];
        let b = m2.items@[i];
        assert(a == (ChatListItem {
            id: b.id,
            name: b.name,
            avatar: b.avatar,
            last_message: b.last_message,
            is_selected: b.is_selected,
            unread_count: b.unread_count,
            is_pinned: b.is_pinned,
        }));
    }
}

/// Filtering with `All` keeps every row.
pub proof fn lemma_filter_all_is_identity(items: Seq<ChatListItem>)
    ensures
        items.filter(|it: ChatListItem| spec_passes(ChatFilter::All, it)) == items,
    decreases items.len(),
{
    reveal_with_fuel(Seq::filter, 1);
    if items.len() == 0 {
        assert(items.filter(|it: ChatListItem| spec_passes(ChatFilter::All, it)) =~= items);
    } else {
        lemma_filter_all_is_identity(items.drop_last());
        assert(items.filter(|it: ChatListItem| spec_passes(ChatFilter::All, it)) =~= items);
    }
}

/// The `Pinned` projection is exactly the pinned subsequence of the
/// `All` projection: the same rows with `is_pinned`, in the same
/// relative order.
pub proof fn lemma_pinned_is_filtered_all(items: Seq<ChatListItem>)
    ensures
        items.filter(|it: ChatListItem| spec_passes(ChatFilter::Pinned, it)) == items.filter(
            |it: ChatListItem| spec_passes(ChatFilter::All, it),
        ).filter(|it: ChatListItem| it.is_pinned),
{
    lemma_filter_all_is_identity(items);
    assert(items.filter(|it: ChatListItem| spec_passes(ChatFilter::Pinned, it)) =~= items.filter(
        |it: ChatListItem| it.is_pinned,
    )) by {
        lemma_filter_pred_equiv(
            items,
            |it: ChatListItem| spec_passes(ChatFilter::Pinned, it),
            |it: ChatListItem| it.is_pinned,
        );
    }
}

proof fn lemma_filter_pred_equiv(
    items: Seq<ChatListItem>,
    p1: spec_fn(ChatListItem) -> bool,
    p2: spec_fn(ChatListItem) -> bool,
)
    requires
        forall|it: ChatListItem| #[trigger] p1(it) == #[trigger] p2(it),
    ensures
        items.filter(p1) == items.filter(p2),
    decreases items.len(),
{
    reveal_with_fuel(Seq::filter, 1);
    if items.len() == 0 {
        assert(items.filter(p1) =~= items.filter(p2));
    } else {
        lemma_filter_pred_equiv(items.drop_last(), p1, p2);
        assert(items.filter(p1) =~= items.filter(p2));
    }
}

} // verus!
