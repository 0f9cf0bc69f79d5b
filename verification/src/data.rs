//! Seed data and the plain chat data store: the fixed sample rooms the
//! session starts from, and the store operations on them.

use crate::model::{Chat, ChatMessage, ChatType, MessageType};
use crate::unread::UnreadCounts;
use vstd::prelude::*;
use vstd::string::*;

verus! {

/// One sample room: its chat, its seed messages, and its initial
/// unread count.
#[derive(Debug)]
pub struct ChatRoomData {
    pub chat: Chat,
    pub messages: Vec<ChatMessage>,
    pub unread_count: i32,
}

impl Clone for ChatRoomData {
    fn clone(&self) -> (r: Self)
        ensures
            r.chat == self.chat,
            r.messages@ == self.messages@,
            r.unread_count == self.unread_count,
    {
        let mut messages: Vec<ChatMessage> = Vec::new();
        let n = self.messages.len();
        let mut i: usize = 0;
        while i < n
            invariant
                0 <= i <= n,
                n == self.messages@.len(),
                messages@.len() == i,
                forall|k: int| 0 <= k < i ==> messages@[k] == self.messages@[k],
            decreases n - i,
        {
            messages.push(self.messages[i].clone());
            i = i + 1;
        }
        proof {
            assert(messages@ =~= self.messages@);
        }
        ChatRoomData { chat: self.chat.clone(), messages, unread_count: self.unread_count }
    }
}

impl ChatRoomData {
    pub fn new(chat: Chat, messages: Vec<ChatMessage>, unread_count: i32) -> (r: Self)
        ensures
            r.chat == chat,
            r.messages == messages,
            r.unread_count == unread_count,
    {
        ChatRoomData { chat, messages, unread_count }
    }
}

/// The shape every seed chat shares: avatar `R`, 200 members, a fixed
/// last-message summary, a pinned group.
pub open spec fn seed_chat_ok(c: Chat, id: Seq<char>, name: Seq<char>) -> bool {
    &&& c.id@ == id
    &&& c.name@ == name
    &&& c.avatar@ == "R"@
    &&& c.member_count == 200
    &&& c.last_message matches Option::Some(m) && m@ == "Welcome to the group"@
    &&& c.chat_type == ChatType::Group
    &&& c.pin
}

/// The shape every seed message shares: a text greeting from `Ray`.
pub open spec fn seed_message_ok(m: ChatMessage, id: Seq<char>, chat_id: Seq<char>) -> bool {
    &&& m.id@ == id
    &&& m.chat_id@ == chat_id
    &&& m.sender@ == "Ray"@
    &&& m.avatar@ == "R"@
    &&& m.content@ == "Wellcome to the Lark Chat Group"@
    &&& m.timestamp@ == "2021-09-01 12:00:00"@
    &&& m.message_type == MessageType::Text
}

/// One whole seed room: its chat, a single seed message, three unread.
pub open spec fn seed_room_ok(
    r: ChatRoomData,
    chat_id: Seq<char>,
    msg_id: Seq<char>,
    name: Seq<char>,
) -> bool {
    &&& seed_chat_ok(r.chat, chat_id, name)
    &&& r.messages@.len() == 1
    &&& seed_message_ok(r.messages@[0], msg_id, chat_id)
    &&& r.unread_count == 3
}

fn seed_room(chat_id: &str, msg_id: &str, name: &str) -> (r: ChatRoomData)
    ensures
        seed_room_ok(r, chat_id@, msg_id@, name@),
{
    let chat = Chat {
        id: chat_id.to_owned(),
        name: name.to_owned(),
        avatar: "R".to_owned(),
        member_count: 200,
        last_message: Option::Some("Welcome to the group".to_owned()),
        chat_type: ChatType::Group,
        pin: true,
    };
    let message = ChatMessage {
        id: msg_id.to_owned(),
        chat_id: chat_id.to_owned(),
        sender: "Ray".to_owned(),
        avatar: "R".to_owned(),
        content: "Wellcome to the Lark Chat Group".to_owned(),
        timestamp: "2021-09-01 12:00:00".to_owned(),
        message_type: MessageType::Text,
    };
    let mut messages: Vec<ChatMessage> = Vec::new();
    messages.push(message);
    ChatRoomData { chat, messages, unread_count: 3 }
}

/// The plain data store: chats, the whole message history, and the
/// unread counters.
#[derive(Debug)]
pub struct ChatData {
    pub chats: Vec<Chat>,
    pub messages: Vec<ChatMessage>,
    pub unread_counts: UnreadCounts,
}

impl Default for ChatData {
    fn default() -> (r: Self)
        ensures
            r.chats@.len() == 0,
            r.messages@.len() == 0,
            r.unread_counts@.len() == 0,
            r.unread_counts.wf(),
    {
        ChatData { chats: Vec::new(), messages: Vec::new(), unread_counts: UnreadCounts::new() }
    }
}

/// The whole seeded store: one chat, one message and one unread entry
/// per sample room, in room order.
pub open spec fn seeded_data_ok(d: ChatData) -> bool {
    &&& d.chats@.len() == 2
    &&& seed_chat_ok(d.chats@[0], "1"@, "Group 1 Chat"@)
    &&& seed_chat_ok(d.chats@[1], "2"@, "Group 2 Chat"@)
    &&& d.messages@.len() == 2
    &&& seed_message_ok(d.messages@[0], "1-1"@, "1"@)
    &&& seed_message_ok(d.messages@[1], "2-1"@, "2"@)
    &&& d.unread_counts.spec_get("1"@) == Option::Some(3i32)
    &&& d.unread_counts.spec_get("2"@) == Option::Some(3i32)
    &&& forall|k: Seq<char>|
        k != "1"@ && k != "2"@ ==> #[trigger] d.unread_counts.spec_get(k) is None
    &&& d.unread_counts.wf()
}

impl ChatData {
    pub fn new() -> (r: Self)
        ensures
            seeded_data_ok(r),
    {
        let mut data = ChatData::default();
        data.init_default_data();
        data
    }

    /// The two fixed sample rooms the store is seeded from.
    pub fn create_default_chat_rooms() -> (r: Vec<ChatRoomData>)
        ensures
            r@.len() == 2,
            seed_room_ok(r@[0], "1"@, "1-1"@, "Group 1 Chat"@),
            seed_room_ok(r@[1], "2"@, "2-1"@, "Group 2 Chat"@),
    {
        let mut rooms: Vec<ChatRoomData> = Vec::new();
        rooms.push(seed_room("1", "1-1", "Group 1 Chat"));
        rooms.push(seed_room("2", "2-1", "Group 2 Chat"));
        rooms
    }

    fn init_default_data(&mut self)
        requires
            old(self).chats@.len() == 0,
            old(self).messages@.len() == 0,
            old(self).unread_counts@.len() == 0,
            old(self).unread_counts.wf(),
        ensures
            seeded_data_ok(*final(self)),
    {
        let rooms = ChatData::create_default_chat_rooms();
        let n = rooms.len();
        let mut i: usize = 0;
        while i < n
            invariant
                0 <= i <= n,
                n == rooms@.len(),
                n == 2,
                seed_room_ok(rooms@[0], "1"@, "1-1"@, "Group 1 Chat"@),
                seed_room_ok(rooms@[1], "2"@, "2-1"@, "Group 2 Chat"@),
                self.chats@.len() == i,
                self.messages@.len() == i,
                self.unread_counts.wf(),
                i >= 1 ==> seed_chat_ok(self.chats@[0], "1"@, "Group 1 Chat"@)
                    && seed_message_ok(self.messages@[0], "1-1"@, "1"@)
                    && self.unread_counts.spec_get("1"@) == Option::Some(3i32),
                i >= 2 ==> seed_chat_ok(self.chats@[1], "2"@, "Group 2 Chat"@)
                    && seed_message_ok(self.messages@[1], "2-1"@, "2"@)
                    && self.unread_counts.spec_get("2"@) == Option::Some(3i32),
                forall|k: Seq<char>|
                    (i == 0 ==> #[trigger] self.unread_counts.spec_get(k) is None) && (i == 1 && k
                        != "1"@ ==> self.unread_counts.spec_get(k) is None) && (i == 2 && k != "1"@
                        && k != "2"@ ==> self.unread_counts.spec_get(k) is None),
            decreases n - i,
    {
            let room = &rooms[i];
            self.chats.push(room.chat.clone());
            self.unread_counts.set(room.chat.id.as_str(), room.unread_count);
            let msgs = room.messages.len();
            let ghost msgs0 = self.messages@;
            let ghost chats0 = self.chats;
            let ghost unread0 = self.unread_counts;
            let mut j: usize = 0;
            while j < msgs
                invariant
                    0 <= j <= msgs,
                    msgs == room.messages@.len(),
                    self.chats == chats0,
                    self.unread_counts == unread0,
                    self.messages@.len() == msgs0.len() + j,
                    forall|k: int| 0 <= k < msgs0.len() ==> self.messages@[k] == msgs0[k],
                    forall|k: int|
                        0 <= k < j ==> self.messages@[msgs0.len() + k] == room.messages@[k],
                decreases msgs - j,
            {
                self.messages.push(room.messages[j].clone());
                j = j + 1;
            }
            i = i + 1;
        }
    }

    /// The messages of one chat, in history order.
    pub fn get_message_for_chat(&self, chat_id: &str) -> (r: Vec<ChatMessage>)
        ensures
            r@ == self.messages@.filter(|m: ChatMessage| m.chat_id@ == chat_id@),
    {
        let owned = chat_id.to_owned();
        let n = self.messages.len();
        let mut r: Vec<ChatMessage> = Vec::new();
        let mut i: usize = 0;
        proof {
            reveal_with_fuel(Seq::filter, 1);
            assert(self.messages@.take(0) =~= Seq::<ChatMessage>::empty());
            assert(r@ =~= self.messages@.take(0).filter(|m: ChatMessage| m.chat_id@ == chat_id@));
        }
        while i < n
            invariant
                0 <= i <= n,
                n == self.messages@.len(),
                owned@ == chat_id@,
                r@ == self.messages@.take(i as int).filter(|m: ChatMessage| m.chat_id@ == chat_id@),
            decreases n - i,
        {
            let ghost prefix = self.messages@.take(i as int);
            if self.messages[i].chat_id == owned {
                r.push(self.messages[i].clone());
            }
            proof {
                reveal_with_fuel(Seq::filter, 1);
                assert(self.messages@.take(i + 1).drop_last() =~= prefix);
                assert(self.messages@.take(i + 1).last() == self.messages@[i as int]);
            }
            i = i + 1;
        }
        proof {
            assert(self.messages@.take(n as int) =~= self.messages@);
        }
        r
    }

    /// Append `message` to the history and count one more unread for
    /// `chat_id` (when a counter for it exists).
    pub fn add_message(&mut self, chat_id: &str, message: ChatMessage)
        requires
            old(self).unread_counts.wf(),
            old(self).unread_counts.spec_get(chat_id@) is Some ==> old(self).unread_counts.spec_get(
                chat_id@,
            )->0 < i32::MAX,
        ensures
            final(self).messages@ == old(self).messages@.push(message),
            final(self).chats == old(self).chats,
            final(self).unread_counts.wf(),
            forall|k: Seq<char>|
                #[trigger] final(self).unread_counts.spec_get(k) == if k == chat_id@ && old(
                    self,
                ).unread_counts.spec_get(k) is Some {
                    Option::Some((old(self).unread_counts.spec_get(k)->0 + 1) as i32)
                } else {
                    old(self).unread_counts.spec_get(k)
                },
    {
        self.messages.push(message);
        self.unread_counts.increment(chat_id);
    }

    /// Clear the unread counter of `chat_id`.
    pub fn mark_as_read(&mut self, chat_id: &str)
        requires
            old(self).unread_counts.wf(),
        ensures
            final(self).messages == old(self).messages,
            final(self).chats == old(self).chats,
            final(self).unread_counts.wf(),
            final(self).unread_counts.spec_count(chat_id@) == 0,
            forall|k: Seq<char>|
                #[trigger] final(self).unread_counts.spec_get(k) == if k == chat_id@ && old(
                    self,
                ).unread_counts.spec_get(k) is Some {
                    Option::Some(0i32)
                } else {
                    old(self).unread_counts.spec_get(k)
                },
    {
        self.unread_counts.reset(chat_id);
    }
}

} // verus!
