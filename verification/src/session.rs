//! The session store and navigation state: chats, messages, unread
//! counts, selection, filter, input buffer, compose kind, and the
//! active page and chat tab.  Every user-originated mutation of the
//! running application goes through a method here.

use crate::data::ChatData;
use crate::model::{
    chat_id_exists, item_matches, Chat, ChatFilter, ChatListModel, ChatMessage, MessageType,
};
use crate::renderer::ToolbarAction;
use crate::text::{msg_id_seq, msg_id_string, spec_trim, trimmed};
use crate::unread::UnreadCounts;
use vstd::prelude::*;
use vstd::string::*;

verus! {

/// The tab shown in the chat-detail view.
#[derive(Debug, Clone, Copy, PartialEq, Eq, Structural)]
pub enum ChatTab {
    Message,
    Document,
    Announcement,
    Pin,
    File,
}

impl Default for ChatTab {
    fn default() -> (r: Self)
        ensures
            r == ChatTab::Message,
    {
        ChatTab::Message
    }
}

/// The top-level destination shown in the main area.
#[derive(Debug, Clone, Copy, PartialEq, Eq, Structural)]
pub enum NavPage {
    Message,
    VideoMeeting,
    Calendar,
    Doc,
    Contact,
    Table,
    Search,
}

/// The page the navigation rail index stands for; out-of-range indices
/// fall back to the message page.
pub open spec fn spec_nav_page(index: int) -> NavPage {
    if index == 0 {
        NavPage::Search
    } else if index == 1 {
        NavPage::Message
    } else if index == 2 {
        NavPage::Calendar
    } else if index == 3 {
        NavPage::Doc
    } else if index == 4 {
        NavPage::VideoMeeting
    } else if index == 5 {
        NavPage::Table
    } else if index == 6 {
        NavPage::Contact
    } else {
        NavPage::Message
    }
}

/// The name of the first chat bearing `sel`, or the empty text when no
/// chat does.
pub open spec fn spec_chat_name(chats: Seq<Chat>, sel: Seq<char>) -> Seq<char>
    decreases chats.len(),
{
    if chats.len() == 0 {
        Seq::empty()
    } else if chats[0].id@ == sel {
        chats[0].name@
    } else {
        spec_chat_name(chats.drop_first(), sel)
    }
}

/// The whole per-session user-interface state.
#[derive(Debug)]
pub struct UiState {
    pub selected_nav_index: usize,
    pub show_avatar_menu: bool,
    pub show_status_menu: bool,
    pub show_siderbar: bool,
    pub selected_siderbar_button: String,
    pub current_tab: ChatTab,
    pub search_text: String,
    pub current_message_type: MessageType,
    pub input_text: String,
    pub select_chat_id: String,
    pub show_emoji_picker: bool,
    pub show_pin_message: bool,
    pub filter: ChatFilter,
    pub messages: Vec<ChatMessage>,
    pub chats: Vec<Chat>,
    pub unread_counts: UnreadCounts,
    pub next_msg_seq: u64,
}

impl UiState {
    /// Invariants every session state keeps: counters well-formed, the
    /// selection and every message's chat id name an existing chat,
    /// message ids are pairwise distinct, and no stored id collides
    /// with an id the counter may still generate.
    pub open spec fn wf(self) -> bool {
        &&& self.unread_counts.wf()
        &&& chat_id_exists(self.chats@, self.select_chat_id@)
        &&& forall|i: int|
            0 <= i < self.messages@.len() ==> chat_id_exists(
                self.chats@,
                #[trigger] self.messages@[i].chat_id@,
            )
        &&& forall|i: int, j: int|
            0 <= i < j < self.messages@.len() ==> self.messages@[i].id@ != self.messages@[j].id@
        &&& forall|i: int, k: nat|
            #![trigger self.messages@[i].id@, msg_id_seq(k)]
            0 <= i < self.messages@.len() && k >= self.next_msg_seq ==> self.messages@[i].id@
                != msg_id_seq(k)
    }

    /// The messages of the selected chat, in history order: the active
    /// message set the drawing layer walks, re-derived on demand.
    pub fn active_messages(&self) -> (r: Vec<ChatMessage>)
        ensures
            r@ == self.messages@.filter(
                |m: ChatMessage| m.chat_id@ == self.select_chat_id@,
            ),
    {
        let n = self.messages.len();
        let mut r: Vec<ChatMessage> = Vec::new();
        let mut i: usize = 0;
        proof {
            reveal_with_fuel(Seq::filter, 1);
            assert(self.messages@.take(0) =~= Seq::<ChatMessage>::empty());
            assert(r@ =~= self.messages@.take(0).filter(
                |m: ChatMessage| m.chat_id@ == self.select_chat_id@,
            ));
        }
        while i < n
            invariant
                0 <= i <= n,
                n == self.messages@.len(),
                r@ == self.messages@.take(i as int).filter(
                    |m: ChatMessage| m.chat_id@ == self.select_chat_id@,
                ),
            decreases n - i,
        {
            let ghost prefix = self.messages@.take(i as int);
            if self.messages[i].chat_id == self.select_chat_id {
                r.push(self.messages[i].clone());
            }
            proof {
                reveal_with_fuel(Seq::filter, 1);
                assert(self.messages@.take(i + 1).drop_last() =~= prefix);
                assert(self.messages@.take(i + 1).last() == self.messages@[i as int]);
            }
            i = i + 1;
        }
        proof {
            assert(self.messages@.take(n as int) =~= self.messages@);
        }
        r
    }

    /// The name of the selected chat, or empty text before a valid
    /// selection exists.
    pub fn current_chat_name(&self) -> (r: String)
        ensures
            r@ == spec_chat_name(self.chats@, self.select_chat_id@),
    {
        let n = self.chats.len();
        let mut i: usize = 0;
        proof {
            assert(self.chats@.skip(0) =~= self.chats@);
        }
        while i < n
            invariant
                0 <= i <= n,
                n == self.chats@.len(),
                spec_chat_name(self.chats@.skip(i as int), self.select_chat_id@) == spec_chat_name(
                    self.chats@,
                    self.select_chat_id@,
                ),
            decreases n - i,
        {
            proof {
                assert(self.chats@.skip(i as int)[0] == self.chats@[i as int]);
                assert(self.chats@.skip(i as int).drop_first() =~= self.chats@.skip(i + 1));
            }
            if self.chats[i].id == self.select_chat_id {
                return self.chats[i].name.clone();
            }
            i = i + 1;
        }
        proof {
            assert(self.chats@.skip(n as int) =~= Seq::<Chat>::empty());
        }
        String::new()
    }

    /// The page the navigation rail currently points at.
    pub fn current_page(&self) -> (r: NavPage)
        ensures
            r == spec_nav_page(self.selected_nav_index as int),
    {
        if self.selected_nav_index == 0 {
            NavPage::Search
        } else if self.selected_nav_index == 1 {
            NavPage::Message
        } else if self.selected_nav_index == 2 {
            NavPage::Calendar
        } else if self.selected_nav_index == 3 {
            NavPage::Doc
        } else if self.selected_nav_index == 4 {
            NavPage::VideoMeeting
        } else if self.selected_nav_index == 5 {
            NavPage::Table
        } else if self.selected_nav_index == 6 {
            NavPage::Contact
        } else {
            NavPage::Message
        }
    }

    /// Derive the chat-list view model for the current state, under
    /// the session's active filter.
    pub fn chat_list_model(&self) -> (m: ChatListModel)
        ensures
            m.items@.len() == self.chats@.len(),
            forall|i: int|
                0 <= i < self.chats@.len() ==> item_matches(
                    #[trigger] m.items@[i],
                    self.chats@[i],
                    self.select_chat_id@,
                    self.unread_counts,
                ),
            m.filter == self.filter,
    {
        let mut m = ChatListModel::new(
            self.chats.as_slice(),
            self.select_chat_id.as_str(),
            &self.unread_counts,
        );
        m.filter = self.filter;
        m
    }
}

/// How `select_chat` changes the state: an existing id becomes the
/// selection and its unread count is cleared; an unknown id changes
/// nothing at all.
pub open spec fn spec_select(pre: UiState, post: UiState, id: Seq<char>) -> bool {
    if chat_id_exists(pre.chats@, id) {
        &&& post == (UiState {
            select_chat_id: post.select_chat_id,
            unread_counts: post.unread_counts,
            ..pre
        })
        &&& post.select_chat_id@ == id
        &&& forall|k: Seq<char>|
            #[trigger] post.unread_counts.spec_get(k) == if k == id
                && pre.unread_counts.spec_get(k) is Some {
                Option::Some(0i32)
            } else {
                pre.unread_counts.spec_get(k)
            }
        &&& post.unread_counts.spec_count(id) == 0
    } else {
        post == pre
    }
}

/// The fields every freshly composed message gets, except for its
/// timestamp: the next generated id, the selected chat, the local
/// user's identity, the trimmed input as content, the composing kind.
pub open spec fn composed_fields_ok(pre: UiState, m: ChatMessage) -> bool {
    &&& m.id@ == msg_id_seq(pre.next_msg_seq as nat)
    &&& m.chat_id@ == pre.select_chat_id@
    &&& m.sender@ == "You"@
    &&& m.avatar@ == "Y"@
    &&& m.content@ == spec_trim(pre.input_text@)
    &&& m.message_type == pre.current_message_type
}

/// How composing changes the state: whitespace-only input is rejected
/// and only clears the buffer; anything else appends exactly one new
/// message, with an id distinct from every stored one, and advances
/// the id counter.  The buffer is cleared either way.
pub open spec fn spec_compose(pre: UiState, post: UiState) -> bool {
    &&& post == (UiState {
        input_text: post.input_text,
        messages: post.messages,
        next_msg_seq: post.next_msg_seq,
        ..pre
    })
    &&& post.input_text@.len() == 0
    &&& if spec_trim(pre.input_text@).len() == 0 {
        &&& post.messages == pre.messages
        &&& post.next_msg_seq == pre.next_msg_seq
    } else {
        &&& post.messages@.len() == pre.messages@.len() + 1
        &&& post.messages@.take(pre.messages@.len() as int) == pre.messages@
        &&& composed_fields_ok(pre, post.messages@.last())
        &&& forall|i: int|
            0 <= i < pre.messages@.len() ==> post.messages@.last().id@ != #[trigger] pre.messages@[i].id@
        &&& post.next_msg_seq == pre.next_msg_seq + 1
    }
}

impl UiState {
    /// Select the chat bearing `id`.  A no-op when no chat does;
    /// otherwise the selection moves and that chat's unread count is
    /// cleared.
    pub fn select_chat(&mut self, id: &str)
        requires
            old(self).wf(),
        ensures
            final(self).wf(),
            spec_select(*old(self), *final(self), id@),
    {
        let owned = id.to_owned();
        let n = self.chats.len();
        let mut i: usize = 0;
        let mut found = false;
        while i < n && !found
            invariant
                0 <= i <= n,
                n == self.chats@.len(),
                owned@ == id@,
                found ==> i < n && self.chats@[i as int].id@ == id@,
                !found ==> forall|k: int| 0 <= k < i ==> self.chats@[k].id@ != id@,
            decreases n - i + if found {
                0int
            } else {
                1int
            },
        {
            if self.chats[i].id == owned {
                found = true;
            } else {
                i = i + 1;
            }
        }
        if found {
            assert(chat_id_exists(self.chats@, id@));
            self.select_chat_id = id.to_owned();
            self.unread_counts.reset(id);
        } else {
            assert(!chat_id_exists(self.chats@, id@));
        }
    }

    /// Compose the current input buffer as a message timestamped
    /// `now`, clearing the buffer; whitespace-only input only clears.
    pub fn append_message(&mut self, now: String)
        requires
            old(self).wf(),
            old(self).next_msg_seq < u64::MAX,
        ensures
            final(self).wf(),
            spec_compose(*old(self), *final(self)),
            spec_trim(old(self).input_text@).len() > 0 ==> final(self).messages@.last().timestamp
                == now,
    {
        let content = trimmed(self.input_text.as_str());
        self.input_text = String::new();
        if content.as_str().is_empty() {
            return ;
        }
        let message = ChatMessage {
            id: msg_id_string(self.next_msg_seq),
            chat_id: self.select_chat_id.clone(),
            sender: "You".to_owned(),
            avatar: "Y".to_owned(),
            content,
            timestamp: now,
            message_type: self.current_message_type,
        };
        let ghost pre = *old(self);
        self.messages.push(message);
        self.next_msg_seq = self.next_msg_seq + 1;
        proof {
            assert(self.messages@.take(pre.messages@.len() as int) =~= pre.messages@);
            assert forall|i: int| 0 <= i < pre.messages@.len() implies self.messages@.last().id@
                != pre.messages@[i].id@ by {
                assert(pre.messages@[i].id@ != msg_id_seq(pre.next_msg_seq as nat));
            }
            assert forall|i: int, k: nat|
                #![trigger self.messages@[i].id@, msg_id_seq(k)]
                0 <= i < self.messages@.len() && k >= self.next_msg_seq implies self.messages@[i].id@
                != msg_id_seq(k) by {
                if i < pre.messages@.len() {
                    assert(pre.messages@[i].id@ != msg_id_seq(k));
                } else {
                    if msg_id_seq(pre.next_msg_seq as nat) == msg_id_seq(k) {
                        crate::text::lemma_msg_id_injective(pre.next_msg_seq as nat, k);
                    }
                }
            }
        }
    }

    /// Compose the current input buffer as a message timestamped now,
    /// by the local clock.  The state change is `spec_compose`
    /// whatever timestamp the clock produced.
    pub fn send_message(&mut self)
        requires
            old(self).wf(),
            old(self).next_msg_seq < u64::MAX,
        ensures
            final(self).wf(),
            spec_compose(*old(self), *final(self)),
    {
        let now = now_timestamp();
        self.append_message(now);
    }

    /// Set the kind applied to the next composed message.
    pub fn set_message_kind(&mut self, kind: MessageType)
        ensures
            *final(self) == (UiState { current_message_type: kind, ..*old(self) }),
    {
        self.current_message_type = kind;
    }

    /// Set the chat-list filter; the pinned-message banner mirrors it.
    pub fn set_filter(&mut self, f: ChatFilter)
        ensures
            *final(self) == (UiState {
                filter: f,
                show_pin_message: f == ChatFilter::Pinned,
                ..*old(self)
            }),
    {
        self.filter = f;
        self.show_pin_message = match f {
            ChatFilter::Pinned => true,
            ChatFilter::All => false,
        };
    }

    /// Flip the chat-list filter between `All` and `Pinned`.
    pub fn toggle_filter(&mut self)
        ensures
            *final(self) == (UiState {
                filter: if old(self).filter == ChatFilter::All {
                    ChatFilter::Pinned
                } else {
                    ChatFilter::All
                },
                show_pin_message: old(self).filter == ChatFilter::All,
                ..*old(self)
            }),
    {
        let f = match self.filter {
            ChatFilter::All => ChatFilter::Pinned,
            ChatFilter::Pinned => ChatFilter::All,
        };
        self.set_filter(f);
    }

    /// Point the navigation rail at entry `index`.
    pub fn set_nav_index(&mut self, index: usize)
        ensures
            *final(self) == (UiState { selected_nav_index: index, ..*old(self) }),
    {
        self.selected_nav_index = index;
    }

    /// Switch the chat-detail view to `tab`.
    pub fn set_chat_tab(&mut self, tab: ChatTab)
        ensures
            *final(self) == (UiState { current_tab: tab, ..*old(self) }),
    {
        self.current_tab = tab;
    }

    /// Replace the compose input buffer.
    pub fn set_input_text(&mut self, text: String)
        ensures
            *final(self) == (UiState { input_text: text, ..*old(self) }),
    {
        self.input_text = text;
    }

    /// Apply one toolbar button's action.
    pub fn apply_toolbar_action(&mut self, action: ToolbarAction)
        ensures
            *final(self) == match action {
                ToolbarAction::ToggleEmoji => (UiState {
                    show_emoji_picker: !old(self).show_emoji_picker,
                    ..*old(self)
                }),
                ToolbarAction::SetMessageType(kind) => (UiState {
                    current_message_type: kind,
                    ..*old(self)
                }),
                ToolbarAction::Idle => *old(self),
            },
    {
        match action {
            ToolbarAction::ToggleEmoji => {
                self.show_emoji_picker = !self.show_emoji_picker;
            },
            ToolbarAction::SetMessageType(kind) => {
                self.current_message_type = kind;
            },
            ToolbarAction::Idle => {},
        }
    }
}

impl Default for UiState {
    /// The seeded initial session: the two sample rooms, the first
    /// chat selected, the message page, an empty compose buffer.
    fn default() -> (r: Self)
        ensures
            r.wf(),
            r.selected_nav_index == 1,
            !r.show_avatar_menu,
            !r.show_status_menu,
            !r.show_siderbar,
            r.selected_siderbar_button@.len() == 0,
            r.current_tab == ChatTab::Message,
            r.search_text@ == "Search Contact/Documents"@,
            r.current_message_type == MessageType::Text,
            r.input_text@.len() == 0,
            r.select_chat_id@ == "1"@,
            !r.show_emoji_picker,
            !r.show_pin_message,
            r.filter == ChatFilter::All,
            crate::data::seeded_data_ok(
                (ChatData { chats: r.chats, messages: r.messages, unread_counts: r.unread_counts }),
            ),
            r.next_msg_seq == 0,
    {
        let data = ChatData::new();
        let r = UiState {
            selected_nav_index: 1,
            show_avatar_menu: false,
            show_status_menu: false,
            show_siderbar: false,
            selected_siderbar_button: String::new(),
            current_tab: ChatTab::Message,
            search_text: "Search Contact/Documents".to_owned(),
            current_message_type: MessageType::Text,
            input_text: String::new(),
            select_chat_id: "1".to_owned(),
            show_emoji_picker: false,
            show_pin_message: false,
            filter: ChatFilter::All,
            messages: data.messages,
            chats: data.chats,
            unread_counts: data.unread_counts,
            next_msg_seq: 0,
        };
        proof {
            reveal_strlit("1");
            reveal_strlit("2");
            reveal_strlit("1-1");
            reveal_strlit("2-1");
            assert(r.chats@[0].id@ == "1"@);
            assert(chat_id_exists(r.chats@, r.select_chat_id@));
            assert(r.chats@[1].id@ == "2"@);
            assert forall|i: int|
                0 <= i < r.messages@.len() implies chat_id_exists(
                r.chats@,
                #[trigger] r.messages@[i].chat_id@,
            ) by {
                if i == 0 {
                    assert(r.chats@[0].id@ == r.messages@[0].chat_id@);
                } else {
                    assert(r.chats@[1].id@ == r.messages@[1].chat_id@);
                }
            }
            assert("1-1"@[0] == '1');
            assert("2-1"@[0] == '2');
            assert(r.messages@[0].id@ != r.messages@[1].id@);
            assert forall|i: int, k: nat|
                #![trigger r.messages@[i].id@, msg_id_seq(k)]
                0 <= i < r.messages@.len() && k >= r.next_msg_seq implies r.messages@[i].id@
                != msg_id_seq(k) by {
                crate::text::lemma_msg_id_starts_m(k);
                assert(msg_id_seq(k)[0] == 'm');
            }
        }
        r
    }
}

/// Relies on chrono's `Local::now`: the current local wall-clock time,
/// rendered in the `YYYY.MM.DD HH:MM:SS` shape.  Nothing is assumed of
/// the value: callers work for every timestamp string.
#[verifier::external_body]
fn now_timestamp() -> (r: String) {
    chrono::Local::now().format("%Y.%m.%d %H:%M:%S").to_string()
}

/// Selecting an existing chat id clears its unread count, and the
/// projection derived from the new state marks exactly the rows
/// bearing that id as selected.
pub proof fn lemma_select_then_project(pre: UiState, post: UiState, id: Seq<char>, m: ChatListModel)
    requires
        chat_id_exists(pre.chats@, id),
        spec_select(pre, post, id),
        m.items@.len() == post.chats@.len(),
        forall|i: int|
            0 <= i < post.chats@.len() ==> item_matches(
                #[trigger] m.items@[i],
                post.chats@[i],
                post.select_chat_id@,
                post.unread_counts,
            ),
    ensures
        post.unread_counts.spec_count(id) == 0,
        forall|i: int|
            0 <= i < m.items@.len() ==> (#[trigger] m.items@[i].is_selected <==> m.items@[i].id@
                == id),
{
    assert forall|i: int|
        0 <= i < m.items@.len() implies (#[trigger] m.items@[i].is_selected <==> m.items@[i].id@
        == id) by {
        assert(item_matches(m.items@[i], post.chats@[i], post.select_chat_id@, post.unread_counts));
        assert(m.items@[i].id@ == post.chats@[i].id@);
    }
}

} // verus!
