//! The chat-list controller: owns the derived view model and turns a
//! click on a row into a selection event.

use crate::model::{Chat, ChatEvent, ChatListModel};
use crate::unread::UnreadCounts;
use vstd::prelude::*;

verus! {

/// Owns the chat-list view model on behalf of the list view.
#[derive(Debug)]
pub struct ChatListController {
    model: ChatListModel,
}

impl ChatListController {
    /// The view model this controller holds.
    pub closed spec fn spec_model(self) -> ChatListModel {
        self.model
    }

    /// Build the controller around a freshly derived view model.
    pub fn new(chats: &[Chat], selected_id: &str, unread_count: &UnreadCounts) -> (r: Self)
        ensures
            r.spec_model().items@.len() == chats@.len(),
            forall|i: int|
                0 <= i < chats@.len() ==> crate::model::item_matches(
                    #[trigger] r.spec_model().items@[i],
                    chats@[i],
                    selected_id@,
                    *unread_count,
                ),
            r.spec_model().filter == crate::model::ChatFilter::All,
    {
        ChatListController { model: ChatListModel::new(chats, selected_id, unread_count) }
    }

    /// A click on the row with `id` asks for that chat to be selected.
    pub fn handle_click(&mut self, id: String) -> (r: ChatEvent)
        ensures
            *final(self) == *old(self),
            r matches ChatEvent::Selected { id: rid } && rid == id,
    {
        ChatEvent::Selected { id }
    }

    /// Read-only access to the view model.
    pub fn view(&self) -> (r: &ChatListModel)
        ensures
            *r == self.spec_model(),
    {
        &self.model
    }
}

} // verus!
