//! The chat-list view: prepares the display-ready, filtered row list
//! that the drawing layer walks every frame.

use crate::controller::ChatListController;
use crate::model::{spec_passes, ChatListItem};
use vstd::prelude::*;

verus! {

/// A read-only pass over the controller's view model.
pub struct ChatListView<'a> {
    controller: &'a ChatListController,
}

impl<'a> ChatListView<'a> {
    /// The controller this view reads from.
    pub closed spec fn spec_controller(self) -> ChatListController {
        *self.controller
    }

    pub fn new(controller: &'a ChatListController) -> (r: Self)
        ensures
            r.spec_controller() == *controller,
    {
        ChatListView { controller }
    }

    /// The rows to draw: the filtered view-model rows, as owned values,
    /// in their original order.
    pub fn prepare_chat_items(&self) -> (r: Vec<ChatListItem>)
        ensures
            r@ == self.spec_controller().spec_model().items@.filter(
                |it: ChatListItem| spec_passes(self.spec_controller().spec_model().filter, it),
            ),
    {
        let filtered = self.controller.view().filtered();
        let n = filtered.len();
        let mut r: Vec<ChatListItem> = Vec::new();
        let mut i: usize = 0;
        while i < n
            invariant
                0 <= i <= n,
                n == filtered@.len(),
                r@.len() == i,
                forall|k: int| 0 <= k < i ==> r@[k] == *filtered@[k],
            decreases n - i,
        {
            r.push(filtered[i].clone());
            i = i + 1;
        }
        proof {
            assert(r@ =~= filtered@.map_values(|it: &ChatListItem| *it));
        }
        r
    }
}

} // verus!
