//! Message render dispatch: each message kind maps to exactly one
//! rendering strategy, and lookup is total over the closed kind set.

use crate::model::{ChatMessage, MessageType};
use vstd::prelude::*;
use vstd::string::*;

verus! {

/// The renderable representation a strategy produces for one message.
/// The drawing layer turns it into widgets; nothing here mutates state.
#[derive(Debug)]
pub enum RenderedContent {
    /// The message content verbatim, as plain text.
    PlainText { text: String },
    /// A collapsible, monospaced block, keyed by message id so each
    /// message's collapse state is tracked independently.
    CollapsibleCode { key: String, code: String, default_open: bool },
    /// A single-line attachment reference: icon plus file name.
    Attachment { label: String },
    /// A stub for image content, which is explicitly unfinished.
    ImagePlaceholder,
}

/// What the strategy for `m.message_type` must produce for `m`.
pub open spec fn rendered_matches(r: RenderedContent, m: ChatMessage) -> bool {
    match m.message_type {
        MessageType::Text => r matches RenderedContent::PlainText { text } && text == m.content,
        MessageType::Code => r matches RenderedContent::CollapsibleCode { key, code, default_open }
            && key == m.id && code == m.content && default_open,
        MessageType::File => r matches RenderedContent::Attachment { label } && label@ == seq![
            '\u{1F4CE}',
            ' ',
        ] + m.content@,
        MessageType::Images => r matches RenderedContent::ImagePlaceholder,
    }
}

/// A rendering strategy: turns one message into its renderable
/// representation, without touching any session state.
pub trait MessageRenderer {
    fn render(&self, message: &ChatMessage) -> RenderedContent;
}

/// Renders message content verbatim as plain text.
#[derive(Debug, Clone, Copy, PartialEq, Eq, Structural)]
pub struct TextMessageRenderer;

/// Renders message content as an attachment reference line.
#[derive(Debug, Clone, Copy, PartialEq, Eq, Structural)]
pub struct FileMessageRenderer;

/// Renders message content in a collapsible code block, default open,
/// keyed by the message id.
#[derive(Debug, Clone, Copy, PartialEq, Eq, Structural)]
pub struct CodeMessageRenderer;

/// Placeholder strategy for image messages.
#[derive(Debug, Clone, Copy, PartialEq, Eq, Structural)]
pub struct ImageMessageRenderer;

impl MessageRenderer for TextMessageRenderer {
    fn render(&self, message: &ChatMessage) -> (r: RenderedContent)
        ensures
            r matches RenderedContent::PlainText { text } && text == message.content,
    {
        RenderedContent::PlainText { text: message.content.clone() }
    }
}

impl MessageRenderer for CodeMessageRenderer {
    fn render(&self, message: &ChatMessage) -> (r: RenderedContent)
        ensures
            r matches RenderedContent::CollapsibleCode { key, code, default_open } && key
                == message.id && code == message.content && default_open,
    {
        RenderedContent::CollapsibleCode {
            key: message.id.clone(),
            code: message.content.clone(),
            default_open: true,
        }
    }
}

impl MessageRenderer for FileMessageRenderer {
    fn render(&self, message: &ChatMessage) -> (r: RenderedContent)
        ensures
            r matches RenderedContent::Attachment { label } && label@ == seq!['\u{1F4CE}', ' ']
                + message.content@,
    {
        let mut label = String::new();
        label.append("\u{1F4CE} ");
        label.append(message.content.as_str());
        proof {
            reveal_strlit("\u{1F4CE} ");
            assert(label@ =~= seq!['\u{1F4CE}', ' '] + message.content@);
        }
        RenderedContent::Attachment { label }
    }
}

impl MessageRenderer for ImageMessageRenderer {
    fn render(&self, message: &ChatMessage) -> (r: RenderedContent)
        ensures
            r matches RenderedContent::ImagePlaceholder,
    {
        RenderedContent::ImagePlaceholder
    }
}

/// One registered strategy, tagged by the kind it serves.
#[derive(Debug, Clone, Copy, PartialEq, Eq, Structural)]
pub enum RenderStrategy {
    Text(TextMessageRenderer),
    Code(CodeMessageRenderer),
    File(FileMessageRenderer),
    Images(ImageMessageRenderer),
}

/// Whether strategy `s` is the one registered for kind `k`.
pub open spec fn strategy_matches(s: RenderStrategy, k: MessageType) -> bool {
    match k {
        MessageType::Text => s matches RenderStrategy::Text(_),
        MessageType::Code => s matches RenderStrategy::Code(_),
        MessageType::File => s matches RenderStrategy::File(_),
        MessageType::Images => s matches RenderStrategy::Images(_),
    }
}

/// Registry lookup.  It is total: for every kind of the closed set it
/// returns the one strategy registered for that kind; a missing entry
/// cannot arise.
pub fn lookup_strategy(kind: MessageType) -> (s: RenderStrategy)
    ensures
        strategy_matches(s, kind),
{
    match kind {
        MessageType::Text => RenderStrategy::Text(TextMessageRenderer),
        MessageType::Code => RenderStrategy::Code(CodeMessageRenderer),
        MessageType::File => RenderStrategy::File(FileMessageRenderer),
        MessageType::Images => RenderStrategy::Images(ImageMessageRenderer),
    }
}

impl RenderStrategy {
    /// Apply this strategy to one message.
    pub fn render(&self, message: &ChatMessage) -> (r: RenderedContent)
        ensures
            strategy_matches(*self, message.message_type) ==> rendered_matches(r, *message),
    {
        match self {
            RenderStrategy::Text(s) => s.render(message),
            RenderStrategy::Code(s) => s.render(message),
            RenderStrategy::File(s) => s.render(message),
            RenderStrategy::Images(s) => s.render(message),
        }
    }
}

/// Resolve and apply the registered strategy for one message: the full
/// dispatch the drawing layer performs per message.
pub fn render_message(message: &ChatMessage) -> (r: RenderedContent)
    ensures
        rendered_matches(r, *message),
{
    let s = lookup_strategy(message.message_type);
    s.render(message)
}

/// The grouping decisions for one message row: whether a date header
/// precedes it, and whether its sender avatar is drawn (instead of a
/// small timestamp gutter).
#[derive(Debug, Clone, Copy, PartialEq, Eq, Structural)]
pub struct MessageRowPlan {
    pub show_date_header: bool,
    pub show_avatar: bool,
}

/// Whether a date header stands before row `i`: before the first row,
/// and whenever the date column of the timestamp changes.
pub open spec fn spec_show_date_header(ms: Seq<ChatMessage>, i: int) -> bool {
    i == 0 || crate::text::spec_date_part(ms[i].timestamp@) != crate::text::spec_date_part(
        ms[i - 1].timestamp@,
    )
}

/// Whether row `i` shows its sender avatar: on the first row, and
/// whenever the sender or the hour-and-minute of the timestamp differs
/// from the previous row's.
pub open spec fn spec_show_avatar(ms: Seq<ChatMessage>, i: int) -> bool {
    i == 0 || ms[i].sender@ != ms[i - 1].sender@ || crate::text::spec_minute_part(ms[i].timestamp@)
        != crate::text::spec_minute_part(ms[i - 1].timestamp@)
}

/// The grouping plan for a message list: one row plan per message, in
/// order.
pub fn message_row_plans(messages: &Vec<ChatMessage>) -> (r: Vec<MessageRowPlan>)
    ensures
        r@.len() == messages@.len(),
        forall|i: int|
            0 <= i < messages@.len() ==> #[trigger] r@[i] == (MessageRowPlan {
                show_date_header: spec_show_date_header(messages@, i),
                show_avatar: spec_show_avatar(messages@, i),
            }),
{
    let n = messages.len();
    let mut r: Vec<MessageRowPlan> = Vec::new();
    let mut i: usize = 0;
    while i < n
        invariant
            0 <= i <= n,
            n == messages@.len(),
            r@.len() == i,
            forall|k: int|
                0 <= k < i ==> #[trigger] r@[k] == (MessageRowPlan {
                    show_date_header: spec_show_date_header(messages@, k),
                    show_avatar: spec_show_avatar(messages@, k),
                }),
        decreases n - i,
    {
        let plan = if i == 0 {
            MessageRowPlan { show_date_header: true, show_avatar: true }
        } else {
            let date = crate::text::timestamp_date(messages[i].timestamp.as_str());
            let prev_date = crate::text::timestamp_date(messages[i - 1].timestamp.as_str());
            let minute = crate::text::timestamp_minute(messages[i].timestamp.as_str());
            let prev_minute = crate::text::timestamp_minute(messages[i - 1].timestamp.as_str());
            MessageRowPlan {
                show_date_header: !(date == prev_date),
                show_avatar: !(messages[i].sender == messages[i - 1].sender) || !(minute
                    == prev_minute),
            }
        };
        r.push(plan);
        i = i + 1;
    }
    r
}

/// What a toolbar button does when clicked.
#[derive(Debug, Clone, Copy, PartialEq, Eq, Structural)]
pub enum ToolbarAction {
    ToggleEmoji,
    SetMessageType(MessageType),
    Idle,
}

/// One button of the compose toolbar.
#[derive(Debug, Clone, Copy)]
pub struct ToolBarButton {
    pub icon: &'static str,
    pub tooltip: &'static str,
    pub action: ToolbarAction,
}

/// The fixed compose toolbar: emoji picker, mention, then one button
/// per composable message kind.
pub fn default_toolbar_buttons() -> (r: Vec<ToolBarButton>)
    ensures
        r@.len() == 5,
        r@[0].action == ToolbarAction::ToggleEmoji,
        r@[1].action == ToolbarAction::Idle,
        r@[2].action == ToolbarAction::SetMessageType(MessageType::File),
        r@[3].action == ToolbarAction::SetMessageType(MessageType::Code),
        r@[4].action == ToolbarAction::SetMessageType(MessageType::Text),
{
    let mut r: Vec<ToolBarButton> = Vec::new();
    r.push(
        ToolBarButton {
            icon: "\u{e6a2}",
            tooltip: "\u{8868}\u{60c5}",
            action: ToolbarAction::ToggleEmoji,
        },
    );
    r.push(
        ToolBarButton {
            icon: "\u{e81e}",
            tooltip: "\u{63d0}\u{53ca}",
            action: ToolbarAction::Idle,
        },
    );
    r.push(
        ToolBarButton {
            icon: "\u{e6a3}",
            tooltip: "\u{9644}\u{4ef6}",
            action: ToolbarAction::SetMessageType(MessageType::File),
        },
    );
    r.push(
        ToolBarButton {
            icon: "\u{e6a}",
            tooltip: "\u{4ee3}\u{7801}\u{5757}",
            action: ToolbarAction::SetMessageType(MessageType::Code),
        },
    );
    r.push(
        ToolBarButton {
            icon: "\u{e854}",
            tooltip: "\u{6587}\u{672c}",
            action: ToolbarAction::SetMessageType(MessageType::Text),
        },
    );
    r
}

} // verus!
