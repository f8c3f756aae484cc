//! Chat messages in the role-tagged form that callers hand to a completion
//! provider.

use vstd::prelude::*;

verus! {

/// A message with the role of its author.
#[derive(Debug, Clone)]
pub struct ChatMessage {
    pub role: String,
    pub content: String,
}

/// The plain value of a `ChatMessage`.
pub ghost struct ChatMessageView {
    pub role: Seq<char>,
    pub content: Seq<char>,
}

impl View for ChatMessage {
    type V = ChatMessageView;

    open spec fn view(&self) -> ChatMessageView {
        ChatMessageView { role: self.role@, content: self.content@ }
    }
}

} // verus!
