//! The message record shared by every chat-style profile.

use vstd::prelude::*;

verus! {

/// One conversational turn: who speaks (`role`) and what is said (`content`).
#[derive(Debug)]
pub struct OpenAIChatMessage {
    pub role: String,
    pub content: String,
}

/// The mathematical value of a chat message: both fields as character
/// sequences.
pub ghost struct MessageView {
    pub role: Seq<char>,
    pub content: Seq<char>,
}

impl View for OpenAIChatMessage {
    type V = MessageView;

    open spec fn view(&self) -> MessageView {
        MessageView { role: self.role@, content: self.content@ }
    }
}

/// The views of a sequence of messages, element by element.
pub open spec fn msg_seq_view(v: Seq<OpenAIChatMessage>) -> Seq<MessageView> {
    v.map_values(|m: OpenAIChatMessage| m@)
}

impl Clone for OpenAIChatMessage {
    fn clone(&self) -> (r: Self)
        ensures
            r == *self,
    {
        OpenAIChatMessage { role: self.role.clone(), content: self.content.clone() }
    }
}

} // verus!
