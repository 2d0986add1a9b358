//! A conversation as a model reads it.
use crate::data::Dup;
use crate::events::{ToolCall, ToolCallView};
use vstd::prelude::*;

verus! {

/// Who speaks.
#[derive(Clone, Copy, Debug, PartialEq, Eq, Structural)]
pub enum Role {
    System,
    User,
    Assistant,
    Tool,
}

impl DeepView for Role {
    type V = Role;

    open spec fn deep_view(&self) -> Role {
        *self
    }
}

impl Dup for Role {
    fn dup(&self) -> (r: Self) {
        *self
    }
}

/// One message.
#[derive(Debug, PartialEq, Eq)]
pub struct Message {
    pub role: Role,
    pub text: String,
    pub reasoning: Option<String>,
    pub tool_calls: Vec<ToolCall>,
    /// The call a tool message answers.
    pub tool_call_id: Option<String>,
    pub is_error: bool,
    /// Written by the harness, not by the person.
    pub synthetic: bool,
}

/// What a [`Message`] holds.
#[verifier::ext_equal]
pub struct MessageView {
    pub role: Role,
    pub text: Seq<char>,
    pub reasoning: Option<Seq<char>>,
    pub tool_calls: Seq<ToolCallView>,
    pub tool_call_id: Option<Seq<char>>,
    pub is_error: bool,
    pub synthetic: bool,
}

impl DeepView for Message {
    type V = MessageView;

    open spec fn deep_view(&self) -> MessageView {
        MessageView {
            role: self.role.deep_view(),
            text: self.text.deep_view(),
            reasoning: self.reasoning.deep_view(),
            tool_calls: self.tool_calls.deep_view(),
            tool_call_id: self.tool_call_id.deep_view(),
            is_error: self.is_error.deep_view(),
            synthetic: self.synthetic.deep_view(),
        }
    }
}

impl Dup for Message {
    fn dup(&self) -> (r: Self) {
        Message {
            role: self.role.dup(),
            text: self.text.dup(),
            reasoning: self.reasoning.dup(),
            tool_calls: self.tool_calls.dup(),
            tool_call_id: self.tool_call_id.dup(),
            is_error: self.is_error.dup(),
            synthetic: self.synthetic.dup(),
        }
    }
}

impl Clone for Message {
    fn clone(&self) -> (r: Self)
        ensures
            r.deep_view() == self.deep_view(),
    {
        self.dup()
    }
}

} // verus!
