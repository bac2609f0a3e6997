use vstd::prelude::*;

use crate::model::{ChatCompletionMessage, CompletionModel};

verus! {

/// An ordered list of `{role, content}` pairs, oldest first.
pub struct ChatHistory {
    messages: Vec<ChatCompletionMessage>,
}

impl View for ChatHistory {
    type V = Seq<CompletionModel>;

    closed spec fn view(&self) -> Seq<CompletionModel> {
        self.messages@.map_values(|m: ChatCompletionMessage| m@)
    }
}

impl ChatHistory {
    pub fn new() -> (r: Self)
        ensures
            r@ == Seq::<CompletionModel>::empty(),
    {
        let r = ChatHistory { messages: Vec::new() };
        assert(r@ =~= Seq::<CompletionModel>::empty());
        r
    }

    /// Appends one pair after all that are there.
    pub fn add_message(&mut self, message: ChatCompletionMessage)
        ensures
            final(self)@ == old(self)@.push(message@),
    {
        let ghost before = self.messages@;
        self.messages.push(message);
        assert(self.messages@.map_values(|m: ChatCompletionMessage| m@) =~= before.map_values(
            |m: ChatCompletionMessage| m@,
        ).push(message@));
    }

    pub fn get_messages(&self) -> (r: &Vec<ChatCompletionMessage>)
        ensures
            r@.map_values(|m: ChatCompletionMessage| m@) == self@,
    {
        &self.messages
    }
}

} // verus!
