use vstd::prelude::*;

use crate::chat_history::ChatHistory;
use crate::model::{role_text, ChatCompletionMessage, CompletionModel, Message, MessageModel};
use crate::ordering::message_views;

verus! {

/// The pair a stored message contributes to the context.
pub open spec fn completion_of(m: MessageModel) -> CompletionModel {
    CompletionModel { role: role_text(m.role), content: m.content }
}

/// The newest `budget` messages of a history, oldest first.
pub open spec fn window(h: Seq<MessageModel>, budget: nat) -> Seq<MessageModel> {
    if h.len() <= budget {
        h
    } else {
        h.subrange(h.len() - budget, h.len() as int)
    }
}

/// The context sent upstream for a history: its newest `budget` messages as
/// `{role, content}` pairs, in history order.
pub open spec fn context_of(h: Seq<MessageModel>, budget: nat) -> Seq<CompletionModel> {
    window(h, budget).map_values(|m: MessageModel| completion_of(m))
}

/// Assembles the context for a chat from its stored history (given in
/// history order). Where the history holds more than `budget` messages the
/// oldest are dropped.
pub fn assemble_context(history: &Vec<Message>, budget: usize) -> (r: ChatHistory)
    ensures
        r@ == context_of(message_views(history@), budget as nat),
{
    let ghost h = message_views(history@);
    let start: usize = if history.len() <= budget {
        0
    } else {
        history.len() - budget
    };
    let mut out = ChatHistory::new();
    let mut i: usize = start;
    while i < history.len()
        invariant
            start <= i <= history.len(),
            h == message_views(history@),
            start as int == h.len() - window(h, budget as nat).len(),
            out@ == h.subrange(start as int, i as int).map_values(
                |m: MessageModel| completion_of(m),
            ),
        decreases history.len() - i,
    {
        let m = &history[i];
        let pair = ChatCompletionMessage::new(m.role.as_text(), m.content.clone());
        out.add_message(pair);
        proof {
            assert(h[i as int] == m@);
            assert(h.subrange(start as int, i + 1) =~= h.subrange(start as int, i as int).push(
                h[i as int],
            ));
            assert(out@ =~= h.subrange(start as int, i + 1).map_values(
                |m: MessageModel| completion_of(m),
            ));
        }
        i = i + 1;
    }
    assert(h.subrange(start as int, h.len() as int) =~= window(h, budget as nat));
    out
}

/// A chat's context after one new message: where the budget admits the
/// whole history, the context of `n` stored messages and a new one is the
/// `n + 1` pairs of the stored messages in order, with the new one last.
pub proof fn lemma_context_with_new_message(stored: Seq<MessageModel>, m: MessageModel, budget: nat)
    requires
        budget >= stored.len() + 1,
    ensures
        context_of(stored.push(m), budget) == stored.map_values(|x: MessageModel| completion_of(x)).push(
            completion_of(m),
        ),
        context_of(stored.push(m), budget).len() == stored.len() + 1,
        context_of(stored.push(m), budget).last() == completion_of(m),
{
    assert(context_of(stored.push(m), budget) =~= stored.map_values(
        |x: MessageModel| completion_of(x),
    ).push(completion_of(m)));
}

} // verus!
