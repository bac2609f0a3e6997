use vstd::prelude::*;

use crate::context::{completion_of, context_of, lemma_context_with_new_message};
use crate::dispatch::DispatchOutcome;
use crate::ingest::{generated_content, reply_items, DecodedReply, SessionError};
use crate::model::{
    role_text, ChatModel, CompletionModel, ImageGenerationRequest, MessageModel, Role,
    StoreError,
};
use crate::session::{Action, Event, RequestKind, Session};
use crate::store::{
    chat_exists, image_in, lemma_filter_exclusive, lemma_filter_push, message_in, renamed,
    without_chat, Store, StoreModel,
};

verus! {

pub open spec fn user_turn(content: Seq<char>) -> CompletionModel {
    CompletionModel { role: role_text(Role::User), content }
}

pub open spec fn assistant_turn(content: Seq<char>) -> CompletionModel {
    CompletionModel { role: role_text(Role::Assistant), content }
}

/// The turns one text request adds to a chat: the user message, then the
/// assistant's answer where one was stored.
pub open spec fn exchange(content: Seq<char>, answer: Option<Seq<char>>) -> Seq<CompletionModel> {
    match answer {
        Some(a) => seq![user_turn(content), assistant_turn(a)],
        None => seq![user_turn(content)],
    }
}

/// The conversation of a chat: its messages as `{role, content}` pairs, in
/// history order.
pub open spec fn conversation(messages: Seq<MessageModel>, chat_id: i32) -> Seq<CompletionModel> {
    messages.filter(message_in(chat_id)).map_values(|m: MessageModel| completion_of(m))
}

/// `after` is `before` followed by messages of chat `chat_id` whose pairs
/// are `turns`.
pub open spec fn appended_turns(
    before: Seq<MessageModel>,
    after: Seq<MessageModel>,
    chat_id: i32,
    turns: Seq<CompletionModel>,
) -> bool {
    &&& after.len() == before.len() + turns.len()
    &&& after.subrange(0, before.len() as int) == before
    &&& forall|k: int|
        0 <= k < turns.len() ==> after[before.len() + k].chat_id == chat_id && completion_of(
            after[before.len() + k],
        ) == #[trigger] turns[k]
}

/// What a request returns once the upstream service has answered with
/// `outcome`, whose body decoded to `items`; `room` tells whether the store
/// can take the result.
pub open spec fn answer_result(
    outcome: DispatchOutcome,
    items: Option<Seq<Option<String>>>,
    room: bool,
    lost: StoreError,
    r: Result<String, SessionError>,
) -> bool {
    match outcome {
        DispatchOutcome::Success(body) => match generated_content(items) {
            Some(_) => if room {
                r == Ok::<String, SessionError>(body)
            } else {
                r == Err::<String, SessionError>(SessionError::ResultLost(lost))
            },
            None => r == Err::<String, SessionError>(SessionError::MalformedUpstreamResponse),
        },
        DispatchOutcome::UpstreamRejected(status, body) => r == Err::<String, SessionError>(
            SessionError::UpstreamRejected(status, body),
        ),
        DispatchOutcome::TransportFailure(cause) => r == Err::<String, SessionError>(
            SessionError::TransportFailure(cause),
        ),
        DispatchOutcome::AuthFailure => r == Err::<String, SessionError>(SessionError::AuthFailure),
    }
}

/// The answer a request stored: the generated content where it succeeded.
pub open spec fn stored_answer(items: Option<Seq<Option<String>>>, r: Result<String, SessionError>) -> Option<Seq<char>> {
    if r is Ok {
        generated_content(items)
    } else {
        None
    }
}

impl Store {
    /// Runs one text request through the coordinator against this store:
    /// records the user message, assembles the chat's context, and, with
    /// `outcome` and `reply` standing for what the upstream service answered
    /// to that context, records the assistant's answer and returns the
    /// upstream body. A user message stays recorded when a later step fails.
    pub fn post_chat_message(
        &mut self,
        chat_id: i32,
        content: String,
        budget: usize,
        outcome: DispatchOutcome,
        reply: Option<DecodedReply>,
    ) -> (r: Result<String, SessionError>)
        requires
            old(self).wf(),
        ensures
            final(self).wf(),
            final(self)@.chats == old(self)@.chats,
            final(self)@.images == old(self)@.images,
            !chat_exists(old(self)@.chats, chat_id) ==> r == Err::<String, SessionError>(
                SessionError::Storage(StoreError::ConstraintViolation),
            ) && final(self)@.messages == old(self)@.messages,
            chat_exists(old(self)@.chats, chat_id) && old(self)@.next_message_id == i32::MAX ==> r
                == Err::<String, SessionError>(SessionError::Storage(StoreError::BackendFailure))
                && final(self)@.messages == old(self)@.messages,
            chat_exists(old(self)@.chats, chat_id) && old(self)@.next_message_id < i32::MAX ==> {
                &&& answer_result(
                    outcome,
                    reply_items(&reply),
                    old(self)@.next_message_id + 1 < i32::MAX,
                    StoreError::BackendFailure,
                    r,
                )
                &&& appended_turns(
                    old(self)@.messages,
                    final(self)@.messages,
                    chat_id,
                    exchange(content@, stored_answer(reply_items(&reply), r)),
                )
            },
    {
        let ghost before = self@;
        let ghost items = reply_items(&reply);
        let ghost text = content@;
        let (mut session, _) = Session::start(chat_id, RequestKind::Text(content.clone()), budget, false);
        let stored = self.add_message(chat_id, Role::User, content);
        let ghost recorded = self@;
        let event = match stored {
            Ok(_) => Event::UserMessageStored(Ok(())),
            Err(e) => Event::UserMessageStored(Err(e)),
        };
        match session.step(event) {
            Action::LoadHistory(_) => {},
            Action::Fail(e) => {
                return Err(e);
            },
            _ => {
                assert(false);
            },
        }
        let history = self.get_messages_by_chat_id(chat_id);
        match session.step(Event::HistoryLoaded(Ok(history))) {
            Action::CallCompletion(_) => {},
            _ => {
                assert(false);
            },
        }
        proof {
            assert(recorded.messages.subrange(0, before.messages.len() as int) =~= before.messages);
        }
        match session.step(Event::UpstreamAnswered(outcome, reply)) {
            Action::StoreAssistantMessage(id, answer) => {
                let saved = self.add_message(id, Role::Assistant, answer);
                let event = match saved {
                    Ok(_) => Event::ResultStored(Ok(())),
                    Err(e) => Event::ResultStored(Err(e)),
                };
                proof {
                    let t = exchange(text, generated_content(items));
                    if self@.messages.len() > recorded.messages.len() {
                        assert(self@.messages.subrange(0, before.messages.len() as int)
                            =~= before.messages);
                        assert(t[0] == completion_of(self@.messages[before.messages.len() as int + 0]));
                        assert(t[1] == completion_of(self@.messages[before.messages.len() as int + 1]));
                    }
                }
                match session.step(event) {
                    Action::Reply(body) => Ok(body),
                    Action::Fail(e) => Err(e),
                    _ => {
                        assert(false);
                        Err(SessionError::AuthFailure)
                    },
                }
            },
            Action::Fail(e) => {
                proof {
                    assert(exchange(text, None)[0] == completion_of(
                        recorded.messages[before.messages.len() as int + 0],
                    ));
                }
                Err(e)
            },
            _ => {
                assert(false);
                Err(SessionError::AuthFailure)
            },
        }
    }

    /// Runs one image request through the coordinator against this store:
    /// with `outcome` and `reply` standing for what the upstream service
    /// answered, records the first generated image's URL and returns the
    /// upstream body.
    pub fn generate_image(
        &mut self,
        request: ImageGenerationRequest,
        outcome: DispatchOutcome,
        reply: Option<DecodedReply>,
    ) -> (r: Result<String, SessionError>)
        requires
            old(self).wf(),
        ensures
            final(self).wf(),
            final(self)@.chats == old(self)@.chats,
            final(self)@.messages == old(self)@.messages,
            answer_result(
                outcome,
                reply_items(&reply),
                chat_exists(old(self)@.chats, request.chat_id) && old(self)@.next_image_id < i32::MAX,
                if chat_exists(old(self)@.chats, request.chat_id) {
                    StoreError::BackendFailure
                } else {
                    StoreError::ConstraintViolation
                },
                r,
            ),
            r is Ok ==> {
                &&& final(self)@.images.len() == old(self)@.images.len() + 1
                &&& final(self)@.images.drop_last() == old(self)@.images
                &&& final(self)@.images.last().chat_id == request.chat_id
                &&& generated_content(reply_items(&reply)) == Some(final(self)@.images.last().url)
            },
            r is Err ==> final(self)@.images == old(self)@.images,
    {
        let chat_id = request.chat_id;
        let (mut session, _) = Session::start(chat_id, RequestKind::Image(request), 0, false);
        match session.step(Event::UpstreamAnswered(outcome, reply)) {
            Action::StoreImage(id, url) => {
                let saved = self.save_generated_image(id, url);
                let event = match saved {
                    Ok(_) => Event::ResultStored(Ok(())),
                    Err(e) => Event::ResultStored(Err(e)),
                };
                match session.step(event) {
                    Action::Reply(body) => Ok(body),
                    Action::Fail(e) => Err(e),
                    _ => {
                        assert(false);
                        Err(SessionError::AuthFailure)
                    },
                }
            },
            Action::Fail(e) => Err(e),
            _ => {
                assert(false);
                Err(SessionError::AuthFailure)
            },
        }
    }
}

/// The two roles are stored under different texts.
pub proof fn lemma_roles_differ()
    ensures
        role_text(Role::User) != role_text(Role::Assistant),
{
    reveal_strlit("user");
    reveal_strlit("assistant");
    assert("user"@.len() != "assistant"@.len());
}

/// A chat's conversation after turns are appended to it: the old
/// conversation followed by those turns, in order.
pub proof fn lemma_conversation_appended(
    before: Seq<MessageModel>,
    after: Seq<MessageModel>,
    chat_id: i32,
    turns: Seq<CompletionModel>,
)
    requires
        appended_turns(before, after, chat_id, turns),
    ensures
        conversation(after, chat_id) == conversation(before, chat_id) + turns,
    decreases turns.len(),
{
    if turns.len() == 0 {
        assert(after =~= before);
    } else {
        let n = turns.len() - 1;
        let mid = after.drop_last();
        let head = turns.drop_last();
        assert(mid.subrange(0, before.len() as int) =~= after.subrange(0, before.len() as int));
        assert forall|k: int| 0 <= k < head.len() implies (#[trigger] mid[before.len() + k]).chat_id
            == chat_id && completion_of(mid[before.len() + k]) == head[k] by {
            assert(head[k] == turns[k]);
            assert(mid[before.len() + k] == after[before.len() + k]);
        }
        assert(appended_turns(before, mid, chat_id, head));
        lemma_conversation_appended(before, mid, chat_id, turns.drop_last());
        assert(after =~= mid.push(after.last()));
        assert(turns[n] == completion_of(after[before.len() + n]));
        lemma_filter_push(mid, after.last(), message_in(chat_id));
        assert(conversation(after, chat_id) =~= conversation(mid, chat_id).push(turns[n]));
        assert(turns =~= turns.drop_last().push(turns[n]));
        assert(conversation(before, chat_id) + turns =~= (conversation(before, chat_id) + turns.drop_last()).push(turns[n]));
    }
}

/// Whether a turn is the user's.
pub open spec fn is_user_turn() -> spec_fn(CompletionModel) -> bool {
    |t: CompletionModel| t.role == role_text(Role::User)
}

/// One exchange holds exactly one user turn.
proof fn lemma_exchange_user_turns(content: Seq<char>, answer: Option<Seq<char>>)
    ensures
        exchange(content, answer).filter(is_user_turn()) == seq![user_turn(content)],
{
    reveal(Seq::filter);
    lemma_roles_differ();
    let e = exchange(content, answer);
    let one = seq![user_turn(content)];
    assert(one.drop_last() =~= Seq::<CompletionModel>::empty());
    assert(Seq::<CompletionModel>::empty().filter(is_user_turn()) =~= Seq::<CompletionModel>::empty());
    assert(one.filter(is_user_turn()) =~= one);
    if answer is Some {
        assert(e.drop_last() =~= one);
        assert(!is_user_turn()(e.last()));
    } else {
        assert(e =~= one);
    }
}

/// Two text requests on one chat, the second after the first has finished,
/// add exactly two user messages and at most two assistant answers, in the
/// order user, answer, user, answer.
pub proof fn lemma_serial_requests(
    s0: Seq<MessageModel>,
    s1: Seq<MessageModel>,
    s2: Seq<MessageModel>,
    chat_id: i32,
    first: Seq<char>,
    first_answer: Option<Seq<char>>,
    second: Seq<char>,
    second_answer: Option<Seq<char>>,
)
    requires
        appended_turns(s0, s1, chat_id, exchange(first, first_answer)),
        appended_turns(s1, s2, chat_id, exchange(second, second_answer)),
    ensures
        conversation(s2, chat_id) == conversation(s0, chat_id) + exchange(first, first_answer)
            + exchange(second, second_answer),
        (exchange(first, first_answer) + exchange(second, second_answer)).filter(is_user_turn())
            == seq![user_turn(first), user_turn(second)],
        (exchange(first, first_answer) + exchange(second, second_answer)).len() <= 4,
{
    lemma_conversation_appended(s0, s1, chat_id, exchange(first, first_answer));
    lemma_conversation_appended(s1, s2, chat_id, exchange(second, second_answer));
    assert(conversation(s0, chat_id) + exchange(first, first_answer) + exchange(second, second_answer)
        =~= conversation(s0, chat_id) + exchange(first, first_answer) + exchange(second, second_answer));
    lemma_exchange_user_turns(first, first_answer);
    lemma_exchange_user_turns(second, second_answer);
    Seq::filter_distributes_over_add(
        exchange(first, first_answer),
        exchange(second, second_answer),
        is_user_turn(),
    );
    assert(seq![user_turn(first)] + seq![user_turn(second)] =~= seq![user_turn(first), user_turn(second)]);
}

/// A text request whose upstream body lacks the generated content fails
/// with `MalformedUpstreamResponse` and stores no assistant message: only
/// the user message is added.
pub proof fn lemma_malformed_reply_stores_no_answer(
    before: Seq<MessageModel>,
    after: Seq<MessageModel>,
    chat_id: i32,
    content: Seq<char>,
    body: String,
    items: Option<Seq<Option<String>>>,
    room: bool,
    r: Result<String, SessionError>,
)
    requires
        generated_content(items) is None,
        answer_result(DispatchOutcome::Success(body), items, room, StoreError::BackendFailure, r),
        appended_turns(before, after, chat_id, exchange(content, stored_answer(items, r))),
    ensures
        r == Err::<String, SessionError>(SessionError::MalformedUpstreamResponse),
        after.len() == before.len() + 1,
        after.last().role == Role::User,
        forall|k: int| 0 <= k < before.len() ==> after[k] == before[k],
{
    assert(exchange(content, None)[0] == completion_of(after[before.len() as int]));
    lemma_roles_differ();
    assert forall|k: int| 0 <= k < before.len() implies after[k] == before[k] by {
        assert(after.subrange(0, before.len() as int)[k] == after[k]);
    }
}

/// After a chat is deleted, reading its messages or images yields nothing.
pub proof fn lemma_deleted_chat_is_empty(m: StoreModel, chat_id: i32)
    ensures
        without_chat(m, chat_id).messages.filter(message_in(chat_id)).len() == 0,
        without_chat(m, chat_id).images.filter(image_in(chat_id)).len() == 0,
        !chat_exists(without_chat(m, chat_id).chats, chat_id),
{
    lemma_filter_exclusive(m.messages, crate::store::message_outside(chat_id), message_in(chat_id));
    lemma_filter_exclusive(m.images, crate::store::image_outside(chat_id), image_in(chat_id));
    let cs = m.chats.filter(crate::store::chat_other_than(chat_id));
    crate::store::lemma_filter_members(m.chats, crate::store::chat_other_than(chat_id));
    if chat_exists(cs, chat_id) {
        let k = choose|k: int| 0 <= k < cs.len() && #[trigger] cs[k].chat_id == chat_id;
        assert(crate::store::chat_other_than(chat_id)(cs[k]));
    }
}

/// A chat read back after a rename carries the new name.
pub proof fn lemma_rename_read_back(chats: Seq<ChatModel>, chat_id: i32, name: Seq<char>, read: ChatModel)
    requires
        renamed(chats, chat_id, name).contains(read),
        read.chat_id == chat_id,
    ensures
        read.chat_name == name,
{
    let k = choose|k: int| 0 <= k < renamed(chats, chat_id, name).len() && renamed(chats, chat_id, name)[k] == read;
    assert(renamed(chats, chat_id, name)[k] == (if chats[k].chat_id == chat_id {
        ChatModel { chat_name: name, ..chats[k] }
    } else {
        chats[k]
    }));
}

/// Storing one new message in a chat of `n` messages, with a budget of at
/// least `n + 1`, gives a context of `n + 1` pairs: the stored history in
/// order, the new message last.
pub proof fn lemma_context_after_new_message(
    stored: Seq<MessageModel>,
    m: MessageModel,
    budget: nat,
)
    requires
        budget >= stored.filter(message_in(m.chat_id)).len() + 1,
    ensures
        context_of(stored.push(m).filter(message_in(m.chat_id)), budget) == conversation(
            stored,
            m.chat_id,
        ).push(completion_of(m)),
        context_of(stored.push(m).filter(message_in(m.chat_id)), budget).len()
            == stored.filter(message_in(m.chat_id)).len() + 1,
{
    lemma_filter_push(stored, m, message_in(m.chat_id));
    lemma_context_with_new_message(stored.filter(message_in(m.chat_id)), m, budget);
}

} // verus!
