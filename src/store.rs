use vstd::prelude::*;

use crate::clock::now_micros;
use crate::model::{Chat, ChatModel, Image, ImageModel, Message, MessageModel, Role, StoreError};
use crate::ordering::{comes_before, history_ordered, id_rank, message_views};

verus! {

/// What a store holds: its rows in order of insertion, the next identity
/// of each table, and the latest timestamp it handed out.
pub ghost struct StoreModel {
    pub chats: Seq<ChatModel>,
    pub messages: Seq<MessageModel>,
    pub images: Seq<ImageModel>,
    pub next_chat_id: i32,
    pub next_message_id: i32,
    pub next_image_id: i32,
    pub last_stamp: i64,
}

pub open spec fn chat_views(s: Seq<Chat>) -> Seq<ChatModel> {
    s.map_values(|c: Chat| c@)
}

pub open spec fn image_views(s: Seq<Image>) -> Seq<ImageModel> {
    s.map_values(|i: Image| i@)
}

pub open spec fn chat_exists(chats: Seq<ChatModel>, chat_id: i32) -> bool {
    exists|k: int| 0 <= k < chats.len() && #[trigger] chats[k].chat_id == chat_id
}

pub open spec fn owned_by(owner: i32) -> spec_fn(ChatModel) -> bool {
    |c: ChatModel| c.app_user == owner
}

pub open spec fn chat_other_than(chat_id: i32) -> spec_fn(ChatModel) -> bool {
    |c: ChatModel| c.chat_id != chat_id
}

pub open spec fn message_in(chat_id: i32) -> spec_fn(MessageModel) -> bool {
    |m: MessageModel| m.chat_id == chat_id
}

pub open spec fn message_outside(chat_id: i32) -> spec_fn(MessageModel) -> bool {
    |m: MessageModel| m.chat_id != chat_id
}

pub open spec fn image_in(chat_id: i32) -> spec_fn(ImageModel) -> bool {
    |i: ImageModel| i.chat_id == chat_id
}

pub open spec fn image_outside(chat_id: i32) -> spec_fn(ImageModel) -> bool {
    |i: ImageModel| i.chat_id != chat_id
}

/// Name a chat has when it is created.
pub open spec fn default_chat_name() -> Seq<char> {
    "New chat"@
}

/// The chats with the one whose identity is `chat_id` renamed.
pub open spec fn renamed(chats: Seq<ChatModel>, chat_id: i32, name: Seq<char>) -> Seq<ChatModel> {
    chats.map_values(
        |c: ChatModel|
            if c.chat_id == chat_id {
                ChatModel { chat_name: name, ..c }
            } else {
                c
            },
    )
}

/// The store's invariant: identities ascend in order of insertion and stay
/// below the next identity of their table; message timestamps never go back
/// and stay at or below the latest one handed out; every message and image
/// belongs to a chat that exists.
pub open spec fn store_valid(m: StoreModel) -> bool {
    &&& 1 <= m.next_chat_id && 1 <= m.next_message_id && 1 <= m.next_image_id
    &&& forall|i: int, j: int|
        0 <= i < j < m.chats.len() ==> #[trigger] m.chats[i].chat_id < #[trigger] m.chats[j].chat_id
    &&& forall|i: int| 0 <= i < m.chats.len() ==> #[trigger] m.chats[i].chat_id < m.next_chat_id
    &&& forall|i: int, j: int|
        0 <= i < j < m.messages.len() ==> messages_ascend(#[trigger] m.messages[i], #[trigger] m.messages[j])
    &&& forall|i: int|
        0 <= i < m.messages.len() ==> {
            &&& (#[trigger] m.messages[i]).id is Some
            &&& id_rank(m.messages[i].id) < m.next_message_id
            &&& m.messages[i].created_on <= m.last_stamp
            &&& chat_exists(m.chats, m.messages[i].chat_id)
        }
    &&& forall|i: int, j: int|
        0 <= i < j < m.images.len() ==> #[trigger] m.images[i].id < #[trigger] m.images[j].id
    &&& forall|i: int|
        0 <= i < m.images.len() ==> {
            &&& (#[trigger] m.images[i]).id < m.next_image_id
            &&& chat_exists(m.chats, m.images[i].chat_id)
        }
}

pub open spec fn messages_ascend(a: MessageModel, b: MessageModel) -> bool {
    id_rank(a.id) < id_rank(b.id) && a.created_on <= b.created_on
}

/// Every element of a filtered sequence is an element of the unfiltered one that
/// the predicate accepts.
pub proof fn lemma_filter_members<A>(s: Seq<A>, p: spec_fn(A) -> bool)
    ensures
        forall|i: int|
            0 <= i < s.filter(p).len() ==> s.contains(#[trigger] s.filter(p)[i]) && p(
                s.filter(p)[i],
            ),
    decreases s.len(),
{
    reveal(Seq::filter);
    if s.len() > 0 {
        lemma_filter_members(s.drop_last(), p);
        let f = s.filter(p);
        let g = s.drop_last().filter(p);
        assert forall|i: int| 0 <= i < f.len() implies s.contains(#[trigger] f[i]) && p(f[i]) by {
            if i < g.len() {
                assert(f[i] == g[i]);
                let k = choose|k: int| 0 <= k < s.drop_last().len() && s.drop_last()[k] == g[i];
                assert(s[k] == f[i]);
            } else {
                assert(f[i] == s.last());
                assert(s[s.len() - 1] == f[i]);
            }
        }
    }
}

/// A relation that holds between every element and each later one still
/// holds so after filtering.
pub proof fn lemma_filter_pairwise<A>(s: Seq<A>, p: spec_fn(A) -> bool, rel: spec_fn(A, A) -> bool)
    requires
        forall|i: int, j: int| 0 <= i < j < s.len() ==> rel(#[trigger] s[i], #[trigger] s[j]),
    ensures
        forall|i: int, j: int|
            0 <= i < j < s.filter(p).len() ==> rel(#[trigger] s.filter(p)[i], #[trigger] s.filter(p)[j]),
    decreases s.len(),
{
    reveal(Seq::filter);
    if s.len() > 0 {
        let d = s.drop_last();
        assert forall|i: int, j: int| 0 <= i < j < d.len() implies rel(#[trigger] d[i], #[trigger] d[j]) by {
            assert(d[i] == s[i] && d[j] == s[j]);
        }
        lemma_filter_pairwise(d, p, rel);
        lemma_filter_members(d, p);
        let f = s.filter(p);
        let g = d.filter(p);
        assert forall|i: int, j: int| 0 <= i < j < f.len() implies rel(#[trigger] f[i], #[trigger] f[j]) by {
            if j < g.len() {
                assert(f[i] == g[i] && f[j] == g[j]);
            } else {
                assert(f[i] == g[i]);
                assert(d.contains(g[i]));
                let k = choose|k: int| 0 <= k < d.len() && d[k] == g[i];
                assert(s[k] == f[i]);
                assert(f[j] == s[s.len() - 1]);
            }
        }
    }
}

/// Filtering by two predicates that no element meets together leaves nothing.
pub proof fn lemma_filter_exclusive<A>(s: Seq<A>, p: spec_fn(A) -> bool, q: spec_fn(A) -> bool)
    requires
        forall|x: A| !(#[trigger] p(x) && q(x)),
    ensures
        s.filter(p).filter(q).len() == 0,
{
    lemma_filter_members(s.filter(p), q);
    lemma_filter_members(s, p);
    if s.filter(p).filter(q).len() > 0 {
        let x = s.filter(p).filter(q)[0];
        assert(s.filter(p).contains(x));
        assert(q(x));
        let k = choose|k: int| 0 <= k < s.filter(p).len() && s.filter(p)[k] == x;
        assert(p(x));
    }
}

/// Filtering after appending one element.
pub proof fn lemma_filter_push<A>(s: Seq<A>, x: A, p: spec_fn(A) -> bool)
    ensures
        s.push(x).filter(p) == (if p(x) {
            s.filter(p).push(x)
        } else {
            s.filter(p)
        }),
{
    reveal(Seq::filter);
    assert(s.push(x).drop_last() =~= s);
}

/// The persistence gateway over Chat, Message and Image rows held in this
/// value. Each operation is atomic; a chat's messages are only ever
/// appended to; deleting a chat deletes its messages and images. Stores
/// share nothing, so a store is never a process-wide cache: a server keeps
/// its rows in a database (see `gateway`) and runs each request through a
/// `Session`.
pub struct Store {
    chats: Vec<Chat>,
    messages: Vec<Message>,
    images: Vec<Image>,
    next_chat_id: i32,
    next_message_id: i32,
    next_image_id: i32,
    last_stamp: i64,
}

impl View for Store {
    type V = StoreModel;

    closed spec fn view(&self) -> StoreModel {
        StoreModel {
            chats: chat_views(self.chats@),
            messages: message_views(self.messages@),
            images: image_views(self.images@),
            next_chat_id: self.next_chat_id,
            next_message_id: self.next_message_id,
            next_image_id: self.next_image_id,
            last_stamp: self.last_stamp,
        }
    }
}

impl Store {
    pub open spec fn wf(&self) -> bool {
        store_valid(self@)
    }

    /// An empty store.
    pub fn new() -> (r: Store)
        ensures
            r.wf(),
            r@.chats.len() == 0,
            r@.messages.len() == 0,
            r@.images.len() == 0,
            r@.next_chat_id == 1,
            r@.next_message_id == 1,
            r@.next_image_id == 1,
    {
        let r = Store {
            chats: Vec::new(),
            messages: Vec::new(),
            images: Vec::new(),
            next_chat_id: 1,
            next_message_id: 1,
            next_image_id: 1,
            last_stamp: i64::MIN,
        };
        assert(r@.chats =~= Seq::<ChatModel>::empty());
        assert(r@.messages =~= Seq::<MessageModel>::empty());
        assert(r@.images =~= Seq::<ImageModel>::empty());
        r
    }

    /// A timestamp no earlier than any handed out before.
    fn stamp(&mut self) -> (r: i64)
        ensures
            final(self)@ == (StoreModel { last_stamp: r, ..old(self)@ }),
            old(self)@.last_stamp <= r,
    {
        let now = now_micros();
        if now > self.last_stamp {
            self.last_stamp = now;
        }
        self.last_stamp
    }

    fn find_chat(&self, chat_id: i32) -> (r: Option<usize>)
        ensures
            r matches Some(k) ==> k < self@.chats.len() && self@.chats[k as int].chat_id == chat_id,
            r is None ==> !chat_exists(self@.chats, chat_id),
    {
        let mut k: usize = 0;
        while k < self.chats.len()
            invariant
                k <= self.chats.len(),
                forall|j: int| 0 <= j < k ==> #[trigger] self@.chats[j].chat_id != chat_id,
            decreases self.chats.len() - k,
        {
            assert(self@.chats[k as int] == self.chats@[k as int]@);
            if self.chats[k].chat_id == chat_id {
                return Some(k);
            }
            k = k + 1;
        }
        None
    }

    /// Creates a chat for a user, named `New chat`. Fails with
    /// `BackendFailure` once chat identities are exhausted.
    pub fn create_chat(&mut self, owner: i32) -> (r: Result<Chat, StoreError>)
        requires
            old(self).wf(),
        ensures
            final(self).wf(),
            old(self)@.next_chat_id < i32::MAX <==> r is Ok,
            r is Err ==> r == Err::<Chat, StoreError>(StoreError::BackendFailure) && final(self)@
                == old(self)@,
            r matches Ok(c) ==> {
                &&& c@.chat_id == old(self)@.next_chat_id
                &&& c@.app_user == owner
                &&& c@.chat_name == default_chat_name()
                &&& old(self)@.last_stamp <= c@.created_on
                &&& final(self)@ == (StoreModel {
                    chats: old(self)@.chats.push(c@),
                    next_chat_id: (old(self)@.next_chat_id + 1) as i32,
                    last_stamp: c@.created_on,
                    ..old(self)@
                })
            },
    {
        if self.next_chat_id == i32::MAX {
            return Err(StoreError::BackendFailure);
        }
        let created_on = self.stamp();
        let chat = Chat {
            chat_id: self.next_chat_id,
            app_user: owner,
            created_on,
            chat_name: String::from_str("New chat"),
        };
        let ghost before = self.chats@;
        self.chats.push(chat.clone());
        self.next_chat_id = self.next_chat_id + 1;
        proof {
            assert(chat_views(self.chats@) =~= chat_views(before).push(chat@));
            let m = self@;
            assert forall|i: int| 0 <= i < m.messages.len() implies chat_exists(
                m.chats,
                (#[trigger] m.messages[i]).chat_id,
            ) by {
                let k = choose|k: int| 0 <= k < old(self)@.chats.len() && #[trigger] old(self)@.chats[k].chat_id == m.messages[i].chat_id;
                assert(m.chats[k] == old(self)@.chats[k]);
            }
            assert forall|i: int| 0 <= i < m.images.len() implies chat_exists(
                m.chats,
                (#[trigger] m.images[i]).chat_id,
            ) by {
                let k = choose|k: int| 0 <= k < old(self)@.chats.len() && #[trigger] old(self)@.chats[k].chat_id == m.images[i].chat_id;
                assert(m.chats[k] == old(self)@.chats[k]);
            }
        }
        Ok(chat)
    }

    /// The chats of a user, in order of creation.
    pub fn get_chats(&self, owner: i32) -> (r: Vec<Chat>)
        ensures
            chat_views(r@) == self@.chats.filter(owned_by(owner)),
    {
        let ghost s = self@.chats;
        let mut r: Vec<Chat> = Vec::new();
        let mut i: usize = 0;
        while i < self.chats.len()
            invariant
                i <= self.chats.len(),
                s == chat_views(self.chats@),
                chat_views(r@) == s.subrange(0, i as int).filter(owned_by(owner)),
            decreases self.chats.len() - i,
        {
            let ghost before = r@;
            if self.chats[i].app_user == owner {
                r.push(self.chats[i].clone());
                assert(chat_views(r@) =~= chat_views(before).push(s[i as int]));
            }
            proof {
                assert(s.subrange(0, i + 1) =~= s.subrange(0, i as int).push(s[i as int]));
                lemma_filter_push(s.subrange(0, i as int), s[i as int], owned_by(owner));
            }
            i = i + 1;
        }
        assert(s.subrange(0, s.len() as int) =~= s);
        r
    }

    /// The chat whose identity is `chat_id`.
    pub fn get_chat(&self, chat_id: i32) -> (r: Result<Chat, StoreError>)
        requires
            self.wf(),
        ensures
            r is Ok <==> chat_exists(self@.chats, chat_id),
            r is Err ==> r == Err::<Chat, StoreError>(StoreError::NotFound),
            r matches Ok(c) ==> self@.chats.contains(c@) && c@.chat_id == chat_id,
    {
        match self.find_chat(chat_id) {
            Some(k) => {
                let c = self.chats[k].clone();
                assert(self@.chats[k as int] == c@);
                Ok(c)
            },
            None => Err(StoreError::NotFound),
        }
    }

    /// Renames a chat; fails with `NotFound`, changing nothing, where no
    /// chat has that identity.
    pub fn update_chat_name(&mut self, chat_id: i32, new_name: String) -> (r: Result<(), StoreError>)
        requires
            old(self).wf(),
        ensures
            final(self).wf(),
            r is Ok <==> chat_exists(old(self)@.chats, chat_id),
            r is Err ==> r == Err::<(), StoreError>(StoreError::NotFound) && final(self)@ == old(self)@,
            r is Ok ==> final(self)@ == (StoreModel {
                chats: renamed(old(self)@.chats, chat_id, new_name@),
                ..old(self)@
            }),
    {
        match self.find_chat(chat_id) {
            None => Err(StoreError::NotFound),
            Some(k) => {
                let old_chat = self.chats[k].clone();
                let chat = Chat {
                    chat_id: old_chat.chat_id,
                    app_user: old_chat.app_user,
                    created_on: old_chat.created_on,
                    chat_name: new_name,
                };
                let ghost before = old(self)@;
                self.chats.set(k, chat);
                proof {
                    let m = self@;
                    assert(m.chats =~= renamed(before.chats, chat_id, new_name@)) by {
                        assert forall|i: int| 0 <= i < m.chats.len() implies m.chats[i] == renamed(
                            before.chats,
                            chat_id,
                            new_name@,
                        )[i] by {
                            if i != k {
                                assert(self.chats@[i] == old(self).chats@[i]);
                                if i < k {
                                    assert(before.chats[i].chat_id < before.chats[k as int].chat_id);
                                } else {
                                    assert(before.chats[k as int].chat_id < before.chats[i].chat_id);
                                }
                            }
                        }
                    }
                    assert forall|i: int| 0 <= i < m.messages.len() implies chat_exists(
                        m.chats,
                        (#[trigger] m.messages[i]).chat_id,
                    ) by {
                        let j = choose|j: int| 0 <= j < before.chats.len() && #[trigger] before.chats[j].chat_id == m.messages[i].chat_id;
                        assert(m.chats[j].chat_id == before.chats[j].chat_id);
                    }
                    assert forall|i: int| 0 <= i < m.images.len() implies chat_exists(
                        m.chats,
                        (#[trigger] m.images[i]).chat_id,
                    ) by {
                        let j = choose|j: int| 0 <= j < before.chats.len() && #[trigger] before.chats[j].chat_id == m.images[i].chat_id;
                        assert(m.chats[j].chat_id == before.chats[j].chat_id);
                    }
                    assert forall|i: int, j: int| 0 <= i < j < m.chats.len() implies #[trigger] m.chats[i].chat_id
                        < #[trigger] m.chats[j].chat_id by {
                        assert(m.chats[i].chat_id == before.chats[i].chat_id);
                        assert(m.chats[j].chat_id == before.chats[j].chat_id);
                    }
                    assert forall|i: int| 0 <= i < m.chats.len() implies #[trigger] m.chats[i].chat_id
                        < m.next_chat_id by {
                        assert(m.chats[i].chat_id == before.chats[i].chat_id);
                    }
                }
                Ok(())
            },
        }
    }

    /// Deletes a chat with all its messages and images; fails with
    /// `NotFound`, changing nothing, where no chat has that identity.
    pub fn delete_chat(&mut self, chat_id: i32) -> (r: Result<(), StoreError>)
        requires
            old(self).wf(),
        ensures
            final(self).wf(),
            r is Ok <==> chat_exists(old(self)@.chats, chat_id),
            r is Err ==> r == Err::<(), StoreError>(StoreError::NotFound) && final(self)@ == old(self)@,
            r is Ok ==> final(self)@ == without_chat(old(self)@, chat_id),
    {
        if self.find_chat(chat_id).is_none() {
            return Err(StoreError::NotFound);
        }
        let chats = chats_without(&self.chats, chat_id);
        let messages = messages_without(&self.messages, chat_id);
        let images = images_without(&self.images, chat_id);
        self.chats = chats;
        self.messages = messages;
        self.images = images;
        proof {
            lemma_delete_keeps_valid(old(self)@, chat_id);
            assert(self@ == without_chat(old(self)@, chat_id));
        }
        Ok(())
    }

    /// Appends a message to a chat. Fails with `ConstraintViolation` where
    /// the chat does not exist, and with `BackendFailure` once message
    /// identities are exhausted; either way nothing changes.
    pub fn add_message(&mut self, chat_id: i32, role: Role, content: String) -> (r: Result<
        Message,
        StoreError,
    >)
        requires
            old(self).wf(),
        ensures
            final(self).wf(),
            !chat_exists(old(self)@.chats, chat_id) ==> r == Err::<Message, StoreError>(
                StoreError::ConstraintViolation,
            ) && final(self)@ == old(self)@,
            chat_exists(old(self)@.chats, chat_id) && old(self)@.next_message_id == i32::MAX ==> r
                == Err::<Message, StoreError>(StoreError::BackendFailure) && final(self)@ == old(
                self,
            )@,
            chat_exists(old(self)@.chats, chat_id) && old(self)@.next_message_id < i32::MAX ==> r is Ok,
            r matches Ok(m) ==> {
                &&& m@ == (MessageModel {
                    id: Some(old(self)@.next_message_id),
                    created_on: m@.created_on,
                    role: role,
                    content: content@,
                    chat_id: chat_id,
                })
                &&& old(self)@.last_stamp <= m@.created_on
                &&& final(self)@ == (StoreModel {
                    messages: old(self)@.messages.push(m@),
                    next_message_id: (old(self)@.next_message_id + 1) as i32,
                    last_stamp: m@.created_on,
                    ..old(self)@
                })
            },
    {
        if self.find_chat(chat_id).is_none() {
            return Err(StoreError::ConstraintViolation);
        }
        if self.next_message_id == i32::MAX {
            return Err(StoreError::BackendFailure);
        }
        let created_on = self.stamp();
        let message = Message {
            id: Some(self.next_message_id),
            created_on,
            role,
            content,
            chat_id_relation: chat_id,
        };
        let ghost before = self.messages@;
        self.messages.push(message.clone());
        self.next_message_id = self.next_message_id + 1;
        proof {
            assert(message_views(self.messages@) =~= message_views(before).push(message@));
        }
        Ok(message)
    }

    /// The messages of a chat in history order: non-decreasing timestamps,
    /// ties broken by ascending identity. Empty where the chat does not exist.
    pub fn get_messages_by_chat_id(&self, chat_id: i32) -> (r: Vec<Message>)
        requires
            self.wf(),
        ensures
            message_views(r@) == self@.messages.filter(message_in(chat_id)),
            history_ordered(message_views(r@)),
    {
        let ghost s = self@.messages;
        let mut r: Vec<Message> = Vec::new();
        let mut i: usize = 0;
        while i < self.messages.len()
            invariant
                i <= self.messages.len(),
                s == message_views(self.messages@),
                message_views(r@) == s.subrange(0, i as int).filter(message_in(chat_id)),
            decreases self.messages.len() - i,
        {
            let ghost before = r@;
            if self.messages[i].chat_id_relation == chat_id {
                r.push(self.messages[i].clone());
                assert(message_views(r@) =~= message_views(before).push(s[i as int]));
            }
            proof {
                assert(s.subrange(0, i + 1) =~= s.subrange(0, i as int).push(s[i as int]));
                lemma_filter_push(s.subrange(0, i as int), s[i as int], message_in(chat_id));
            }
            i = i + 1;
        }
        proof {
            assert(s.subrange(0, s.len() as int) =~= s);
            lemma_stored_messages_ordered(self@);
            lemma_filter_pairwise(s, message_in(chat_id), |a: MessageModel, b: MessageModel| comes_before(a, b));
        }
        r
    }

    /// The messages of a chat in history order; fails with `NotFound` where
    /// the chat does not exist.
    pub fn get_messages(&self, chat_id: i32) -> (r: Result<Vec<Message>, StoreError>)
        requires
            self.wf(),
        ensures
            r is Ok <==> chat_exists(self@.chats, chat_id),
            r is Err ==> r == Err::<Vec<Message>, StoreError>(StoreError::NotFound),
            r matches Ok(v) ==> message_views(v@) == self@.messages.filter(message_in(chat_id))
                && history_ordered(message_views(v@)),
    {
        if self.find_chat(chat_id).is_none() {
            return Err(StoreError::NotFound);
        }
        Ok(self.get_messages_by_chat_id(chat_id))
    }

    /// Records a generated image for a chat. Fails with
    /// `ConstraintViolation` where the chat does not exist, and with
    /// `BackendFailure` once image identities are exhausted; either way
    /// nothing changes.
    pub fn save_generated_image(&mut self, chat_id: i32, url: String) -> (r: Result<Image, StoreError>)
        requires
            old(self).wf(),
        ensures
            final(self).wf(),
            !chat_exists(old(self)@.chats, chat_id) ==> r == Err::<Image, StoreError>(
                StoreError::ConstraintViolation,
            ) && final(self)@ == old(self)@,
            chat_exists(old(self)@.chats, chat_id) && old(self)@.next_image_id == i32::MAX ==> r
                == Err::<Image, StoreError>(StoreError::BackendFailure) && final(self)@ == old(
                self,
            )@,
            chat_exists(old(self)@.chats, chat_id) && old(self)@.next_image_id < i32::MAX ==> r is Ok,
            r matches Ok(img) ==> {
                &&& img@ == (ImageModel {
                    id: old(self)@.next_image_id,
                    chat_id: chat_id,
                    url: url@,
                    created_on: img@.created_on,
                })
                &&& old(self)@.last_stamp <= img@.created_on
                &&& final(self)@ == (StoreModel {
                    images: old(self)@.images.push(img@),
                    next_image_id: (old(self)@.next_image_id + 1) as i32,
                    last_stamp: img@.created_on,
                    ..old(self)@
                })
            },
    {
        if self.find_chat(chat_id).is_none() {
            return Err(StoreError::ConstraintViolation);
        }
        if self.next_image_id == i32::MAX {
            return Err(StoreError::BackendFailure);
        }
        let created_on = self.stamp();
        let image = Image { id: self.next_image_id, chat_id, url, created_on };
        let ghost before = self.images@;
        self.images.push(image.clone());
        self.next_image_id = self.next_image_id + 1;
        proof {
            assert(image_views(self.images@) =~= image_views(before).push(image@));
        }
        Ok(image)
    }

    /// The images of a chat in order of creation. Empty where the chat does
    /// not exist.
    pub fn get_images_by_chat_id(&self, chat_id: i32) -> (r: Vec<Image>)
        ensures
            image_views(r@) == self@.images.filter(image_in(chat_id)),
    {
        let ghost s = self@.images;
        let mut r: Vec<Image> = Vec::new();
        let mut i: usize = 0;
        while i < self.images.len()
            invariant
                i <= self.images.len(),
                s == image_views(self.images@),
                image_views(r@) == s.subrange(0, i as int).filter(image_in(chat_id)),
            decreases self.images.len() - i,
        {
            let ghost before = r@;
            if self.images[i].chat_id == chat_id {
                r.push(self.images[i].clone());
                assert(image_views(r@) =~= image_views(before).push(s[i as int]));
            }
            proof {
                assert(s.subrange(0, i + 1) =~= s.subrange(0, i as int).push(s[i as int]));
                lemma_filter_push(s.subrange(0, i as int), s[i as int], image_in(chat_id));
            }
            i = i + 1;
        }
        assert(s.subrange(0, s.len() as int) =~= s);
        r
    }
}

/// A store after deleting a chat: the chat, its messages and its images
/// are gone; everything else stays.
pub open spec fn without_chat(m: StoreModel, chat_id: i32) -> StoreModel {
    StoreModel {
        chats: m.chats.filter(chat_other_than(chat_id)),
        messages: m.messages.filter(message_outside(chat_id)),
        images: m.images.filter(image_outside(chat_id)),
        ..m
    }
}

fn chats_without(v: &Vec<Chat>, chat_id: i32) -> (r: Vec<Chat>)
    ensures
        chat_views(r@) == chat_views(v@).filter(chat_other_than(chat_id)),
{
    let ghost s = chat_views(v@);
    let mut r: Vec<Chat> = Vec::new();
    let mut i: usize = 0;
    while i < v.len()
        invariant
            i <= v.len(),
            s == chat_views(v@),
            chat_views(r@) == s.subrange(0, i as int).filter(chat_other_than(chat_id)),
        decreases v.len() - i,
    {
        let ghost before = r@;
        if v[i].chat_id != chat_id {
            r.push(v[i].clone());
            assert(chat_views(r@) =~= chat_views(before).push(s[i as int]));
        }
        proof {
            assert(s.subrange(0, i + 1) =~= s.subrange(0, i as int).push(s[i as int]));
            lemma_filter_push(s.subrange(0, i as int), s[i as int], chat_other_than(chat_id));
        }
        i = i + 1;
    }
    assert(s.subrange(0, s.len() as int) =~= s);
    r
}

fn messages_without(v: &Vec<Message>, chat_id: i32) -> (r: Vec<Message>)
    ensures
        message_views(r@) == message_views(v@).filter(message_outside(chat_id)),
{
    let ghost s = message_views(v@);
    let mut r: Vec<Message> = Vec::new();
    let mut i: usize = 0;
    while i < v.len()
        invariant
            i <= v.len(),
            s == message_views(v@),
            message_views(r@) == s.subrange(0, i as int).filter(message_outside(chat_id)),
        decreases v.len() - i,
    {
        let ghost before = r@;
        if v[i].chat_id_relation != chat_id {
            r.push(v[i].clone());
            assert(message_views(r@) =~= message_views(before).push(s[i as int]));
        }
        proof {
            assert(s.subrange(0, i + 1) =~= s.subrange(0, i as int).push(s[i as int]));
            lemma_filter_push(s.subrange(0, i as int), s[i as int], message_outside(chat_id));
        }
        i = i + 1;
    }
    assert(s.subrange(0, s.len() as int) =~= s);
    r
}

fn images_without(v: &Vec<Image>, chat_id: i32) -> (r: Vec<Image>)
    ensures
        image_views(r@) == image_views(v@).filter(image_outside(chat_id)),
{
    let ghost s = image_views(v@);
    let mut r: Vec<Image> = Vec::new();
    let mut i: usize = 0;
    while i < v.len()
        invariant
            i <= v.len(),
            s == image_views(v@),
            image_views(r@) == s.subrange(0, i as int).filter(image_outside(chat_id)),
        decreases v.len() - i,
    {
        let ghost before = r@;
        if v[i].chat_id != chat_id {
            r.push(v[i].clone());
            assert(image_views(r@) =~= image_views(before).push(s[i as int]));
        }
        proof {
            assert(s.subrange(0, i + 1) =~= s.subrange(0, i as int).push(s[i as int]));
            lemma_filter_push(s.subrange(0, i as int), s[i as int], image_outside(chat_id));
        }
        i = i + 1;
    }
    assert(s.subrange(0, s.len() as int) =~= s);
    r
}

/// A chat that survives a deletion is still there afterwards.
proof fn lemma_surviving_chat(chats: Seq<ChatModel>, deleted: i32, chat_id: i32)
    requires
        chat_exists(chats, chat_id),
        chat_id != deleted,
    ensures
        chat_exists(chats.filter(chat_other_than(deleted)), chat_id),
{
    let k = choose|k: int| 0 <= k < chats.len() && #[trigger] chats[k].chat_id == chat_id;
    chats.lemma_filter_contains(chat_other_than(deleted), k);
    let f = chats.filter(chat_other_than(deleted));
    let j = choose|j: int| 0 <= j < f.len() && f[j] == chats[k];
    assert(f[j].chat_id == chat_id);
}

proof fn lemma_delete_keeps_valid(m: StoreModel, chat_id: i32)
    requires
        store_valid(m),
    ensures
        store_valid(without_chat(m, chat_id)),
{
    let d = without_chat(m, chat_id);
    lemma_filter_pairwise(m.chats, chat_other_than(chat_id), |a: ChatModel, b: ChatModel| a.chat_id < b.chat_id);
    lemma_filter_pairwise(m.messages, message_outside(chat_id), |a: MessageModel, b: MessageModel| messages_ascend(a, b));
    lemma_filter_pairwise(m.images, image_outside(chat_id), |a: ImageModel, b: ImageModel| a.id < b.id);
    lemma_filter_members(m.chats, chat_other_than(chat_id));
    lemma_filter_members(m.messages, message_outside(chat_id));
    lemma_filter_members(m.images, image_outside(chat_id));
    assert forall|i: int| 0 <= i < d.chats.len() implies #[trigger] d.chats[i].chat_id < d.next_chat_id by {
        assert(m.chats.contains(d.chats[i]));
    }
    assert forall|i: int| 0 <= i < d.messages.len() implies {
        &&& (#[trigger] d.messages[i]).id is Some
        &&& id_rank(d.messages[i].id) < d.next_message_id
        &&& d.messages[i].created_on <= d.last_stamp
        &&& chat_exists(d.chats, d.messages[i].chat_id)
    } by {
        assert(m.messages.contains(d.messages[i]));
        lemma_surviving_chat(m.chats, chat_id, d.messages[i].chat_id);
    }
    assert forall|i: int| 0 <= i < d.images.len() implies {
        &&& (#[trigger] d.images[i]).id < d.next_image_id
        &&& chat_exists(d.chats, d.images[i].chat_id)
    } by {
        assert(m.images.contains(d.images[i]));
        lemma_surviving_chat(m.chats, chat_id, d.images[i].chat_id);
    }
}

/// The messages of a valid store stand in history order.
pub proof fn lemma_stored_messages_ordered(m: StoreModel)
    requires
        store_valid(m),
    ensures
        history_ordered(m.messages),
{
    assert forall|i: int, j: int| 0 <= i < j < m.messages.len() implies comes_before(
        #[trigger] m.messages[i],
        #[trigger] m.messages[j],
    ) by {
        assert(messages_ascend(m.messages[i], m.messages[j]));
    }
}

} // verus!
