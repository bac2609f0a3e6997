use vstd::prelude::*;

verus! {

/// Author of one turn in a chat.
#[derive(PartialEq, Eq, Structural, Clone, Copy, Debug)]
pub enum Role {
    User,
    Assistant,
}

/// The text stored for a role, and sent upstream.
pub open spec fn role_text(r: Role) -> Seq<char> {
    match r {
        Role::User => "user"@,
        Role::Assistant => "assistant"@,
    }
}

impl Role {
    pub fn as_text(&self) -> (r: String)
        ensures
            r@ == role_text(*self),
    {
        match self {
            Role::User => String::from_str("user"),
            Role::Assistant => String::from_str("assistant"),
        }
    }

    /// Reads a role back from its stored text.
    pub fn parse(s: &String) -> (r: Option<Role>)
        ensures
            r matches Some(role) ==> role_text(role) == s@,
            r is None ==> s@ != role_text(Role::User) && s@ != role_text(Role::Assistant),
    {
        let user = String::from_str("user");
        let assistant = String::from_str("assistant");
        if *s == user {
            Some(Role::User)
        } else if *s == assistant {
            Some(Role::Assistant)
        } else {
            None
        }
    }
}

/// One `{role, content}` pair of the conversation as the upstream service sees it.
#[derive(Debug)]
pub struct ChatCompletionMessage {
    pub role: String,
    pub content: String,
}

pub ghost struct CompletionModel {
    pub role: Seq<char>,
    pub content: Seq<char>,
}

impl View for ChatCompletionMessage {
    type V = CompletionModel;

    open spec fn view(&self) -> CompletionModel {
        CompletionModel { role: self.role@, content: self.content@ }
    }
}

impl Clone for ChatCompletionMessage {
    fn clone(&self) -> (r: Self)
        ensures
            r == *self,
    {
        ChatCompletionMessage { role: self.role.clone(), content: self.content.clone() }
    }
}

impl ChatCompletionMessage {
    pub fn new(role: String, content: String) -> (r: Self)
        ensures
            r.role == role,
            r.content == content,
    {
        ChatCompletionMessage { role, content }
    }
}

/// A conversation session owned by a user. `created_on` counts microseconds
/// since the Unix epoch.
#[derive(Debug)]
pub struct Chat {
    pub chat_id: i32,
    pub app_user: i32,
    pub created_on: i64,
    pub chat_name: String,
}

pub ghost struct ChatModel {
    pub chat_id: i32,
    pub app_user: i32,
    pub created_on: i64,
    pub chat_name: Seq<char>,
}

impl View for Chat {
    type V = ChatModel;

    open spec fn view(&self) -> ChatModel {
        ChatModel {
            chat_id: self.chat_id,
            app_user: self.app_user,
            created_on: self.created_on,
            chat_name: self.chat_name@,
        }
    }
}

impl Clone for Chat {
    fn clone(&self) -> (r: Self)
        ensures
            r == *self,
    {
        Chat {
            chat_id: self.chat_id,
            app_user: self.app_user,
            created_on: self.created_on,
            chat_name: self.chat_name.clone(),
        }
    }
}

/// One turn of a chat. `id` is absent before the message is stored.
#[derive(Debug)]
pub struct Message {
    pub id: Option<i32>,
    pub created_on: i64,
    pub role: Role,
    pub content: String,
    pub chat_id_relation: i32,
}

pub ghost struct MessageModel {
    pub id: Option<i32>,
    pub created_on: i64,
    pub role: Role,
    pub content: Seq<char>,
    pub chat_id: i32,
}

impl View for Message {
    type V = MessageModel;

    open spec fn view(&self) -> MessageModel {
        MessageModel {
            id: self.id,
            created_on: self.created_on,
            role: self.role,
            content: self.content@,
            chat_id: self.chat_id_relation,
        }
    }
}

impl Clone for Message {
    fn clone(&self) -> (r: Self)
        ensures
            r == *self,
    {
        Message {
            id: self.id,
            created_on: self.created_on,
            role: self.role,
            content: self.content.clone(),
            chat_id_relation: self.chat_id_relation,
        }
    }
}

/// An image produced by a successful generation call.
#[derive(Debug)]
pub struct Image {
    pub id: i32,
    pub chat_id: i32,
    pub url: String,
    pub created_on: i64,
}

pub ghost struct ImageModel {
    pub id: i32,
    pub chat_id: i32,
    pub url: Seq<char>,
    pub created_on: i64,
}

impl View for Image {
    type V = ImageModel;

    open spec fn view(&self) -> ImageModel {
        ImageModel { id: self.id, chat_id: self.chat_id, url: self.url@, created_on: self.created_on }
    }
}

impl Clone for Image {
    fn clone(&self) -> (r: Self)
        ensures
            r == *self,
    {
        Image {
            id: self.id,
            chat_id: self.chat_id,
            url: self.url.clone(),
            created_on: self.created_on,
        }
    }
}

/// A message row with its timestamp rendered as text, as a listing of the
/// `messages` table shows it.
#[derive(Debug)]
pub struct Messages {
    pub id: i32,
    pub created_on: String,
    pub role: String,
    pub content: String,
    pub chat_id_relation: i32,
}

/// A request to rename a chat.
#[derive(Debug)]
pub struct UpdateChatName {
    pub chat_id: i32,
    pub new_chat_name: String,
}

/// A request to generate images for a chat; absent options take the
/// service defaults of this library.
#[derive(Debug)]
pub struct ImageGenerationRequest {
    pub chat_id: i32,
    pub prompt: String,
    pub n: Option<u32>,
    pub size: Option<String>,
    pub response_format: Option<String>,
}

/// Size of the storage connection pool.
#[derive(Debug, Clone, Copy)]
pub struct DbPoolOptions {
    pub max_connections: u32,
}

/// Why the persistence gateway refused an operation.
#[derive(Debug, PartialEq, Eq, Structural, Clone, Copy)]
pub enum StoreError {
    /// A referenced chat does not exist.
    NotFound,
    /// A foreign-key or uniqueness rule of the storage was broken.
    ConstraintViolation,
    /// The storage could not serve the operation.
    BackendFailure,
}

} // verus!
