use hjowdy::chat_history::ChatHistory;
use hjowdy::context::assemble_context;
use hjowdy::dispatch::DispatchOutcome;
use hjowdy::ingest::{DecodedReply, SessionError};
use hjowdy::model::{ChatCompletionMessage, Role, StoreError};
use hjowdy::store::Store;

fn reply_with(content: &str) -> Option<DecodedReply> {
    Some(DecodedReply { items: vec![Some(content.to_string())] })
}

fn success_body(content: &str) -> String {
    format!(
        "{{\"choices\":[{{\"message\":{{\"role\":\"assistant\",\"content\":\"{}\"}}}}]}}",
        content
    )
}

fn turns(store: &Store, chat_id: i32) -> Vec<(Role, String)> {
    store
        .get_messages_by_chat_id(chat_id)
        .into_iter()
        .map(|m| (m.role, m.content))
        .collect()
}

#[test]
fn scenario_hi_hello() {
    let mut store = Store::new();
    let chat = store.create_chat(42).unwrap();
    assert_eq!(chat.app_user, 42);
    let body = success_body("hello");
    let r = store.post_chat_message(
        chat.chat_id,
        "hi".to_string(),
        50,
        DispatchOutcome::Success(body.clone()),
        reply_with("hello"),
    );
    assert_eq!(r.unwrap(), body);
    assert_eq!(
        turns(&store, chat.chat_id),
        vec![(Role::User, "hi".to_string()), (Role::Assistant, "hello".to_string())]
    );
}

#[test]
fn two_serial_posts_keep_their_order() {
    let mut store = Store::new();
    let chat = store.create_chat(1).unwrap();
    store
        .post_chat_message(chat.chat_id, "first".to_string(), 50, DispatchOutcome::Success("b1".to_string()), reply_with("one"))
        .unwrap();
    store
        .post_chat_message(chat.chat_id, "second".to_string(), 50, DispatchOutcome::Success("b2".to_string()), reply_with("two"))
        .unwrap();
    assert_eq!(
        turns(&store, chat.chat_id),
        vec![
            (Role::User, "first".to_string()),
            (Role::Assistant, "one".to_string()),
            (Role::User, "second".to_string()),
            (Role::Assistant, "two".to_string()),
        ]
    );
}

#[test]
fn serial_posts_with_one_failed_upstream() {
    let mut store = Store::new();
    let chat = store.create_chat(1).unwrap();
    let r = store.post_chat_message(chat.chat_id, "first".to_string(), 50, DispatchOutcome::AuthFailure, None);
    assert!(matches!(r, Err(SessionError::AuthFailure)));
    store
        .post_chat_message(chat.chat_id, "second".to_string(), 50, DispatchOutcome::Success("b".to_string()), reply_with("two"))
        .unwrap();
    let t = turns(&store, chat.chat_id);
    assert_eq!(t.iter().filter(|(r, _)| *r == Role::User).count(), 2);
    assert_eq!(
        t,
        vec![
            (Role::User, "first".to_string()),
            (Role::User, "second".to_string()),
            (Role::Assistant, "two".to_string()),
        ]
    );
}

#[test]
fn malformed_reply_stores_no_assistant_message() {
    let mut store = Store::new();
    let chat = store.create_chat(7).unwrap();
    let missing = Some(DecodedReply { items: vec![None] });
    let r = store.post_chat_message(chat.chat_id, "hi".to_string(), 50, DispatchOutcome::Success("{}".to_string()), missing);
    assert!(matches!(r, Err(SessionError::MalformedUpstreamResponse)));
    assert_eq!(turns(&store, chat.chat_id), vec![(Role::User, "hi".to_string())]);
}

#[test]
fn undecodable_or_empty_reply_is_malformed() {
    let mut store = Store::new();
    let chat = store.create_chat(7).unwrap();
    let r = store.post_chat_message(chat.chat_id, "a".to_string(), 50, DispatchOutcome::Success("x".to_string()), None);
    assert!(matches!(r, Err(SessionError::MalformedUpstreamResponse)));
    let r = store.post_chat_message(chat.chat_id, "b".to_string(), 50, DispatchOutcome::Success("x".to_string()), Some(DecodedReply { items: vec![] }));
    assert!(matches!(r, Err(SessionError::MalformedUpstreamResponse)));
    let r = store.post_chat_message(chat.chat_id, "c".to_string(), 50, DispatchOutcome::Success("x".to_string()), reply_with(""));
    assert!(matches!(r, Err(SessionError::MalformedUpstreamResponse)));
    assert!(turns(&store, chat.chat_id).iter().all(|(r, _)| *r == Role::User));
}

#[test]
fn upstream_failures_keep_their_classification() {
    let mut store = Store::new();
    let chat = store.create_chat(7).unwrap();
    let r = store.post_chat_message(chat.chat_id, "a".to_string(), 50, DispatchOutcome::UpstreamRejected(500, "oops".to_string()), None);
    match r {
        Err(SessionError::UpstreamRejected(status, body)) => {
            assert_eq!(status, 500);
            assert_eq!(body, "oops");
        }
        other => panic!("unexpected {:?}", other),
    }
    let r = store.post_chat_message(chat.chat_id, "b".to_string(), 50, DispatchOutcome::TransportFailure("timeout".to_string()), None);
    match r {
        Err(SessionError::TransportFailure(cause)) => assert_eq!(cause, "timeout"),
        other => panic!("unexpected {:?}", other),
    }
    assert_eq!(turns(&store, chat.chat_id).len(), 2);
}

#[test]
fn post_to_missing_chat_fails_before_upstream() {
    let mut store = Store::new();
    let r = store.post_chat_message(99, "hi".to_string(), 50, DispatchOutcome::Success("b".to_string()), reply_with("x"));
    assert!(matches!(r, Err(SessionError::Storage(StoreError::ConstraintViolation))));
    assert!(store.get_messages_by_chat_id(99).is_empty());
}

#[test]
fn context_of_stored_history_ends_with_new_message() {
    let mut store = Store::new();
    let chat = store.create_chat(3).unwrap();
    store.add_message(chat.chat_id, Role::User, "a".to_string()).unwrap();
    store.add_message(chat.chat_id, Role::Assistant, "b".to_string()).unwrap();
    store.add_message(chat.chat_id, Role::User, "c".to_string()).unwrap();
    let history = store.get_messages_by_chat_id(chat.chat_id);
    let ctx = assemble_context(&history, 10);
    let pairs: Vec<(String, String)> = ctx
        .get_messages()
        .iter()
        .map(|m| (m.role.clone(), m.content.clone()))
        .collect();
    assert_eq!(
        pairs,
        vec![
            ("user".to_string(), "a".to_string()),
            ("assistant".to_string(), "b".to_string()),
            ("user".to_string(), "c".to_string()),
        ]
    );
    let again = assemble_context(&store.get_messages_by_chat_id(chat.chat_id), 10);
    assert_eq!(again.get_messages().len(), 3);
}

#[test]
fn context_window_drops_oldest_first() {
    let mut store = Store::new();
    let chat = store.create_chat(3).unwrap();
    for text in ["1", "2", "3", "4"] {
        store.add_message(chat.chat_id, Role::User, text.to_string()).unwrap();
    }
    let ctx = assemble_context(&store.get_messages_by_chat_id(chat.chat_id), 2);
    let contents: Vec<String> = ctx.get_messages().iter().map(|m| m.content.clone()).collect();
    assert_eq!(contents, vec!["3".to_string(), "4".to_string()]);
    let empty = assemble_context(&store.get_messages_by_chat_id(chat.chat_id), 0);
    assert!(empty.get_messages().is_empty());
}

#[test]
fn chat_history_appends_in_order() {
    let mut h = ChatHistory::new();
    assert!(h.get_messages().is_empty());
    h.add_message(ChatCompletionMessage::new("user".to_string(), "x".to_string()));
    h.add_message(ChatCompletionMessage::new("assistant".to_string(), "y".to_string()));
    let m = h.get_messages();
    assert_eq!(m.len(), 2);
    assert_eq!(m[0].content, "x");
    assert_eq!(m[1].role, "assistant");
}
