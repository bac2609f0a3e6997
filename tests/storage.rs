use hjowdy::dispatch::DispatchOutcome;
use hjowdy::gateway::{expect_affected, message_from_row, storage_error};
use hjowdy::ingest::{DecodedReply, SessionError};
use hjowdy::model::{ImageGenerationRequest, Message, Role, StoreError};
use hjowdy::ordering::order_messages;
use hjowdy::store::Store;

fn msg(id: i32, created_on: i64, content: &str) -> Message {
    Message { id: Some(id), created_on, role: Role::User, content: content.to_string(), chat_id_relation: 1 }
}

#[test]
fn order_messages_by_time_then_identity() {
    let rows = vec![msg(5, 20, "c"), msg(3, 10, "b"), msg(1, 10, "a"), msg(2, 30, "d")];
    let ordered: Vec<String> = order_messages(rows).into_iter().map(|m| m.content).collect();
    assert_eq!(ordered, vec!["a", "b", "c", "d"]);
    assert!(order_messages(vec![]).is_empty());
}

#[test]
fn stored_messages_come_back_in_history_order() {
    let mut store = Store::new();
    let chat = store.create_chat(1).unwrap();
    let other = store.create_chat(1).unwrap();
    for i in 0..5 {
        store.add_message(chat.chat_id, Role::User, format!("m{}", i)).unwrap();
        store.add_message(other.chat_id, Role::User, format!("o{}", i)).unwrap();
    }
    let ms = store.get_messages_by_chat_id(chat.chat_id);
    assert_eq!(ms.len(), 5);
    for w in ms.windows(2) {
        let (a, b) = (&w[0], &w[1]);
        assert!(a.created_on < b.created_on || (a.created_on == b.created_on && a.id < b.id));
    }
    assert!(ms.iter().all(|m| m.chat_id_relation == chat.chat_id));
}

#[test]
fn create_and_list_chats_by_owner() {
    let mut store = Store::new();
    let a = store.create_chat(42).unwrap();
    let _b = store.create_chat(7).unwrap();
    let c = store.create_chat(42).unwrap();
    assert_eq!(a.chat_name, "New chat");
    assert!(a.chat_id < c.chat_id);
    let ids: Vec<i32> = store.get_chats(42).iter().map(|c| c.chat_id).collect();
    assert_eq!(ids, vec![a.chat_id, c.chat_id]);
    assert!(store.get_chats(5).is_empty());
}

#[test]
fn rename_then_read_back() {
    let mut store = Store::new();
    let chat = store.create_chat(42).unwrap();
    store.update_chat_name(chat.chat_id, "Trip plans".to_string()).unwrap();
    assert_eq!(store.get_chat(chat.chat_id).unwrap().chat_name, "Trip plans");
    assert_eq!(store.update_chat_name(chat.chat_id + 100, "x".to_string()), Err(StoreError::NotFound));
    assert_eq!(store.get_chat(chat.chat_id + 100).unwrap_err(), StoreError::NotFound);
}

#[test]
fn delete_chat_cascades() {
    let mut store = Store::new();
    let chat = store.create_chat(1).unwrap();
    let keep = store.create_chat(1).unwrap();
    store.add_message(chat.chat_id, Role::User, "x".to_string()).unwrap();
    store.add_message(keep.chat_id, Role::User, "y".to_string()).unwrap();
    store.save_generated_image(chat.chat_id, "http://img/1".to_string()).unwrap();
    store.save_generated_image(keep.chat_id, "http://img/2".to_string()).unwrap();
    assert_eq!(store.delete_chat(chat.chat_id), Ok(()));
    assert!(store.get_messages_by_chat_id(chat.chat_id).is_empty());
    assert!(store.get_images_by_chat_id(chat.chat_id).is_empty());
    assert_eq!(store.get_chat(chat.chat_id).unwrap_err(), StoreError::NotFound);
    assert_eq!(store.get_messages_by_chat_id(keep.chat_id).len(), 1);
    assert_eq!(store.get_images_by_chat_id(keep.chat_id)[0].url, "http://img/2");
    assert_eq!(store.delete_chat(chat.chat_id), Err(StoreError::NotFound));
    assert_eq!(store.get_messages(chat.chat_id).unwrap_err(), StoreError::NotFound);
    assert_eq!(store.get_messages(keep.chat_id).unwrap().len(), 1);
}

#[test]
fn writes_to_missing_chat_violate_constraints() {
    let mut store = Store::new();
    assert_eq!(store.add_message(1, Role::User, "x".to_string()).unwrap_err(), StoreError::ConstraintViolation);
    assert_eq!(store.save_generated_image(1, "u".to_string()).unwrap_err(), StoreError::ConstraintViolation);
}

#[test]
fn added_message_carries_its_fields() {
    let mut store = Store::new();
    let chat = store.create_chat(1).unwrap();
    let m = store.add_message(chat.chat_id, Role::Assistant, "hey".to_string()).unwrap();
    assert_eq!(m.id, Some(1));
    assert_eq!(m.role, Role::Assistant);
    assert_eq!(m.content, "hey");
    assert_eq!(m.chat_id_relation, chat.chat_id);
}

fn image_request(chat_id: i32) -> ImageGenerationRequest {
    ImageGenerationRequest { chat_id, prompt: "a cat".to_string(), n: None, size: None, response_format: None }
}

#[test]
fn generated_image_is_recorded() {
    let mut store = Store::new();
    let chat = store.create_chat(1).unwrap();
    let reply = Some(DecodedReply { items: vec![Some("http://img/cat".to_string()), Some("http://img/dog".to_string())] });
    let r = store.generate_image(image_request(chat.chat_id), DispatchOutcome::Success("body".to_string()), reply);
    assert_eq!(r.unwrap(), "body");
    let images = store.get_images_by_chat_id(chat.chat_id);
    assert_eq!(images.len(), 1);
    assert_eq!(images[0].url, "http://img/cat");
}

#[test]
fn image_without_url_is_malformed() {
    let mut store = Store::new();
    let chat = store.create_chat(1).unwrap();
    let r = store.generate_image(image_request(chat.chat_id), DispatchOutcome::Success("{}".to_string()), Some(DecodedReply { items: vec![None] }));
    assert!(matches!(r, Err(SessionError::MalformedUpstreamResponse)));
    assert!(store.get_images_by_chat_id(chat.chat_id).is_empty());
}

#[test]
fn image_for_missing_chat_is_lost() {
    let mut store = Store::new();
    let reply = Some(DecodedReply { items: vec![Some("http://img/cat".to_string())] });
    let r = store.generate_image(image_request(5), DispatchOutcome::Success("body".to_string()), reply);
    assert!(matches!(r, Err(SessionError::ResultLost(StoreError::ConstraintViolation))));
}

#[test]
fn storage_errors_by_sqlstate() {
    assert_eq!(storage_error(&Some("23503".to_string())), StoreError::ConstraintViolation);
    assert_eq!(storage_error(&Some("23505".to_string())), StoreError::ConstraintViolation);
    assert_eq!(storage_error(&Some("08006".to_string())), StoreError::BackendFailure);
    assert_eq!(storage_error(&Some("2".to_string())), StoreError::BackendFailure);
    assert_eq!(storage_error(&None), StoreError::BackendFailure);
}

#[test]
fn affected_rows_decide_not_found() {
    assert_eq!(expect_affected(0), Err(StoreError::NotFound));
    assert_eq!(expect_affected(1), Ok(()));
}

#[test]
fn rows_map_to_messages() {
    let m = message_from_row(4, 17, &"assistant".to_string(), "ok".to_string(), 2).unwrap();
    assert_eq!(m.id, Some(4));
    assert_eq!(m.created_on, 17);
    assert_eq!(m.role, Role::Assistant);
    assert_eq!(m.content, "ok");
    assert_eq!(m.chat_id_relation, 2);
    assert_eq!(message_from_row(4, 17, &"system".to_string(), "ok".to_string(), 2).unwrap_err(), StoreError::ConstraintViolation);
}
