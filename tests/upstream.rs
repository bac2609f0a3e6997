use hjowdy::chat_history::ChatHistory;
use hjowdy::dispatch::{
    authorization_value, classify_response, completion_request, image_payload, DispatchOutcome,
    MAX_TOKENS, TEMPERATURE_HUNDREDTHS,
};
use hjowdy::ingest::{extract_generated, DecodedReply, SessionError};
use hjowdy::model::{ChatCompletionMessage, ImageGenerationRequest, Message, Role, StoreError};
use hjowdy::session::{Action, Event, RequestKind, Session, Stage};

#[test]
fn classify_statuses() {
    assert!(matches!(classify_response(200, "b".to_string()), DispatchOutcome::Success(b) if b == "b"));
    assert!(matches!(classify_response(299, "b".to_string()), DispatchOutcome::Success(_)));
    assert!(matches!(classify_response(401, "no".to_string()), DispatchOutcome::AuthFailure));
    assert!(matches!(classify_response(403, "no".to_string()), DispatchOutcome::AuthFailure));
    assert!(matches!(classify_response(429, "slow".to_string()), DispatchOutcome::UpstreamRejected(429, b) if b == "slow"));
    assert!(matches!(classify_response(503, "".to_string()), DispatchOutcome::UpstreamRejected(503, _)));
}

#[test]
fn bearer_header_value() {
    assert_eq!(authorization_value(&"sk-test".to_string()), "Bearer sk-test");
}

#[test]
fn completion_request_fixed_parameters() {
    let mut h = ChatHistory::new();
    h.add_message(ChatCompletionMessage::new("user".to_string(), "hi".to_string()));
    let req = completion_request(h);
    assert_eq!(req.model, "gpt-4");
    assert_eq!(req.temperature_hundredths, TEMPERATURE_HUNDREDTHS);
    assert_eq!(req.temperature_hundredths, 120);
    assert_eq!(req.max_tokens, MAX_TOKENS);
    assert_eq!(req.max_tokens, 1000);
    assert_eq!(req.messages.len(), 1);
    assert_eq!(req.messages[0].content, "hi");
}

#[test]
fn image_payload_defaults_and_overrides() {
    let req = ImageGenerationRequest { chat_id: 1, prompt: "a cat".to_string(), n: None, size: None, response_format: None };
    let p = image_payload(&req);
    assert_eq!(p.prompt, "a cat");
    assert_eq!(p.n, 1);
    assert_eq!(p.size, "1024x1024");
    assert_eq!(p.response_format, "url");
    let req = ImageGenerationRequest { chat_id: 1, prompt: "a dog".to_string(), n: Some(3), size: Some("512x512".to_string()), response_format: Some("b64_json".to_string()) };
    let p = image_payload(&req);
    assert_eq!(p.n, 3);
    assert_eq!(p.size, "512x512");
    assert_eq!(p.response_format, "b64_json");
}

#[test]
fn extract_first_item() {
    let reply = Some(DecodedReply { items: vec![Some("first".to_string()), Some("second".to_string())] });
    assert_eq!(extract_generated(&reply).unwrap(), "first");
    let reply = Some(DecodedReply { items: vec![None, Some("second".to_string())] });
    assert!(matches!(extract_generated(&reply), Err(SessionError::MalformedUpstreamResponse)));
}

#[test]
fn roles_as_text() {
    assert_eq!(Role::User.as_text(), "user");
    assert_eq!(Role::Assistant.as_text(), "assistant");
    assert_eq!(Role::parse(&"user".to_string()), Some(Role::User));
    assert_eq!(Role::parse(&"assistant".to_string()), Some(Role::Assistant));
    assert_eq!(Role::parse(&"User".to_string()), None);
}

#[test]
fn session_runs_text_request_to_completion() {
    let (mut s, first) = Session::start(9, RequestKind::Text("hi".to_string()), 10, false);
    assert!(matches!(first, Action::StoreUserMessage(9, ref c) if c == "hi"));
    assert!(s.waits_for(&Event::UserMessageStored(Ok(()))));
    assert!(!s.waits_for(&Event::ResultStored(Ok(()))));
    assert!(matches!(s.step(Event::UserMessageStored(Ok(()))), Action::LoadHistory(9)));
    let history = vec![Message { id: Some(1), created_on: 5, role: Role::User, content: "hi".to_string(), chat_id_relation: 9 }];
    match s.step(Event::HistoryLoaded(Ok(history))) {
        Action::CallCompletion(req) => {
            assert_eq!(req.messages.len(), 1);
            assert_eq!(req.messages[0].role, "user");
            assert_eq!(req.messages[0].content, "hi");
        }
        other => panic!("unexpected {:?}", other),
    }
    let reply = Some(DecodedReply { items: vec![Some("hello".to_string())] });
    match s.step(Event::UpstreamAnswered(DispatchOutcome::Success("raw".to_string()), reply)) {
        Action::StoreAssistantMessage(9, c) => assert_eq!(c, "hello"),
        other => panic!("unexpected {:?}", other),
    }
    match s.step(Event::ResultStored(Ok(()))) {
        Action::Reply(body) => assert_eq!(body, "raw"),
        other => panic!("unexpected {:?}", other),
    }
    assert!(matches!(s.stage, Stage::ResultRecorded));
}

#[test]
fn session_failures() {
    let (mut s, _) = Session::start(9, RequestKind::Text("hi".to_string()), 10, false);
    assert!(matches!(s.step(Event::UserMessageStored(Err(StoreError::BackendFailure))), Action::Fail(SessionError::Storage(StoreError::BackendFailure))));
    assert!(matches!(s.stage, Stage::Failed));

    let (mut s, _) = Session::start(9, RequestKind::Text("hi".to_string()), 10, false);
    s.step(Event::UserMessageStored(Ok(())));
    assert!(matches!(s.step(Event::HistoryLoaded(Err(StoreError::BackendFailure))), Action::Fail(SessionError::Storage(StoreError::BackendFailure))));

    let (mut s, _) = Session::start(9, RequestKind::Text("hi".to_string()), 10, false);
    s.step(Event::UserMessageStored(Ok(())));
    s.step(Event::HistoryLoaded(Ok(vec![])));
    s.step(Event::UpstreamAnswered(DispatchOutcome::Success("raw".to_string()), Some(DecodedReply { items: vec![Some("x".to_string())] })));
    assert!(matches!(s.step(Event::ResultStored(Err(StoreError::BackendFailure))), Action::Fail(SessionError::ResultLost(StoreError::BackendFailure))));
}

#[test]
fn session_image_request_goes_straight_upstream() {
    let req = ImageGenerationRequest { chat_id: 4, prompt: "sunset".to_string(), n: Some(2), size: None, response_format: None };
    let (mut s, first) = Session::start(4, RequestKind::Image(req), 0, false);
    match first {
        Action::CallImageGeneration(p) => {
            assert_eq!(p.prompt, "sunset");
            assert_eq!(p.n, 2);
        }
        other => panic!("unexpected {:?}", other),
    }
    let reply = Some(DecodedReply { items: vec![Some("http://img".to_string())] });
    match s.step(Event::UpstreamAnswered(DispatchOutcome::Success("raw".to_string()), reply)) {
        Action::StoreImage(4, url) => assert_eq!(url, "http://img"),
        other => panic!("unexpected {:?}", other),
    }
}

#[test]
fn session_retries_a_failed_call_once() {
    let (mut s, _) = Session::start(9, RequestKind::Text("hi".to_string()), 10, true);
    s.step(Event::UserMessageStored(Ok(())));
    s.step(Event::HistoryLoaded(Ok(vec![])));
    let again = s.step(Event::UpstreamAnswered(DispatchOutcome::TransportFailure("reset".to_string()), None));
    assert!(matches!(again, Action::LoadHistory(9)));
    assert!(matches!(s.stage, Stage::MessageRecorded));
    s.step(Event::HistoryLoaded(Ok(vec![])));
    let last = s.step(Event::UpstreamAnswered(DispatchOutcome::UpstreamRejected(502, "bad".to_string()), None));
    assert!(matches!(last, Action::Fail(SessionError::UpstreamRejected(502, _))));
}

#[test]
fn session_never_retries_a_rejected_credential() {
    let (mut s, _) = Session::start(9, RequestKind::Text("hi".to_string()), 10, true);
    s.step(Event::UserMessageStored(Ok(())));
    s.step(Event::HistoryLoaded(Ok(vec![])));
    let a = s.step(Event::UpstreamAnswered(DispatchOutcome::AuthFailure, None));
    assert!(matches!(a, Action::Fail(SessionError::AuthFailure)));
}

#[test]
fn session_retries_image_generation_with_same_payload() {
    let req = ImageGenerationRequest { chat_id: 4, prompt: "sunset".to_string(), n: None, size: None, response_format: None };
    let (mut s, _) = Session::start(4, RequestKind::Image(req), 0, true);
    match s.step(Event::UpstreamAnswered(DispatchOutcome::UpstreamRejected(500, "".to_string()), None)) {
        Action::CallImageGeneration(p) => assert_eq!(p.prompt, "sunset"),
        other => panic!("unexpected {:?}", other),
    }
    assert!(!s.retry_left);
}
