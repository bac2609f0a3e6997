use vstd::prelude::*;

use crate::context::{assemble_context, context_of};
use crate::dispatch::{
    completion_request, image_payload, payload_for, CompletionRequest, DispatchOutcome, ImagePayload, MAX_TOKENS,
    TEMPERATURE_HUNDREDTHS, model_name,
};
use crate::ingest::{extract_generated, generated_content, reply_items, DecodedReply, SessionError};
use crate::model::{ChatCompletionMessage, CompletionModel, ImageGenerationRequest, Message, StoreError};
use crate::ordering::message_views;

verus! {

/// What an inbound request asks for.
#[derive(Debug)]
pub enum RequestKind {
    /// A text completion following this user message.
    Text(String),
    /// An image generation.
    Image(ImageGenerationRequest),
}

/// How far a request has come. `Failed` and `ResultRecorded` are terminal.
#[derive(Debug)]
pub enum Stage {
    Idle,
    MessageRecorded,
    ContextAssembled,
    /// The upstream call succeeded with this body.
    UpstreamCalled(String),
    ResultRecorded,
    Failed,
}

/// What the outside world reports back after an action.
#[derive(Debug)]
pub enum Event {
    UserMessageStored(Result<(), StoreError>),
    HistoryLoaded(Result<Vec<Message>, StoreError>),
    /// How the upstream call ended, and its body decoded where it succeeded.
    UpstreamAnswered(DispatchOutcome, Option<DecodedReply>),
    ResultStored(Result<(), StoreError>),
}

/// What the coordinator asks the outside world to do next.
#[derive(Debug)]
pub enum Action {
    StoreUserMessage(i32, String),
    LoadHistory(i32),
    CallCompletion(CompletionRequest),
    CallImageGeneration(ImagePayload),
    StoreAssistantMessage(i32, String),
    StoreImage(i32, String),
    /// Done: hand the upstream body to the caller.
    Reply(String),
    /// Done: the request failed for this reason.
    Fail(SessionError),
}

/// One inbound request on its way through the coordinator. Requests share
/// nothing: each has its own session.
#[derive(Debug)]
pub struct Session {
    pub chat_id: i32,
    pub kind: RequestKind,
    pub budget: usize,
    /// Whether a failed upstream call may still be made once more.
    pub retry_left: bool,
    pub stage: Stage,
}

/// Whether an upstream failure may be retried: a transport failure or a
/// rejection, never a rejected credential.
pub open spec fn retryable(outcome: DispatchOutcome) -> bool {
    outcome is TransportFailure || outcome is UpstreamRejected
}

/// `after` and `a` retry the upstream call of `before`: a text request
/// reloads its history to send the same context again, an image request
/// sends its payload again. No further retry is left.
pub open spec fn retried(before: Session, after: Session, a: Action) -> bool {
    &&& !after.retry_left
    &&& before.kind is Text ==> after.stage == Stage::MessageRecorded && a == Action::LoadHistory(before.chat_id)
    &&& before.kind matches RequestKind::Image(req) ==> after.stage == Stage::ContextAssembled && (a matches Action::CallImageGeneration(p) && payload_for(p, req))
}

/// The request sent for a context: the fixed model and sampling parameters
/// with the context's pairs as messages.
pub open spec fn requests_context(req: CompletionRequest, context: Seq<CompletionModel>) -> bool {
    &&& req.model@ == model_name()
    &&& req.messages@.map_values(|m: ChatCompletionMessage| m@) == context
    &&& req.temperature_hundredths == TEMPERATURE_HUNDREDTHS
    &&& req.max_tokens == MAX_TOKENS
}

/// The events each stage waits for.
pub open spec fn accepts(stage: Stage, event: Event) -> bool {
    match stage {
        Stage::Idle => event is UserMessageStored,
        Stage::MessageRecorded => event is HistoryLoaded,
        Stage::ContextAssembled => event is UpstreamAnswered,
        Stage::UpstreamCalled(_) => event is ResultStored,
        _ => false,
    }
}

impl Session {
    /// Opens a session and names its first action: a text request first
    /// records the user message; an image request goes straight upstream.
    /// With `retry_once`, a failed upstream call is made once more before
    /// the session fails.
    pub fn start(chat_id: i32, kind: RequestKind, budget: usize, retry_once: bool) -> (r: (Session, Action))
        ensures
            r.0.chat_id == chat_id,
            r.0.kind == kind,
            r.0.budget == budget,
            r.0.retry_left == retry_once,
            kind matches RequestKind::Text(content) ==> r.0.stage == Stage::Idle && r.1
                == Action::StoreUserMessage(chat_id, content),
            kind matches RequestKind::Image(req) ==> r.0.stage == Stage::ContextAssembled && (r.1 matches Action::CallImageGeneration(p) && payload_for(p, req)),
    {
        let action = match &kind {
            RequestKind::Text(content) => Action::StoreUserMessage(chat_id, content.clone()),
            RequestKind::Image(req) => Action::CallImageGeneration(image_payload(req)),
        };
        let stage = match &kind {
            RequestKind::Text(_) => Stage::Idle,
            RequestKind::Image(_) => Stage::ContextAssembled,
        };
        (Session { chat_id, kind, budget, retry_left: retry_once, stage }, action)
    }

    /// Whether the session waits for `event`.
    pub fn waits_for(&self, event: &Event) -> (r: bool)
        ensures
            r == accepts(self.stage, *event),
    {
        match (&self.stage, event) {
            (Stage::Idle, Event::UserMessageStored(_)) => true,
            (Stage::MessageRecorded, Event::HistoryLoaded(_)) => true,
            (Stage::ContextAssembled, Event::UpstreamAnswered(_, _)) => true,
            (Stage::UpstreamCalled(_), Event::ResultStored(_)) => true,
            _ => false,
        }
    }

    fn retry(&mut self) -> (a: Action)
        ensures
            final(self).chat_id == old(self).chat_id,
            final(self).kind == old(self).kind,
            final(self).budget == old(self).budget,
            retried(*old(self), *final(self), a),
    {
        self.retry_left = false;
        match &self.kind {
            RequestKind::Text(_) => {
                self.stage = Stage::MessageRecorded;
                Action::LoadHistory(self.chat_id)
            },
            RequestKind::Image(req) => {
                self.stage = Stage::ContextAssembled;
                Action::CallImageGeneration(image_payload(req))
            },
        }
    }

    /// Takes one event and names the next action. Every failure ends the
    /// session with its classification; a failure to store the result of a
    /// successful upstream call is reported as `ResultLost`.
    pub fn step(&mut self, event: Event) -> (a: Action)
        requires
            accepts(old(self).stage, event),
        ensures
            final(self).chat_id == old(self).chat_id,
            final(self).kind == old(self).kind,
            final(self).budget == old(self).budget,
            !(event matches Event::UpstreamAnswered(outcome, _) && retryable(outcome) && old(self).retry_left) ==> final(self).retry_left == old(self).retry_left,
            (event matches Event::UpstreamAnswered(outcome, _) && retryable(outcome) && old(self).retry_left) ==> retried(*old(self), *final(self), a),
            event matches Event::UserMessageStored(Ok(_)) ==> final(self).stage
                == Stage::MessageRecorded && a == Action::LoadHistory(old(self).chat_id),
            event matches Event::UserMessageStored(Err(e)) ==> final(self).stage == Stage::Failed
                && a == Action::Fail(SessionError::Storage(e)),
            event matches Event::HistoryLoaded(Ok(h)) ==> final(self).stage == Stage::ContextAssembled && (a matches Action::CallCompletion(req) && requests_context(req, context_of(message_views(h@), old(self).budget as nat))),
            event matches Event::HistoryLoaded(Err(e)) ==> final(self).stage == Stage::Failed && a
                == Action::Fail(SessionError::Storage(e)),
            event matches Event::UpstreamAnswered(DispatchOutcome::Success(body), reply) ==> (
            match generated_content(reply_items(&reply)) {
                Some(c) => {
                    &&& final(self).stage == Stage::UpstreamCalled(body)
                    &&& old(self).kind is Text ==> (a matches Action::StoreAssistantMessage(id, s) && id == old(self).chat_id && s@ == c)
                    &&& old(self).kind is Image ==> (a matches Action::StoreImage(id, s) && id == old(self).chat_id && s@ == c)
                },
                None => final(self).stage == Stage::Failed && (a matches Action::Fail(SessionError::MalformedUpstreamResponse)),
            }),
            event matches Event::UpstreamAnswered(DispatchOutcome::UpstreamRejected(status, body), _)
                ==> old(self).retry_left || (final(self).stage == Stage::Failed && a == Action::Fail(
                SessionError::UpstreamRejected(status, body),
            )),
            event matches Event::UpstreamAnswered(DispatchOutcome::TransportFailure(cause), _)
                ==> old(self).retry_left || (final(self).stage == Stage::Failed && a == Action::Fail(
                SessionError::TransportFailure(cause),
            )),
            event matches Event::UpstreamAnswered(DispatchOutcome::AuthFailure, _)
                ==> final(self).stage == Stage::Failed && a == Action::Fail(SessionError::AuthFailure),
            event matches Event::ResultStored(Ok(_)) ==> final(self).stage == Stage::ResultRecorded && (old(self).stage matches Stage::UpstreamCalled(body) && a == Action::Reply(body)),
            event matches Event::ResultStored(Err(e)) ==> final(self).stage == Stage::Failed && a
                == Action::Fail(SessionError::ResultLost(e)),
    {
        match event {
            Event::UserMessageStored(Ok(_)) => {
                self.stage = Stage::MessageRecorded;
                Action::LoadHistory(self.chat_id)
            },
            Event::UserMessageStored(Err(e)) => {
                self.stage = Stage::Failed;
                Action::Fail(SessionError::Storage(e))
            },
            Event::HistoryLoaded(Ok(h)) => {
                let context = assemble_context(&h, self.budget);
                self.stage = Stage::ContextAssembled;
                Action::CallCompletion(completion_request(context))
            },
            Event::HistoryLoaded(Err(e)) => {
                self.stage = Stage::Failed;
                Action::Fail(SessionError::Storage(e))
            },
            Event::UpstreamAnswered(DispatchOutcome::Success(body), reply) => {
                match extract_generated(&reply) {
                    Ok(content) => {
                        self.stage = Stage::UpstreamCalled(body);
                        match &self.kind {
                            RequestKind::Text(_) => Action::StoreAssistantMessage(self.chat_id, content),
                            RequestKind::Image(_) => Action::StoreImage(self.chat_id, content),
                        }
                    },
                    Err(e) => {
                        self.stage = Stage::Failed;
                        Action::Fail(e)
                    },
                }
            },
            Event::UpstreamAnswered(DispatchOutcome::UpstreamRejected(status, body), _) => {
                if self.retry_left {
                    self.retry()
                } else {
                    self.stage = Stage::Failed;
                    Action::Fail(SessionError::UpstreamRejected(status, body))
                }
            },
            Event::UpstreamAnswered(DispatchOutcome::TransportFailure(cause), _) => {
                if self.retry_left {
                    self.retry()
                } else {
                    self.stage = Stage::Failed;
                    Action::Fail(SessionError::TransportFailure(cause))
                }
            },
            Event::UpstreamAnswered(DispatchOutcome::AuthFailure, _) => {
                self.stage = Stage::Failed;
                Action::Fail(SessionError::AuthFailure)
            },
            Event::ResultStored(Ok(_)) => {
                let body = match &self.stage {
                    Stage::UpstreamCalled(body) => body.clone(),
                    _ => String::new(),
                };
                self.stage = Stage::ResultRecorded;
                Action::Reply(body)
            },
            Event::ResultStored(Err(e)) => {
                self.stage = Stage::Failed;
                Action::Fail(SessionError::ResultLost(e))
            },
        }
    }
}

} // verus!
