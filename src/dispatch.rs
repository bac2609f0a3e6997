use vstd::prelude::*;

use crate::chat_history::ChatHistory;
use crate::model::{ChatCompletionMessage, ImageGenerationRequest};

verus! {

/// Model identifier sent with every text completion.
pub open spec fn model_name() -> Seq<char> {
    "gpt-4"@
}

/// Sampling temperature of text completions, in hundredths.
pub const TEMPERATURE_HUNDREDTHS: u32 = 120;

/// Largest number of tokens a text completion may produce.
pub const MAX_TOKENS: u32 = 1000;

/// Number of images generated when a request names none.
pub const DEFAULT_IMAGE_COUNT: u32 = 1;

pub open spec fn default_image_size() -> Seq<char> {
    "1024x1024"@
}

pub open spec fn default_response_format() -> Seq<char> {
    "url"@
}

/// The body of a text completion request:
/// `{model, messages:[{role, content}], temperature, max_tokens}`.
#[derive(Debug)]
pub struct CompletionRequest {
    pub model: String,
    pub messages: Vec<ChatCompletionMessage>,
    pub temperature_hundredths: u32,
    pub max_tokens: u32,
}

/// The body of an image generation request: `{prompt, n, size, response_format}`.
#[derive(Debug)]
pub struct ImagePayload {
    pub prompt: String,
    pub n: u32,
    pub size: String,
    pub response_format: String,
}

/// How an upstream call ended.
#[derive(Debug)]
pub enum DispatchOutcome {
    /// The service answered with a 2xx status and this body.
    Success(String),
    /// The service refused the request with this status and body.
    UpstreamRejected(u16, String),
    /// No answer came: connection, DNS or timeout failure.
    TransportFailure(String),
    /// The service rejected the credential.
    AuthFailure,
}

pub open spec fn is_auth_status(status: u16) -> bool {
    status == 401 || status == 403
}

pub open spec fn is_success_status(status: u16) -> bool {
    200 <= status <= 299
}

/// Classifies an answer of the upstream service by its HTTP status.
pub fn classify_response(status: u16, body: String) -> (r: DispatchOutcome)
    ensures
        is_success_status(status) ==> r == DispatchOutcome::Success(body),
        is_auth_status(status) ==> r == DispatchOutcome::AuthFailure,
        !is_success_status(status) && !is_auth_status(status) ==> r
            == DispatchOutcome::UpstreamRejected(status, body),
{
    if 200 <= status && status <= 299 {
        DispatchOutcome::Success(body)
    } else if status == 401 || status == 403 {
        DispatchOutcome::AuthFailure
    } else {
        DispatchOutcome::UpstreamRejected(status, body)
    }
}

/// The value of the `Authorization` header for a credential.
pub fn authorization_value(api_key: &String) -> (r: String)
    ensures
        r@ == "Bearer "@ + api_key@,
{
    String::from_str("Bearer ").concat(api_key.as_str())
}

/// The text completion request for an assembled context, with the fixed
/// model and sampling parameters.
pub fn completion_request(context: ChatHistory) -> (r: CompletionRequest)
    ensures
        r.model@ == model_name(),
        r.messages@.map_values(|m: ChatCompletionMessage| m@) == context@,
        r.temperature_hundredths == TEMPERATURE_HUNDREDTHS,
        r.max_tokens == MAX_TOKENS,
{
    let messages = copy_messages(context.get_messages());
    CompletionRequest {
        model: String::from_str("gpt-4"),
        messages,
        temperature_hundredths: TEMPERATURE_HUNDREDTHS,
        max_tokens: MAX_TOKENS,
    }
}

fn copy_messages(v: &Vec<ChatCompletionMessage>) -> (r: Vec<ChatCompletionMessage>)
    ensures
        r@ == v@,
{
    let mut r: Vec<ChatCompletionMessage> = Vec::new();
    let mut i: usize = 0;
    while i < v.len()
        invariant
            i <= v.len(),
            r@ == v@.subrange(0, i as int),
        decreases v.len() - i,
    {
        r.push(v[i].clone());
        assert(r@ =~= v@.subrange(0, i + 1));
        i = i + 1;
    }
    assert(r@ =~= v@);
    r
}

/// `p` is the payload for `req`: its prompt, and each option or its default.
pub open spec fn payload_for(p: ImagePayload, req: ImageGenerationRequest) -> bool {
    &&& p.prompt@ == req.prompt@
    &&& p.n == match req.n {
        Some(n) => n,
        None => DEFAULT_IMAGE_COUNT,
    }
    &&& p.size@ == match req.size {
        Some(s) => s@,
        None => default_image_size(),
    }
    &&& p.response_format@ == match req.response_format {
        Some(f) => f@,
        None => default_response_format(),
    }
}

/// The image generation request for a user request; absent options take
/// one image, size `1024x1024` and format `url`.
pub fn image_payload(req: &ImageGenerationRequest) -> (r: ImagePayload)
    ensures
        payload_for(r, *req),
{
    let n = match req.n {
        Some(n) => n,
        None => DEFAULT_IMAGE_COUNT,
    };
    let size = match &req.size {
        Some(s) => s.clone(),
        None => String::from_str("1024x1024"),
    };
    let response_format = match &req.response_format {
        Some(f) => f.clone(),
        None => String::from_str("url"),
    };
    ImagePayload { prompt: req.prompt.clone(), n, size, response_format }
}

} // verus!
