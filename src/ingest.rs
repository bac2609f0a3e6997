use vstd::prelude::*;

use crate::model::StoreError;

verus! {

/// Why a request to the orchestration engine did not complete.
#[derive(Debug)]
pub enum SessionError {
    /// The storage refused an operation before the upstream call succeeded.
    Storage(StoreError),
    /// The upstream service answered with this non-success status and body.
    UpstreamRejected(u16, String),
    /// The upstream service could not be reached.
    TransportFailure(String),
    /// The upstream service rejected the credential.
    AuthFailure,
    /// The upstream body did not hold the generated content.
    MalformedUpstreamResponse,
    /// The upstream call succeeded but its result could not be stored.
    ResultLost(StoreError),
}

/// An upstream success body decoded against the endpoint's schema: for a
/// text completion the message content of each choice, for an image
/// generation the URL of each generated item, in the order of the body.
/// An item is `None` where the field is missing.
#[derive(Debug)]
pub struct DecodedReply {
    pub items: Vec<Option<String>>,
}

/// The generated content of a decoded reply: the field of its first item,
/// where that is present and not blank.
pub open spec fn generated_content(reply: Option<Seq<Option<String>>>) -> Option<Seq<char>> {
    match reply {
        Some(items) => if items.len() > 0 && items[0] is Some && items[0]->Some_0@.len() > 0 {
            Some(items[0]->Some_0@)
        } else {
            None
        },
        None => None,
    }
}

pub open spec fn reply_items(reply: &Option<DecodedReply>) -> Option<Seq<Option<String>>> {
    match reply {
        Some(d) => Some(d.items@),
        None => None,
    }
}

/// Extracts the generated content of an upstream body; `reply` is `None`
/// where the body did not decode. Fails with `MalformedUpstreamResponse`
/// rather than handing back blank content.
pub fn extract_generated(reply: &Option<DecodedReply>) -> (r: Result<String, SessionError>)
    ensures
        generated_content(reply_items(reply)) matches Some(c) ==> r matches Ok(s) && s@ == c,
        generated_content(reply_items(reply)) is None ==> r matches Err(
            SessionError::MalformedUpstreamResponse,
        ),
{
    match reply {
        Some(d) => {
            if d.items.len() > 0 {
                match &d.items[0] {
                    Some(s) => {
                        if s.as_str().is_empty() {
                            Err(SessionError::MalformedUpstreamResponse)
                        } else {
                            Ok(s.clone())
                        }
                    },
                    None => Err(SessionError::MalformedUpstreamResponse),
                }
            } else {
                Err(SessionError::MalformedUpstreamResponse)
            }
        },
        None => Err(SessionError::MalformedUpstreamResponse),
    }
}

} // verus!
