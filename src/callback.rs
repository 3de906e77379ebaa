//! The callback bridge: the requests a synchronous caller sends to the
//! client, and what it makes of each poll of the reply.
use vstd::prelude::*;

verus! {

/// A `(apiVersion, kind)` that a policy may query.
#[derive(Debug, Clone, PartialEq, Eq, PartialOrd, Ord, Hash)]
pub struct ContextAwareResource {
    pub api_version: String,
    pub kind: String,
}

/// A request to the client.
#[derive(Debug, Clone, PartialEq, Eq)]
pub enum CallbackRequestType {
    KubernetesListResourceAll {
        api_version: String,
        kind: String,
        label_selector: Option<String>,
        field_selector: Option<String>,
    },
    KubernetesListResourceByNamespace {
        api_version: String,
        kind: String,
        namespace: String,
        label_selector: Option<String>,
        field_selector: Option<String>,
    },
    KubernetesGetResource {
        api_version: String,
        kind: String,
        name: String,
        namespace: Option<String>,
    },
    KubernetesGetResourcePluralName { api_version: String, kind: String },
}

/// Why a request through the bridge failed.
#[derive(Debug, Clone, PartialEq, Eq)]
pub enum CallbackError {
    /// The request queue was full or closed.
    CallbackSend(String),
    /// The reply channel was closed.
    CallbackResponse(String),
    /// The handler answered with an error.
    CallbackRequest(String),
    /// The reply was not an object list.
    CallbackConvertList(String),
    /// The reply was not a plural name.
    CallbackGetPluralName(String),
}

/// The request that lists every object of `resource`, unfiltered.
pub fn list_all_request(resource: &ContextAwareResource) -> (r: CallbackRequestType)
    ensures
        r == (CallbackRequestType::KubernetesListResourceAll {
            api_version: resource.api_version,
            kind: resource.kind,
            label_selector: None,
            field_selector: None,
        }),
{
    CallbackRequestType::KubernetesListResourceAll {
        api_version: resource.api_version.clone(),
        kind: resource.kind.clone(),
        label_selector: None,
        field_selector: None,
    }
}

/// The request for the plural name of `resource`.
pub fn plural_name_request(resource: &ContextAwareResource) -> (r: CallbackRequestType)
    ensures
        r == (CallbackRequestType::KubernetesGetResourcePluralName {
            api_version: resource.api_version,
            kind: resource.kind,
        }),
{
    CallbackRequestType::KubernetesGetResourcePluralName {
        api_version: resource.api_version.clone(),
        kind: resource.kind.clone(),
    }
}

/// One non-blocking look at the reply channel.
pub enum ReplyPoll<T> {
    /// The handler answered, with a value or an error message.
    Ready(Result<T, String>),
    /// Nothing yet.
    Empty,
    /// The channel was closed without an answer.
    Closed(String),
}

/// What the caller does after one poll: `None` is to poll again.
pub fn reply_decision<T>(poll: ReplyPoll<T>) -> (r: Option<Result<T, CallbackError>>)
    ensures
        match poll {
            ReplyPoll::Ready(Ok(v)) => r == Some(Ok::<T, CallbackError>(v)),
            ReplyPoll::Ready(Err(m)) => r == Some(
                Err::<T, CallbackError>(CallbackError::CallbackRequest(m)),
            ),
            ReplyPoll::Empty => r is None,
            ReplyPoll::Closed(m) => r == Some(
                Err::<T, CallbackError>(CallbackError::CallbackResponse(m)),
            ),
        },
{
    match poll {
        ReplyPoll::Ready(Ok(v)) => Some(Ok(v)),
        ReplyPoll::Ready(Err(m)) => Some(Err(CallbackError::CallbackRequest(m))),
        ReplyPoll::Empty => None,
        ReplyPoll::Closed(m) => Some(Err(CallbackError::CallbackResponse(m))),
    }
}

} // verus!
