//! What can go wrong between the provider and a finished graph, in one
//! classification that the whole library shares.

use vstd::prelude::*;
use vstd::std_specs::convert::FromSpecImpl;
use vstd::string::StringExecFns;

verus! {

/// What the provider answers to a request, before it is classified.
#[derive(Clone, Debug, PartialEq, Eq)]
pub enum ProviderResponse<T> {
    /// The request succeeded.
    Success { response: T },
    /// The provider reported an error in its documented format.
    Error { status: u16, message: String, detail: Option<String> },
    /// The provider reported an error in some other format.
    Other { error: String, error_description: String },
}

/// Why a request did not come back with an answer of the provider.
#[derive(Clone, Debug, PartialEq, Eq)]
pub enum ClientFailure {
    /// The provider refused the request because too many were made.
    RateLimited,
    /// The request failed on the way: network, decoding, or the task that
    /// made it.
    General(String),
}

/// Why a fetch, a search or a traversal failed.
#[derive(Clone, Debug, PartialEq, Eq)]
pub enum Error {
    /// The provider answered with an error in its documented format.
    RemoteRejected { status: u16, message: String, detail: Option<String> },
    /// The provider answered with an error in some other format.
    RemoteMalformed { error: String, error_description: String },
    /// The provider refused the request because too many were made.
    RateLimited,
    /// Network, decoding or task failure.
    Transport(String),
    /// The admission budget did not free up within the retry ceiling.
    ResourcesExhausted,
}

/// The status that stands for an exhausted admission budget.
pub const STATUS_SERVICE_UNAVAILABLE: u16 = 503;

/// The status that stands for a rate limit of the provider.
pub const STATUS_TOO_MANY_REQUESTS: u16 = 429;

/// The status that stands for every other failure.
pub const STATUS_INTERNAL_SERVER_ERROR: u16 = 500;

/// What an answer of the provider is classified as: its payload where the
/// request succeeded, else the error that stands for the kind of answer.
pub open spec fn classify<T>(response: ProviderResponse<T>) -> Result<T, Error> {
    match response {
        ProviderResponse::Success { response } => Ok(response),
        ProviderResponse::Error { status, message, detail } => Err(
            Error::RemoteRejected { status, message, detail },
        ),
        ProviderResponse::Other { error, error_description } => Err(
            Error::RemoteMalformed { error, error_description },
        ),
    }
}

/// The error that stands for a request that did not come back.
pub open spec fn failure_error(failure: ClientFailure) -> Error {
    match failure {
        ClientFailure::RateLimited => Error::RateLimited,
        ClientFailure::General(cause) => Error::Transport(cause),
    }
}

/// What a request that came back from the client is classified as.
pub open spec fn settle<T>(reply: Result<ProviderResponse<T>, ClientFailure>) -> Result<T, Error> {
    match reply {
        Ok(response) => classify(response),
        Err(failure) => Err(failure_error(failure)),
    }
}

impl Error {
    /// The outward status of the error.
    pub open spec fn status_code_spec(&self) -> u16 {
        match *self {
            Error::ResourcesExhausted => STATUS_SERVICE_UNAVAILABLE,
            Error::RateLimited => STATUS_TOO_MANY_REQUESTS,
            _ => STATUS_INTERNAL_SERVER_ERROR,
        }
    }

    /// The text that describes the error.
    pub open spec fn message_spec(&self) -> Seq<char> {
        match *self {
            Error::RemoteRejected { status, message, detail } => match detail {
                Some(more) => "Genius response error: "@ + message@ + " - "@ + more@,
                None => "Genius response error: "@ + message@,
            },
            Error::RemoteMalformed { error, error_description } => "Other genius error: "@ + error@
                + " - "@ + error_description@,
            Error::RateLimited => "Genius client error: rate limited"@,
            Error::Transport(cause) => "Transport error: "@ + cause@,
            Error::ResourcesExhausted => "Server resources exhausted"@,
        }
    }

    /// Classifies an answer of the provider.
    pub fn from_genius_response<T>(response: ProviderResponse<T>) -> (r: Result<T, Error>)
        ensures
            r == classify(response),
    {
        match response {
            ProviderResponse::Success { response } => Ok(response),
            ProviderResponse::Error { status, message, detail } => Err(
                Error::RemoteRejected { status, message, detail },
            ),
            ProviderResponse::Other { error, error_description } => Err(
                Error::RemoteMalformed { error, error_description },
            ),
        }
    }

    /// Classifies what came back from the client: an answer of the provider,
    /// or the reason why there is none.
    pub fn from_reply<T>(reply: Result<ProviderResponse<T>, ClientFailure>) -> (r: Result<T, Error>)
        ensures
            r == settle(reply),
    {
        match reply {
            Ok(response) => Error::from_genius_response(response),
            Err(failure) => Err(Error::from(failure)),
        }
    }

    #[verifier::when_used_as_spec(status_code_spec)]
    pub fn status_code(&self) -> (code: u16)
        ensures
            code == self.status_code_spec(),
    {
        match self {
            Error::ResourcesExhausted => STATUS_SERVICE_UNAVAILABLE,
            Error::RateLimited => STATUS_TOO_MANY_REQUESTS,
            _ => STATUS_INTERNAL_SERVER_ERROR,
        }
    }

    /// A second value of the same error.
    pub fn duplicate(&self) -> (e: Error)
        ensures
            e == *self,
    {
        match self {
            Error::RemoteRejected { status, message, detail } => Error::RemoteRejected {
                status: *status,
                message: message.clone(),
                detail: match detail {
                    Some(more) => Some(more.clone()),
                    None => None,
                },
            },
            Error::RemoteMalformed { error, error_description } => Error::RemoteMalformed {
                error: error.clone(),
                error_description: error_description.clone(),
            },
            Error::RateLimited => Error::RateLimited,
            Error::Transport(cause) => Error::Transport(cause.clone()),
            Error::ResourcesExhausted => Error::ResourcesExhausted,
        }
    }

    /// The text that describes the error.
    pub fn message(&self) -> (text: String)
        ensures
            text@ == self.message_spec(),
    {
        match self {
            Error::RemoteRejected { status, message, detail } => {
                let head = "Genius response error: ".to_owned().concat(message.as_str());
                match detail {
                    Some(more) => head.concat(" - ").concat(more.as_str()),
                    None => head,
                }
            },
            Error::RemoteMalformed { error, error_description } => {
                "Other genius error: ".to_owned().concat(error.as_str()).concat(" - ").concat(
                    error_description.as_str(),
                )
            },
            Error::RateLimited => "Genius client error: rate limited".to_owned(),
            Error::Transport(cause) => "Transport error: ".to_owned().concat(cause.as_str()),
            Error::ResourcesExhausted => "Server resources exhausted".to_owned(),
        }
    }
}

impl From<ClientFailure> for Error {
    fn from(failure: ClientFailure) -> (e: Error) {
        match failure {
            ClientFailure::RateLimited => Error::RateLimited,
            ClientFailure::General(cause) => Error::Transport(cause),
        }
    }
}

impl FromSpecImpl<ClientFailure> for Error {
    open spec fn obeys_from_spec() -> bool {
        true
    }

    open spec fn from_spec(failure: ClientFailure) -> Error {
        failure_error(failure)
    }
}

} // verus!
