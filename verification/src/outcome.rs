//! HTTP status classes and the terminal outcome of a request.

use vstd::prelude::*;

verus! {

/// The status that asks for fresh credentials.
pub const UNAUTHORIZED: u16 = 401;

/// 2xx.
pub open spec fn is_success(status: u16) -> bool {
    200 <= status < 300
}

/// 4xx.
pub open spec fn is_client_error(status: u16) -> bool {
    400 <= status < 500
}

/// 5xx.
pub open spec fn is_server_error(status: u16) -> bool {
    500 <= status < 600
}

/// Why a multipart body could not be built.
#[derive(Clone, Copy, Debug, PartialEq, Eq, Structural)]
pub enum BuildError {
    /// A file to attach could not be retrieved.
    AttachmentFetch,
    /// A JSON field has no representation as a text part.
    UnsupportedField,
}

/// What one try of a request produced.
#[derive(Clone, Copy, Debug, PartialEq, Eq, Structural)]
pub enum Attempt {
    /// The server answered with this status.
    Response(u16),
    /// The call could not be made or did not complete.
    TransportError,
    /// The body could not be built; nothing was sent.
    BuildError(BuildError),
}

/// Why a request failed for good.
#[derive(Clone, Copy, Debug, PartialEq, Eq, Structural)]
pub enum Failure {
    /// Transport errors until the retries ran out.
    Transport,
    /// Server errors until the retries ran out; the last status.
    Server(u16),
    /// A 4xx status other than 401.
    Client(u16),
    /// A 401 that no refresh may follow.
    AuthExpired,
    /// The login or refresh call itself failed.
    RefreshFailed,
    /// A file to attach could not be retrieved.
    AttachmentFetch,
    /// A JSON field has no representation as a text part.
    UnsupportedField,
    /// Any other status outside 2xx.
    Status(u16),
}

/// The terminal outcome of one request.
#[derive(Clone, Copy, Debug, PartialEq, Eq, Structural)]
pub enum Outcome {
    Success(u16),
    Failure(Failure),
}

/// The outcome that a last attempt stands for.
pub open spec fn outcome_of(last: Attempt) -> Outcome {
    match last {
        Attempt::Response(status) => if is_success(status) {
            Outcome::Success(status)
        } else if status == UNAUTHORIZED {
            Outcome::Failure(Failure::AuthExpired)
        } else if is_client_error(status) {
            Outcome::Failure(Failure::Client(status))
        } else if is_server_error(status) {
            Outcome::Failure(Failure::Server(status))
        } else {
            Outcome::Failure(Failure::Status(status))
        },
        Attempt::TransportError => Outcome::Failure(Failure::Transport),
        Attempt::BuildError(BuildError::AttachmentFetch) => Outcome::Failure(
            Failure::AttachmentFetch,
        ),
        Attempt::BuildError(BuildError::UnsupportedField) => Outcome::Failure(
            Failure::UnsupportedField,
        ),
    }
}

/// Whether a status is 2xx.
pub fn status_is_success(status: u16) -> (yes: bool)
    ensures
        yes == is_success(status),
{
    200 <= status && status < 300
}

/// Whether a status is 4xx.
pub fn status_is_client_error(status: u16) -> (yes: bool)
    ensures
        yes == is_client_error(status),
{
    400 <= status && status < 500
}

/// Whether a status is 5xx.
pub fn status_is_server_error(status: u16) -> (yes: bool)
    ensures
        yes == is_server_error(status),
{
    500 <= status && status < 600
}

impl Outcome {
    /// Turns the last attempt of a request into its outcome.
    pub fn from_attempt(last: Attempt) -> (outcome: Outcome)
        ensures
            outcome == outcome_of(last),
    {
        match last {
            Attempt::Response(status) => {
                if status_is_success(status) {
                    Outcome::Success(status)
                } else if status == UNAUTHORIZED {
                    Outcome::Failure(Failure::AuthExpired)
                } else if status_is_client_error(status) {
                    Outcome::Failure(Failure::Client(status))
                } else if status_is_server_error(status) {
                    Outcome::Failure(Failure::Server(status))
                } else {
                    Outcome::Failure(Failure::Status(status))
                }
            },
            Attempt::TransportError => Outcome::Failure(Failure::Transport),
            Attempt::BuildError(BuildError::AttachmentFetch) => Outcome::Failure(
                Failure::AttachmentFetch,
            ),
            Attempt::BuildError(BuildError::UnsupportedField) => Outcome::Failure(
                Failure::UnsupportedField,
            ),
        }
    }

    /// Whether the request succeeded.
    pub fn is_success(&self) -> (yes: bool)
        ensures
            yes == (*self is Success),
    {
        match self {
            Outcome::Success(_) => true,
            Outcome::Failure(_) => false,
        }
    }
}

} // verus!
