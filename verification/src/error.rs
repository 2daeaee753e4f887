//! The layered failure taxonomy and the presenter: the single, total
//! rendering of any failure to a client-visible status and body.
//!
//! Only client-caused failures (a malformed payload, an unmatched route,
//! a domain validation) expose their detail; everything unclassified —
//! repository, transport, command failures — renders a fixed generic body
//! at status 500, so no internal detail ever leaks to the client.

use vstd::prelude::*;
use crate::auth::AuthError;
use crate::msg::Error as MsgError;
use crate::msg::ErrorModel as MsgErrorModel;

verus! {

/// An opaque failure of the persistence layer. Its detail is for the
/// server-side log only and is never shown to a client.
#[derive(Debug)]
pub enum RepositoryError {
    Backend(String),
}

/// Mathematical image of [`RepositoryError`].
pub enum RepositoryErrorModel {
    Backend(Seq<char>),
}

impl RepositoryError {
    pub open spec fn model(&self) -> RepositoryErrorModel {
        match self {
            RepositoryError::Backend(d) => RepositoryErrorModel::Backend(d@),
        }
    }
}

/// Failures of commands. No command can fail yet; the one variant stands
/// in until a real failure exists, and renders as an unclassified error.
#[derive(Clone, Copy, Debug, PartialEq, Eq, Structural)]
pub enum CommandError {
    Unspecified,
}

/// Domain failures of the get-user use case.
#[derive(Clone, Copy, Debug, PartialEq, Eq, Structural)]
pub enum GetUserError {
    NotFoundUser,
}

/// Domain failures of the create-user use case.
#[derive(Debug)]
pub enum CreateUserError {
    InvalidName(String),
    InvalidEmail(String),
    InvalidRole(String),
    AlreadyExistsUser,
}

/// Mathematical image of [`CreateUserError`].
pub enum CreateUserErrorModel {
    InvalidName(Seq<char>),
    InvalidEmail(Seq<char>),
    InvalidRole(Seq<char>),
    AlreadyExistsUser,
}

impl CreateUserError {
    pub open spec fn model(&self) -> CreateUserErrorModel {
        match self {
            CreateUserError::InvalidName(d) => CreateUserErrorModel::InvalidName(d@),
            CreateUserError::InvalidEmail(d) => CreateUserErrorModel::InvalidEmail(d@),
            CreateUserError::InvalidRole(d) => CreateUserErrorModel::InvalidRole(d@),
            CreateUserError::AlreadyExistsUser => CreateUserErrorModel::AlreadyExistsUser,
        }
    }
}

/// Domain failures of the create-like use case.
#[derive(Clone, Copy, Debug, PartialEq, Eq, Structural)]
pub enum CreateLikeError {
    AlreadyExistsLike,
}

/// Domain failures of the delete-like use case.
#[derive(Clone, Copy, Debug, PartialEq, Eq, Structural)]
pub enum DeleteLikeError {
    NotFoundLike,
}

/// One sub-variant per use case, each a union of that use case's domain
/// failures.
#[derive(Debug)]
pub enum UseCaseError {
    GetUser(GetUserError),
    CreateUser(CreateUserError),
    CreateLike(CreateLikeError),
    DeleteLike(DeleteLikeError),
}

/// Mathematical image of [`UseCaseError`].
pub enum UseCaseErrorModel {
    GetUser(GetUserError),
    CreateUser(CreateUserErrorModel),
    CreateLike(CreateLikeError),
    DeleteLike(DeleteLikeError),
}

impl UseCaseError {
    pub open spec fn model(&self) -> UseCaseErrorModel {
        match self {
            UseCaseError::GetUser(e) => UseCaseErrorModel::GetUser(*e),
            UseCaseError::CreateUser(e) => UseCaseErrorModel::CreateUser(e.model()),
            UseCaseError::CreateLike(e) => UseCaseErrorModel::CreateLike(*e),
            UseCaseError::DeleteLike(e) => UseCaseErrorModel::DeleteLike(*e),
        }
    }
}

/// The whole failure union: everything a request can fail with, from any
/// layer.
#[derive(Debug)]
pub enum Error {
    Msg(MsgError),
    Command(CommandError),
    UseCase(UseCaseError),
    Repository(RepositoryError),
    Payload(String),
    Auth(AuthError),
    Transport(String),
}

/// Mathematical image of [`Error`].
pub enum ErrorModel {
    Msg(MsgErrorModel),
    Command,
    UseCase(UseCaseErrorModel),
    Repository(RepositoryErrorModel),
    Payload(Seq<char>),
    Auth(AuthError),
    Transport(Seq<char>),
}

impl Error {
    pub open spec fn model(&self) -> ErrorModel {
        match self {
            Error::Msg(e) => ErrorModel::Msg(e.model()),
            Error::Command(_) => ErrorModel::Command,
            Error::UseCase(e) => ErrorModel::UseCase(e.model()),
            Error::Repository(e) => ErrorModel::Repository(e.model()),
            Error::Payload(d) => ErrorModel::Payload(d@),
            Error::Auth(e) => ErrorModel::Auth(*e),
            Error::Transport(d) => ErrorModel::Transport(d@),
        }
    }
}

/// The status an error renders to. An explicit table: the same logical
/// condition maps to different statuses depending on the layer that raised
/// it.
pub open spec fn spec_status(e: ErrorModel) -> u16 {
    match e {
        ErrorModel::Msg(MsgErrorModel::NotFound) => 404,
        ErrorModel::Msg(MsgErrorModel::JsonDeserializePayload(_)) => 400,
        ErrorModel::Payload(_) => 400,
        ErrorModel::UseCase(u) => match u {
            UseCaseErrorModel::CreateUser(CreateUserErrorModel::InvalidName(_)) => 400,
            UseCaseErrorModel::CreateUser(CreateUserErrorModel::InvalidEmail(_)) => 400,
            UseCaseErrorModel::CreateUser(CreateUserErrorModel::InvalidRole(_)) => 400,
            UseCaseErrorModel::CreateUser(CreateUserErrorModel::AlreadyExistsUser) => 409,
            UseCaseErrorModel::GetUser(GetUserError::NotFoundUser) => 404,
            UseCaseErrorModel::CreateLike(CreateLikeError::AlreadyExistsLike) => 409,
            UseCaseErrorModel::DeleteLike(DeleteLikeError::NotFoundLike) => 404,
        },
        ErrorModel::Auth(AuthError::InvalidCredentials) => 401,
        ErrorModel::Auth(AuthError::InsufficientPrivilege) => 403,
        ErrorModel::Repository(_) => 500,
        ErrorModel::Transport(_) => 500,
        ErrorModel::Command => 500,
    }
}

/// The body an error renders to. Client-caused failures carry their
/// detail (behind a fixed fallback, so a body is never empty); everything
/// unclassified renders the generic message.
pub open spec fn spec_body(e: ErrorModel) -> Seq<char> {
    match e {
        ErrorModel::Msg(MsgErrorModel::NotFound) => "Not found"@,
        ErrorModel::Msg(MsgErrorModel::JsonDeserializePayload(d)) => if d.len() == 0 {
            "Json deserialize"@
        } else {
            d
        },
        ErrorModel::Payload(d) => if d.len() == 0 {
            "Bad request"@
        } else {
            d
        },
        ErrorModel::UseCase(u) => match u {
            UseCaseErrorModel::CreateUser(CreateUserErrorModel::InvalidName(d)) => (
            "Invalid name: "@ + d),
            UseCaseErrorModel::CreateUser(CreateUserErrorModel::InvalidEmail(d)) => (
            "Invalid email: "@ + d),
            UseCaseErrorModel::CreateUser(CreateUserErrorModel::InvalidRole(d)) => (
            "Invalid role: "@ + d),
            UseCaseErrorModel::CreateUser(CreateUserErrorModel::AlreadyExistsUser) => (
            "Already exist user"@),
            UseCaseErrorModel::GetUser(GetUserError::NotFoundUser) => "Not found user"@,
            UseCaseErrorModel::CreateLike(CreateLikeError::AlreadyExistsLike) => (
            "Already exists like"@),
            UseCaseErrorModel::DeleteLike(DeleteLikeError::NotFoundLike) => "Not found like"@,
        },
        ErrorModel::Auth(AuthError::InvalidCredentials) => "Unauthorized"@,
        ErrorModel::Auth(AuthError::InsufficientPrivilege) => "Forbidden"@,
        ErrorModel::Repository(_) => "Internal server error"@,
        ErrorModel::Transport(_) => "Internal server error"@,
        ErrorModel::Command => "Internal server error"@,
    }
}

impl Error {
    /// Renders the failure as its client-visible response: the status from
    /// the explicit table, and the body with internal detail gated out.
    pub fn to_http(self) -> (r: (u16, String))
        ensures
            r.0 == spec_status(self.model()),
            r.1@ == spec_body(self.model()),
    {
        match self {
            Error::Msg(MsgError::NotFound) => (404, String::from_str("Not found")),
            Error::Msg(MsgError::JsonDeserializePayload(d)) => {
                if d.as_str().unicode_len() == 0 {
                    (400, String::from_str("Json deserialize"))
                } else {
                    (400, d)
                }
            },
            Error::Payload(d) => {
                if d.as_str().unicode_len() == 0 {
                    (400, String::from_str("Bad request"))
                } else {
                    (400, d)
                }
            },
            Error::UseCase(UseCaseError::CreateUser(CreateUserError::InvalidName(d))) => {
                let mut b = String::from_str("Invalid name: ");
                b.append(d.as_str());
                (400, b)
            },
            Error::UseCase(UseCaseError::CreateUser(CreateUserError::InvalidEmail(d))) => {
                let mut b = String::from_str("Invalid email: ");
                b.append(d.as_str());
                (400, b)
            },
            Error::UseCase(UseCaseError::CreateUser(CreateUserError::InvalidRole(d))) => {
                let mut b = String::from_str("Invalid role: ");
                b.append(d.as_str());
                (400, b)
            },
            Error::UseCase(UseCaseError::CreateUser(CreateUserError::AlreadyExistsUser)) => (
                409,
                String::from_str("Already exist user"),
            ),
            Error::UseCase(UseCaseError::GetUser(GetUserError::NotFoundUser)) => (
                404,
                String::from_str("Not found user"),
            ),
            Error::UseCase(UseCaseError::CreateLike(CreateLikeError::AlreadyExistsLike)) => (
                409,
                String::from_str("Already exists like"),
            ),
            Error::UseCase(UseCaseError::DeleteLike(DeleteLikeError::NotFoundLike)) => (
                404,
                String::from_str("Not found like"),
            ),
            Error::Auth(AuthError::InvalidCredentials) => (401, String::from_str("Unauthorized")),
            Error::Auth(AuthError::InsufficientPrivilege) => (403, String::from_str("Forbidden")),
            Error::Repository(_) => (500, String::from_str("Internal server error")),
            Error::Transport(_) => (500, String::from_str("Internal server error")),
            Error::Command(_) => (500, String::from_str("Internal server error")),
        }
    }
}

/// The presenter is total: every constructible failure value maps to
/// exactly one of the six statuses, and its body is never empty.
pub proof fn lemma_presenter_total(e: ErrorModel)
    ensures
        spec_status(e) == 400 || spec_status(e) == 401 || spec_status(e) == 403 || spec_status(e)
            == 404 || spec_status(e) == 409 || spec_status(e) == 500,
        spec_body(e).len() > 0,
{
    reveal_strlit("Not found");
    reveal_strlit("Json deserialize");
    reveal_strlit("Bad request");
    reveal_strlit("Invalid name: ");
    reveal_strlit("Invalid email: ");
    reveal_strlit("Invalid role: ");
    reveal_strlit("Already exist user");
    reveal_strlit("Not found user");
    reveal_strlit("Already exists like");
    reveal_strlit("Not found like");
    reveal_strlit("Unauthorized");
    reveal_strlit("Forbidden");
    reveal_strlit("Internal server error");
}

} // verus!
