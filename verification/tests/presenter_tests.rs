use user_entry::auth::AuthError;
use user_entry::error::{
    CommandError, CreateLikeError, CreateUserError, DeleteLikeError, Error, GetUserError,
    RepositoryError, UseCaseError,
};
use user_entry::msg::Error as MsgError;

const STATUSES: [u16; 6] = [400, 401, 403, 404, 409, 500];

fn present(e: Error) -> (u16, String) {
    let (status, body) = e.to_http();
    assert!(STATUSES.contains(&status));
    assert!(!body.is_empty());
    (status, body)
}

#[test]
fn route_not_found_is_404_not_found() {
    let (status, body) = present(Error::Msg(MsgError::NotFound));
    assert_eq!(status, 404);
    assert_eq!(body, "Not found".to_owned());
}

#[test]
fn payload_failures_are_400_with_their_detail() {
    let (status, body) = present(Error::Msg(MsgError::JsonDeserializePayload("bad".to_owned())));
    assert_eq!((status, body), (400, "bad".to_owned()));
    let (status, body) = present(Error::Payload("odd".to_owned()));
    assert_eq!((status, body), (400, "odd".to_owned()));
}

#[test]
fn empty_detail_still_renders_a_body() {
    let (status, body) = present(Error::Msg(MsgError::JsonDeserializePayload(String::new())));
    assert_eq!(status, 400);
    assert!(!body.is_empty());
    let (status, body) = present(Error::Payload(String::new()));
    assert_eq!(status, 400);
    assert!(!body.is_empty());
}

#[test]
fn create_user_validation_is_400_with_detail() {
    let (status, body) =
        present(Error::UseCase(UseCaseError::CreateUser(CreateUserError::InvalidName("n".to_owned()))));
    assert_eq!((status, body), (400, "Invalid name: n".to_owned()));
    let (status, _) =
        present(Error::UseCase(UseCaseError::CreateUser(CreateUserError::InvalidEmail("e".to_owned()))));
    assert_eq!(status, 400);
    let (status, _) =
        present(Error::UseCase(UseCaseError::CreateUser(CreateUserError::InvalidRole("7".to_owned()))));
    assert_eq!(status, 400);
}

#[test]
fn domain_conflicts_and_absences_keep_their_layer_statuses() {
    let (status, body) =
        present(Error::UseCase(UseCaseError::CreateUser(CreateUserError::AlreadyExistsUser)));
    assert_eq!((status, body), (409, "Already exist user".to_owned()));
    let (status, body) =
        present(Error::UseCase(UseCaseError::GetUser(GetUserError::NotFoundUser)));
    assert_eq!((status, body), (404, "Not found user".to_owned()));
    let (status, _) =
        present(Error::UseCase(UseCaseError::CreateLike(CreateLikeError::AlreadyExistsLike)));
    assert_eq!(status, 409);
    let (status, _) =
        present(Error::UseCase(UseCaseError::DeleteLike(DeleteLikeError::NotFoundLike)));
    assert_eq!(status, 404);
}

#[test]
fn auth_failures_distinguish_401_from_403() {
    let (status, _) = present(Error::Auth(AuthError::InvalidCredentials));
    assert_eq!(status, 401);
    let (status, _) = present(Error::Auth(AuthError::InsufficientPrivilege));
    assert_eq!(status, 403);
}

#[test]
fn unclassified_failures_are_500_and_leak_no_detail() {
    let secret = "connection to db-host failed".to_owned();
    let (status, body) = present(Error::Repository(RepositoryError::Backend(secret.clone())));
    assert_eq!(status, 500);
    assert_eq!(body, "Internal server error".to_owned());
    let (status, body) = present(Error::Transport(secret));
    assert_eq!(status, 500);
    assert!(!body.contains("db-host"));
    let (status, _) = present(Error::Command(CommandError::Unspecified));
    assert_eq!(status, 500);
}
