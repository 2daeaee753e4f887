use user_entry::auth::{AuthError, Claims, TokenCheck, TokenPair};
use user_entry::entity::user::{User, UserRole};
use user_entry::error::Error;
use user_entry::msg::{needs_body, Error as MsgError, Method, Msg, Wrap};
use user_entry::payload::CreateUserPayload;

fn claims(user_id: &str, role: UserRole) -> Claims {
    Claims { user_id: user_id.to_owned(), role }
}

fn issued() -> TokenPair {
    TokenPair { access: "new-at".to_owned(), refresh: "new-rt".to_owned() }
}

#[test]
fn post_users_with_developer_token_resolves_to_create_user() {
    let body = "{\"name\":\"a\",\"email\":\"a@b.com\",\"role\":1}";
    let (msg, rotation) = Msg::http(
        Method::Post,
        "/users",
        TokenCheck::Valid(claims("dev-1", UserRole::Developer)),
        TokenCheck::Invalid,
        issued(),
        body,
    )
    .unwrap();
    let expected = CreateUserPayload {
        name: "a".to_owned(),
        email: "a@b.com".to_owned(),
        role: 1,
    };
    assert_eq!(msg, Msg::CreateUser(expected));
    assert!(rotation.is_none());
}

#[test]
fn post_users_with_normal_token_is_insufficient_privilege() {
    let body = "{\"name\":\"a\",\"email\":\"a@b.com\",\"role\":1}";
    let r = Msg::http(
        Method::Post,
        "/users",
        TokenCheck::Valid(claims("u-1", UserRole::Normal)),
        TokenCheck::Invalid,
        issued(),
        body,
    );
    assert!(matches!(r, Err(Error::Auth(AuthError::InsufficientPrivilege))));
}

#[test]
fn post_users_with_bad_body_is_a_payload_failure() {
    let r = Msg::http(
        Method::Post,
        "/users",
        TokenCheck::Valid(claims("dev-1", UserRole::Developer)),
        TokenCheck::Invalid,
        issued(),
        "not json",
    );
    match r {
        Err(Error::Msg(MsgError::JsonDeserializePayload(d))) => assert!(!d.is_empty()),
        other => panic!("expected a payload failure, got {other:?}"),
    }
}

#[test]
fn get_me_resolves_to_the_callers_identity() {
    let (msg, rotation) = Msg::http(
        Method::Get,
        "/users/@me",
        TokenCheck::Valid(claims("user-7", UserRole::Normal)),
        TokenCheck::Invalid,
        issued(),
        "",
    )
    .unwrap();
    match msg {
        Msg::GetUser(p) => assert_eq!(p.id_or_email, "user-7".to_owned()),
        other => panic!("expected a get-user message, got {other:?}"),
    }
    assert!(rotation.is_none());
}

#[test]
fn get_user_by_own_id_resolves() {
    let (msg, _) = Msg::http(
        Method::Get,
        "/users/user-7",
        TokenCheck::Valid(claims("user-7", UserRole::Normal)),
        TokenCheck::Invalid,
        issued(),
        "",
    )
    .unwrap();
    match msg {
        Msg::GetUser(p) => assert_eq!(p.id_or_email, "user-7".to_owned()),
        other => panic!("expected a get-user message, got {other:?}"),
    }
}

#[test]
fn get_user_by_other_id_is_a_subject_mismatch() {
    let r = Msg::http(
        Method::Get,
        "/users/other-id",
        TokenCheck::Valid(claims("user-7", UserRole::Normal)),
        TokenCheck::Invalid,
        issued(),
        "",
    );
    assert!(matches!(r, Err(Error::Auth(AuthError::InsufficientPrivilege))));
}

#[test]
fn unknown_path_is_route_not_found_and_renders_404() {
    let r = Msg::http(
        Method::Get,
        "/unknown/path",
        TokenCheck::Valid(claims("user-7", UserRole::Normal)),
        TokenCheck::Invalid,
        issued(),
        "",
    );
    match r {
        Err(e) => {
            assert!(matches!(e, Error::Msg(MsgError::NotFound)));
            let (status, body) = e.to_http();
            assert_eq!(status, 404);
            assert_eq!(body, "Not found".to_owned());
        },
        Ok(_) => panic!("an unknown path must not resolve"),
    }
}

#[test]
fn unknown_method_is_route_not_found() {
    let r = Msg::http(
        Method::Other,
        "/users",
        TokenCheck::Valid(claims("dev-1", UserRole::Developer)),
        TokenCheck::Invalid,
        issued(),
        "",
    );
    assert!(matches!(r, Err(Error::Msg(MsgError::NotFound))));
}

#[test]
fn rotation_heals_an_expired_access_token() {
    let (msg, rotation) = Msg::http(
        Method::Get,
        "/users/@me",
        TokenCheck::Invalid,
        TokenCheck::Valid(claims("user-7", UserRole::Normal)),
        issued(),
        "",
    )
    .unwrap();
    assert!(matches!(msg, Msg::GetUser(_)));
    let pair = rotation.expect("rotation must return the issued pair");
    assert_eq!(pair.access, "new-at".to_owned());
    assert_eq!(pair.refresh, "new-rt".to_owned());
}

#[test]
fn both_tokens_invalid_is_invalid_credentials() {
    let r = Msg::http(
        Method::Get,
        "/users/@me",
        TokenCheck::Invalid,
        TokenCheck::Invalid,
        issued(),
        "",
    );
    assert!(matches!(r, Err(Error::Auth(AuthError::InvalidCredentials))));
}

#[test]
fn insufficient_refresh_token_does_not_rotate() {
    let r = Msg::http(
        Method::Post,
        "/users",
        TokenCheck::Invalid,
        TokenCheck::Valid(claims("u-1", UserRole::Normal)),
        issued(),
        "{\"name\":\"a\",\"email\":\"a@b.com\",\"role\":1}",
    );
    assert!(matches!(r, Err(Error::Auth(AuthError::InsufficientPrivilege))));
}

#[test]
fn only_the_body_route_needs_the_body() {
    assert!(needs_body(Method::Post, "/users"));
    assert!(!needs_body(Method::Get, "/users/@me"));
    assert!(!needs_body(Method::Get, "/users/abc"));
    assert!(!needs_body(Method::Get, "/unknown/path"));
}

#[test]
fn resolution_is_deterministic_on_equal_inputs() {
    let run = || {
        Msg::http(
            Method::Get,
            "/users/@me",
            TokenCheck::Valid(claims("user-7", UserRole::Normal)),
            TokenCheck::Invalid,
            issued(),
            "",
        )
    };
    let a = run().unwrap();
    let b = run().unwrap();
    assert_eq!(a.0, b.0);
    assert!(a.1.is_none() && b.1.is_none());
}

#[test]
fn wrap_hands_its_payload_back() {
    let w = Wrap(CreateUserPayload { name: "n".to_owned(), email: "e".to_owned(), role: 0 });
    assert_eq!(w.inner().name, "n".to_owned());
}

#[test]
fn new_users_keep_their_profile_and_get_a_fresh_identifier() {
    let u = User::new("a".to_owned(), "a@b.com".to_owned(), UserRole::Normal);
    assert_eq!(u.name, "a".to_owned());
    assert_eq!(u.email, "a@b.com".to_owned());
    assert!(matches!(u.role, UserRole::Normal));
    assert_eq!(u.created_at, u.updated_at);
    assert_eq!(u.id.len(), 36);
    let v = User::new("b".to_owned(), "b@c.com".to_owned(), UserRole::Developer);
    assert_ne!(u.id, v.id);
}

#[test]
fn role_codes_round_trip_and_order() {
    assert_eq!(UserRole::Normal.code(), 0);
    assert_eq!(UserRole::Developer.code(), 1);
    assert_eq!(UserRole::from_code(0).code(), 0);
    assert_eq!(UserRole::from_code(1).code(), 1);
    assert!(UserRole::Developer.at_least(UserRole::Normal));
    assert!(!UserRole::Normal.at_least(UserRole::Developer));
}
