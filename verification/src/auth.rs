//! The auth gate: given what the external identity collaborator reported
//! about the two credential cookies, decide whether the request is
//! authorized against a required role, and whether a freshly issued token
//! pair must be attached to the response (rotation).
//!
//! Verifying a token (a network round trip) is the collaborator's work and
//! happens outside this library; its outcome arrives here as a
//! [`TokenCheck`] value, together with the pair the collaborator would
//! issue on rotation. The decision itself — privilege level, subject
//! binding, and when to rotate — is decided here.

use vstd::prelude::*;
use crate::entity::user::UserRole;

verus! {

/// What the identity collaborator asserts about the caller once a token
/// has been verified.
#[derive(Clone, Debug)]
pub struct Claims {
    pub user_id: String,
    pub role: UserRole,
}

/// Mathematical image of [`Claims`].
pub struct ClaimsModel {
    pub user_id: Seq<char>,
    pub role: UserRole,
}

impl Claims {
    pub open spec fn model(&self) -> ClaimsModel {
        ClaimsModel { user_id: self.user_id@, role: self.role }
    }
}

/// The outcome of verifying one token: either the claims it carries, or
/// invalid (absent, malformed, expired, revoked — all alike here).
#[derive(Clone, Debug)]
pub enum TokenCheck {
    Valid(Claims),
    Invalid,
}

/// Mathematical image of [`TokenCheck`].
pub enum TokenCheckModel {
    Valid(ClaimsModel),
    Invalid,
}

impl TokenCheck {
    pub open spec fn model(&self) -> TokenCheckModel {
        match self {
            TokenCheck::Valid(c) => TokenCheckModel::Valid(c.model()),
            TokenCheck::Invalid => TokenCheckModel::Invalid,
        }
    }
}

/// A freshly issued access/refresh pair, produced only on rotation; it is
/// attached to the outgoing response as cookies and never persisted here.
#[derive(Clone, Debug)]
pub struct TokenPair {
    pub access: String,
    pub refresh: String,
}

/// Mathematical image of [`TokenPair`].
pub struct TokenPairModel {
    pub access: Seq<char>,
    pub refresh: Seq<char>,
}

impl TokenPair {
    pub open spec fn model(&self) -> TokenPairModel {
        TokenPairModel { access: self.access@, refresh: self.refresh@ }
    }
}

/// A required role: a minimum privilege level, and optionally a subject the
/// caller's identity must equal.
#[derive(Clone, Debug)]
pub enum RoleRequirement {
    Normal(Option<String>),
    Developer(Option<String>),
}

/// Mathematical image of [`RoleRequirement`].
pub enum RoleRequirementModel {
    Normal(Option<Seq<char>>),
    Developer(Option<Seq<char>>),
}

impl RoleRequirement {
    pub open spec fn model(&self) -> RoleRequirementModel {
        match self {
            RoleRequirement::Normal(s) => RoleRequirementModel::Normal(s.deep_view()),
            RoleRequirement::Developer(s) => RoleRequirementModel::Developer(s.deep_view()),
        }
    }
}

impl RoleRequirementModel {
    /// The minimum privilege level the requirement asks for.
    pub open spec fn level(self) -> UserRole {
        match self {
            RoleRequirementModel::Normal(_) => UserRole::Normal,
            RoleRequirementModel::Developer(_) => UserRole::Developer,
        }
    }

    /// The subject the caller must equal, if the requirement binds one.
    pub open spec fn subject(self) -> Option<Seq<char>> {
        match self {
            RoleRequirementModel::Normal(s) => s,
            RoleRequirementModel::Developer(s) => s,
        }
    }
}

/// An authorization failure: either the credentials never identified a
/// caller, or they did but the caller lacks the required privilege or is
/// not the bound subject.
#[derive(Clone, Copy, Debug, PartialEq, Eq, Structural)]
pub enum AuthError {
    InvalidCredentials,
    InsufficientPrivilege,
}

/// Whether claims satisfy a requirement: the caller's level is at least the
/// required one, and the caller is the bound subject when one is bound.
pub open spec fn spec_satisfies(c: ClaimsModel, req: RoleRequirementModel) -> bool {
    &&& c.role.spec_at_least(req.level())
    &&& match req.subject() {
        Some(s) => c.user_id == s,
        None => true,
    }
}

/// The auth gate's whole decision:
/// - a valid access token that satisfies the requirement succeeds with no
///   rotation;
/// - an invalid access token with a valid, sufficient refresh token
///   succeeds and rotates, returning the freshly issued pair;
/// - an identified caller that falls short of the requirement fails with
///   `InsufficientPrivilege`;
/// - otherwise the credentials are invalid or absent: `InvalidCredentials`.
pub open spec fn spec_check_and_refresh(
    access: TokenCheckModel,
    refresh: TokenCheckModel,
    issued: TokenPairModel,
    req: RoleRequirementModel,
) -> Result<(ClaimsModel, Option<TokenPairModel>), AuthError> {
    match access {
        TokenCheckModel::Valid(c) => if spec_satisfies(c, req) {
            Ok((c, None))
        } else {
            Err(AuthError::InsufficientPrivilege)
        },
        TokenCheckModel::Invalid => match refresh {
            TokenCheckModel::Valid(c) => if spec_satisfies(c, req) {
                Ok((c, Some(issued)))
            } else {
                Err(AuthError::InsufficientPrivilege)
            },
            TokenCheckModel::Invalid => Err(AuthError::InvalidCredentials),
        },
    }
}

fn satisfies(c: &Claims, req: &RoleRequirement) -> (r: bool)
    ensures
        r == spec_satisfies(c.model(), req.model()),
{
    let (level, subject) = match req {
        RoleRequirement::Normal(s) => (UserRole::Normal, s),
        RoleRequirement::Developer(s) => (UserRole::Developer, s),
    };
    if !c.role.at_least(level) {
        return false;
    }
    match subject {
        Some(s) => c.user_id == *s,
        None => true,
    }
}

/// Runs the auth gate on the reported outcomes of the two tokens.
pub fn check_and_refresh(
    access: TokenCheck,
    refresh: TokenCheck,
    issued: TokenPair,
    req: &RoleRequirement,
) -> (r: Result<(Claims, Option<TokenPair>), AuthError>)
    ensures
        (match r {
            Ok((c, rot)) => {
                let m = spec_check_and_refresh(access.model(), refresh.model(), issued.model(),
                    req.model());
                m matches Ok(p) && p.0 == c.model() && (match rot {
                    Some(t) => p.1 == Some(t.model()),
                    None => p.1 is None,
                })
            },
            Err(e) => spec_check_and_refresh(access.model(), refresh.model(), issued.model(),
                req.model()) == Err::<(ClaimsModel, Option<TokenPairModel>), AuthError>(e),
        }),
{
    match access {
        TokenCheck::Valid(c) => {
            if satisfies(&c, req) {
                Ok((c, None))
            } else {
                Err(AuthError::InsufficientPrivilege)
            }
        },
        TokenCheck::Invalid => match refresh {
            TokenCheck::Valid(c) => {
                if satisfies(&c, req) {
                    Ok((c, Some(issued)))
                } else {
                    Err(AuthError::InsufficientPrivilege)
                }
            },
            TokenCheck::Invalid => Err(AuthError::InvalidCredentials),
        },
    }
}

/// Token rotation heals a request: an invalid access token beside a valid,
/// sufficient refresh token succeeds, and the freshly issued pair is
/// returned so the caller can attach it to the response.
pub proof fn lemma_rotation_succeeds(
    c: ClaimsModel,
    issued: TokenPairModel,
    req: RoleRequirementModel,
)
    requires
        spec_satisfies(c, req),
    ensures
        spec_check_and_refresh(TokenCheckModel::Invalid, TokenCheckModel::Valid(c), issued, req)
            == Ok::<(ClaimsModel, Option<TokenPairModel>), AuthError>((c, Some(issued))),
{
}

/// When both tokens are invalid the auth gate never identifies a caller: it
/// fails with `InvalidCredentials`, whatever the requirement.
pub proof fn lemma_both_invalid_fails(issued: TokenPairModel, req: RoleRequirementModel)
    ensures
        spec_check_and_refresh(TokenCheckModel::Invalid, TokenCheckModel::Invalid, issued, req)
            == Err::<(ClaimsModel, Option<TokenPairModel>), AuthError>(
            AuthError::InvalidCredentials,
        ),
{
}

} // verus!
