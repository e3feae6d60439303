//! Identity resolution and authorization.
//!
//! The outbound user-info call to the identity provider is a network
//! operation made by the surrounding program; it hands the outcome in as a
//! plain value — either the claims the provider returned or the reason no
//! claims arrived — and every decision taken on that outcome is made, and
//! proved, here.  Decisions are taken freshly per request: nothing of a
//! past allow or deny is kept, so revocation takes effect promptly.
use crate::util::Secret;
use vstd::prelude::*;

verus! {

/// Why a user-info lookup at the identity provider yielded no claims.
#[derive(Clone, Copy, PartialEq, Eq, Structural, Debug)]
pub enum LookupError {
    /// The provider rejected the credential.
    Rejected,
    /// The provider could not be reached, or the call timed out.
    Unavailable,
}

/// What the identity provider returned for a credential: the canonical
/// preferred username, if the provider stated one, and the groups the
/// user belongs to.
pub struct UserClaims {
    pub preferred_username: Option<Secret>,
    pub groups: Vec<String>,
}

/// Per-request resolver failures; each is reduced to a generic denial on
/// the wire and detailed only in server-side logs.
#[derive(Clone, Copy, PartialEq, Eq, Structural, Debug)]
pub enum AuthError {
    /// The provider rejected the presented credential.
    InvalidCredential,
    /// The provider returned claims without a preferred username.
    MissingClaim,
    /// The provider was unreachable or timed out.
    UpstreamUnavailable,
}

/// Outcome of the authorization check.
#[derive(Clone, Copy, PartialEq, Eq, Structural, Debug)]
pub enum Authorization {
    /// The user belongs to at least one authorized group.
    Allowed,
    /// The claims arrived but name no authorized group.
    Forbidden,
    /// No claims arrived; the cause, never shown to the client.
    Failed(AuthError),
}

/// The resolver error a failed lookup maps to.
pub open spec fn spec_auth_error(e: LookupError) -> AuthError {
    match e {
        LookupError::Rejected => AuthError::InvalidCredential,
        LookupError::Unavailable => AuthError::UpstreamUnavailable,
    }
}

/// The character sequences of a list of group names.
pub open spec fn group_views(v: Vec<String>) -> Seq<Seq<char>> {
    Seq::new(v@.len(), |i: int| v@[i]@)
}

/// Whether any name in `groups` also occurs in `allowed`.
pub open spec fn spec_any_group_allowed(groups: Seq<Seq<char>>, allowed: Seq<Seq<char>>) -> bool {
    exists|i: int, j: int|
        0 <= i < groups.len() && 0 <= j < allowed.len() && groups[i] == allowed[j]
}

/// The resolver that bridges a bearer credential to an identity and an
/// authorization decision.  It holds the statically configured set of
/// authorized groups; the provider metadata discovery that the
/// surrounding program performs at startup must have succeeded for a
/// value of this type to exist at all.
pub struct OidcService {
    authorized_groups: Vec<String>,
}

impl OidcService {
    /// The configured authorized group names.
    pub closed spec fn allowed_groups(self) -> Seq<Seq<char>> {
        group_views(self.authorized_groups)
    }

    /// A resolver allowing exactly the given groups.
    pub fn new(authorized_groups: Vec<String>) -> (r: OidcService)
        ensures
            r.allowed_groups() == group_views(authorized_groups),
    {
        OidcService { authorized_groups }
    }

    /// Resolves a lookup outcome to the canonical identity: the
    /// provider's preferred-username claim.  An identity names a person
    /// and is never empty, so claims that carry no username — or an empty
    /// one — fail with `MissingClaim`; a failed lookup maps to its
    /// resolver error.  The identity comes out scrubbed-on-drop.
    pub fn load_username(&self, lookup: &Result<UserClaims, LookupError>) -> (r: Result<
        Secret,
        AuthError,
    >)
        ensures
            match *lookup {
                Ok(claims) => match claims.preferred_username {
                    Some(u) => if u@.len() == 0 {
                        r == Err::<Secret, AuthError>(AuthError::MissingClaim)
                    } else {
                        match r {
                            Ok(name) => name@ == u@,
                            Err(_) => false,
                        }
                    },
                    None => r == Err::<Secret, AuthError>(AuthError::MissingClaim),
                },
                Err(e) => r == Err::<Secret, AuthError>(spec_auth_error(e)),
            },
            match r {
                Ok(name) => name@.len() > 0,
                Err(_) => true,
            },
    {
        match lookup {
            Ok(claims) => match &claims.preferred_username {
                Some(u) => {
                    if u.expose().as_str().is_empty() {
                        Err(AuthError::MissingClaim)
                    } else {
                        Ok(u.duplicate())
                    }
                },
                None => Err(AuthError::MissingClaim),
            },
            Err(e) => Err(auth_error_of(*e)),
        }
    }

    /// Decides authorization from a lookup outcome: allowed exactly when
    /// the claims arrived and name at least one configured authorized
    /// group.  Nothing is cached across requests.
    pub fn is_allowed(&self, lookup: &Result<UserClaims, LookupError>) -> (r: Authorization)
        ensures
            match *lookup {
                Ok(claims) => r == (if spec_any_group_allowed(
                    group_views(claims.groups),
                    self.allowed_groups(),
                ) {
                    Authorization::Allowed
                } else {
                    Authorization::Forbidden
                }),
                Err(e) => r == Authorization::Failed(spec_auth_error(e)),
            },
    {
        match lookup {
            Ok(claims) => {
                if self.any_group_matches(&claims.groups) {
                    Authorization::Allowed
                } else {
                    Authorization::Forbidden
                }
            },
            Err(e) => Authorization::Failed(auth_error_of(*e)),
        }
    }

    /// Whether any of `groups` is an authorized group.
    fn any_group_matches(&self, groups: &Vec<String>) -> (r: bool)
        ensures
            r == spec_any_group_allowed(group_views(*groups), self.allowed_groups()),
    {
        let mut i: usize = 0;
        while i < groups.len()
            invariant
                i <= groups@.len(),
                forall|a: int, b: int|
                    0 <= a < i && 0 <= b < self.authorized_groups@.len() ==> group_views(
                        *groups,
                    )[a] != self.allowed_groups()[b],
            decreases groups@.len() - i,
        {
            let mut j: usize = 0;
            while j < self.authorized_groups.len()
                invariant
                    i < groups@.len(),
                    j <= self.authorized_groups@.len(),
                    forall|b: int|
                        0 <= b < j ==> group_views(*groups)[i as int] != self.allowed_groups()[b],
                decreases self.authorized_groups@.len() - j,
            {
                if groups[i] == self.authorized_groups[j] {
                    proof {
                        assert(group_views(*groups)[i as int] == self.allowed_groups()[j as int]);
                    }
                    return true;
                }
                j = j + 1;
            }
            i = i + 1;
        }
        false
    }
}

/// The resolver error corresponding to a failed lookup.
pub fn auth_error_of(e: LookupError) -> (r: AuthError)
    ensures
        r == spec_auth_error(e),
{
    match e {
        LookupError::Rejected => AuthError::InvalidCredential,
        LookupError::Unavailable => AuthError::UpstreamUnavailable,
    }
}

} // verus!
