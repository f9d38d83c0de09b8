use vstd::prelude::*;

use crate::auth::{spec_verify_token, JwtService};
use crate::errors::ApiError;
use crate::auth::jwt_claims_of;
use crate::ids::{lemma_uuid_round_trip, parse_id, uuid_parse_spec, uuid_str};
use crate::text::str_eq;

verus! {

/// The authenticated identity recovered from a request: taken directly from
/// the token's claims, without consulting the account store.
#[derive(Debug)]
pub struct AuthUser {
    pub id: u128,
    pub username: String,
}

/// Why a request carried no usable identity. All three collapse to the
/// uniform `Unauthenticated` category outward.
#[derive(Clone, Copy, Debug, PartialEq, Eq, Structural)]
pub enum AuthRejection {
    /// No `Authorization` header, or one of another scheme.
    MissingToken,
    /// The token's signature, encoding or expiry failed verification.
    InvalidToken,
    /// The token verified but its subject is no identity-id text.
    MalformedToken,
}

impl AuthRejection {
    pub fn to_error(&self) -> (r: ApiError)
        ensures
            r == ApiError::Unauthenticated,
    {
        ApiError::Unauthenticated
    }
}

pub open spec fn header_view(header: Option<&str>) -> Option<Seq<char>> {
    match header {
        Some(h) => Some(h@),
        None => None,
    }
}

/// The bearer credential carried by an `Authorization` header value: the
/// text after the case-sensitive prefix `Bearer `, if the header is present
/// and uses that scheme.
pub open spec fn spec_bearer_token(header: Option<Seq<char>>) -> Option<Seq<char>> {
    match header {
        Some(h) => if h.len() >= 7 && h.subrange(0, 7) == "Bearer "@ {
            Some(h.skip(7))
        } else {
            None
        },
        None => None,
    }
}

/// Extracts the bearer credential from the `Authorization` header value;
/// a missing header or any other scheme counts as no credential supplied.
pub fn extract_token_from_header(header: Option<&str>) -> (r: Option<String>)
    ensures
        match r {
            Some(t) => spec_bearer_token(header_view(header)) == Some(t@),
            None => spec_bearer_token(header_view(header)) is None,
        },
{
    let h = match header {
        Some(h) => h,
        None => {
            return None;
        },
    };
    let n = h.unicode_len();
    if n < 7 {
        return None;
    }
    let prefix = h.substring_char(0, 7);
    if !str_eq(prefix, "Bearer ") {
        return None;
    }
    let rest = h.substring_char(7, n).to_owned();
    proof {
        assert(rest@ =~= h@.skip(7));
    }
    Some(rest)
}

/// The full resolution outcome for a request at instant `now`: extraction,
/// token verification, then parsing the subject as an identity id.
pub open spec fn spec_resolve(header: Option<Seq<char>>, secret: Seq<char>, now: u64) -> Result<
    (u128, Seq<char>),
    AuthRejection,
> {
    match spec_bearer_token(header) {
        None => Err(AuthRejection::MissingToken),
        Some(token) => match spec_verify_token(token, secret, now) {
            None => Err(AuthRejection::InvalidToken),
            Some(c) => match uuid_parse_spec(c.0) {
                None => Err(AuthRejection::MalformedToken),
                Some(id) => Ok((id, c.1)),
            },
        },
    }
}

/// The required variant of the authorization gate: recovers `{id, username}`
/// from the request's `Authorization` header or says exactly why not.
pub fn authenticate(jwt: &JwtService, header: Option<&str>, now: u64) -> (r: Result<
    AuthUser,
    AuthRejection,
>)
    ensures
        match r {
            Ok(u) => spec_resolve(header_view(header), jwt.spec_secret(), now) == Ok::<
                _,
                AuthRejection,
            >((u.id, u.username@)),
            Err(e) => spec_resolve(header_view(header), jwt.spec_secret(), now) == Err::<
                (u128, Seq<char>),
                _,
            >(e),
        },
{
    let token = match extract_token_from_header(header) {
        Some(t) => t,
        None => {
            return Err(AuthRejection::MissingToken);
        },
    };
    let claims = match jwt.verify_token(token.as_str(), now) {
        Ok(c) => c,
        Err(_) => {
            return Err(AuthRejection::InvalidToken);
        },
    };
    let id = match parse_id(claims.sub.as_str()) {
        Some(i) => i,
        None => {
            return Err(AuthRejection::MalformedToken);
        },
    };
    Ok(AuthUser { id, username: claims.username })
}

/// The optional variant: identical extraction and verification, but a
/// request that carries no credential at all proceeds as "no identity"
/// rather than being rejected. A credential that is present but bad is
/// still rejected.
pub fn authenticate_optional(jwt: &JwtService, header: Option<&str>, now: u64) -> (r: Result<
    Option<AuthUser>,
    AuthRejection,
>)
    ensures
        match r {
            Ok(Some(u)) => spec_resolve(header_view(header), jwt.spec_secret(), now) == Ok::<
                _,
                AuthRejection,
            >((u.id, u.username@)),
            Ok(None) => spec_resolve(header_view(header), jwt.spec_secret(), now) == Err::<
                (u128, Seq<char>),
                _,
            >(AuthRejection::MissingToken),
            Err(e) => spec_resolve(header_view(header), jwt.spec_secret(), now) == Err::<
                (u128, Seq<char>),
                _,
            >(e) && e != AuthRejection::MissingToken,
        },
{
    match authenticate(jwt, header, now) {
        Ok(u) => Ok(Some(u)),
        Err(AuthRejection::MissingToken) => Ok(None),
        Err(e) => Err(e),
    }
}


/// A token issued at `now` for identity `id`, presented as a bearer
/// credential at any instant before its expiry, authenticates as exactly
/// `id` with exactly the username it was issued for: issuing and resolving
/// are mutually inverse while the token lives.
pub proof fn lemma_issue_then_resolve(
    h: Seq<char>,
    token: Seq<char>,
    secret: Seq<char>,
    id: u128,
    username: Seq<char>,
    now: u64,
    at: u64,
)
    requires
        now + 86400 <= u64::MAX,
        at < now + 86400,
        jwt_claims_of(token, secret) == Some(
            (uuid_str(id), username, (now + 86400) as u64, now),
        ),
        h.len() >= 7,
        h.subrange(0, 7) == "Bearer "@,
        h.skip(7) == token,
    ensures
        spec_resolve(Some(h), secret, at) == Ok::<(u128, Seq<char>), AuthRejection>(
            (id, username),
        ),
{
    lemma_uuid_round_trip(id);
}

} // verus!
