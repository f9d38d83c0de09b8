use vstd::prelude::*;

use crate::errors::ApiError;
use crate::ids::{format_id, uuid_str};

verus! {

// ---------------------------------------------------------------------------
// Credential codec: a slow, salted one-way transform. Hashing draws a random
// salt, so two hashes of one password differ; verification recomputes with
// the salt embedded in the hash and is a deterministic function of
// (password, hash), named `bcrypt_matches`.
// ---------------------------------------------------------------------------
/// Whether bcrypt's recomputation accepts `password` against `hash`: the
/// boolean `bcrypt::verify` answers, which depends on its two arguments
/// alone.
pub uninterp spec fn bcrypt_matches(password: Seq<char>, hash: Seq<char>) -> bool;

/// Whether `bcrypt::verify` answers at all on `hash`: its parsing of the
/// `$2…$cost$salt-and-digest` layout and its cost-range check read the hash
/// alone, so Ok-ness is a function of the hash alone.
pub uninterp spec fn bcrypt_parses(hash: Seq<char>) -> bool;

/// The verification outcome for any (password, hash) pair: the named match
/// predicate when the hash parses, otherwise the codec's failure category.
pub open spec fn spec_verify_password(password: Seq<char>, hash: Seq<char>) -> Result<
    bool,
    ApiError,
> {
    if bcrypt_parses(hash) {
        Ok(bcrypt_matches(password, hash))
    } else {
        Err(ApiError::InternalFailure)
    }
}

/// Relies on `bcrypt::hash`: the returned hash is a well-formed 60-character
/// bcrypt string embedding the fresh salt and the in-range cost, so
/// `bcrypt::verify` parses it, and recomputing with that salt accepts the
/// same password. Fails only on internal failure (the entropy source), never
/// on content.
#[verifier::external_body]
pub fn hash_password(password: &str) -> (r: Result<String, ApiError>)
    ensures
        r matches Ok(h) ==> bcrypt_matches(password@, h@) && bcrypt_parses(h@),
        r matches Err(e) ==> e == ApiError::InternalFailure,
{
    bcrypt::hash(password, bcrypt::DEFAULT_COST).map_err(|_| ApiError::InternalFailure)
}

/// Relies on `bcrypt::verify`: deterministic in (password, hash). It errs
/// exactly when the hash value is malformed (which depends on the hash
/// alone); a mismatch is a `false` answer, not an error.
#[verifier::external_body]
pub fn verify_password(password: &str, hash: &str) -> (r: Result<bool, ApiError>)
    ensures
        r == spec_verify_password(password@, hash@),
{
    bcrypt::verify(password, hash).map_err(|_| ApiError::InternalFailure)
}

/// For every (password, hash) pair the codec produced, verification answers
/// `Ok(true)`: a produced hash parses and matches its own password, and the
/// verifier answers exactly the outcome those two named facts determine.
pub proof fn lemma_hash_then_verify(password: Seq<char>, hash: Seq<char>)
    requires
        bcrypt_matches(password, hash),
        bcrypt_parses(hash),
    ensures
        spec_verify_password(password, hash) == Ok::<bool, ApiError>(true),
{
}

// ---------------------------------------------------------------------------
// Token service: signed, time-bounded identity tokens (HS256). The token
// built over given claims and secret is deterministic, named `jwt_of`; what
// a signature check recovers from a token under a secret is deterministic
// too, named `jwt_claims_of`.
// ---------------------------------------------------------------------------
/// The signed token that the HS256 encoder produces for the claim set
/// {sub, username, exp, iat} under `secret`.
pub uninterp spec fn jwt_of(
    sub: Seq<char>,
    username: Seq<char>,
    exp: u64,
    iat: u64,
    secret: Seq<char>,
) -> Seq<char>;

/// The claim set that signature checking under `secret` recovers from
/// `token`: `None` when the encoding is malformed or the signature does not
/// verify.
pub uninterp spec fn jwt_claims_of(token: Seq<char>, secret: Seq<char>) -> Option<
    (Seq<char>, Seq<char>, u64, u64),
>;

/// The structured payload carried inside a token.
#[derive(Debug)]
pub struct Claims {
    pub sub: String,
    pub username: String,
    pub exp: u64,
    pub iat: u64,
}

/// Relies on `jsonwebtoken::encode` with an HS256 header: the output is a
/// function of the claims and the secret alone, and decoding it with the
/// same secret recovers exactly the claims that were encoded. This call
/// cannot fail: the key family matches the header, HMAC signing has no error
/// path, and serializing the fixed header and this string/integer claim map
/// cannot fail either.
#[verifier::external_body]
fn jwt_encode(sub: &str, username: &str, exp: u64, iat: u64, secret: &str) -> (r: Result<
    String,
    ApiError,
>)
    ensures
        r is Ok,
        r matches Ok(t) ==> t@ == jwt_of(sub@, username@, exp, iat, secret@) && jwt_claims_of(
            t@,
            secret@,
        ) == Some((sub@, username@, exp, iat)),
{
    let mut claims = serde_json::Map::new();
    claims.insert("sub".to_string(), serde_json::Value::from(sub));
    claims.insert("username".to_string(), serde_json::Value::from(username));
    claims.insert("exp".to_string(), serde_json::Value::from(exp));
    claims.insert("iat".to_string(), serde_json::Value::from(iat));
    let key = jsonwebtoken::EncodingKey::from_secret(secret.as_bytes());
    jsonwebtoken::encode(
        &jsonwebtoken::Header::default(),
        &serde_json::Value::Object(claims),
        &key,
    ).map_err(|_| ApiError::InternalFailure)
}

/// Relies on `jsonwebtoken::decode` restricted to HS256, with its own expiry
/// check disabled (the service checks expiry itself, against the instant its
/// caller supplies): a deterministic function of token and secret that
/// returns the claim set exactly when the signature verifies and the payload
/// carries subject, username, expiry and issue instants.
#[verifier::external_body]
fn jwt_decode(token: &str, secret: &str) -> (r: Result<(String, String, u64, u64), ApiError>)
    ensures
        match r {
            Ok(c) => jwt_claims_of(token@, secret@) == Some((c.0@, c.1@, c.2, c.3)),
            Err(e) => jwt_claims_of(token@, secret@) is None && e == ApiError::Unauthenticated,
        },
{
    let mut validation = jsonwebtoken::Validation::new(jsonwebtoken::Algorithm::HS256);
    validation.validate_exp = false;
    let key = jsonwebtoken::DecodingKey::from_secret(secret.as_bytes());
    let v = jsonwebtoken::decode::<serde_json::Value>(token, &key, &validation)
        .map_err(|_| ApiError::Unauthenticated)?
        .claims;
    match (v.get("sub").and_then(serde_json::Value::as_str),
           v.get("username").and_then(serde_json::Value::as_str),
           v.get("exp").and_then(serde_json::Value::as_u64),
           v.get("iat").and_then(serde_json::Value::as_u64)) {
        (Some(s), Some(u), Some(e), Some(i)) => Ok((s.to_string(), u.to_string(), e, i)),
        _ => Err(ApiError::Unauthenticated),
    }
}

/// Issues and verifies signed identity tokens under one immutable
/// process-wide secret, injected at construction; rotating the secret
/// invalidates every previously issued token.
pub struct JwtService {
    secret: String,
}

/// The verification outcome at instant `now`: the claims the token carries
/// under `secret`, provided `now` lies strictly before their expiry.
pub open spec fn spec_verify_token(token: Seq<char>, secret: Seq<char>, now: u64) -> Option<
    (Seq<char>, Seq<char>, u64, u64),
> {
    match jwt_claims_of(token, secret) {
        Some(c) => if now < c.2 {
            Some(c)
        } else {
            None
        },
        None => None,
    }
}

impl JwtService {
    pub closed spec fn spec_secret(&self) -> Seq<char> {
        self.secret@
    }

    pub fn new(secret: String) -> (s: Self)
        ensures
            s.spec_secret() == secret@,
    {
        JwtService { secret }
    }

    /// Builds and signs the claim set {subject = canonical id text, username,
    /// issued at `now`, expiry exactly 24 hours later}. A pure function of
    /// its arguments and the secret, and it always succeeds: HS256 signing
    /// has no failure path.
    pub fn generate_token(&self, user_id: u128, username: &str, now: u64) -> (r: Result<
        String,
        ApiError,
    >)
        requires
            now + 86400 <= u64::MAX,
        ensures
            r is Ok,
            r matches Ok(t) ==> t@ == jwt_of(
                uuid_str(user_id),
                username@,
                (now + 86400) as u64,
                now,
                self.spec_secret(),
            ) && jwt_claims_of(t@, self.spec_secret()) == Some(
                (uuid_str(user_id), username@, (now + 86400) as u64, now),
            ),
    {
        let sub = format_id(user_id);
        jwt_encode(sub.as_str(), username, now + 86400, now, self.secret.as_str())
    }

    /// Checks the signature and that `now` lies strictly before the expiry.
    /// Does not consult the account store: claims are honored for the
    /// token's full lifetime once issued.
    pub fn verify_token(&self, token: &str, now: u64) -> (r: Result<Claims, ApiError>)
        ensures
            (r is Ok) == (spec_verify_token(token@, self.spec_secret(), now) is Some),
            r matches Ok(c) ==> spec_verify_token(token@, self.spec_secret(), now) == Some(
                (c.sub@, c.username@, c.exp, c.iat),
            ) && now < c.exp,
            r matches Err(e) ==> e == ApiError::Unauthenticated,
    {
        let parts = match jwt_decode(token, self.secret.as_str()) {
            Ok(c) => c,
            Err(e) => {
                return Err(e);
            },
        };
        let (sub, username, exp, iat) = parts;
        if now < exp {
            Ok(Claims { sub, username, exp, iat })
        } else {
            Err(ApiError::Unauthenticated)
        }
    }
}

/// A token issued at `now` carries subject `uuid_str(id)`, the username, and
/// an expiry exactly 24 hours later; verifying it succeeds with exactly
/// those claims at every instant strictly before the expiry, and fails from
/// the expiry instant on.
pub proof fn lemma_issue_then_verify(
    token: Seq<char>,
    secret: Seq<char>,
    id: u128,
    username: Seq<char>,
    now: u64,
    at: u64,
)
    requires
        now + 86400 <= u64::MAX,
        jwt_claims_of(token, secret) == Some(
            (uuid_str(id), username, (now + 86400) as u64, now),
        ),
    ensures
        at < now + 86400 ==> spec_verify_token(token, secret, at) == Some(
            (uuid_str(id), username, (now + 86400) as u64, now),
        ),
        at >= now + 86400 ==> spec_verify_token(token, secret, at) is None,
{
}

} // verus!
