use vstd::prelude::*;

use crate::auth::{
    bcrypt_matches, bcrypt_parses, hash_password, jwt_claims_of, jwt_of, verify_password,
    JwtService,
};
use crate::errors::ApiError;
use crate::ids::uuid_str;
use crate::middleware::AuthUser;
use crate::models::{
    AuthResponse, CreatePost, CreateUser, LoginUser, Post, PostWithUser, User, UserProfile,
};
use crate::models::profile_of;
use crate::store::{
    cap, create_post_step, feed_spec, has_active_username, has_user_with_id, page,
    register_conflict, toggle_step, has_post_with_id, has_like, Store,
};
use crate::validate::{
    spec_valid_create_post, spec_valid_create_user, validate_create_post, validate_create_user,
};

verus! {

/// Feed pagination parameters as they arrive from the query string.
pub struct FeedQuery {
    pub limit: Option<i64>,
    pub offset: Option<i64>,
}

/// The page bound actually applied: the requested limit, defaulting to 20,
/// and capped at 50 whatever was asked.
pub open spec fn effective_limit(q: FeedQuery) -> int {
    let l: int = match q.limit {
        Some(l) => l as int,
        None => 20,
    };
    if l > 50 {
        50
    } else {
        l
    }
}

pub open spec fn effective_offset(q: FeedQuery) -> int {
    match q.offset {
        Some(o) => o as int,
        None => 0,
    }
}

/// Registration: field validation, then uniqueness check, password hashing
/// and persistence in one unit, then a signed token over the new identity.
/// The returned profile carries no password hash, and the returned token
/// verifies back to the new identity's claims. On every error the store is
/// untouched; once validation and the uniqueness check pass, only a failure
/// of the hashing subsystem's entropy source can stop success.
pub fn register(store: &mut Store, jwt: &JwtService, data: &CreateUser, now: u64) -> (r: Result<
    AuthResponse,
    ApiError,
>)
    requires
        old(store).wf(),
        now + 86400 <= u64::MAX,
    ensures
        final(store).wf(),
        (r == Err::<AuthResponse, ApiError>(ApiError::ValidationFailure)) <==> !spec_valid_create_user(
            *data,
        ),
        (spec_valid_create_user(*data) && register_conflict(old(store).users@, *data)) ==> r
            == Err::<AuthResponse, ApiError>(ApiError::Conflict),
        r == Err::<AuthResponse, ApiError>(ApiError::Conflict) ==> register_conflict(
            old(store).users@,
            *data,
        ),
        (spec_valid_create_user(*data) && !register_conflict(old(store).users@, *data) && old(
            store,
        ).users@.len() < cap() && old(store).next_id < u128::MAX) ==> (r is Ok || r == Err::<
            AuthResponse,
            ApiError,
        >(ApiError::InternalFailure)),
        r matches Err(e) ==> (*final(store) == *old(store) && (e == ApiError::ValidationFailure
            || e == ApiError::Conflict || e == ApiError::StorageFailure || e
            == ApiError::InternalFailure)),
        r matches Ok(a) ==> ({
            let u = final(store).users@.last();
            &&& spec_valid_create_user(*data)
            &&& !register_conflict(old(store).users@, *data)
            &&& final(store).users@ == old(store).users@.push(u)
            &&& final(store).posts@ == old(store).posts@
            &&& final(store).likes@ == old(store).likes@
            &&& u.id == old(store).next_id
            &&& u.username == data.username
            &&& u.email == data.email
            &&& u.display_name == data.display_name
            &&& u.is_active
            &&& u.posts_count == 0
            &&& u.created_at == now
            &&& bcrypt_matches(data.password@, u.password_hash@)
            &&& bcrypt_parses(u.password_hash@)
            &&& a.user == profile_of(u)
            &&& a.token@ == jwt_of(
                uuid_str(u.id),
                u.username@,
                (now + 86400) as u64,
                now,
                jwt.spec_secret(),
            )
            &&& jwt_claims_of(a.token@, jwt.spec_secret()) == Some(
                (uuid_str(u.id), u.username@, (now + 86400) as u64, now),
            )
        }),
{
    match validate_create_user(data) {
        Ok(()) => {},
        Err(e) => {
            return Err(e);
        },
    }
    if store.find_by_username(data.username.as_str()).is_some() {
        return Err(ApiError::Conflict);
    }
    if store.find_by_email(data.email.as_str()).is_some() {
        return Err(ApiError::Conflict);
    }
    let hash = match hash_password(data.password.as_str()) {
        Ok(h) => h,
        Err(e) => {
            return Err(e);
        },
    };
    let user = match store.insert_user(data, hash, now) {
        Ok(u) => u,
        Err(e) => {
            return Err(e);
        },
    };
    let token = match jwt.generate_token(user.id, user.username.as_str(), now) {
        Ok(t) => t,
        Err(e) => {
            return Err(e);
        },
    };
    Ok(AuthResponse { token, user: UserProfile::from(user) })
}

/// Whether the store holds an active identity under `username` whose stored
/// hash parses and accepts `password`: exactly the credentials that login
/// honors.
pub open spec fn login_accepts(users: Seq<User>, username: Seq<char>, password: Seq<char>) -> bool {
    exists|i: int|
        0 <= i < users.len() && ({
            let u = #[trigger] users[i];
            &&& u.is_active
            &&& u.username@ == username
            &&& bcrypt_parses(u.password_hash@)
            &&& bcrypt_matches(password, u.password_hash@)
        })
}

/// Login: look the username up among active identities, verify the supplied
/// password against the stored hash, and issue a token. It succeeds exactly
/// on an accepted credential; every failure — unknown username, wrong
/// password, or a stored hash the codec cannot read — is the same uniform
/// `Unauthenticated` value, so callers cannot probe which identities exist.
pub fn login(store: &Store, jwt: &JwtService, data: &LoginUser, now: u64) -> (r: Result<
    AuthResponse,
    ApiError,
>)
    requires
        store.wf(),
        now + 86400 <= u64::MAX,
    ensures
        (r is Ok) <==> login_accepts(store.users@, data.username@, data.password@),
        r matches Err(e) ==> e == ApiError::Unauthenticated,
        r matches Ok(a) ==> exists|i: int|
            0 <= i < store.users@.len() && ({
                let u = #[trigger] store.users@[i];
                &&& u.is_active
                &&& u.username@ == data.username@
                &&& bcrypt_parses(u.password_hash@)
                &&& bcrypt_matches(data.password@, u.password_hash@)
                &&& a.user == profile_of(u)
                &&& a.token@ == jwt_of(
                    uuid_str(u.id),
                    u.username@,
                    (now + 86400) as u64,
                    now,
                    jwt.spec_secret(),
                )
                &&& jwt_claims_of(a.token@, jwt.spec_secret()) == Some(
                    (uuid_str(u.id), u.username@, (now + 86400) as u64, now),
                )
            }),
{
    let user = match store.find_by_username(data.username.as_str()) {
        Some(u) => u,
        None => {
            proof {
                assert(!login_accepts(store.users@, data.username@, data.password@));
            }
            return Err(ApiError::Unauthenticated);
        },
    };
    let ok = match verify_password(data.password.as_str(), user.password_hash.as_str()) {
        Ok(b) => b,
        Err(_) => false,
    };
    proof {
        let j = choose|j: int| 0 <= j < store.users@.len() && store.users@[j] == user;
        assert(store.users@[j] == user);
        if !ok {
            assert forall|i: int|
                0 <= i < store.users@.len() && (#[trigger] store.users@[i]).is_active
                    && store.users@[i].username@ == data.username@ implies !(bcrypt_parses(
                store.users@[i].password_hash@,
            ) && bcrypt_matches(data.password@, store.users@[i].password_hash@)) by {
                if i != j {
                    assert(store.users@[i].username@ != store.users@[j].username@);
                } else {
                    assert(store.users@[i] == user);
                }
            }
        }
    }
    if !ok {
        return Err(ApiError::Unauthenticated);
    }
    let token = match jwt.generate_token(user.id, user.username.as_str(), now) {
        Ok(t) => t,
        Err(e) => {
            return Err(e);
        },
    };
    Ok(AuthResponse { token, user: UserProfile::from(user) })
}

/// Profile lookup by username, restricted to active identities; the outward
/// shape never carries the password hash.
pub fn get_user_profile(store: &Store, username: &str) -> (r: Result<UserProfile, ApiError>)
    ensures
        username@.len() == 0 ==> r == Err::<UserProfile, ApiError>(ApiError::ValidationFailure),
        username@.len() > 0 ==> ((r is Ok) <==> has_active_username(store.users@, username@)),
        r matches Ok(p) ==> exists|i: int|
            0 <= i < store.users@.len() && ({
                let u = #[trigger] store.users@[i];
                u.is_active && u.username@ == username@ && p == profile_of(u)
            }),
        username@.len() > 0 ==> (r matches Err(e) ==> e == ApiError::NotFound),
{
    if username.unicode_len() == 0 {
        return Err(ApiError::ValidationFailure);
    }
    match store.find_by_username(username) {
        Some(u) => {
            proof {
                let i = choose|i: int| 0 <= i < store.users@.len() && store.users@[i] == u;
                assert(store.users@[i] == u);
            }
            Ok(UserProfile::from(u))
        },
        None => Err(ApiError::NotFound),
    }
}

/// Post creation for an authenticated identity: content validation, then the
/// store's atomic insert-and-count unit.
pub fn create_post(store: &mut Store, auth: &AuthUser, data: &CreatePost, now: u64) -> (r: Result<
    Post,
    ApiError,
>)
    requires
        old(store).wf(),
    ensures
        final(store).wf(),
        (r == Err::<Post, ApiError>(ApiError::ValidationFailure)) <==> !spec_valid_create_post(
            *data,
        ),
        !spec_valid_create_post(*data) ==> *final(store) == *old(store),
        spec_valid_create_post(*data) ==> ((r is Ok) <==> (has_user_with_id(
            old(store).users@,
            auth.id,
        ) && old(store).posts@.len() < cap() && old(store).next_id < u128::MAX)),
        spec_valid_create_post(*data) ==> match r {
            Ok(p) => create_post_step(*old(store), *final(store), auth.id, *data, p, now),
            Err(e) => {
                &&& *final(store) == *old(store)
                &&& (e == ApiError::ValidationFailure || e == ApiError::NotFound || e
                    == ApiError::StorageFailure)
            },
        },
{
    match validate_create_post(data) {
        Ok(()) => {},
        Err(e) => {
            return Err(e);
        },
    }
    store.create_post(auth.id, data, now)
}

/// Like toggling for an authenticated identity: the store's atomic
/// flip-and-count unit.
pub fn toggle_like(store: &mut Store, auth: &AuthUser, post_id: u128) -> (r: Result<
    bool,
    ApiError,
>)
    requires
        old(store).wf(),
    ensures
        final(store).wf(),
        r is Ok <==> (has_post_with_id(old(store).posts@, post_id) && has_user_with_id(
            old(store).users@,
            auth.id,
        ) && (has_like(old(store).likes@, auth.id, post_id) || old(store).likes@.len() < cap())),
        match r {
            Ok(liked) => toggle_step(*old(store), *final(store), auth.id, post_id, liked),
            Err(e) => {
                &&& *final(store) == *old(store)
                &&& (e == ApiError::NotFound || e == ApiError::StorageFailure)
            },
        },
{
    store.toggle_like(auth.id, post_id)
}

/// One feed page for an optional viewer: the limit defaults to 20 and is
/// capped at 50 whatever was requested; a negative limit or offset is
/// rejected before touching the store.
pub fn get_feed(store: &Store, viewer: Option<u128>, params: &FeedQuery) -> (r: Result<
    Vec<PostWithUser>,
    ApiError,
>)
    requires
        store.wf(),
    ensures
        (effective_limit(*params) < 0 || effective_offset(*params) < 0) ==> r == Err::<
            Vec<PostWithUser>,
            ApiError,
        >(ApiError::ValidationFailure),
        (effective_limit(*params) >= 0 && effective_offset(*params) >= 0) ==> (r matches Ok(v)
            && v@ == page(
            feed_spec(*store, viewer),
            effective_offset(*params),
            effective_limit(*params),
        ) && v@.len() <= 50),
{
    let lim0: i64 = match params.limit {
        Some(l) => l,
        None => 20,
    };
    let off: i64 = match params.offset {
        Some(o) => o,
        None => 0,
    };
    let lim: i64 = if lim0 > 50 {
        50
    } else {
        lim0
    };
    if lim < 0 || off < 0 {
        return Err(ApiError::ValidationFailure);
    }
    Ok(store.get_feed(viewer, lim, off))
}

} // verus!
