use vstd::prelude::*;

use crate::errors::ApiError;
use crate::models::{CreatePost, CreateUser};

verus! {

// Field rules checked before any request touches storage. The rules are this
// boundary's own, documented choices: usernames are 3 to 30 characters,
// passwords at least 8, display names at most 100, post content 1 to 500,
// and an email must carry an `@` strictly inside it.
pub open spec fn spec_valid_username(s: Seq<char>) -> bool {
    3 <= s.len() <= 30
}

pub open spec fn spec_valid_email(s: Seq<char>) -> bool {
    exists|i: int| 0 < i < s.len() - 1 && s[i] == '@'
}

pub open spec fn spec_valid_password(s: Seq<char>) -> bool {
    s.len() >= 8
}

pub open spec fn spec_valid_display_name(o: Option<String>) -> bool {
    match o {
        Some(s) => s@.len() <= 100,
        None => true,
    }
}

pub open spec fn spec_valid_create_user(d: CreateUser) -> bool {
    &&& spec_valid_username(d.username@)
    &&& spec_valid_email(d.email@)
    &&& spec_valid_password(d.password@)
    &&& spec_valid_display_name(d.display_name)
}

pub open spec fn spec_valid_create_post(d: CreatePost) -> bool {
    1 <= d.content@.len() <= 500
}

/// Whether `s` carries an `@` somewhere strictly inside (neither first nor
/// last character).
fn has_inner_at(s: &str) -> (r: bool)
    ensures
        r == spec_valid_email(s@),
{
    let n = s.unicode_len();
    if n < 3 {
        return false;
    }
    let mut i: usize = 1;
    while i < n - 1
        invariant
            1 <= i <= n - 1,
            n == s@.len(),
            3 <= n,
            forall|k: int| 0 < k < i ==> s@[k] != '@',
        decreases n - i,
    {
        if s.get_char(i) == '@' {
            return true;
        }
        i += 1;
    }
    false
}

/// Rejects a registration request whose fields break the boundary's rules,
/// before any storage or hashing work happens.
pub fn validate_create_user(data: &CreateUser) -> (r: Result<(), ApiError>)
    ensures
        r is Ok <==> spec_valid_create_user(*data),
        r matches Err(e) ==> e == ApiError::ValidationFailure,
{
    let ul = data.username.as_str().unicode_len();
    if ul < 3 || ul > 30 {
        return Err(ApiError::ValidationFailure);
    }
    if !has_inner_at(data.email.as_str()) {
        return Err(ApiError::ValidationFailure);
    }
    if data.password.as_str().unicode_len() < 8 {
        return Err(ApiError::ValidationFailure);
    }
    match &data.display_name {
        Some(d) => {
            if d.as_str().unicode_len() > 100 {
                return Err(ApiError::ValidationFailure);
            }
        },
        None => {},
    }
    Ok(())
}

/// Rejects a post whose content is empty or oversized.
pub fn validate_create_post(data: &CreatePost) -> (r: Result<(), ApiError>)
    ensures
        r is Ok <==> spec_valid_create_post(*data),
        r matches Err(e) ==> e == ApiError::ValidationFailure,
{
    let cl = data.content.as_str().unicode_len();
    if cl < 1 || cl > 500 {
        return Err(ApiError::ValidationFailure);
    }
    Ok(())
}

} // verus!
