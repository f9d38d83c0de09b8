use vstd::prelude::*;

verus! {

/// A registered identity. Identifiers are 128-bit values (the canonical
/// hyphenated hexadecimal text form is produced by `crate::ids`); timestamps
/// are seconds. The password hash never leaves the account store: the outward
/// shape of an identity is `UserProfile`, which has no hash field.
#[derive(Debug)]
pub struct User {
    pub id: u128,
    pub username: String,
    pub email: String,
    pub password_hash: String,
    pub display_name: Option<String>,
    pub bio: Option<String>,
    pub avatar_url: Option<String>,
    pub followers_count: i32,
    pub following_count: i32,
    pub posts_count: i32,
    pub is_verified: bool,
    pub is_active: bool,
    pub created_at: u64,
    pub updated_at: u64,
}

/// The outward view of an identity: every field of `User` except the email
/// and the password hash.
#[derive(Debug)]
pub struct UserProfile {
    pub id: u128,
    pub username: String,
    pub display_name: Option<String>,
    pub bio: Option<String>,
    pub avatar_url: Option<String>,
    pub followers_count: i32,
    pub following_count: i32,
    pub posts_count: i32,
    pub is_verified: bool,
    pub created_at: u64,
}

/// Registration request: the field rules are checked by `crate::validate`.
#[derive(Debug)]
pub struct CreateUser {
    pub username: String,
    pub email: String,
    pub password: String,
    pub display_name: Option<String>,
}

/// Login request.
#[derive(Debug)]
pub struct LoginUser {
    pub username: String,
    pub password: String,
}

/// A stored post. Its like count always equals the number of `Like` rows
/// that reference it (the content store's invariant).
#[derive(Debug)]
pub struct Post {
    pub id: u128,
    pub user_id: u128,
    pub content: String,
    pub image_url: Option<String>,
    pub likes_count: i32,
    pub comments_count: i32,
    pub created_at: u64,
    pub updated_at: u64,
}

/// A feed row: a post joined with its author's display fields and, when a
/// viewer is given, whether that viewer has liked it.
#[derive(Debug)]
pub struct PostWithUser {
    pub id: u128,
    pub user_id: u128,
    pub username: String,
    pub display_name: Option<String>,
    pub avatar_url: Option<String>,
    pub content: String,
    pub image_url: Option<String>,
    pub likes_count: i32,
    pub comments_count: i32,
    pub created_at: u64,
    pub is_liked: Option<bool>,
}

/// Post creation request.
#[derive(Debug)]
pub struct CreatePost {
    pub content: String,
    pub image_url: Option<String>,
}

/// A like relation row: at most one per (identity, post) pair, and the sole
/// source of truth for "identity X likes post Y".
#[derive(Clone, Copy, PartialEq, Eq, Structural)]
pub struct Like {
    pub user_id: u128,
    pub post_id: u128,
}

/// The standard response envelope.
pub struct ApiResponse<T> {
    pub success: bool,
    pub data: Option<T>,
    pub message: String,
}

impl<T> ApiResponse<T> {
    pub fn success(data: T, message: &str) -> (r: Self)
        ensures
            r.success == true,
            r.data == Some(data),
            r.message@ == message@,
    {
        Self { success: true, data: Some(data), message: message.to_owned() }
    }

    pub fn error(message: &str) -> (r: Self)
        ensures
            r.success == false,
            r.data is None,
            r.message@ == message@,
    {
        Self { success: false, data: None, message: message.to_owned() }
    }
}

/// What a successful registration or login returns: a bearer token and the
/// outward profile.
#[derive(Debug)]
pub struct AuthResponse {
    pub token: String,
    pub user: UserProfile,
}

/// A direct message between two identities.
#[derive(Debug)]
pub struct Message {
    pub id: u128,
    pub sender_id: u128,
    pub receiver_id: u128,
    pub content: String,
    pub is_read: bool,
    pub created_at: u64,
}

/// A request to send a direct message.
#[derive(Debug)]
pub struct SendMessage {
    pub receiver_id: u128,
    pub content: String,
}

/// Clones an optional string field exactly.
pub fn clone_opt(o: &Option<String>) -> (r: Option<String>)
    ensures
        r == *o,
{
    match o {
        Some(s) => Some(s.clone()),
        None => None,
    }
}

impl Clone for User {
    fn clone(&self) -> (r: Self)
        ensures
            r == *self,
    {
        User {
            id: self.id,
            username: self.username.clone(),
            email: self.email.clone(),
            password_hash: self.password_hash.clone(),
            display_name: clone_opt(&self.display_name),
            bio: clone_opt(&self.bio),
            avatar_url: clone_opt(&self.avatar_url),
            followers_count: self.followers_count,
            following_count: self.following_count,
            posts_count: self.posts_count,
            is_verified: self.is_verified,
            is_active: self.is_active,
            created_at: self.created_at,
            updated_at: self.updated_at,
        }
    }
}

impl Clone for Post {
    fn clone(&self) -> (r: Self)
        ensures
            r == *self,
    {
        Post {
            id: self.id,
            user_id: self.user_id,
            content: self.content.clone(),
            image_url: clone_opt(&self.image_url),
            likes_count: self.likes_count,
            comments_count: self.comments_count,
            created_at: self.created_at,
            updated_at: self.updated_at,
        }
    }
}

/// The outward profile carried by `u`: every field but the email and the
/// password hash, which are never exposed.
pub open spec fn profile_of(u: User) -> UserProfile {
    UserProfile {
        id: u.id,
        username: u.username,
        display_name: u.display_name,
        bio: u.bio,
        avatar_url: u.avatar_url,
        followers_count: u.followers_count,
        following_count: u.following_count,
        posts_count: u.posts_count,
        is_verified: u.is_verified,
        created_at: u.created_at,
    }
}

impl From<User> for UserProfile {
    fn from(u: User) -> (r: Self)
    {
        UserProfile {
            id: u.id,
            username: u.username,
            display_name: u.display_name,
            bio: u.bio,
            avatar_url: u.avatar_url,
            followers_count: u.followers_count,
            following_count: u.following_count,
            posts_count: u.posts_count,
            is_verified: u.is_verified,
            created_at: u.created_at,
        }
    }
}

impl vstd::std_specs::convert::FromSpecImpl<User> for UserProfile {
    open spec fn obeys_from_spec() -> bool {
        true
    }

    open spec fn from_spec(u: User) -> Self {
        profile_of(u)
    }
}

} // verus!
