use vstd::prelude::*;

use crate::auth::{bcrypt_matches, bcrypt_parses, hash_password};
use crate::errors::ApiError;
use crate::models::{CreatePost, CreateUser, Like, Post, PostWithUser, User};
use crate::text::str_eq;

verus! {

/// Row capacity of each table: a bound far below `i32::MAX`, so that the
/// cached counters (posts per identity, likes per post) always fit their
/// `i32` columns.
pub open spec fn cap() -> int {
    0x4000_0000
}

/// How many like rows reference post `post_id`.
pub open spec fn count_likes(likes: Seq<Like>, post_id: u128) -> nat
    decreases likes.len(),
{
    if likes.len() == 0 {
        0
    } else {
        count_likes(likes.drop_last(), post_id) + (if likes.last().post_id == post_id {
            1nat
        } else {
            0nat
        })
    }
}

/// How many post rows belong to identity `user_id`.
pub open spec fn count_posts_by(posts: Seq<Post>, user_id: u128) -> nat
    decreases posts.len(),
{
    if posts.len() == 0 {
        0
    } else {
        count_posts_by(posts.drop_last(), user_id) + (if posts.last().user_id == user_id {
            1nat
        } else {
            0nat
        })
    }
}

pub open spec fn has_user_with_id(users: Seq<User>, id: u128) -> bool {
    exists|i: int| 0 <= i < users.len() && (#[trigger] users[i]).id == id
}

pub open spec fn has_post_with_id(posts: Seq<Post>, id: u128) -> bool {
    exists|i: int| 0 <= i < posts.len() && (#[trigger] posts[i]).id == id
}

pub open spec fn has_active_username(users: Seq<User>, name: Seq<char>) -> bool {
    exists|i: int|
        0 <= i < users.len() && (#[trigger] users[i]).is_active && users[i].username@ == name
}

pub open spec fn has_active_email(users: Seq<User>, email: Seq<char>) -> bool {
    exists|i: int|
        0 <= i < users.len() && (#[trigger] users[i]).is_active && users[i].email@ == email
}

/// Whether a like row for the pair exists: the sole source of truth for
/// "identity `user_id` likes post `post_id`".
pub open spec fn has_like(likes: Seq<Like>, user_id: u128, post_id: u128) -> bool {
    exists|i: int|
        0 <= i < likes.len() && #[trigger] likes[i] == (Like { user_id, post_id })
}

/// The in-memory relational state: identities, posts and like rows. It is the
/// single authority for ordering; callers serialize access to it, and every
/// mutating operation is one atomic unit (it either completes or leaves the
/// state untouched).
pub struct Store {
    pub users: Vec<User>,
    pub posts: Vec<Post>,
    pub likes: Vec<Like>,
    /// Generator for fresh row identifiers: strictly above every stored id.
    pub next_id: u128,
}

impl Store {
    /// Well-formedness of the identity table: unique ids, username and email
    /// each unique among active identities, ids below the generator, and the
    /// cached posts counter equal to the true number of post rows.
    pub open spec fn users_wf(self) -> bool {
        &&& self.users@.len() <= cap()
        &&& forall|i: int, j: int|
            0 <= i < self.users@.len() && 0 <= j < self.users@.len() && i != j ==> (
            #[trigger] self.users@[i]).id != (#[trigger] self.users@[j]).id
        &&& forall|i: int, j: int|
            0 <= i < self.users@.len() && 0 <= j < self.users@.len() && i != j
                && (#[trigger] self.users@[i]).is_active && (#[trigger] self.users@[j]).is_active
                ==> self.users@[i].username@ != self.users@[j].username@ && self.users@[i].email@
                != self.users@[j].email@
        &&& forall|i: int|
            0 <= i < self.users@.len() ==> (#[trigger] self.users@[i]).id < self.next_id
        &&& forall|i: int|
            0 <= i < self.users@.len() ==> (#[trigger] self.users@[i]).posts_count
                == count_posts_by(self.posts@, self.users@[i].id)
    }

    /// Well-formedness of the post table: unique ids below the generator, an
    /// existing owner row, and the cached like counter equal to the true
    /// number of like rows.
    pub open spec fn posts_wf(self) -> bool {
        &&& self.posts@.len() <= cap()
        &&& forall|i: int, j: int|
            0 <= i < self.posts@.len() && 0 <= j < self.posts@.len() && i != j ==> (
            #[trigger] self.posts@[i]).id != (#[trigger] self.posts@[j]).id
        &&& forall|i: int|
            0 <= i < self.posts@.len() ==> (#[trigger] self.posts@[i]).id < self.next_id
        &&& forall|i: int|
            0 <= i < self.posts@.len() ==> has_user_with_id(
                self.users@,
                (#[trigger] self.posts@[i]).user_id,
            )
        &&& forall|i: int|
            0 <= i < self.posts@.len() ==> (#[trigger] self.posts@[i]).likes_count
                == count_likes(self.likes@, self.posts@[i].id)
    }

    /// Well-formedness of the like table: at most one row per pair, and both
    /// referenced rows exist.
    pub open spec fn likes_wf(self) -> bool {
        &&& self.likes@.len() <= cap()
        &&& forall|i: int, j: int|
            0 <= i < self.likes@.len() && 0 <= j < self.likes@.len() && i != j ==> (
            #[trigger] self.likes@[i]) != (#[trigger] self.likes@[j])
        &&& forall|i: int|
            0 <= i < self.likes@.len() ==> has_user_with_id(
                self.users@,
                (#[trigger] self.likes@[i]).user_id,
            )
        &&& forall|i: int|
            0 <= i < self.likes@.len() ==> has_post_with_id(
                self.posts@,
                (#[trigger] self.likes@[i]).post_id,
            )
    }

    pub open spec fn wf(self) -> bool {
        self.users_wf() && self.posts_wf() && self.likes_wf()
    }

    /// An empty store is well formed.
    pub fn new() -> (s: Store)
        ensures
            s.wf(),
            s.users@.len() == 0,
            s.posts@.len() == 0,
            s.likes@.len() == 0,
    {
        Store { users: Vec::new(), posts: Vec::new(), likes: Vec::new(), next_id: 1 }
    }
}

/// A like row contributes to the count of its own post and to no other.
proof fn lemma_count_likes_push(likes: Seq<Like>, l: Like, post_id: u128)
    ensures
        count_likes(likes.push(l), post_id) == count_likes(likes, post_id) + (if l.post_id
            == post_id {
            1nat
        } else {
            0nat
        }),
{
    assert(likes.push(l).drop_last() =~= likes);
    assert(likes.push(l).last() == l);
}

proof fn lemma_count_posts_push(posts: Seq<Post>, p: Post, user_id: u128)
    ensures
        count_posts_by(posts.push(p), user_id) == count_posts_by(posts, user_id) + (
        if p.user_id == user_id {
            1nat
        } else {
            0nat
        }),
{
    assert(posts.push(p).drop_last() =~= posts);
    assert(posts.push(p).last() == p);
}

proof fn lemma_count_likes_le_len(likes: Seq<Like>, post_id: u128)
    ensures
        count_likes(likes, post_id) <= likes.len(),
    decreases likes.len(),
{
    if likes.len() > 0 {
        lemma_count_likes_le_len(likes.drop_last(), post_id);
    }
}

proof fn lemma_count_posts_le_len(posts: Seq<Post>, user_id: u128)
    ensures
        count_posts_by(posts, user_id) <= posts.len(),
    decreases posts.len(),
{
    if posts.len() > 0 {
        lemma_count_posts_le_len(posts.drop_last(), user_id);
    }
}

/// Removing row `i` takes exactly its own contribution out of the count.
proof fn lemma_count_likes_remove(likes: Seq<Like>, i: int, post_id: u128)
    requires
        0 <= i < likes.len(),
    ensures
        count_likes(likes.remove(i), post_id) + (if likes[i].post_id == post_id {
            1nat
        } else {
            0nat
        }) == count_likes(likes, post_id),
    decreases likes.len(),
{
    if i == likes.len() - 1 {
        assert(likes.remove(i) =~= likes.drop_last());
    } else {
        assert(likes.remove(i).drop_last() =~= likes.drop_last().remove(i));
        assert(likes.remove(i).last() == likes.last());
        lemma_count_likes_remove(likes.drop_last(), i, post_id);
    }
}

/// A row referencing the post witnesses a positive count.
proof fn lemma_count_likes_pos(likes: Seq<Like>, i: int, post_id: u128)
    requires
        0 <= i < likes.len(),
        likes[i].post_id == post_id,
    ensures
        count_likes(likes, post_id) >= 1,
    decreases likes.len(),
{
    if i == likes.len() - 1 {
    } else {
        lemma_count_likes_pos(likes.drop_last(), i, post_id);
    }
}

/// Replaces element `i` of a user table, keeping every other row.
fn set_user(users: &mut Vec<User>, i: usize, u: User)
    requires
        i < old(users).len(),
    ensures
        final(users)@ =~= old(users)@.update(i as int, u),
{
    users.remove(i);
    users.insert(i, u);
}

/// Replaces element `i` of a post table, keeping every other row.
fn set_post(posts: &mut Vec<Post>, i: usize, p: Post)
    requires
        i < old(posts).len(),
    ensures
        final(posts)@ =~= old(posts)@.update(i as int, p),
{
    posts.remove(i);
    posts.insert(i, p);
}

impl Store {
    /// Index of the row holding identity `id`, active or not.
    fn find_user_index(&self, id: u128) -> (r: Option<usize>)
        ensures
            match r {
                Some(i) => i < self.users@.len() && self.users@[i as int].id == id,
                None => !has_user_with_id(self.users@, id),
            },
    {
        let n = self.users.len();
        let mut i: usize = 0;
        while i < n
            invariant
                i <= n,
                n == self.users@.len(),
                forall|k: int| 0 <= k < i ==> (#[trigger] self.users@[k]).id != id,
            decreases n - i,
        {
            if self.users[i].id == id {
                return Some(i);
            }
            i += 1;
        }
        None
    }

    /// Index of the row holding post `id`.
    fn find_post_index(&self, id: u128) -> (r: Option<usize>)
        ensures
            match r {
                Some(i) => i < self.posts@.len() && self.posts@[i as int].id == id,
                None => !has_post_with_id(self.posts@, id),
            },
    {
        let n = self.posts.len();
        let mut i: usize = 0;
        while i < n
            invariant
                i <= n,
                n == self.posts@.len(),
                forall|k: int| 0 <= k < i ==> (#[trigger] self.posts@[k]).id != id,
            decreases n - i,
        {
            if self.posts[i].id == id {
                return Some(i);
            }
            i += 1;
        }
        None
    }

    /// Index of the like row for the pair, if any.
    fn find_like_index(&self, user_id: u128, post_id: u128) -> (r: Option<usize>)
        ensures
            match r {
                Some(i) => i < self.likes@.len() && self.likes@[i as int] == (Like {
                    user_id,
                    post_id,
                }),
                None => !has_like(self.likes@, user_id, post_id),
            },
    {
        let n = self.likes.len();
        let mut i: usize = 0;
        while i < n
            invariant
                i <= n,
                n == self.likes@.len(),
                forall|k: int|
                    0 <= k < i ==> (#[trigger] self.likes@[k]) != (Like { user_id, post_id }),
            decreases n - i,
        {
            if self.likes[i].user_id == user_id && self.likes[i].post_id == post_id {
                return Some(i);
            }
            i += 1;
        }
        None
    }

    /// Looks an identity up by username, restricted to active identities.
    /// Under `wf` at most one row can match, so the result is determined.
    pub fn find_by_username(&self, username: &str) -> (r: Option<User>)
        ensures
            match r {
                Some(u) => u.is_active && u.username@ == username@ && self.users@.contains(u),
                None => !has_active_username(self.users@, username@),
            },
    {
        let n = self.users.len();
        let mut i: usize = 0;
        while i < n
            invariant
                i <= n,
                n == self.users@.len(),
                forall|k: int|
                    0 <= k < i ==> !((#[trigger] self.users@[k]).is_active
                        && self.users@[k].username@ == username@),
            decreases n - i,
        {
            if self.users[i].is_active && str_eq(self.users[i].username.as_str(), username) {
                let u = self.users[i].clone();
                proof {
                    assert(self.users@.contains(u));
                }
                return Some(u);
            }
            i += 1;
        }
        None
    }

    /// Looks an identity up by email, restricted to active identities.
    pub fn find_by_email(&self, email: &str) -> (r: Option<User>)
        ensures
            match r {
                Some(u) => u.is_active && u.email@ == email@ && self.users@.contains(u),
                None => !has_active_email(self.users@, email@),
            },
    {
        let n = self.users.len();
        let mut i: usize = 0;
        while i < n
            invariant
                i <= n,
                n == self.users@.len(),
                forall|k: int|
                    0 <= k < i ==> !((#[trigger] self.users@[k]).is_active && self.users@[k].email@
                        == email@),
            decreases n - i,
        {
            if self.users[i].is_active && str_eq(self.users[i].email.as_str(), email) {
                let u = self.users[i].clone();
                proof {
                    assert(self.users@.contains(u));
                }
                return Some(u);
            }
            i += 1;
        }
        None
    }

    /// Looks an identity up by id, restricted to active identities.
    pub fn find_by_id(&self, id: u128) -> (r: Option<User>)
        ensures
            match r {
                Some(u) => u.is_active && u.id == id && self.users@.contains(u),
                None => !exists|i: int|
                    0 <= i < self.users@.len() && (#[trigger] self.users@[i]).id == id
                        && self.users@[i].is_active,
            },
    {
        let n = self.users.len();
        let mut i: usize = 0;
        while i < n
            invariant
                i <= n,
                n == self.users@.len(),
                forall|k: int|
                    0 <= k < i ==> !((#[trigger] self.users@[k]).id == id
                        && self.users@[k].is_active),
            decreases n - i,
        {
            if self.users[i].is_active && self.users[i].id == id {
                let u = self.users[i].clone();
                proof {
                    assert(self.users@.contains(u));
                }
                return Some(u);
            }
            i += 1;
        }
        None
    }
}

/// Registration is refused exactly when the username or the email already
/// belongs to an active identity.
pub open spec fn register_conflict(users: Seq<User>, data: CreateUser) -> bool {
    has_active_username(users, data.username@) || has_active_email(users, data.email@)
}

/// The identity row created for `data` under generated id `id`, stored
/// password hash `hash`, at time `now`.
pub open spec fn new_user_spec(data: CreateUser, hash: String, id: u128, now: u64) -> User {
    User {
        id,
        username: data.username,
        email: data.email,
        password_hash: hash,
        display_name: data.display_name,
        bio: None,
        avatar_url: None,
        followers_count: 0,
        following_count: 0,
        posts_count: 0,
        is_verified: false,
        is_active: true,
        created_at: now,
        updated_at: now,
    }
}

/// The post row created for `data` under owner `user_id` and generated id
/// `id` at time `now`.
pub open spec fn new_post_spec(user_id: u128, data: CreatePost, id: u128, now: u64) -> Post {
    Post {
        id,
        user_id,
        content: data.content,
        image_url: data.image_url,
        likes_count: 0,
        comments_count: 0,
        created_at: now,
        updated_at: now,
    }
}

impl Store {
    /// Persists a new identity with an already computed password hash. This
    /// is the deterministic half of `create_user`: it succeeds exactly when
    /// neither the username nor the email belongs to an active identity and
    /// the table has room, and on failure the state is untouched.
    pub fn insert_user(&mut self, data: &CreateUser, password_hash: String, now: u64) -> (r:
        Result<User, ApiError>)
        requires
            old(self).wf(),
        ensures
            final(self).wf(),
            r is Ok <==> (!register_conflict(old(self).users@, *data) && old(self).users@.len()
                < cap() && old(self).next_id < u128::MAX),
            match r {
                Ok(u) => {
                    &&& u == new_user_spec(*data, password_hash, old(self).next_id, now)
                    &&& final(self).users@ == old(self).users@.push(u)
                    &&& final(self).posts@ == old(self).posts@
                    &&& final(self).likes@ == old(self).likes@
                    &&& final(self).next_id == old(self).next_id + 1
                },
                Err(e) => {
                    &&& *final(self) == *old(self)
                    &&& (e == ApiError::Conflict <==> register_conflict(old(self).users@, *data))
                    &&& (e == ApiError::Conflict || e == ApiError::StorageFailure)
                },
            },
    {
        if self.find_by_username(data.username.as_str()).is_some() {
            return Err(ApiError::Conflict);
        }
        if self.find_by_email(data.email.as_str()).is_some() {
            return Err(ApiError::Conflict);
        }
        if self.users.len() >= 0x4000_0000 || self.next_id == u128::MAX {
            return Err(ApiError::StorageFailure);
        }
        let id = self.next_id;
        let u = User {
            id,
            username: data.username.clone(),
            email: data.email.clone(),
            password_hash,
            display_name: crate::models::clone_opt(&data.display_name),
            bio: None,
            avatar_url: None,
            followers_count: 0,
            following_count: 0,
            posts_count: 0,
            is_verified: false,
            is_active: true,
            created_at: now,
            updated_at: now,
        };
        let ret = u.clone();
        proof {
            lemma_count_posts_le_len(self.posts@, id);
        }
        self.users.push(u);
        self.next_id = id + 1;
        proof {
            let users = self.users@;
            let n = users.len() - 1;
            assert(forall|i: int| 0 <= i < n ==> users[i] == old(self).users@[i]);
            assert(users[n] == new_user_spec(*data, ret.password_hash, id, now));
            assert forall|j: int| 0 <= j < self.posts@.len() implies (
            #[trigger] self.posts@[j]).user_id != id by {
                assert(has_user_with_id(old(self).users@, self.posts@[j].user_id));
                let k = choose|k: int|
                    0 <= k < old(self).users@.len() && (#[trigger] old(self).users@[k]).id
                        == self.posts@[j].user_id;
                assert(old(self).users@[k].id < id);
            }
            lemma_count_posts_none(self.posts@, id);
            assert forall|i: int| 0 <= i < users.len() implies (#[trigger] users[i]).posts_count
                == count_posts_by(self.posts@, users[i].id) by {
                if i < n {
                    assert(old(self).users@[i].posts_count == count_posts_by(
                        self.posts@,
                        old(self).users@[i].id,
                    ));
                }
            }
            assert forall|i: int, j: int|
                0 <= i < users.len() && 0 <= j < users.len() && i != j && (
                #[trigger] users[i]).is_active && (#[trigger] users[j]).is_active implies users[i].username@
                != users[j].username@ && users[i].email@ != users[j].email@ by {
                if i == n || j == n {
                    let o = if i == n {
                        j
                    } else {
                        i
                    };
                    assert(users[o] == old(self).users@[o]);
                    assert(!has_active_username(old(self).users@, data.username@));
                    assert(!has_active_email(old(self).users@, data.email@));
                }
            }
            assert forall|j: int| 0 <= j < self.posts@.len() implies has_user_with_id(
                users,
                (#[trigger] self.posts@[j]).user_id,
            ) by {
                let k = choose|k: int|
                    0 <= k < old(self).users@.len() && (#[trigger] old(self).users@[k]).id
                        == self.posts@[j].user_id;
                assert(users[k].id == self.posts@[j].user_id);
            }
            assert forall|j: int| 0 <= j < self.likes@.len() implies has_user_with_id(
                users,
                (#[trigger] self.likes@[j]).user_id,
            ) by {
                assert(has_user_with_id(old(self).users@, self.likes@[j].user_id));
                let k = choose|k: int|
                    0 <= k < old(self).users@.len() && (#[trigger] old(self).users@[k]).id
                        == self.likes@[j].user_id;
                assert(users[k].id == self.likes@[j].user_id);
            }
        }
        Ok(ret)
    }
}

/// A table whose rows all belong to other identities contributes nothing to
/// an absent identity's count.
proof fn lemma_count_posts_none(posts: Seq<Post>, user_id: u128)
    requires
        forall|j: int| 0 <= j < posts.len() ==> (#[trigger] posts[j]).user_id != user_id,
    ensures
        count_posts_by(posts, user_id) == 0,
    decreases posts.len(),
{
    if posts.len() > 0 {
        lemma_count_posts_none(posts.drop_last(), user_id);
    }
}

/// A table whose rows all reference other posts contributes nothing to an
/// absent post's count.
proof fn lemma_count_likes_none(likes: Seq<Like>, post_id: u128)
    requires
        forall|j: int| 0 <= j < likes.len() ==> (#[trigger] likes[j]).post_id != post_id,
    ensures
        count_likes(likes, post_id) == 0,
    decreases likes.len(),
{
    if likes.len() > 0 {
        lemma_count_likes_none(likes.drop_last(), post_id);
    }
}

/// Replacing a post row with one of the same owner moves no owner's count.
proof fn lemma_count_posts_update(posts: Seq<Post>, i: int, p: Post, user_id: u128)
    requires
        0 <= i < posts.len(),
        p.user_id == posts[i].user_id,
    ensures
        count_posts_by(posts.update(i, p), user_id) == count_posts_by(posts, user_id),
    decreases posts.len(),
{
    if i == posts.len() - 1 {
        assert(posts.update(i, p).drop_last() =~= posts.drop_last());
        assert(posts.update(i, p).last() == p);
    } else {
        assert(posts.update(i, p).drop_last() =~= posts.drop_last().update(i, p));
        assert(posts.update(i, p).last() == posts.last());
        lemma_count_posts_update(posts.drop_last(), i, p, user_id);
    }
}

/// The owner's row after a successful post creation: only the cached post
/// counter moves.
pub open spec fn bump_posts_count(u: User) -> User {
    User { posts_count: (u.posts_count + 1) as i32, ..u }
}

/// The post's row after a toggle: the cached like counter moves with the
/// membership flip.
pub open spec fn like_adjusted(p: Post, liked: bool) -> Post {
    Post {
        likes_count: if liked {
            (p.likes_count + 1) as i32
        } else {
            (p.likes_count - 1) as i32
        },
        ..p
    }
}

/// The atomic unit performed by a successful `create_post`: the post row and
/// the owner's counter move together, and nothing else moves.
pub open spec fn create_post_step(
    pre: Store,
    post: Store,
    user_id: u128,
    data: CreatePost,
    p: Post,
    now: u64,
) -> bool {
    &&& p == new_post_spec(user_id, data, pre.next_id, now)
    &&& post.posts@ == pre.posts@.push(p)
    &&& post.likes@ == pre.likes@
    &&& post.next_id == pre.next_id + 1
    &&& exists|i: int|
        0 <= i < pre.users@.len() && (#[trigger] pre.users@[i]).id == user_id && post.users@
            == pre.users@.update(i, bump_posts_count(pre.users@[i]))
}

/// The atomic unit performed by a successful `toggle_like`: membership flips,
/// the post's counter moves by one in the same direction, and nothing else
/// moves.
pub open spec fn toggle_step(
    pre: Store,
    post: Store,
    user_id: u128,
    post_id: u128,
    liked: bool,
) -> bool {
    &&& pre.wf()
    &&& post.wf()
    &&& post.users@ == pre.users@
    &&& post.next_id == pre.next_id
    &&& liked == !has_like(pre.likes@, user_id, post_id)
    &&& (liked ==> post.likes@ == pre.likes@.push(Like { user_id, post_id }))
    &&& (!liked ==> exists|j: int|
        0 <= j < pre.likes@.len() && #[trigger] pre.likes@[j] == (Like { user_id, post_id })
            && post.likes@ == pre.likes@.remove(j))
    &&& has_like(post.likes@, user_id, post_id) == liked
    &&& exists|i: int|
        0 <= i < pre.posts@.len() && (#[trigger] pre.posts@[i]).id == post_id && post.posts@
            == pre.posts@.update(i, like_adjusted(pre.posts@[i], liked))
}

impl Store {
    /// Creates a post and, in the same atomic unit, increments the owner's
    /// post counter. Succeeds exactly when the owner's row exists and the
    /// table has room; on failure neither effect is observable.
    pub fn create_post(&mut self, user_id: u128, data: &CreatePost, now: u64) -> (r: Result<
        Post,
        ApiError,
    >)
        requires
            old(self).wf(),
        ensures
            final(self).wf(),
            r is Ok <==> (has_user_with_id(old(self).users@, user_id) && old(self).posts@.len()
                < cap() && old(self).next_id < u128::MAX),
            match r {
                Ok(p) => create_post_step(*old(self), *final(self), user_id, *data, p, now),
                Err(e) => {
                    &&& *final(self) == *old(self)
                    &&& (e == ApiError::NotFound <==> !has_user_with_id(old(self).users@, user_id))
                    &&& (e == ApiError::NotFound || e == ApiError::StorageFailure)
                },
            },
    {
        let idx = match self.find_user_index(user_id) {
            Some(i) => i,
            None => {
                return Err(ApiError::NotFound);
            },
        };
        if self.posts.len() >= 0x4000_0000 || self.next_id == u128::MAX {
            return Err(ApiError::StorageFailure);
        }
        let id = self.next_id;
        let p = Post {
            id,
            user_id,
            content: data.content.clone(),
            image_url: crate::models::clone_opt(&data.image_url),
            likes_count: 0,
            comments_count: 0,
            created_at: now,
            updated_at: now,
        };
        let ret = p.clone();
        let owner = self.users[idx].clone();
        proof {
            lemma_count_posts_le_len(self.posts@, owner.id);
        }
        let bumped = User { posts_count: owner.posts_count + 1, ..owner };
        set_user(&mut self.users, idx, bumped);
        self.posts.push(p);
        self.next_id = id + 1;
        proof {
            let users = self.users@;
            let posts = self.posts@;
            let n = posts.len() - 1;
            assert(users =~= old(self).users@.update(
                idx as int,
                bump_posts_count(old(self).users@[idx as int]),
            ));
            assert(posts =~= old(self).posts@.push(ret));
            assert forall|j: int| 0 <= j < old(self).posts@.len() implies (
            #[trigger] old(self).posts@[j]).id != id by {
                assert(old(self).posts@[j].id < id);
            }
            lemma_count_likes_none(self.likes@, id);
            assert forall|i: int| 0 <= i < posts.len() implies (#[trigger] posts[i]).likes_count
                == count_likes(self.likes@, posts[i].id) by {
                if i < n {
                    assert(posts[i] == old(self).posts@[i]);
                }
            }
            assert forall|i: int| 0 <= i < users.len() implies (#[trigger] users[i]).posts_count
                == count_posts_by(posts, users[i].id) by {
                lemma_count_posts_push(old(self).posts@, ret, users[i].id);
                assert(old(self).users@[i].posts_count == count_posts_by(
                    old(self).posts@,
                    old(self).users@[i].id,
                ));
                if i != idx as int {
                    assert(users[i] == old(self).users@[i]);
                    assert(users[i].id != user_id);
                } else {
                    assert(users[i].id == user_id);
                }
            }
            assert forall|j: int| 0 <= j < posts.len() implies has_user_with_id(
                users,
                (#[trigger] posts[j]).user_id,
            ) by {
                if j < n {
                    let k = choose|k: int|
                        0 <= k < old(self).users@.len() && (#[trigger] old(self).users@[k]).id
                            == old(self).posts@[j].user_id;
                    assert(users[k].id == posts[j].user_id);
                } else {
                    assert(users[idx as int].id == user_id);
                }
            }
            assert forall|j: int| 0 <= j < self.likes@.len() implies has_user_with_id(
                users,
                (#[trigger] self.likes@[j]).user_id,
            ) by {
                let k = choose|k: int|
                    0 <= k < old(self).users@.len() && (#[trigger] old(self).users@[k]).id
                        == self.likes@[j].user_id;
                assert(users[k].id == self.likes@[j].user_id);
            }
            assert forall|j: int| 0 <= j < self.likes@.len() implies has_post_with_id(
                posts,
                (#[trigger] self.likes@[j]).post_id,
            ) by {
                let k = choose|k: int|
                    0 <= k < old(self).posts@.len() && (#[trigger] old(self).posts@[k]).id
                        == self.likes@[j].post_id;
                assert(posts[k].id == self.likes@[j].post_id);
            }
        }
        Ok(ret)
    }

    /// Atomically flips like membership for the pair: if the row exists it is
    /// deleted and the post's counter decremented (returning `false`),
    /// otherwise it is inserted and the counter incremented (returning
    /// `true`). Both referenced rows must exist.
    pub fn toggle_like(&mut self, user_id: u128, post_id: u128) -> (r: Result<bool, ApiError>)
        requires
            old(self).wf(),
        ensures
            final(self).wf(),
            r is Ok <==> (has_post_with_id(old(self).posts@, post_id) && has_user_with_id(
                old(self).users@,
                user_id,
            ) && (has_like(old(self).likes@, user_id, post_id) || old(self).likes@.len() < cap())),
            match r {
                Ok(liked) => toggle_step(*old(self), *final(self), user_id, post_id, liked),
                Err(e) => {
                    &&& *final(self) == *old(self)
                    &&& (e == ApiError::NotFound <==> (!has_post_with_id(
                        old(self).posts@,
                        post_id,
                    ) || !has_user_with_id(old(self).users@, user_id)))
                    &&& (e == ApiError::NotFound || e == ApiError::StorageFailure)
                },
            },
    {
        let pidx = match self.find_post_index(post_id) {
            Some(i) => i,
            None => {
                return Err(ApiError::NotFound);
            },
        };
        if self.find_user_index(user_id).is_none() {
            return Err(ApiError::NotFound);
        }
        match self.find_like_index(user_id, post_id) {
            Some(j) => {
                let p = self.posts[pidx].clone();
                proof {
                    lemma_count_likes_pos(self.likes@, j as int, post_id);
                }
                self.likes.remove(j);
                let adjusted = Post { likes_count: p.likes_count - 1, ..p };
                set_post(&mut self.posts, pidx, adjusted);
                proof {
                    let posts = self.posts@;
                    let likes = self.likes@;
                    assert(likes =~= old(self).likes@.remove(j as int));
                    assert(posts =~= old(self).posts@.update(
                        pidx as int,
                        like_adjusted(old(self).posts@[pidx as int], false),
                    ));
                    assert forall|i: int| 0 <= i < self.users@.len() implies (
                    #[trigger] self.users@[i]).posts_count == count_posts_by(
                        posts,
                        self.users@[i].id,
                    ) by {
                        lemma_count_posts_update(
                            old(self).posts@,
                            pidx as int,
                            like_adjusted(old(self).posts@[pidx as int], false),
                            self.users@[i].id,
                        );
                    }
                    assert forall|k: int| 0 <= k < likes.len() implies #[trigger] likes[k] != (Like {
                        user_id,
                        post_id,
                    }) by {
                        if k < j {
                            assert(likes[k] == old(self).likes@[k]);
                            assert(old(self).likes@[k] != old(self).likes@[j as int]);
                        } else {
                            assert(likes[k] == old(self).likes@[k + 1]);
                            assert(old(self).likes@[k + 1] != old(self).likes@[j as int]);
                        }
                    }
                    assert forall|i: int| 0 <= i < posts.len() implies (
                    #[trigger] posts[i]).likes_count == count_likes(likes, posts[i].id) by {
                        lemma_count_likes_remove(old(self).likes@, j as int, posts[i].id);
                        assert(old(self).posts@[i].likes_count == count_likes(
                            old(self).likes@,
                            old(self).posts@[i].id,
                        ));
                        if i != pidx as int {
                            assert(posts[i] == old(self).posts@[i]);
                            assert(posts[i].id != post_id);
                        }
                    }
                    assert forall|k: int| 0 <= k < likes.len() implies has_user_with_id(
                        self.users@,
                        (#[trigger] likes[k]).user_id,
                    ) && has_post_with_id(posts, likes[k].post_id) by {
                        let ko: int = if k < j {
                            k
                        } else {
                            k + 1
                        };
                        assert(likes[k] == old(self).likes@[ko]);
                        let a = choose|a: int|
                            0 <= a < old(self).users@.len() && (#[trigger] old(self).users@[a]).id
                                == old(self).likes@[ko].user_id;
                        assert(self.users@[a].id == likes[k].user_id);
                        let b = choose|b: int|
                            0 <= b < old(self).posts@.len() && (#[trigger] old(self).posts@[b]).id
                                == old(self).likes@[ko].post_id;
                        assert(posts[b].id == likes[k].post_id);
                    }
                }
                Ok(false)
            },
            None => {
                if self.likes.len() >= 0x4000_0000 {
                    return Err(ApiError::StorageFailure);
                }
                let p = self.posts[pidx].clone();
                proof {
                    lemma_count_likes_le_len(self.likes@, post_id);
                }
                self.likes.push(Like { user_id, post_id });
                let adjusted = Post { likes_count: p.likes_count + 1, ..p };
                set_post(&mut self.posts, pidx, adjusted);
                proof {
                    let posts = self.posts@;
                    let likes = self.likes@;
                    let m = likes.len() - 1;
                    assert(likes =~= old(self).likes@.push(Like { user_id, post_id }));
                    assert(posts =~= old(self).posts@.update(
                        pidx as int,
                        like_adjusted(old(self).posts@[pidx as int], true),
                    ));
                    assert forall|i: int| 0 <= i < self.users@.len() implies (
                    #[trigger] self.users@[i]).posts_count == count_posts_by(
                        posts,
                        self.users@[i].id,
                    ) by {
                        lemma_count_posts_update(
                            old(self).posts@,
                            pidx as int,
                            like_adjusted(old(self).posts@[pidx as int], true),
                            self.users@[i].id,
                        );
                    }
                    assert(likes[m] == (Like { user_id, post_id }));
                    assert(has_like(likes, user_id, post_id));
                    assert forall|i: int| 0 <= i < posts.len() implies (
                    #[trigger] posts[i]).likes_count == count_likes(likes, posts[i].id) by {
                        lemma_count_likes_push(
                            old(self).likes@,
                            Like { user_id, post_id },
                            posts[i].id,
                        );
                        assert(old(self).posts@[i].likes_count == count_likes(
                            old(self).likes@,
                            old(self).posts@[i].id,
                        ));
                        if i != pidx as int {
                            assert(posts[i] == old(self).posts@[i]);
                            assert(posts[i].id != post_id);
                        }
                    }
                    assert forall|k: int, l: int|
                        0 <= k < likes.len() && 0 <= l < likes.len() && k != l implies (
                    #[trigger] likes[k]) != (#[trigger] likes[l]) by {
                        if k < m && l < m {
                            assert(likes[k] == old(self).likes@[k]);
                            assert(likes[l] == old(self).likes@[l]);
                        } else {
                            let o: int = if k == m {
                                l
                            } else {
                                k
                            };
                            assert(likes[o] == old(self).likes@[o]);
                            assert(!has_like(old(self).likes@, user_id, post_id));
                        }
                    }
                    assert forall|k: int| 0 <= k < likes.len() implies has_user_with_id(
                        self.users@,
                        (#[trigger] likes[k]).user_id,
                    ) && has_post_with_id(posts, likes[k].post_id) by {
                        if k < m {
                            assert(likes[k] == old(self).likes@[k]);
                            let a = choose|a: int|
                                0 <= a < old(self).users@.len() && (
                                #[trigger] old(self).users@[a]).id == old(self).likes@[k].user_id;
                            assert(self.users@[a].id == likes[k].user_id);
                            let b = choose|b: int|
                                0 <= b < old(self).posts@.len() && (
                                #[trigger] old(self).posts@[b]).id == old(self).likes@[k].post_id;
                            assert(posts[b].id == likes[k].post_id);
                        } else {
                            assert(posts[pidx as int].id == post_id);
                        }
                    }
                }
                Ok(true)
            },
        }
    }
}


/// Once a registration has succeeded, the username (and the email) it took
/// belongs to an active identity, so a second registration under the same
/// username must be refused as a conflict: exactly one of the two succeeds.
pub proof fn lemma_register_unique(
    pre: Store,
    post: Store,
    data1: CreateUser,
    u: User,
    hash: String,
    now: u64,
    data2: CreateUser,
)
    requires
        u == new_user_spec(data1, hash, pre.next_id, now),
        post.users@ == pre.users@.push(u),
        data2.username@ == data1.username@ || data2.email@ == data1.email@,
    ensures
        register_conflict(post.users@, data2),
{
    let n = post.users@.len() - 1;
    assert(post.users@[n] == u);
    assert(u.is_active);
    if data2.username@ == data1.username@ {
        assert(has_active_username(post.users@, data2.username@));
    } else {
        assert(has_active_email(post.users@, data2.email@));
    }
}

/// Toggling a like twice for one (identity, post) pair is an involution: the
/// second call answers the opposite of the first, membership returns to its
/// starting state, and no post's like count has moved.
pub proof fn lemma_toggle_involution(
    s0: Store,
    s1: Store,
    s2: Store,
    user_id: u128,
    post_id: u128,
    b1: bool,
    b2: bool,
)
    requires
        toggle_step(s0, s1, user_id, post_id, b1),
        toggle_step(s1, s2, user_id, post_id, b2),
    ensures
        b2 == !b1,
        has_like(s2.likes@, user_id, post_id) == has_like(s0.likes@, user_id, post_id),
        forall|pid: u128| count_likes(s2.likes@, pid) == count_likes(s0.likes@, pid),
{
    let pair = Like { user_id, post_id };
    assert forall|pid: u128|
        count_likes(s2.likes@, pid) == count_likes(s0.likes@, pid) by {
        if b1 {
            lemma_count_likes_push(s0.likes@, pair, pid);
            let j = choose|j: int|
                0 <= j < s1.likes@.len() && #[trigger] s1.likes@[j] == pair && s2.likes@
                    == s1.likes@.remove(j);
            lemma_count_likes_remove(s1.likes@, j, pid);
        } else {
            let j = choose|j: int|
                0 <= j < s0.likes@.len() && #[trigger] s0.likes@[j] == pair && s1.likes@
                    == s0.likes@.remove(j);
            lemma_count_likes_remove(s0.likes@, j, pid);
            lemma_count_likes_push(s1.likes@, pair, pid);
        }
    }
}

/// A chain of toggles for one (identity, post) pair leaves like membership
/// equal to the starting membership flipped once per odd call: membership
/// matches the parity of completed calls. Every intermediate state is well
/// formed, so the stored like counter never drifts from the true number of
/// like rows at any point of the chain.
#[verifier::rlimit(100)]
#[verifier::spinoff_prover]
pub proof fn lemma_toggle_parity(
    states: Seq<Store>,
    results: Seq<bool>,
    user_id: u128,
    post_id: u128,
)
    requires
        states.len() == results.len() + 1,
        forall|i: int|
            0 <= i < results.len() ==> toggle_step(
                #[trigger] states[i],
                states[i + 1],
                user_id,
                post_id,
                results[i],
            ),
    ensures
        has_like(states[states.len() - 1].likes@, user_id, post_id) == (has_like(
            states[0].likes@,
            user_id,
            post_id,
        ) != (results.len() % 2 == 1)),
        forall|i: int| 1 <= i < states.len() ==> (#[trigger] states[i]).wf(),
    decreases results.len(),
{
    if results.len() == 0 {
    } else {
        let n = results.len() as int;
        lemma_toggle_parity(states.drop_last(), results.drop_last(), user_id, post_id);
        assert(forall|i: int| 0 <= i < n ==> states.drop_last()[i] == states[i]);
        assert(toggle_step(states[n - 1], states[n], user_id, post_id, results[n - 1]));
        assert(has_like(states[n].likes@, user_id, post_id) == !has_like(
            states[n - 1].likes@,
            user_id,
            post_id,
        ));
        assert((n - 1) % 2 == if n % 2 == 1 { 0int } else { 1int });
    }
}

/// A chain of successful post creations for one owner appends exactly its
/// posts, in order, to the post table; the owner's true post count rises by
/// exactly the number of calls, and the created rows carry pairwise distinct
/// identifiers.
pub proof fn lemma_create_posts_accumulate(
    states: Seq<Store>,
    ps: Seq<Post>,
    datas: Seq<CreatePost>,
    nows: Seq<u64>,
    owner: u128,
)
    requires
        states.len() == ps.len() + 1,
        datas.len() == ps.len(),
        nows.len() == ps.len(),
        forall|i: int|
            0 <= i < ps.len() ==> create_post_step(
                #[trigger] states[i],
                states[i + 1],
                owner,
                datas[i],
                ps[i],
                nows[i],
            ),
    ensures
        states[states.len() - 1].posts@ == states[0].posts@ + ps,
        count_posts_by(states[states.len() - 1].posts@, owner) == count_posts_by(
            states[0].posts@,
            owner,
        ) + ps.len(),
        forall|i: int| 0 <= i < ps.len() ==> (#[trigger] ps[i]).id == states[0].next_id + i,
        forall|i: int, j: int|
            0 <= i < ps.len() && 0 <= j < ps.len() && i != j ==> (#[trigger] ps[i]).id != (
            #[trigger] ps[j]).id,
    decreases ps.len(),
{
    if ps.len() == 0 {
        assert(states[0].posts@ + ps =~= states[0].posts@);
    } else {
        let n = ps.len() as int;
        lemma_create_posts_accumulate(
            states.drop_last(),
            ps.drop_last(),
            datas.drop_last(),
            nows.drop_last(),
            owner,
        );
        assert(forall|i: int| 0 <= i < n ==> states.drop_last()[i] == states[i]);
        assert(create_post_step(states[n - 1], states[n], owner, datas[n - 1], ps[n - 1], nows[n
            - 1]));
        assert(states[n].posts@ == states[n - 1].posts@.push(ps[n - 1]));
        assert(states[n - 1].posts@ == states[0].posts@ + ps.drop_last());
        assert(states[0].posts@ + ps =~= (states[0].posts@ + ps.drop_last()).push(ps[n - 1]));
        lemma_count_posts_push(states[n - 1].posts@, ps[n - 1], owner);
        assert(ps[n - 1].user_id == owner);
        assert(ps[n - 1].id == states[n - 1].next_id);
        assert forall|i: int| 0 <= i < n implies (#[trigger] ps[i]).id == states[0].next_id
            + i by {
            if i < n - 1 {
                assert(ps.drop_last()[i] == ps[i]);
            } else {
                assert(forall|k: int|
                    0 <= k < n - 1 ==> (#[trigger] states.drop_last()[k]).next_id + 1 == states[k
                        + 1].next_id);
                lemma_next_id_chain(states, n - 1);
            }
        }
    }
}

/// In a chain whose steps each raise `next_id` by one, state `i` carries the
/// starting generator advanced by `i`.
proof fn lemma_next_id_chain(states: Seq<Store>, i: int)
    requires
        0 <= i < states.len(),
        forall|k: int|
            0 <= k < i ==> (#[trigger] states[k]).next_id + 1 == states[k + 1].next_id,
    ensures
        states[i].next_id == states[0].next_id + i,
    decreases i,
{
    if i > 0 {
        lemma_next_id_chain(states, i - 1);
    }
}


/// The row index holding identity `id`; under `users_wf` there is at most
/// one, so the choice is determined.
pub open spec fn user_index_of(users: Seq<User>, id: u128) -> int {
    choose|i: int| 0 <= i < users.len() && (#[trigger] users[i]).id == id
}

pub open spec fn user_by_id(users: Seq<User>, id: u128) -> User {
    users[user_index_of(users, id)]
}

/// The feed row for post `p`: the post joined with its author's display
/// fields; when a viewer is given, annotated with whether that viewer has
/// liked it, otherwise the annotation is absent.
pub open spec fn feed_row(s: Store, p: Post, viewer: Option<u128>) -> PostWithUser {
    let owner = user_by_id(s.users@, p.user_id);
    PostWithUser {
        id: p.id,
        user_id: p.user_id,
        username: owner.username,
        display_name: owner.display_name,
        avatar_url: owner.avatar_url,
        content: p.content,
        image_url: p.image_url,
        likes_count: p.likes_count,
        comments_count: p.comments_count,
        created_at: p.created_at,
        is_liked: match viewer {
            Some(v) => Some(has_like(s.likes@, v, p.id)),
            None => None,
        },
    }
}

/// The whole feed, newest first: post rows in reverse insertion order, each
/// joined and annotated. Creation instants are supplied by callers; when
/// they rise monotonically, reverse insertion order is exactly descending
/// creation order.
pub open spec fn feed_spec(s: Store, viewer: Option<u128>) -> Seq<PostWithUser> {
    Seq::new(s.posts@.len(), |i: int| feed_row(s, s.posts@[s.posts@.len() - 1 - i], viewer))
}

/// One page of a feed: `limit` rows from position `offset`, clipped to what
/// exists.
pub open spec fn page(s: Seq<PostWithUser>, offset: int, limit: int) -> Seq<PostWithUser> {
    if offset >= s.len() {
        Seq::empty()
    } else if offset + limit >= s.len() {
        s.subrange(offset, s.len() as int)
    } else {
        s.subrange(offset, offset + limit)
    }
}

impl Store {
    /// Returns one page of the feed, newest first. `limit` is already capped
    /// by the caller; `offset` past the end yields an empty page.
    pub fn get_feed(&self, viewer: Option<u128>, limit: i64, offset: i64) -> (r: Vec<
        PostWithUser,
    >)
        requires
            self.wf(),
            0 <= limit <= 50,
            0 <= offset,
        ensures
            r@ == page(feed_spec(*self, viewer), offset as int, limit as int),
            r@.len() <= limit,
    {
        let n = self.posts.len();
        let mut out: Vec<PostWithUser> = Vec::new();
        if offset >= n as i64 {
            proof {
                assert(page(feed_spec(*self, viewer), offset as int, limit as int)
                    =~= Seq::<PostWithUser>::empty());
            }
            return out;
        }
        let off = offset as usize;
        let lim = limit as usize;
        let mut i: usize = 0;
        while i < lim && off + i < n
            invariant
                self.wf(),
                n == self.posts@.len(),
                off == offset,
                lim == limit,
                0 <= limit <= 50,
                off < n,
                i <= lim,
                off + i <= n,
                out@.len() == i,
                out@ =~= feed_spec(*self, viewer).subrange(off as int, off + i),
            decreases lim - i,
        {
            let k = n - 1 - (off + i);
            let p = self.posts[k].clone();
            let oidx = match self.find_user_index(p.user_id) {
                Some(j) => j,
                None => {
                    proof {
                        assert(false);
                    }
                    return out;
                },
            };
            let owner = self.users[oidx].clone();
            let is_liked = match viewer {
                Some(v) => Some(self.find_like_index(v, p.id).is_some()),
                None => None,
            };
            let row = PostWithUser {
                id: p.id,
                user_id: p.user_id,
                username: owner.username,
                display_name: owner.display_name,
                avatar_url: owner.avatar_url,
                content: p.content,
                image_url: p.image_url,
                likes_count: p.likes_count,
                comments_count: p.comments_count,
                created_at: p.created_at,
                is_liked,
            };
            proof {
                let fs = feed_spec(*self, viewer);
                let idx = off + i;
                assert(fs[idx as int] == feed_row(*self, self.posts@[k as int], viewer));
                let ci = user_index_of(self.users@, self.posts@[k as int].user_id);
                assert(self.users@[oidx as int].id == self.posts@[k as int].user_id);
                assert(0 <= ci < self.users@.len() && self.users@[ci].id
                    == self.posts@[k as int].user_id);
                assert(ci == oidx as int);
                assert(row == fs[idx as int]);
                assert(out@.push(row) =~= fs.subrange(off as int, idx + 1));
            }
            out.push(row);
            i += 1;
        }
        proof {
            assert(page(feed_spec(*self, viewer), offset as int, limit as int) =~= out@);
        }
        out
    }
}


impl Store {
    /// Persists a new identity: hashes the password through the credential
    /// codec, then inserts the row in one unit. `insert_user` carries the
    /// deterministic half; here the outcome additionally depends on the
    /// hashing subsystem's entropy source, whose failure — the only escape
    /// from success when no conflict stands and the table has room —
    /// surfaces as `InternalFailure` with the state untouched.
    pub fn create_user(&mut self, data: &CreateUser, now: u64) -> (r: Result<User, ApiError>)
        requires
            old(self).wf(),
        ensures
            final(self).wf(),
            (r == Err::<User, ApiError>(ApiError::Conflict)) <==> register_conflict(
                old(self).users@,
                *data,
            ),
            (!register_conflict(old(self).users@, *data) && old(self).users@.len() < cap() && old(
                self,
            ).next_id < u128::MAX) ==> (r is Ok || r == Err::<User, ApiError>(
                ApiError::InternalFailure,
            )),
            r matches Err(e) ==> (*final(self) == *old(self) && (e == ApiError::Conflict || e
                == ApiError::StorageFailure || e == ApiError::InternalFailure)),
            r matches Ok(u) ==> ({
                &&& !register_conflict(old(self).users@, *data)
                &&& final(self).users@ == old(self).users@.push(u)
                &&& final(self).posts@ == old(self).posts@
                &&& final(self).likes@ == old(self).likes@
                &&& final(self).next_id == old(self).next_id + 1
                &&& u == new_user_spec(*data, u.password_hash, old(self).next_id, now)
                &&& bcrypt_matches(data.password@, u.password_hash@)
                &&& bcrypt_parses(u.password_hash@)
            }),
    {
        if self.find_by_username(data.username.as_str()).is_some() {
            return Err(ApiError::Conflict);
        }
        if self.find_by_email(data.email.as_str()).is_some() {
            return Err(ApiError::Conflict);
        }
        let hash = match hash_password(data.password.as_str()) {
            Ok(h) => h,
            Err(e) => {
                return Err(e);
            },
        };
        self.insert_user(data, hash, now)
    }
}

} // verus!



