use pitaia::auth::JwtService;
use pitaia::errors::ApiError;
use pitaia::handlers::{
    create_post, get_feed, get_user_profile, login, register, toggle_like, FeedQuery,
};
use pitaia::middleware::AuthUser;
use pitaia::models::{CreatePost, CreateUser, LoginUser};
use pitaia::store::Store;

const NOW: u64 = 1_700_000_000;

fn service() -> JwtService {
    JwtService::new(String::from("fixed-test-secret"))
}

fn ana() -> CreateUser {
    CreateUser {
        username: String::from("ana"),
        email: String::from("ana@x.com"),
        password: String::from("longenough1"),
        display_name: None,
    }
}

fn post_text(text: &str) -> CreatePost {
    CreatePost { content: String::from(text), image_url: None }
}

#[test]
fn register_succeeds_and_profile_has_no_secret_fields() {
    let mut store = Store::new();
    let jwt = service();
    let resp = register(&mut store, &jwt, &ana(), NOW).unwrap();
    assert_eq!(resp.user.username, "ana");
    assert_eq!(resp.user.posts_count, 0);
    assert_eq!(resp.user.followers_count, 0);
    assert!(resp.user.display_name.is_none());
    let claims = jwt.verify_token(&resp.token, NOW).unwrap();
    assert_eq!(claims.username, "ana");
}

#[test]
fn duplicate_username_yields_exactly_one_success_and_one_conflict() {
    let mut store = Store::new();
    let jwt = service();
    assert!(register(&mut store, &jwt, &ana(), NOW).is_ok());
    let same_name = CreateUser {
        username: String::from("ana"),
        email: String::from("other@x.com"),
        password: String::from("longenough2"),
        display_name: None,
    };
    assert_eq!(register(&mut store, &jwt, &same_name, NOW).unwrap_err(), ApiError::Conflict);
    assert_eq!(store.users.len(), 1);
}

#[test]
fn duplicate_email_is_a_conflict() {
    let mut store = Store::new();
    let jwt = service();
    assert!(register(&mut store, &jwt, &ana(), NOW).is_ok());
    let same_mail = CreateUser {
        username: String::from("bea"),
        email: String::from("ana@x.com"),
        password: String::from("longenough2"),
        display_name: None,
    };
    assert_eq!(register(&mut store, &jwt, &same_mail, NOW).unwrap_err(), ApiError::Conflict);
}

#[test]
fn invalid_fields_are_rejected_before_storage() {
    let mut store = Store::new();
    let jwt = service();
    let short_name = CreateUser {
        username: String::from("an"),
        email: String::from("ana@x.com"),
        password: String::from("longenough1"),
        display_name: None,
    };
    assert_eq!(
        register(&mut store, &jwt, &short_name, NOW).unwrap_err(),
        ApiError::ValidationFailure
    );
    let short_password = CreateUser {
        username: String::from("ana"),
        email: String::from("ana@x.com"),
        password: String::from("short"),
        display_name: None,
    };
    assert_eq!(
        register(&mut store, &jwt, &short_password, NOW).unwrap_err(),
        ApiError::ValidationFailure
    );
    let bad_mail = CreateUser {
        username: String::from("ana"),
        email: String::from("nothing-here"),
        password: String::from("longenough1"),
        display_name: None,
    };
    assert_eq!(
        register(&mut store, &jwt, &bad_mail, NOW).unwrap_err(),
        ApiError::ValidationFailure
    );
    assert_eq!(store.users.len(), 0);
}

#[test]
fn login_failures_are_outwardly_uniform() {
    let mut store = Store::new();
    let jwt = service();
    register(&mut store, &jwt, &ana(), NOW).unwrap();
    let wrong_password = LoginUser {
        username: String::from("ana"),
        password: String::from("wrongpass1"),
    };
    let unknown_user = LoginUser {
        username: String::from("nobody"),
        password: String::from("longenough1"),
    };
    let e1 = login(&store, &jwt, &wrong_password, NOW).unwrap_err();
    let e2 = login(&store, &jwt, &unknown_user, NOW).unwrap_err();
    assert_eq!(e1, ApiError::Unauthenticated);
    assert_eq!(e2, ApiError::Unauthenticated);
    assert_eq!(e1.message(), e2.message());
    assert_eq!(e1.message(), "invalid credentials");
}

#[test]
fn login_with_the_right_password_succeeds() {
    let mut store = Store::new();
    let jwt = service();
    register(&mut store, &jwt, &ana(), NOW).unwrap();
    let good = LoginUser { username: String::from("ana"), password: String::from("longenough1") };
    let resp = login(&store, &jwt, &good, NOW).unwrap();
    assert_eq!(resp.user.username, "ana");
    let claims = jwt.verify_token(&resp.token, NOW + 1000).unwrap();
    assert_eq!(claims.username, "ana");
}

#[test]
fn create_post_bumps_the_owner_count_atomically() {
    let mut store = Store::new();
    let jwt = service();
    let resp = register(&mut store, &jwt, &ana(), NOW).unwrap();
    let me = AuthUser { id: resp.user.id, username: String::from("ana") };
    let p1 = create_post(&mut store, &me, &post_text("first"), NOW + 1).unwrap();
    let p2 = create_post(&mut store, &me, &post_text("second"), NOW + 2).unwrap();
    let p3 = create_post(&mut store, &me, &post_text("third"), NOW + 3).unwrap();
    assert_ne!(p1.id, p2.id);
    assert_ne!(p2.id, p3.id);
    assert_ne!(p1.id, p3.id);
    assert_eq!(store.users[0].posts_count, 3);
    assert_eq!(store.posts.len(), 3);
    assert_eq!(p1.likes_count, 0);
}

#[test]
fn empty_or_oversized_content_is_rejected() {
    let mut store = Store::new();
    let jwt = service();
    let resp = register(&mut store, &jwt, &ana(), NOW).unwrap();
    let me = AuthUser { id: resp.user.id, username: String::from("ana") };
    assert_eq!(
        create_post(&mut store, &me, &post_text(""), NOW).unwrap_err(),
        ApiError::ValidationFailure
    );
    let long = "x".repeat(501);
    assert_eq!(
        create_post(&mut store, &me, &post_text(&long), NOW).unwrap_err(),
        ApiError::ValidationFailure
    );
    assert_eq!(store.posts.len(), 0);
    assert_eq!(store.users[0].posts_count, 0);
}

#[test]
fn toggle_like_is_an_involution() {
    let mut store = Store::new();
    let jwt = service();
    let resp = register(&mut store, &jwt, &ana(), NOW).unwrap();
    let me = AuthUser { id: resp.user.id, username: String::from("ana") };
    let p = create_post(&mut store, &me, &post_text("hello"), NOW).unwrap();
    let before = store.posts[0].likes_count;
    assert_eq!(toggle_like(&mut store, &me, p.id).unwrap(), true);
    assert_eq!(store.posts[0].likes_count, before + 1);
    assert_eq!(store.likes.len(), 1);
    assert_eq!(toggle_like(&mut store, &me, p.id).unwrap(), false);
    assert_eq!(store.posts[0].likes_count, before);
    assert_eq!(store.likes.len(), 0);
}

#[test]
fn like_membership_follows_toggle_parity() {
    let mut store = Store::new();
    let jwt = service();
    let resp = register(&mut store, &jwt, &ana(), NOW).unwrap();
    let me = AuthUser { id: resp.user.id, username: String::from("ana") };
    let p = create_post(&mut store, &me, &post_text("hello"), NOW).unwrap();
    for round in 0..5 {
        let liked = toggle_like(&mut store, &me, p.id).unwrap();
        let odd_calls = round % 2 == 0;
        assert_eq!(liked, odd_calls);
        assert_eq!(store.likes.len(), if odd_calls { 1 } else { 0 });
        assert_eq!(store.posts[0].likes_count, if odd_calls { 1 } else { 0 });
    }
    assert_eq!(store.likes.len(), 1);
    assert_eq!(store.posts[0].likes_count, 1);
}

#[test]
fn toggling_a_missing_post_is_not_found() {
    let mut store = Store::new();
    let jwt = service();
    let resp = register(&mut store, &jwt, &ana(), NOW).unwrap();
    let me = AuthUser { id: resp.user.id, username: String::from("ana") };
    assert_eq!(toggle_like(&mut store, &me, 999).unwrap_err(), ApiError::NotFound);
}

#[test]
fn feed_is_capped_at_fifty_rows() {
    let mut store = Store::new();
    let jwt = service();
    let resp = register(&mut store, &jwt, &ana(), NOW).unwrap();
    let me = AuthUser { id: resp.user.id, username: String::from("ana") };
    for k in 0u64..60 {
        let body = format!("post number {}", k);
        create_post(&mut store, &me, &post_text(&body), NOW + k).unwrap();
    }
    let q = FeedQuery { limit: Some(100), offset: Some(0) };
    let rows = get_feed(&store, None, &q).unwrap();
    assert_eq!(rows.len(), 50);
    let q_default = FeedQuery { limit: None, offset: None };
    assert_eq!(get_feed(&store, None, &q_default).unwrap().len(), 20);
}

#[test]
fn feed_is_newest_first_with_offset_pagination() {
    let mut store = Store::new();
    let jwt = service();
    let resp = register(&mut store, &jwt, &ana(), NOW).unwrap();
    let me = AuthUser { id: resp.user.id, username: String::from("ana") };
    for k in 0u64..5 {
        let body = format!("post number {}", k);
        create_post(&mut store, &me, &post_text(&body), NOW + k).unwrap();
    }
    let q = FeedQuery { limit: Some(2), offset: Some(1) };
    let rows = get_feed(&store, None, &q).unwrap();
    assert_eq!(rows.len(), 2);
    assert_eq!(rows[0].content, "post number 3");
    assert_eq!(rows[1].content, "post number 2");
    assert_eq!(rows[0].username, "ana");
    assert!(rows[0].is_liked.is_none());
}

#[test]
fn feed_annotates_likes_only_for_a_viewer() {
    let mut store = Store::new();
    let jwt = service();
    let resp = register(&mut store, &jwt, &ana(), NOW).unwrap();
    let me = AuthUser { id: resp.user.id, username: String::from("ana") };
    let p1 = create_post(&mut store, &me, &post_text("liked one"), NOW).unwrap();
    create_post(&mut store, &me, &post_text("other one"), NOW + 1).unwrap();
    toggle_like(&mut store, &me, p1.id).unwrap();
    let q = FeedQuery { limit: None, offset: None };
    let rows = get_feed(&store, Some(me.id), &q).unwrap();
    assert_eq!(rows.len(), 2);
    assert_eq!(rows[0].content, "other one");
    assert_eq!(rows[0].is_liked, Some(false));
    assert_eq!(rows[1].content, "liked one");
    assert_eq!(rows[1].is_liked, Some(true));
    assert_eq!(rows[1].likes_count, 1);
}

#[test]
fn negative_paging_is_rejected() {
    let store = Store::new();
    let q = FeedQuery { limit: Some(-1), offset: None };
    assert_eq!(get_feed(&store, None, &q).unwrap_err(), ApiError::ValidationFailure);
    let q2 = FeedQuery { limit: None, offset: Some(-3) };
    assert_eq!(get_feed(&store, None, &q2).unwrap_err(), ApiError::ValidationFailure);
}

#[test]
fn profile_lookup_finds_active_identities_only() {
    let mut store = Store::new();
    let jwt = service();
    register(&mut store, &jwt, &ana(), NOW).unwrap();
    let p = get_user_profile(&store, "ana").unwrap();
    assert_eq!(p.username, "ana");
    assert_eq!(get_user_profile(&store, "nobody").unwrap_err(), ApiError::NotFound);
    assert_eq!(get_user_profile(&store, "").unwrap_err(), ApiError::ValidationFailure);
    store.users[0].is_active = false;
    assert_eq!(get_user_profile(&store, "ana").unwrap_err(), ApiError::NotFound);
}

#[test]
fn server_side_failures_share_one_outward_message() {
    assert_eq!(ApiError::StorageFailure.message(), "server error");
    assert_eq!(ApiError::InternalFailure.message(), "server error");
    assert_eq!(ApiError::Conflict.message(), "already in use");
    assert_eq!(ApiError::NotFound.message(), "not found");
    assert_eq!(ApiError::ValidationFailure.message(), "invalid input");
}

#[test]
fn interleaved_toggles_from_two_callers_keep_the_counter_true() {
    let mut store = Store::new();
    let jwt = service();
    let a = register(&mut store, &jwt, &ana(), NOW).unwrap();
    let bea = CreateUser {
        username: String::from("bea"),
        email: String::from("bea@x.com"),
        password: String::from("longenough2"),
        display_name: None,
    };
    let b = register(&mut store, &jwt, &bea, NOW).unwrap();
    let ua = AuthUser { id: a.user.id, username: String::from("ana") };
    let ub = AuthUser { id: b.user.id, username: String::from("bea") };
    let p = create_post(&mut store, &ua, &post_text("shared"), NOW).unwrap();
    // One serialized interleaving of two callers: ana toggles twice (net
    // even), bea three times (net odd). After every step the stored counter
    // must equal the true number of like rows.
    let schedule = [(0, true), (1, true), (0, false), (1, false), (1, true)];
    for (who, expected) in schedule {
        let caller = if who == 0 { &ua } else { &ub };
        assert_eq!(toggle_like(&mut store, caller, p.id).unwrap(), expected);
        assert_eq!(store.posts[0].likes_count as usize, store.likes.len());
    }
    assert_eq!(store.likes.len(), 1);
    assert_eq!(store.likes[0].user_id, ub.id);
    assert_eq!(store.posts[0].likes_count, 1);
}

#[test]
fn repository_lookups_cover_id_email_and_username() {
    let mut store = Store::new();
    let data = ana();
    let u = store.create_user(&data, NOW).unwrap();
    assert!(pitaia::auth::verify_password("longenough1", &u.password_hash).unwrap());
    assert_eq!(store.find_by_id(u.id).unwrap().username, "ana");
    assert_eq!(store.find_by_email("ana@x.com").unwrap().id, u.id);
    assert_eq!(store.find_by_username("ana").unwrap().email, "ana@x.com");
    assert!(store.find_by_id(u.id + 1).is_none());
    assert!(store.find_by_email("other@x.com").is_none());
    let again = store.create_user(&data, NOW);
    assert_eq!(again.unwrap_err(), ApiError::Conflict);
}

#[test]
fn response_envelope_constructors() {
    let ok = pitaia::models::ApiResponse::success(5u32, "fine");
    assert!(ok.success);
    assert_eq!(ok.data, Some(5));
    assert_eq!(ok.message, "fine");
    let bad: pitaia::models::ApiResponse<u32> = pitaia::models::ApiResponse::error("broken");
    assert!(!bad.success);
    assert!(bad.data.is_none());
    assert_eq!(bad.message, "broken");
}
