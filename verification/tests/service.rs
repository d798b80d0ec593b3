use rustful_service::error::ServiceError;
use rustful_service::like::Likes;
use rustful_service::like_service::LikeService;
use rustful_service::store::Store;
use rustful_service::tweet::{Tweet, Tweets};
use rustful_service::tweet_service::TweetService;

fn post(id: u128, created_at: i64, message: &str) -> Tweets {
    Tweets { id, created_at, message: message.to_string() }
}

fn reaction(id: u128, created_at: i64, tweet_id: u128) -> Likes {
    Likes { id, created_at, tweet_id }
}

fn uuid_string(id: u128) -> String {
    uuid::Uuid::from_u128(id).to_string()
}

#[test]
fn list_respects_limit_and_order() {
    let mut store = Store::new();
    store.insert_tweet(post(1, 100, "oldest")).unwrap();
    store.insert_tweet(post(2, 300, "newest")).unwrap();
    store.insert_tweet(post(3, 200, "middle")).unwrap();

    let page = TweetService::list_tweets(2, &store).unwrap();
    assert_eq!(page.results.len(), 2);
    assert_eq!(page.results[0].created_at, 300);
    assert_eq!(page.results[0].message, "newest");
    assert_eq!(page.results[1].created_at, 200);
    assert_eq!(page.results[1].message, "middle");
}

#[test]
fn list_with_large_limit_returns_all_sorted() {
    let mut store = Store::new();
    store.insert_tweet(post(1, 100, "a")).unwrap();
    store.insert_tweet(post(2, 300, "b")).unwrap();
    store.insert_tweet(post(3, 200, "c")).unwrap();

    let page = TweetService::list_tweets(50, &store).unwrap();
    assert_eq!(page.results.len(), 3);
    assert_eq!(page.results[0].created_at, 300);
    assert_eq!(page.results[1].created_at, 200);
    assert_eq!(page.results[2].created_at, 100);
    for t in &page.results {
        assert!(t.likes.is_empty());
    }
}

#[test]
fn list_zero_limit_is_empty() {
    let mut store = Store::new();
    store.insert_tweet(post(1, 100, "a")).unwrap();
    let page = TweetService::list_tweets(0, &store).unwrap();
    assert!(page.results.is_empty());
}

#[test]
fn list_negative_limit_is_empty() {
    let mut store = Store::new();
    store.insert_tweet(post(1, 100, "a")).unwrap();
    let page = TweetService::list_tweets(-1, &store).unwrap();
    assert!(page.results.is_empty());
}

#[test]
fn list_keeps_posts_with_equal_times() {
    let mut store = Store::new();
    store.insert_tweet(post(1, 100, "a")).unwrap();
    store.insert_tweet(post(2, 100, "b")).unwrap();
    let page = TweetService::list_tweets(10, &store).unwrap();
    assert_eq!(page.results.len(), 2);
    let mut messages: Vec<String> = page.results.iter().map(|t| t.message.clone()).collect();
    messages.sort();
    assert_eq!(messages, vec!["a".to_string(), "b".to_string()]);
}

#[test]
fn list_empty_store_is_empty() {
    let store = Store::new();
    let page = TweetService::list_tweets(50, &store).unwrap();
    assert!(page.results.is_empty());
}

#[test]
fn create_then_find_yields_matching_post() {
    let mut store = Store::new();
    let created = TweetService::create_tweet(Tweet::new("hello".to_string()), &mut store).unwrap();
    assert_eq!(created.message, "hello");

    let id = uuid::Uuid::parse_str(&created.id).unwrap().as_u128();
    let found = TweetService::find_tweet(id, &store).unwrap();
    assert_eq!(found.id, created.id);
    assert_eq!(found.message, "hello");
    assert_eq!(found.created_at, created.created_at);
}

#[test]
fn find_missing_post_is_not_found() {
    let mut store = Store::new();
    store.insert_tweet(post(1, 100, "a")).unwrap();
    assert!(matches!(TweetService::find_tweet(2, &store), Err(ServiceError::NotFound)));
    let empty = Store::new();
    assert!(matches!(TweetService::find_tweet(1, &empty), Err(ServiceError::NotFound)));
}

#[test]
fn delete_missing_post_is_success() {
    let mut store = Store::new();
    store.insert_tweet(post(1, 100, "a")).unwrap();
    assert_eq!(TweetService::delete_tweet(42, &mut store), Ok(()));
    let page = TweetService::list_tweets(50, &store).unwrap();
    assert_eq!(page.results.len(), 1);

    let mut empty = Store::new();
    assert_eq!(TweetService::delete_tweet(42, &mut empty), Ok(()));
}

#[test]
fn delete_existing_post_removes_it() {
    let mut store = Store::new();
    store.insert_tweet(post(7, 100, "bye")).unwrap();
    store.insert_tweet(post(8, 200, "stay")).unwrap();
    assert_eq!(TweetService::delete_tweet(7, &mut store), Ok(()));
    assert!(matches!(TweetService::find_tweet(7, &store), Err(ServiceError::NotFound)));
    let page = TweetService::list_tweets(50, &store).unwrap();
    assert_eq!(page.results.len(), 1);
    assert_eq!(page.results[0].message, "stay");
}

#[test]
fn reaction_listed_after_create_newest_first() {
    let mut store = Store::new();
    store.insert_tweet(post(1, 100, "a")).unwrap();
    store.insert_like(reaction(10, 100, 1)).unwrap();
    store.insert_like(reaction(11, 300, 1)).unwrap();
    store.insert_like(reaction(12, 200, 1)).unwrap();

    let created = LikeService::create_like(1, &mut store).unwrap();
    let page = LikeService::list_likes(1, &store).unwrap();
    assert_eq!(page.results.len(), 4);
    assert!(page.results.iter().any(|l| l.id == created.id));
    for pair in page.results.windows(2) {
        assert!(pair[0].created_at >= pair[1].created_at);
    }
}

#[test]
fn list_likes_only_for_named_post() {
    let mut store = Store::new();
    store.insert_tweet(post(1, 100, "a")).unwrap();
    store.insert_tweet(post(2, 200, "b")).unwrap();
    store.insert_like(reaction(10, 100, 1)).unwrap();
    store.insert_like(reaction(11, 300, 2)).unwrap();
    store.insert_like(reaction(12, 200, 1)).unwrap();

    let page = LikeService::list_likes(1, &store).unwrap();
    assert_eq!(page.results.len(), 2);
    assert_eq!(page.results[0].id, uuid_string(12));
    assert_eq!(page.results[1].id, uuid_string(10));
}

#[test]
fn deleted_reaction_gone_from_every_listing() {
    let mut store = Store::new();
    store.insert_tweet(post(1, 100, "a")).unwrap();
    store.insert_tweet(post(2, 200, "b")).unwrap();
    store.insert_like(reaction(10, 100, 1)).unwrap();
    store.insert_like(reaction(11, 300, 1)).unwrap();
    store.insert_like(reaction(12, 200, 2)).unwrap();

    // the route for post 2 was used, but only the reaction id counts
    assert_eq!(LikeService::delete_like(10, &mut store), Ok(()));

    let page_one = LikeService::list_likes(1, &store).unwrap();
    assert_eq!(page_one.results.len(), 1);
    assert!(page_one.results.iter().all(|l| l.id != uuid_string(10)));
    let page_two = LikeService::list_likes(2, &store).unwrap();
    assert_eq!(page_two.results.len(), 1);
    assert_eq!(page_two.results[0].id, uuid_string(12));
}

#[test]
fn delete_missing_reaction_is_success() {
    let mut store = Store::new();
    store.insert_tweet(post(1, 100, "a")).unwrap();
    store.insert_like(reaction(10, 100, 1)).unwrap();
    assert_eq!(LikeService::delete_like(99, &mut store), Ok(()));
    let page = LikeService::list_likes(1, &store).unwrap();
    assert_eq!(page.results.len(), 1);
}

#[test]
fn create_like_under_missing_post_is_swallowed() {
    let mut store = Store::new();
    let created = LikeService::create_like(5, &mut store);
    assert!(created.is_ok());
    let page = LikeService::list_likes(5, &store).unwrap();
    assert!(page.results.is_empty());
}

#[test]
fn insert_tweet_duplicate_id_is_unique_violation() {
    let mut store = Store::new();
    store.insert_tweet(post(1, 100, "a")).unwrap();
    assert_eq!(store.insert_tweet(post(1, 200, "b")), Err(ServiceError::UniqueViolation));
    let page = TweetService::list_tweets(50, &store).unwrap();
    assert_eq!(page.results.len(), 1);
    assert_eq!(page.results[0].message, "a");
}

#[test]
fn insert_like_missing_post_is_foreign_key_violation() {
    let mut store = Store::new();
    assert_eq!(store.insert_like(reaction(10, 100, 1)), Err(ServiceError::ForeignKeyViolation));
}

#[test]
fn insert_like_duplicate_id_is_unique_violation() {
    let mut store = Store::new();
    store.insert_tweet(post(1, 100, "a")).unwrap();
    store.insert_like(reaction(10, 100, 1)).unwrap();
    assert_eq!(store.insert_like(reaction(10, 200, 1)), Err(ServiceError::UniqueViolation));
}

#[test]
fn contains_checks_match_contents() {
    let mut store = Store::new();
    store.insert_tweet(post(1, 100, "a")).unwrap();
    store.insert_like(reaction(10, 100, 1)).unwrap();
    assert!(store.contains_post(1));
    assert!(!store.contains_post(2));
    assert!(store.contains_reaction(10));
    assert!(!store.contains_reaction(11));
}

#[test]
fn detail_view_attaches_reactions_newest_first() {
    let mut store = Store::new();
    store.insert_tweet(post(1, 100, "a")).unwrap();
    store.insert_tweet(post(2, 200, "b")).unwrap();
    store.insert_like(reaction(10, 100, 1)).unwrap();
    store.insert_like(reaction(11, 300, 1)).unwrap();
    store.insert_like(reaction(12, 200, 2)).unwrap();

    let t = TweetService::find_tweet_with_likes(1, &store).unwrap();
    assert_eq!(t.id, uuid_string(1));
    assert_eq!(t.message, "a");
    assert_eq!(t.created_at, 100);
    assert_eq!(t.likes.len(), 2);
    assert_eq!(t.likes[0].id, uuid_string(11));
    assert_eq!(t.likes[0].created_at, 300);
    assert_eq!(t.likes[1].id, uuid_string(10));
    assert_eq!(t.likes[1].created_at, 100);
}

#[test]
fn detail_view_without_reactions_has_empty_list() {
    let mut store = Store::new();
    store.insert_tweet(post(1, 100, "a")).unwrap();
    store.insert_like(reaction(12, 200, 1)).unwrap();
    store.insert_tweet(post(2, 200, "b")).unwrap();

    let t = TweetService::find_tweet_with_likes(2, &store).unwrap();
    assert_eq!(t.message, "b");
    assert!(t.likes.is_empty());
}

#[test]
fn detail_view_of_missing_post_is_not_found() {
    let mut store = Store::new();
    store.insert_tweet(post(1, 100, "a")).unwrap();
    assert!(matches!(
        TweetService::find_tweet_with_likes(2, &store),
        Err(ServiceError::NotFound)
    ));
}
