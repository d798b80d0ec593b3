use rustful_service::like::{Like, Likes};
use rustful_service::tweet::{Tweet, Tweets};

#[test]
fn tweet_row_renders_for_the_wire() {
    let row = Tweets { id: 0, created_at: 5, message: "hi".to_string() };
    let t = row.to_tweet();
    assert_eq!(t.id, "00000000-0000-0000-0000-000000000000");
    assert_eq!(t.created_at, 5);
    assert_eq!(t.message, "hi");
    assert!(t.likes.is_empty());
}

#[test]
fn tweet_row_identifier_text_matches_uuid_rendering() {
    let id: u128 = 0x0123456789abcdef0123456789abcdef;
    let row = Tweets { id, created_at: 1, message: "x".to_string() };
    let t = row.to_tweet();
    assert_eq!(t.id, uuid::Uuid::from_u128(id).to_string());
    assert_eq!(t.id, "01234567-89ab-cdef-0123-456789abcdef");
}

#[test]
fn fresh_tweet_has_message_and_parseable_id() {
    let t = Tweet::new("hello".to_string());
    assert_eq!(t.message, "hello");
    assert!(t.likes.is_empty());
    assert_eq!(t.id.len(), 36);
    assert!(uuid::Uuid::parse_str(&t.id).is_ok());
}

#[test]
fn tweet_row_draws_its_own_identifier() {
    let t = Tweet::new("msg".to_string());
    let row = t.to_tweet_db();
    assert_eq!(row.message, "msg");
    // the row's identifier is drawn anew, it is not the post's
    let t_id = uuid::Uuid::parse_str(&t.id).unwrap().as_u128();
    assert_ne!(row.id, t_id);
}

#[test]
fn add_likes_attaches_the_given_reactions() {
    let t = Tweet::new("msg".to_string());
    let likes = vec![Like { id: "a".to_string(), created_at: 3 }];
    let with = t.add_likes(likes);
    assert_eq!(with.id, t.id);
    assert_eq!(with.created_at, t.created_at);
    assert_eq!(with.message, "msg");
    assert_eq!(with.likes.len(), 1);
    assert_eq!(with.likes[0].id, "a");
    assert_eq!(with.likes[0].created_at, 3);
}

#[test]
fn like_row_renders_for_the_wire() {
    let row = Likes { id: 7, created_at: 9, tweet_id: 1 };
    let l = row.to_like();
    assert_eq!(l.id, uuid::Uuid::from_u128(7).to_string());
    assert_eq!(l.created_at, 9);
}

#[test]
fn fresh_like_has_parseable_id() {
    let l = Like::new();
    assert_eq!(l.id.len(), 36);
    assert!(uuid::Uuid::parse_str(&l.id).is_ok());
}

#[test]
fn like_round_trips_to_its_row() {
    let id: u128 = 42;
    let l = Like { id: uuid::Uuid::from_u128(id).to_string(), created_at: 4 };
    let row = l.to_like_db(3);
    assert_eq!(row.id, id);
    assert_eq!(row.created_at, 4);
    assert_eq!(row.tweet_id, 3);
    let back = row.to_like();
    assert_eq!(back.id, l.id);
    assert_eq!(back.created_at, 4);
}
