pub mod clock;
pub mod error;
pub mod ids;
pub mod like;
pub mod like_service;
pub mod order;
pub mod response;
pub mod store;
pub mod tweet;
pub mod tweet_service;
