use vstd::prelude::*;

use crate::clock::now_micros;
use crate::ids::{fresh_id, id_text, uuid_text};
use crate::like::Like;

verus! {

/// A post as the wire sees it: identifier text, creation time in microseconds
/// since the Unix epoch, message, and the reactions attached on detail views.
pub struct Tweet {
    pub id: String,
    pub created_at: i64,
    pub message: String,
    pub likes: Vec<Like>,
}

/// A post as the storage row holds it: the identifier as the 128-bit value
/// behind its text, the creation time, and the message.
pub struct Tweets {
    pub id: u128,
    pub created_at: i64,
    pub message: String,
}

/// The wire form `t` renders the row `row` itself: same identifier (as
/// text), same creation time, same message. What `t.likes` holds is not said
/// here — list views leave it empty, the detail view fills it.
pub open spec fn renders_tweet_row(t: Tweet, row: Tweets) -> bool {
    &&& t.id@ == uuid_text(row.id)
    &&& t.created_at == row.created_at
    &&& t.message@ == row.message@
}

/// The wire form `t` renders the row `row` as list views do: the row itself,
/// with no reactions attached.
pub open spec fn is_tweet_of(t: Tweet, row: Tweets) -> bool {
    &&& renders_tweet_row(t, row)
    &&& t.likes@.len() == 0
}

impl Tweet {
    /// A fresh post carrying `message`: new identifier, current time, no
    /// reactions.
    pub fn new(message: String) -> (r: Tweet)
        ensures
            r.message@ == message@,
            r.likes@.len() == 0,
            exists|u: u128| r.id@ == #[trigger] uuid_text(u),
    {
        Tweet {
            id: id_text(fresh_id()),
            created_at: now_micros(),
            message,
            likes: Vec::new(),
        }
    }

    /// The storage row for this post. The row draws a fresh identifier and
    /// timestamp of its own; only the message is carried over.
    pub fn to_tweet_db(&self) -> (r: Tweets)
        ensures
            r.message@ == self.message@,
    {
        Tweets {
            id: fresh_id(),
            created_at: now_micros(),
            message: self.message.clone(),
        }
    }

    /// The same post with `likes` standing as its reaction list.
    pub fn add_likes(&self, likes: Vec<Like>) -> (r: Tweet)
        ensures
            r.id@ == self.id@,
            r.created_at == self.created_at,
            r.message@ == self.message@,
            r.likes@ == likes@,
    {
        Tweet {
            id: self.id.clone(),
            created_at: self.created_at,
            message: self.message.clone(),
            likes,
        }
    }
}

impl Tweets {
    /// The wire form of this row, the reaction list left empty as list views
    /// leave it.
    pub fn to_tweet(&self) -> (r: Tweet)
        ensures
            is_tweet_of(r, *self),
    {
        Tweet {
            id: id_text(self.id),
            created_at: self.created_at,
            message: self.message.clone(),
            likes: Vec::new(),
        }
    }
}

} // verus!
