use vstd::prelude::*;

use crate::clock::now_micros;
use crate::ids::{fresh_id, id_text, parse_id, uuid_text};

verus! {

/// A reaction as the wire sees it: identifier text and creation time in
/// microseconds since the Unix epoch.
pub struct Like {
    pub id: String,
    pub created_at: i64,
}

/// A reaction as the storage row holds it: the identifier as the 128-bit
/// value behind its text, the creation time, and the owning post.
pub struct Likes {
    pub id: u128,
    pub created_at: i64,
    pub tweet_id: u128,
}

/// The wire form `l` renders the row `row`: same identifier (as text) and
/// same creation time. The owning post does not appear on the wire.
pub open spec fn is_like_of(l: Like, row: Likes) -> bool {
    &&& l.id@ == uuid_text(row.id)
    &&& l.created_at == row.created_at
}

impl Like {
    /// A fresh reaction: new identifier, current time.
    pub fn new() -> (r: Like)
        ensures
            exists|u: u128| r.id@ == #[trigger] uuid_text(u),
    {
        Like { id: id_text(fresh_id()), created_at: now_micros() }
    }

    /// The storage row for this reaction under post `tweet_id`: the
    /// identifier text parsed back to its 128-bit value, creation time and
    /// owning post carried over. The identifier text is expected in the
    /// canonical lower-case hyphenated rendering — the only form this
    /// library produces (`Like::new`) — which is narrower than the set of
    /// texts the uuid parser itself accepts.
    pub fn to_like_db(&self, tweet_id: u128) -> (r: Likes)
        requires
            exists|u: u128| self.id@ == #[trigger] uuid_text(u),
        ensures
            uuid_text(r.id) == self.id@,
            r.created_at == self.created_at,
            r.tweet_id == tweet_id,
    {
        let parsed = parse_id(self.id.as_str());
        proof {
            let u = choose|u: u128| self.id@ == uuid_text(u);
            assert(parsed == Some(u));
        }
        let id = parsed.unwrap();
        Likes { id, created_at: self.created_at, tweet_id }
    }
}

impl Likes {
    /// The wire form of this row.
    pub fn to_like(&self) -> (r: Like)
        ensures
            is_like_of(r, *self),
    {
        Like { id: id_text(self.id), created_at: self.created_at }
    }
}

} // verus!
