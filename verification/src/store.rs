use vstd::prelude::*;

use crate::error::ServiceError;
use crate::like::Likes;
use crate::tweet::Tweets;

verus! {

/// The state behind a connection: the two persisted tables. Each table keys
/// its rows by the row identifier; a reaction additionally references the
/// post it belongs to, checked when the reaction is inserted.
pub struct Store {
    pub posts: Vec<Tweets>,
    pub reactions: Vec<Likes>,
}

impl Store {
    /// Well-formed storage: identifiers are unique within each table, as the
    /// primary-key constraints keep them.
    pub open spec fn wf(&self) -> bool {
        &&& forall|i: int, j: int|
            0 <= i < j < self.posts@.len() ==> self.posts@[i].id != self.posts@[j].id
        &&& forall|i: int, j: int|
            0 <= i < j < self.reactions@.len() ==> self.reactions@[i].id != self.reactions@[j].id
    }

    /// Whether some post row carries `id`.
    pub open spec fn has_post(&self, id: u128) -> bool {
        exists|i: int| 0 <= i < self.posts@.len() && self.posts@[i].id == id
    }

    /// Whether some reaction row carries `id`.
    pub open spec fn has_reaction(&self, id: u128) -> bool {
        exists|i: int| 0 <= i < self.reactions@.len() && self.reactions@[i].id == id
    }

    /// An empty store.
    pub fn new() -> (r: Store)
        ensures
            r.posts@.len() == 0,
            r.reactions@.len() == 0,
            r.wf(),
    {
        Store { posts: Vec::new(), reactions: Vec::new() }
    }

    /// Whether a post with `id` exists, as an executable check.
    pub fn contains_post(&self, id: u128) -> (r: bool)
        ensures
            r == self.has_post(id),
    {
        let mut i: usize = 0;
        while i < self.posts.len()
            invariant
                i <= self.posts@.len(),
                forall|k: int| 0 <= k < i ==> self.posts@[k].id != id,
            decreases self.posts@.len() - i,
        {
            if self.posts[i].id == id {
                return true;
            }
            i += 1;
        }
        false
    }

    /// Whether a reaction with `id` exists, as an executable check.
    pub fn contains_reaction(&self, id: u128) -> (r: bool)
        ensures
            r == self.has_reaction(id),
    {
        let mut i: usize = 0;
        while i < self.reactions.len()
            invariant
                i <= self.reactions@.len(),
                forall|k: int| 0 <= k < i ==> self.reactions@[k].id != id,
            decreases self.reactions@.len() - i,
        {
            if self.reactions[i].id == id {
                return true;
            }
            i += 1;
        }
        false
    }

    /// Insert a post row, modelling the primary-key constraint: a duplicate
    /// identifier is refused and leaves the table unchanged.
    pub fn insert_tweet(&mut self, row: Tweets) -> (r: Result<(), ServiceError>)
        requires
            old(self).wf(),
        ensures
            final(self).wf(),
            final(self).reactions@ == old(self).reactions@,
            match r {
                Ok(_) => !old(self).has_post(row.id)
                    && final(self).posts@ == old(self).posts@.push(row),
                Err(e) => e == ServiceError::UniqueViolation
                    && old(self).has_post(row.id)
                    && final(self).posts@ == old(self).posts@,
            },
    {
        if self.contains_post(row.id) {
            return Err(ServiceError::UniqueViolation);
        }
        self.posts.push(row);
        Ok(())
    }

    /// Insert a reaction row, modelling both table constraints: the
    /// identifier must be new, and the referenced post must exist at creation
    /// time. A refused row leaves the table unchanged.
    pub fn insert_like(&mut self, row: Likes) -> (r: Result<(), ServiceError>)
        requires
            old(self).wf(),
        ensures
            final(self).wf(),
            final(self).posts@ == old(self).posts@,
            match r {
                Ok(_) => old(self).has_post(row.tweet_id)
                    && !old(self).has_reaction(row.id)
                    && final(self).reactions@ == old(self).reactions@.push(row),
                Err(e) => final(self).reactions@ == old(self).reactions@
                    && if !old(self).has_post(row.tweet_id) {
                        e == ServiceError::ForeignKeyViolation
                    } else {
                        e == ServiceError::UniqueViolation && old(self).has_reaction(row.id)
                    },
            },
    {
        if !self.contains_post(row.tweet_id) {
            return Err(ServiceError::ForeignKeyViolation);
        }
        if self.contains_reaction(row.id) {
            return Err(ServiceError::UniqueViolation);
        }
        self.reactions.push(row);
        Ok(())
    }
}

} // verus!
