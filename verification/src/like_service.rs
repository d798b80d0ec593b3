use vstd::prelude::*;

use crate::error::ServiceError;
use crate::like::{is_like_of, Like, Likes};
use crate::order::{lemma_same_keys, sort_keys_desc, sorted_desc};
use crate::response::Response;
use crate::store::Store;

verus! {

/// A listing reply holding reactions.
pub type ResponseLikes = Response<Like>;

/// What a reaction listing returns: `results` renders, newest first, the rows
/// of `reactions` owned by post `tid` — each exactly once, at the positions
/// `pi` names — and no other row.
pub open spec fn likes_listing_ok(
    results: Seq<Like>,
    reactions: Seq<Likes>,
    tid: u128,
    pi: Seq<int>,
) -> bool {
    &&& pi.len() == results.len()
    &&& forall|t: int| 0 <= t < pi.len() ==> 0 <= #[trigger] pi[t] < reactions.len()
    &&& forall|t: int| 0 <= t < pi.len() ==> reactions[#[trigger] pi[t]].tweet_id == tid
    &&& forall|a: int, b: int| 0 <= a < b < pi.len() ==> pi[a] != pi[b]
    &&& forall|t: int| 0 <= t < pi.len() ==> is_like_of(#[trigger] results[t], reactions[pi[t]])
    &&& forall|k: int|
        0 <= k < reactions.len() && (#[trigger] reactions[k]).tweet_id == tid ==> pi.contains(k)
    &&& forall|a: int, b: int|
        0 <= a < b < results.len() ==> #[trigger] results[a].created_at
            >= #[trigger] results[b].created_at
}

/// `results` is an admissible reaction listing for post `tid`: some choice of
/// positions shows it renders exactly the rows owned by `tid`, each once,
/// newest first.
pub open spec fn likes_listing(results: Seq<Like>, reactions: Seq<Likes>, tid: u128) -> bool {
    exists|pi: Seq<int>| likes_listing_ok(results, reactions, tid, pi)
}

/// `l` is what a create answers when asked for a reaction under post `tid`,
/// with the table going from `before` to `after`: `l` renders some row owned
/// by `tid`, and that row was appended — unless the post was missing or the
/// drawn identifier collided, in which case the refusal was swallowed and
/// nothing changed.
pub open spec fn created_like_ok(l: Like, before: Store, after: Store, tid: u128) -> bool {
    exists|row: Likes|
        {
            &&& #[trigger] is_like_of(l, row)
            &&& row.tweet_id == tid
            &&& if before.has_post(tid) && !before.has_reaction(row.id) {
                after.reactions@ == before.reactions@.push(row)
            } else {
                after.reactions@ == before.reactions@
            }
        }
}

/// `l` renders a row of `reactions` other than the one carrying `banned`.
pub open spec fn renders_surviving(l: Like, reactions: Seq<Likes>, banned: u128) -> bool {
    exists|row: Likes|
        {
            &&& reactions.contains(row)
            &&& #[trigger] is_like_of(l, row)
            &&& row.id != banned
        }
}

/// The reaction operations a request reaches: one storage query each.
pub struct LikeService;

impl LikeService {
    /// The reactions under post `tweet_id`, newest first. The listing itself
    /// never fails.
    pub fn list_likes(tweet_id: u128, store: &Store) -> (r: Result<ResponseLikes, ServiceError>)
        ensures
            r is Ok,
            likes_listing(r->Ok_0.results@, store.reactions@, tweet_id),
    {
        let n_rows = store.reactions.len();
        let mut keys: Vec<(i64, usize)> = Vec::new();
        let mut i: usize = 0;
        while i < n_rows
            invariant
                n_rows == store.reactions@.len(),
                i <= n_rows,
                forall|m: int|
                    0 <= m < keys@.len() ==> {
                        &&& 0 <= (#[trigger] keys@[m]).1 < i
                        &&& store.reactions@[keys@[m].1 as int].tweet_id == tweet_id
                        &&& keys@[m].0 == store.reactions@[keys@[m].1 as int].created_at
                    },
                keys@.len() <= i,
                forall|m1: int, m2: int| 0 <= m1 < m2 < keys@.len() ==> keys@[m1].1 < keys@[m2].1,
                forall|k: int|
                    0 <= k < i && (#[trigger] store.reactions@[k]).tweet_id == tweet_id
                        ==> exists|m: int| 0 <= m < keys@.len() && (#[trigger] keys@[m]).1 == k,
            decreases n_rows - i,
        {
            let ghost prev = keys@;
            if store.reactions[i].tweet_id == tweet_id {
                keys.push((store.reactions[i].created_at, i));
            }
            proof {
                assert forall|k: int|
                    0 <= k < i + 1 && (#[trigger] store.reactions@[k]).tweet_id
                        == tweet_id implies exists|m: int|
                    0 <= m < keys@.len() && (#[trigger] keys@[m]).1 == k by {
                    if k < i {
                        let m = choose|m: int|
                            0 <= m < prev.len() && (#[trigger] prev[m]).1 == k;
                        assert((keys@[m]).1 == k);
                    } else {
                        assert((keys@[keys@.len() - 1]).1 == k);
                    }
                }
            }
            i += 1;
        }
        let ghost keyseq = keys@;
        let sorted = sort_keys_desc(keys);
        proof {
            assert(keyseq.no_duplicates()) by {
                assert forall|a: int, b: int|
                    0 <= a < keyseq.len() && 0 <= b < keyseq.len() && a != b implies keyseq[a]
                    != keyseq[b] by {
                    if a < b {
                        assert(keyseq[a].1 < keyseq[b].1);
                    } else {
                        assert(keyseq[b].1 < keyseq[a].1);
                    }
                }
            }
            lemma_same_keys(keyseq, sorted@);
            assert forall|q: int| 0 <= q < sorted@.len() implies {
                &&& 0 <= (#[trigger] sorted@[q]).1 < store.reactions@.len()
                &&& store.reactions@[sorted@[q].1 as int].tweet_id == tweet_id
                &&& sorted@[q].0 == store.reactions@[sorted@[q].1 as int].created_at
            } by {
                assert(keyseq.contains(sorted@[q]));
                let m = choose|m: int| 0 <= m < keyseq.len() && keyseq[m] == sorted@[q];
                assert(0 <= (keyseq[m]).1 < store.reactions@.len());
            }
        }
        let mut results: Vec<Like> = Vec::new();
        let mut j: usize = 0;
        while j < sorted.len()
            invariant
                sorted@.len() <= store.reactions@.len(),
                sorted_desc(sorted@),
                sorted@.no_duplicates(),
                forall|q: int|
                    0 <= q < sorted@.len() ==> {
                        &&& 0 <= (#[trigger] sorted@[q]).1 < store.reactions@.len()
                        &&& store.reactions@[sorted@[q].1 as int].tweet_id == tweet_id
                        &&& sorted@[q].0 == store.reactions@[sorted@[q].1 as int].created_at
                    },
                forall|q: int| 0 <= q < sorted@.len() ==> keyseq.contains(#[trigger] sorted@[q]),
                forall|m: int|
                    0 <= m < keyseq.len() ==> sorted@.contains(#[trigger] keyseq[m]),
                forall|m: int|
                    0 <= m < keyseq.len() ==> {
                        &&& 0 <= (#[trigger] keyseq[m]).1 < store.reactions@.len()
                        &&& keyseq[m].0 == store.reactions@[keyseq[m].1 as int].created_at
                    },
                forall|k: int|
                    0 <= k < store.reactions@.len() && (#[trigger] store.reactions@[k]).tweet_id
                        == tweet_id ==> exists|m: int|
                        0 <= m < keyseq.len() && (#[trigger] keyseq[m]).1 == k,
                j <= sorted@.len(),
                results@.len() == j,
                forall|t: int|
                    0 <= t < j ==> is_like_of(
                        #[trigger] results@[t],
                        store.reactions@[sorted@[t].1 as int],
                    ),
            decreases sorted@.len() - j,
        {
            let idx = sorted[j].1;
            let l = store.reactions[idx].to_like();
            results.push(l);
            j += 1;
        }
        proof {
            let n = sorted@.len() as int;
            let pi = Seq::new(n as nat, |t: int| sorted@[t].1 as int);
            assert forall|a: int, b: int| 0 <= a < b < n implies pi[a] != pi[b] by {
                if sorted@[a].1 == sorted@[b].1 {
                    assert(sorted@[a] != sorted@[b]);
                    let m1 = choose|m: int| 0 <= m < keyseq.len() && keyseq[m] == sorted@[a];
                    let m2 = choose|m: int| 0 <= m < keyseq.len() && keyseq[m] == sorted@[b];
                    if m1 < m2 {
                        assert(keyseq[m1].1 < keyseq[m2].1);
                    } else if m2 < m1 {
                        assert(keyseq[m2].1 < keyseq[m1].1);
                    }
                }
            }
            assert forall|t: int| 0 <= t < n implies #[trigger] results@[t].created_at
                == sorted@[t].0 by {
                assert(is_like_of(results@[t], store.reactions@[sorted@[t].1 as int]));
            }
            assert forall|k: int|
                0 <= k < store.reactions@.len() && (#[trigger] store.reactions@[k]).tweet_id
                    == tweet_id implies pi.contains(k) by {
                let m = choose|m: int| 0 <= m < keyseq.len() && (#[trigger] keyseq[m]).1 == k;
                assert(sorted@.contains(keyseq[m]));
                let q = choose|q: int| 0 <= q < sorted@.len() && sorted@[q] == keyseq[m];
                assert(pi[q] == k);
            }
            assert(likes_listing_ok(results@, store.reactions@, tweet_id, pi));
            assert(likes_listing(results@, store.reactions@, tweet_id));
        }
        Ok(Response { results })
    }

    /// Create a reaction under post `tweet_id`: a fresh reaction is rendered
    /// and its row written. The write masks storage refusals — a missing post
    /// or a colliding drawn identifier is swallowed, and the rendered
    /// reaction still comes back.
    pub fn create_like(tweet_id: u128, store: &mut Store) -> (r: Result<Like, ServiceError>)
        requires
            old(store).wf(),
        ensures
            final(store).wf(),
            final(store).posts@ == old(store).posts@,
            r is Ok,
            created_like_ok(r->Ok_0, *old(store), *final(store), tweet_id),
    {
        let like = Like::new();
        let row = like.to_like_db(tweet_id);
        let ghost rowg = row;
        let _res = store.insert_like(row);
        proof {
            assert(is_like_of(like, rowg));
            assert(rowg.tweet_id == tweet_id);
            assert(created_like_ok(like, *old(store), *store, tweet_id));
        }
        Ok(like)
    }

    /// Delete the reaction carrying `like_id` — the identifier names the
    /// reaction itself, not the post of the enclosing route. A missing id
    /// deletes nothing and still answers success.
    pub fn delete_like(like_id: u128, store: &mut Store) -> (r: Result<(), ServiceError>)
        requires
            old(store).wf(),
        ensures
            r is Ok,
            final(store).wf(),
            final(store).posts@ == old(store).posts@,
            forall|k: int|
                0 <= k < final(store).reactions@.len()
                    ==> #[trigger] final(store).reactions@[k].id != like_id,
            if old(store).has_reaction(like_id) {
                exists|k: int|
                    0 <= k < old(store).reactions@.len()
                        && #[trigger] old(store).reactions@[k].id == like_id
                        && final(store).reactions@ == old(store).reactions@.remove(k)
            } else {
                final(store).reactions@ == old(store).reactions@
            },
    {
        let mut i: usize = 0;
        while i < store.reactions.len()
            invariant
                old(store).wf(),
                *store == *old(store),
                i <= store.reactions@.len(),
                forall|k: int| 0 <= k < i ==> #[trigger] store.reactions@[k].id != like_id,
            decreases store.reactions@.len() - i,
        {
            if store.reactions[i].id == like_id {
                let ghost rows_before = store.reactions@;
                let _removed = store.reactions.remove(i);
                proof {
                    assert forall|k: int| 0 <= k < store.reactions@.len() implies #[trigger] store
                        .reactions@[k].id != like_id by {
                        if k >= i {
                            assert(store.reactions@[k] == rows_before[k + 1]);
                        }
                    }
                    assert forall|a: int, b: int|
                        0 <= a < b < store.reactions@.len() implies store.reactions@[a].id != store
                        .reactions@[b].id by {
                        if b >= i {
                            assert(store.reactions@[b] == rows_before[b + 1]);
                        }
                        if a >= i {
                            assert(store.reactions@[a] == rows_before[a + 1]);
                        }
                    }
                }
                return Ok(());
            }
            i += 1;
        }
        Ok(())
    }
}

/// Law: a reaction is listed right after its creation. When `row` enters the
/// reaction table, any listing of its post's reactions that the listing
/// contract admits renders `row` somewhere — and, by the same contract, the
/// listing stands in descending creation order.
pub proof fn lemma_like_listed(reactions: Seq<Likes>, row: Likes, results: Seq<Like>)
    requires
        likes_listing(results, reactions.push(row), row.tweet_id),
    ensures
        exists|t: int| 0 <= t < results.len() && is_like_of(#[trigger] results[t], row),
{
    let pi = choose|pi: Seq<int>|
        likes_listing_ok(results, reactions.push(row), row.tweet_id, pi);
    let k = reactions.len() as int;
    assert(reactions.push(row)[k].tweet_id == row.tweet_id);
    assert(pi.contains(k));
    let t = choose|t: int| 0 <= t < pi.len() && pi[t] == k;
    assert(is_like_of(results[t], reactions.push(row)[pi[t]]));
}

/// Law: a deleted reaction is gone from every later listing, whichever post
/// the request named. Once no reaction row carries `like_id`, every entry of
/// any admissible listing — under any post identifier — renders a surviving
/// row, one whose identifier is not the deleted one.
pub proof fn lemma_like_delisted(
    reactions: Seq<Likes>,
    like_id: u128,
    tweet_id: u128,
    results: Seq<Like>,
)
    requires
        forall|k: int| 0 <= k < reactions.len() ==> #[trigger] reactions[k].id != like_id,
        likes_listing(results, reactions, tweet_id),
    ensures
        forall|t: int|
            0 <= t < results.len() ==> renders_surviving(#[trigger] results[t], reactions, like_id),
{
    let pi = choose|pi: Seq<int>| likes_listing_ok(results, reactions, tweet_id, pi);
    assert forall|t: int|
        0 <= t < results.len() implies renders_surviving(
        #[trigger] results[t],
        reactions,
        like_id,
    ) by {
        let row = reactions[pi[t]];
        assert(reactions.contains(row));
        assert(is_like_of(results[t], row));
        assert(reactions[pi[t]].id != like_id);
        assert(renders_surviving(results[t], reactions, like_id));
    }
}

} // verus!
