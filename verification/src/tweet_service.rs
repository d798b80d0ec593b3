use vstd::prelude::*;

use crate::error::ServiceError;
use crate::like_service::{likes_listing, LikeService};
use crate::order::{lemma_same_keys, sort_keys_desc, sorted_desc};
use crate::response::Response;
use crate::store::Store;
use crate::tweet::{is_tweet_of, renders_tweet_row, Tweet, Tweets};

verus! {

/// A listing reply holding posts.
pub type ResponseTweets = Response<Tweet>;

/// The first post row carrying `id`, scanning the table front to back.
pub open spec fn find_post(posts: Seq<Tweets>, id: u128) -> Option<Tweets>
    decreases posts.len(),
{
    if posts.len() == 0 {
        None
    } else if posts[0].id == id {
        Some(posts[0])
    } else {
        find_post(posts.drop_first(), id)
    }
}

/// What a post listing returns: `results` renders, newest first, `n` distinct
/// rows of `posts` — the ones standing at the positions `pi` names — and
/// every row left out is no newer than any row listed.
pub open spec fn tweet_listing_ok(
    results: Seq<Tweet>,
    posts: Seq<Tweets>,
    pi: Seq<int>,
    n: int,
) -> bool {
    &&& results.len() == n
    &&& pi.len() == n
    &&& forall|t: int| 0 <= t < n ==> 0 <= #[trigger] pi[t] < posts.len()
    &&& forall|a: int, b: int| 0 <= a < b < n ==> pi[a] != pi[b]
    &&& forall|t: int| 0 <= t < n ==> is_tweet_of(#[trigger] results[t], posts[pi[t]])
    &&& forall|a: int, b: int|
        0 <= a < b < n ==> #[trigger] results[a].created_at >= #[trigger] results[b].created_at
    &&& forall|k: int, t: int|
        0 <= k < posts.len() && !pi.contains(k) && 0 <= t < n
            ==> #[trigger] posts[k].created_at <= #[trigger] results[t].created_at
}

/// `results` is an admissible post listing of `posts`: some choice of
/// positions shows it renders distinct rows, newest first, leaving out only
/// rows no newer than those listed.
pub open spec fn tweet_listing(results: Seq<Tweet>, posts: Seq<Tweets>) -> bool {
    exists|pi: Seq<int>| tweet_listing_ok(results, posts, pi, results.len() as int)
}

/// `t` is what a create answers when asked for a post with `message`, with
/// the table going from `before` to `after`: `t` renders some row carrying
/// `message`, and that row was appended — unless its drawn identifier
/// collided, in which case the refusal was swallowed and nothing changed.
pub open spec fn created_tweet_ok(t: Tweet, before: Store, after: Store, message: Seq<char>) -> bool {
    exists|row: Tweets|
        {
            &&& #[trigger] is_tweet_of(t, row)
            &&& row.message@ == message
            &&& if before.has_post(row.id) {
                after.posts@ == before.posts@
            } else {
                after.posts@ == before.posts@.push(row)
            }
        }
}

/// The post operations a request reaches: one storage query each.
pub struct TweetService;

impl TweetService {
    /// Up to `total_tweets` most recent posts, newest first. A negative limit
    /// is a bad query, and listings mask query failures as an empty page, so
    /// it yields no rows. The listing itself never fails.
    pub fn list_tweets(total_tweets: i64, store: &Store) -> (r: Result<
        ResponseTweets,
        ServiceError,
    >)
        ensures
            r is Ok,
            ({
                let results = r->Ok_0.results@;
                let lim: int = if total_tweets >= 0 {
                    total_tweets as int
                } else {
                    0
                };
                &&& results.len() == (if lim < store.posts@.len() {
                    lim
                } else {
                    store.posts@.len() as int
                })
                &&& forall|a: int, b: int|
                    0 <= a < b < results.len() ==> #[trigger] results[a].created_at
                        >= #[trigger] results[b].created_at
                &&& tweet_listing(results, store.posts@)
            }),
    {
        let n_posts = store.posts.len();
        let mut keys: Vec<(i64, usize)> = Vec::new();
        let mut i: usize = 0;
        while i < n_posts
            invariant
                n_posts == store.posts@.len(),
                i <= n_posts,
                keys@.len() == i,
                forall|k: int|
                    0 <= k < i ==> #[trigger] keys@[k] == (store.posts@[k].created_at, k as usize),
            decreases n_posts - i,
        {
            keys.push((store.posts[i].created_at, i));
            i += 1;
        }
        let ghost keyseq = keys@;
        let sorted = sort_keys_desc(keys);
        proof {
            assert(keyseq.no_duplicates()) by {
                assert forall|a: int, b: int|
                    0 <= a < keyseq.len() && 0 <= b < keyseq.len() && a != b implies keyseq[a]
                    != keyseq[b] by {
                    assert(keyseq[a].1 == a);
                    assert(keyseq[b].1 == b);
                }
            }
            lemma_same_keys(keyseq, sorted@);
            assert forall|q: int| 0 <= q < sorted@.len() implies {
                &&& 0 <= #[trigger] sorted@[q].1 < store.posts@.len()
                &&& sorted@[q].0 == store.posts@[sorted@[q].1 as int].created_at
                &&& sorted@[q] == keyseq[sorted@[q].1 as int]
            } by {
                assert(keyseq.contains(sorted@[q]));
                let k = choose|k: int| 0 <= k < keyseq.len() && keyseq[k] == sorted@[q];
                assert(keyseq[k].1 == k);
            }
        }
        let mut results: Vec<Tweet> = Vec::new();
        let mut count: i64 = 0;
        let mut j: usize = 0;
        while j < sorted.len() && count < total_tweets
            invariant
                n_posts == store.posts@.len(),
                sorted@.len() == n_posts,
                sorted_desc(sorted@),
                sorted@.no_duplicates(),
                forall|q: int|
                    0 <= q < sorted@.len() ==> {
                        &&& 0 <= #[trigger] sorted@[q].1 < store.posts@.len()
                        &&& sorted@[q].0 == store.posts@[sorted@[q].1 as int].created_at
                        &&& sorted@[q] == keyseq[sorted@[q].1 as int]
                    },
                forall|k: int|
                    0 <= k < n_posts ==> #[trigger] keyseq[k] == (
                        store.posts@[k].created_at,
                        k as usize,
                    ),
                forall|k: int| 0 <= k < n_posts ==> sorted@.contains(#[trigger] keyseq[k]),
                j <= sorted@.len(),
                0 <= count,
                count == j,
                total_tweets >= 0 ==> count <= total_tweets,
                total_tweets < 0 ==> j == 0,
                results@.len() == j,
                forall|t: int|
                    0 <= t < j ==> is_tweet_of(
                        #[trigger] results@[t],
                        store.posts@[sorted@[t].1 as int],
                    ),
            decreases sorted@.len() - j,
        {
            let idx = sorted[j].1;
            let t = store.posts[idx].to_tweet();
            results.push(t);
            j += 1;
            count += 1;
        }
        proof {
            let n = j as int;
            let pi = Seq::new(n as nat, |t: int| sorted@[t].1 as int);
            assert forall|a: int, b: int| 0 <= a < b < n implies pi[a] != pi[b] by {
                if sorted@[a].1 == sorted@[b].1 {
                    assert(sorted@[a] == keyseq[sorted@[a].1 as int]);
                    assert(sorted@[b] == keyseq[sorted@[b].1 as int]);
                }
            }
            assert forall|t: int| 0 <= t < n implies #[trigger] results@[t].created_at
                == sorted@[t].0 by {
                assert(is_tweet_of(results@[t], store.posts@[sorted@[t].1 as int]));
            }
            assert forall|k: int, t: int|
                0 <= k < store.posts@.len() && !pi.contains(k) && 0 <= t < n implies #[trigger] store
                .posts@[k].created_at <= #[trigger] results@[t].created_at by {
                assert(sorted@.contains(keyseq[k]));
                let q = choose|q: int| 0 <= q < sorted@.len() && sorted@[q] == keyseq[k];
                assert(sorted@[q].1 == k);
                if q < n {
                    assert(pi[q] == k);
                    assert(pi.contains(k));
                } else {
                    assert(sorted@[t].0 >= sorted@[q].0);
                }
            }
            assert(tweet_listing_ok(results@, store.posts@, pi, n));
            assert(tweet_listing(results@, store.posts@));
        }
        Ok(Response { results })
    }

    /// The post carrying `id`: the first matching row, rendered bare (the
    /// reaction list left empty), or NotFound when no row matches. The detail
    /// view attaches the reactions on top of this: see
    /// `find_tweet_with_likes`.
    pub fn find_tweet(id: u128, store: &Store) -> (r: Result<Tweet, ServiceError>)
        ensures
            match r {
                Ok(t) => find_post(store.posts@, id) matches Some(row) && is_tweet_of(t, row),
                Err(e) => e == ServiceError::NotFound && find_post(store.posts@, id) is None,
            },
    {
        let mut i: usize = 0;
        proof {
            assert(store.posts@.skip(0) =~= store.posts@);
        }
        while i < store.posts.len()
            invariant
                i <= store.posts@.len(),
                find_post(store.posts@, id) == find_post(store.posts@.skip(i as int), id),
            decreases store.posts@.len() - i,
        {
            proof {
                assert(store.posts@.skip(i as int)[0] == store.posts@[i as int]);
            }
            if store.posts[i].id == id {
                let t = store.posts[i].to_tweet();
                return Ok(t);
            }
            proof {
                assert(store.posts@.skip(i as int).drop_first() =~= store.posts@.skip(i + 1));
            }
            i += 1;
        }
        proof {
            assert(store.posts@.skip(store.posts@.len() as int) =~= Seq::<Tweets>::empty());
        }
        Err(ServiceError::NotFound)
    }

    /// The post carrying `id` as the detail view shows it: the matching row
    /// rendered for the wire with the post's reactions attached, newest
    /// first, or NotFound when no row matches.
    pub fn find_tweet_with_likes(id: u128, store: &Store) -> (r: Result<Tweet, ServiceError>)
        ensures
            match r {
                Ok(t) => {
                    &&& find_post(store.posts@, id) matches Some(row) && renders_tweet_row(t, row)
                    &&& likes_listing(t.likes@, store.reactions@, id)
                },
                Err(e) => e == ServiceError::NotFound && find_post(store.posts@, id) is None,
            },
    {
        let found = Self::find_tweet(id, store);
        match found {
            Ok(t) => {
                let page = LikeService::list_likes(id, store);
                match page {
                    Ok(p) => {
                        let ghost listed = p.results@;
                        let detailed = t.add_likes(p.results);
                        proof {
                            assert(detailed.likes@ == listed);
                            assert(likes_listing(detailed.likes@, store.reactions@, id));
                        }
                        Ok(detailed)
                    },
                    Err(e) => Err(e),
                }
            },
            Err(e) => Err(e),
        }
    }

    /// Create a post: the stored row draws an identifier and timestamp of its
    /// own and carries the given post's message. The write masks storage
    /// refusals — the rendered row comes back whether or not the table
    /// accepted it, and a drawn identifier that collides is swallowed.
    pub fn create_tweet(tweet: Tweet, store: &mut Store) -> (r: Result<Tweet, ServiceError>)
        requires
            old(store).wf(),
        ensures
            final(store).wf(),
            final(store).reactions@ == old(store).reactions@,
            r is Ok,
            r->Ok_0.message@ == tweet.message@,
            r->Ok_0.likes@.len() == 0,
            created_tweet_ok(r->Ok_0, *old(store), *final(store), tweet.message@),
    {
        let row = tweet.to_tweet_db();
        let rendered = row.to_tweet();
        let ghost rowg = row;
        let _res = store.insert_tweet(row);
        proof {
            assert(is_tweet_of(rendered, rowg));
            assert(rowg.message@ == tweet.message@);
            assert(created_tweet_ok(rendered, *old(store), *store, tweet.message@));
        }
        Ok(rendered)
    }

    /// Delete the post carrying `id`. A missing id deletes nothing and still
    /// answers success; the reply does not tell the two apart.
    pub fn delete_tweet(id: u128, store: &mut Store) -> (r: Result<(), ServiceError>)
        requires
            old(store).wf(),
        ensures
            r is Ok,
            final(store).wf(),
            final(store).reactions@ == old(store).reactions@,
            forall|k: int|
                0 <= k < final(store).posts@.len() ==> #[trigger] final(store).posts@[k].id != id,
            if old(store).has_post(id) {
                exists|k: int|
                    0 <= k < old(store).posts@.len() && #[trigger] old(store).posts@[k].id == id
                        && final(store).posts@ == old(store).posts@.remove(k)
            } else {
                final(store).posts@ == old(store).posts@
            },
    {
        let mut i: usize = 0;
        while i < store.posts.len()
            invariant
                old(store).wf(),
                *store == *old(store),
                i <= store.posts@.len(),
                forall|k: int| 0 <= k < i ==> #[trigger] store.posts@[k].id != id,
            decreases store.posts@.len() - i,
        {
            if store.posts[i].id == id {
                let ghost posts_before = store.posts@;
                let _removed = store.posts.remove(i);
                proof {
                    assert forall|k: int| 0 <= k < store.posts@.len() implies #[trigger] store
                        .posts@[k].id != id by {
                        if k >= i {
                            assert(store.posts@[k] == posts_before[k + 1]);
                        }
                    }
                    assert forall|a: int, b: int| 0 <= a < b < store.posts@.len() implies store
                        .posts@[a].id != store.posts@[b].id by {
                        if b >= i {
                            assert(store.posts@[b] == posts_before[b + 1]);
                        }
                        if a >= i {
                            assert(store.posts@[a] == posts_before[a + 1]);
                        }
                    }
                }
                return Ok(());
            }
            i += 1;
        }
        Ok(())
    }
}

/// Law: a post found right after its creation is that post. When `row` enters
/// a table that held no row with its identifier, looking that identifier up
/// finds exactly `row` — so the post the create renders and the post the find
/// returns carry the same identifier text and the same message.
pub proof fn lemma_find_after_create(posts: Seq<Tweets>, row: Tweets)
    requires
        forall|k: int| 0 <= k < posts.len() ==> #[trigger] posts[k].id != row.id,
    ensures
        find_post(posts.push(row), row.id) == Some(row),
    decreases posts.len(),
{
    if posts.len() == 0 {
        assert(posts.push(row)[0] == row);
    } else {
        assert(posts[0].id != row.id);
        assert forall|k: int| 0 <= k < posts.drop_first().len() implies #[trigger] posts
            .drop_first()[k].id != row.id by {
            assert(posts.drop_first()[k] == posts[k + 1]);
        }
        lemma_find_after_create(posts.drop_first(), row);
        assert(posts.push(row).drop_first() =~= posts.drop_first().push(row));
        assert(posts.push(row)[0] == posts[0]);
    }
}

} // verus!
