use vstd::prelude::*;

verus! {

/// A sort key: a creation time paired with the position of its row in the
/// table. Sorting keys, rather than rows, leaves the rows untouched.
pub open spec fn sorted_desc(s: Seq<(i64, usize)>) -> bool {
    forall|i: int, j: int| 0 <= i < j < s.len() ==> s[i].0 >= s[j].0
}

/// Two key sequences holding the same multiset hold the same keys, and a key
/// sequence without duplicates stays without duplicates across the exchange.
pub proof fn lemma_same_keys(a: Seq<(i64, usize)>, b: Seq<(i64, usize)>)
    requires
        a.to_multiset() == b.to_multiset(),
    ensures
        forall|q: int| 0 <= q < b.len() ==> a.contains(#[trigger] b[q]),
        forall|q: int| 0 <= q < a.len() ==> b.contains(#[trigger] a[q]),
        a.no_duplicates() ==> b.no_duplicates(),
{
    broadcast use vstd::seq_lib::group_to_multiset_ensures;

    assert forall|q: int| 0 <= q < b.len() implies a.contains(#[trigger] b[q]) by {
        assert(b.contains(b[q]));
        assert(b.to_multiset().count(b[q]) > 0);
    }
    assert forall|q: int| 0 <= q < a.len() implies b.contains(#[trigger] a[q]) by {
        assert(a.contains(a[q]));
        assert(a.to_multiset().count(a[q]) > 0);
    }
    if a.no_duplicates() {
        a.lemma_multiset_has_no_duplicates();
        b.lemma_multiset_has_no_duplicates_conv();
    }
}

/// Insertion sort over sort keys, newest (largest time) first. The result
/// holds exactly the given keys, as a multiset, in descending order of time.
pub(crate) fn sort_keys_desc(keys: Vec<(i64, usize)>) -> (r: Vec<(i64, usize)>)
    ensures
        r@.len() == keys@.len(),
        sorted_desc(r@),
        r@.to_multiset() == keys@.to_multiset(),
{
    broadcast use vstd::seq_lib::group_to_multiset_ensures;

    let mut out: Vec<(i64, usize)> = Vec::new();
    proof {
        assert(keys@.take(0) =~= Seq::<(i64, usize)>::empty());
        assert(out@.to_multiset() =~= keys@.take(0).to_multiset());
    }
    let mut i: usize = 0;
    while i < keys.len()
        invariant
            i <= keys@.len(),
            out@.len() == i,
            sorted_desc(out@),
            out@.to_multiset() == keys@.take(i as int).to_multiset(),
        decreases keys@.len() - i,
    {
        let p = keys[i];
        let mut j: usize = 0;
        while j < out.len() && out[j].0 >= p.0
            invariant
                j <= out@.len(),
                forall|k: int| 0 <= k < j ==> out@[k].0 >= p.0,
            decreases out@.len() - j,
        {
            j += 1;
        }
        let ghost before = out@;
        out.insert(j, p);
        proof {
            before.insert_ensures(j as int, p);
            assert forall|a: int, b: int| 0 <= a < b < out@.len() implies out@[a].0
                >= out@[b].0 by {
                if b < j {
                } else if a > j {
                    assert(out@[a] == before[a - 1]);
                    assert(out@[b] == before[b - 1]);
                } else if a == j {
                    // out@[a] == p, and every key from position j on is older
                    assert(out@[b] == before[b - 1]);
                    assert(before[j as int].0 < p.0 || j == before.len());
                } else if b == j {
                    assert(out@[a] == before[a]);
                } else {
                    // a < j < b
                    assert(out@[a] == before[a]);
                    assert(out@[b] == before[b - 1]);
                    assert(before[j as int].0 < p.0 || j as int == before.len());
                }
            }
            assert(out@ == before.insert(j as int, p));
            vstd::seq_lib::to_multiset_insert(before, j as int, p);
            assert(keys@.take(i + 1) =~= keys@.take(i as int).push(keys@[i as int]));
            vstd::seq_lib::to_multiset_build(keys@.take(i as int), keys@[i as int]);
        }
        i += 1;
    }
    proof {
        assert(keys@.take(keys@.len() as int) =~= keys@);
    }
    out
}

} // verus!
