use vstd::prelude::*;
use crate::models::SocialActivity;

verus! {

/// Where `a` goes in a feed already ordered newest first: after every activity at least as
/// recent, before the first older one.
pub open spec fn time_slot(sorted: Seq<SocialActivity>, a: SocialActivity) -> int
    decreases sorted.len(),
{
    if sorted.len() == 0 {
        0
    } else if sorted[0].timestamp < a.timestamp {
        0
    } else {
        1 + time_slot(sorted.drop_first(), a)
    }
}

/// The activities ordered newest first; activities with equal timestamps keep their order
/// (a stable sort).
pub open spec fn by_newest(s: Seq<SocialActivity>) -> Seq<SocialActivity>
    decreases s.len(),
{
    if s.len() == 0 {
        Seq::empty()
    } else {
        let rest = by_newest(s.drop_last());
        rest.insert(time_slot(rest, s.last()), s.last())
    }
}

proof fn lemma_time_slot(sorted: Seq<SocialActivity>, a: SocialActivity, k: int)
    requires
        0 <= k <= sorted.len(),
        forall|j: int| 0 <= j < k ==> sorted[j].timestamp >= a.timestamp,
        k == sorted.len() || sorted[k].timestamp < a.timestamp,
    ensures
        time_slot(sorted, a) == k,
    decreases sorted.len(),
{
    if sorted.len() > 0 && k > 0 {
        let d = sorted.drop_first();
        assert forall|j: int| 0 <= j < k - 1 implies d[j].timestamp >= a.timestamp by {
            assert(d[j] == sorted[j + 1]);
        }
        if k < sorted.len() {
            assert(d[k - 1] == sorted[k]);
        }
        lemma_time_slot(d, a, k - 1);
    }
}

proof fn lemma_time_slot_bounds(sorted: Seq<SocialActivity>, a: SocialActivity)
    ensures
        0 <= time_slot(sorted, a) <= sorted.len(),
        forall|j: int| 0 <= j < time_slot(sorted, a) ==> sorted[j].timestamp >= a.timestamp,
        time_slot(sorted, a) < sorted.len() ==> sorted[time_slot(sorted, a)].timestamp < a.timestamp,
    decreases sorted.len(),
{
    if sorted.len() > 0 && sorted[0].timestamp >= a.timestamp {
        let d = sorted.drop_first();
        lemma_time_slot_bounds(d, a);
        assert forall|j: int| 0 <= j < time_slot(sorted, a) implies sorted[j].timestamp >= a.timestamp by {
            if j > 0 {
                assert(sorted[j] == d[j - 1]);
            }
        }
        if time_slot(sorted, a) < sorted.len() {
            assert(sorted[time_slot(sorted, a)] == d[time_slot(d, a)]);
        }
    }
}

/// Activities ordered newest first.
pub open spec fn newest_first_order(s: Seq<SocialActivity>) -> bool {
    forall|i: int, j: int| 0 <= i < j < s.len() ==> s[i].timestamp >= s[j].timestamp
}

/// The feed holds exactly the activities it was given (as a multiset), newest first.
pub proof fn law_feed_newest_first(s: Seq<SocialActivity>)
    ensures
        newest_first_order(by_newest(s)),
        by_newest(s).to_multiset() =~= s.to_multiset(),
    decreases s.len(),
{
    broadcast use vstd::multiset::group_multiset_axioms;
    broadcast use vstd::seq_lib::to_multiset_build;
    broadcast use vstd::seq_lib::to_multiset_remove;

    if s.len() > 0 {
        let rest = by_newest(s.drop_last());
        let a = s.last();
        law_feed_newest_first(s.drop_last());
        lemma_time_slot_bounds(rest, a);
        let k = time_slot(rest, a);
        let r = rest.insert(k, a);
        assert(r == by_newest(s));
        rest.insert_ensures(k, a);
        assert forall|i: int, j: int| 0 <= i < j < r.len() implies r[i].timestamp >= r[j].timestamp by {
            if j < k {
                assert(r[i] == rest[i] && r[j] == rest[j]);
            } else if j == k {
                assert(r[i] == rest[i]);
            } else if i < k {
                assert(r[i] == rest[i] && r[j] == rest[j - 1]);
            } else if i == k {
                assert(r[j] == rest[j - 1]);
                assert(rest[k].timestamp < a.timestamp);
            } else {
                assert(r[i] == rest[i - 1] && r[j] == rest[j - 1]);
            }
        }
        assert(r.remove(k) =~= rest);
        assert(r.to_multiset().remove(a) == rest.to_multiset());
        r.to_multiset_ensures();
        assert(r[k] == a);
        assert(r.contains(a));
        assert(r.to_multiset() =~= rest.to_multiset().insert(a));
        assert(s =~= s.drop_last().push(a));
        assert(s.to_multiset() =~= s.drop_last().to_multiset().insert(a));
    } else {
        assert(by_newest(s) =~= s);
    }
}

/// A feed ordered newest first (see `by_newest`).
pub fn newest_first(acts: Vec<SocialActivity>) -> (r: Vec<SocialActivity>)
    ensures
        r@ == by_newest(acts@),
{
    let ghost src = acts@;
    let n = acts.len();
    let mut rest = acts;
    let mut out: Vec<SocialActivity> = Vec::new();
    let mut i: usize = 0;
    while i < n
        invariant
            n == src.len(),
            i <= n,
            rest@ == src.subrange(i as int, n as int),
            out@ == by_newest(src.subrange(0, i as int)),
        decreases n - i,
    {
        let a = rest.remove(0);
        let mut k: usize = 0;
        while k < out.len() && out[k].timestamp >= a.timestamp
            invariant
                k <= out@.len(),
                forall|j: int| 0 <= j < k ==> out@[j].timestamp >= a.timestamp,
            decreases out@.len() - k,
        {
            k = k + 1;
        }
        proof {
            lemma_time_slot(out@, a, k as int);
            let sub = src.subrange(0, i + 1);
            assert(sub.drop_last() =~= src.subrange(0, i as int));
            assert(sub.last() == a);
            assert(rest@ =~= src.subrange(i + 1, n as int));
        }
        out.insert(k, a);
        i = i + 1;
    }
    assert(src.subrange(0, n as int) =~= src);
    out
}

} // verus!
