use vstd::prelude::*;
use crate::inventory::{lex_lt, str_lt};
use crate::text::str_eq;

verus! {

/// A record stored under a text key.
pub trait Keyed {
    spec fn key_view(&self) -> Seq<char>;

    fn key_str(&self) -> (r: &str)
        ensures
            r@ == self.key_view(),
    ;
}

/// Position of the first record of `s` with key `k`.
pub open spec fn first_index<T: Keyed>(s: Seq<T>, k: Seq<char>) -> Option<int>
    decreases s.len(),
{
    if s.len() == 0 {
        None
    } else if s[0].key_view() == k {
        Some(0)
    } else {
        match first_index(s.drop_first(), k) {
            Some(i) => Some(i + 1),
            None => None,
        }
    }
}

/// The record that a table holds under key `k`: the first one with that key.
pub open spec fn lookup<T: Keyed>(s: Seq<T>, k: Seq<char>) -> Option<T> {
    match first_index(s, k) {
        Some(i) => Some(s[i]),
        None => None,
    }
}

/// `first_index` is the first position whose key matches, or none matches.
pub proof fn lemma_first_index<T: Keyed>(s: Seq<T>, k: Seq<char>)
    ensures
        match first_index(s, k) {
            Some(i) => 0 <= i < s.len() && s[i].key_view() == k && forall|j: int|
                0 <= j < i ==> #[trigger] s[j].key_view() != k,
            None => forall|j: int| 0 <= j < s.len() ==> #[trigger] s[j].key_view() != k,
        },
    decreases s.len(),
{
    if s.len() > 0 {
        lemma_first_index(s.drop_first(), k);
        match first_index(s.drop_first(), k) {
            Some(i) => {
                assert forall|j: int| 0 <= j < i + 1 && s[0].key_view() != k implies #[trigger] s[j].key_view() != k by {
                    if j > 0 {
                        assert(s[j] == s.drop_first()[j - 1]);
                    }
                }
            },
            None => {
                assert forall|j: int| 0 <= j < s.len() && s[0].key_view() != k implies #[trigger] s[j].key_view() != k by {
                    if j > 0 {
                        assert(s[j] == s.drop_first()[j - 1]);
                    }
                }
            },
        }
    }
}

proof fn lemma_first_index_at<T: Keyed>(s: Seq<T>, k: Seq<char>, i: int)
    requires
        0 <= i <= s.len(),
        forall|j: int| 0 <= j < i ==> #[trigger] s[j].key_view() != k,
        i == s.len() || s[i].key_view() == k,
    ensures
        first_index(s, k) == (if i < s.len() { Some(i) } else { None::<int> }),
    decreases i,
{
    if i > 0 {
        assert forall|j: int| 0 <= j < i - 1 implies #[trigger] s.drop_first()[j].key_view() != k by {
            assert(s.drop_first()[j] == s[j + 1]);
        }
        lemma_first_index_at(s.drop_first(), k, i - 1);
    } else if s.len() > 0 {
        assert(s[0].key_view() == k);
    }
}

/// Finds the position of the record with key `k`.
pub fn find_key<T: Keyed>(v: &Vec<T>, k: &str) -> (r: Option<usize>)
    ensures
        match r {
            Some(i) => first_index(v@, k@) == Some(i as int) && i < v@.len(),
            None => first_index(v@, k@) is None,
        },
{
    let mut i: usize = 0;
    while i < v.len()
        invariant
            i <= v@.len(),
            forall|j: int| 0 <= j < i ==> #[trigger] v@[j].key_view() != k@,
        decreases v@.len() - i,
    {
        if str_eq(v[i].key_str(), k) {
            proof {
                lemma_first_index_at(v@, k@, i as int);
            }
            return Some(i);
        }
        i = i + 1;
    }
    proof {
        lemma_first_index_at(v@, k@, i as int);
    }
    None
}

pub proof fn lemma_lookup_update<T: Keyed>(s: Seq<T>, i: int, x: T)
    requires
        first_index(s, x.key_view()) == Some(i),
    ensures
        forall|k: Seq<char>| #[trigger] lookup(s.update(i, x), k) == if k == x.key_view() {
            Some(x)
        } else {
            lookup(s, k)
        },
{
    let t = s.update(i, x);
    lemma_first_index(s, x.key_view());
    assert forall|k: Seq<char>| #[trigger] lookup(t, k) == if k == x.key_view() {
        Some(x)
    } else {
        lookup(s, k)
    } by {
        lemma_first_index(s, k);
        if k == x.key_view() {
            assert forall|j: int| 0 <= j < i implies #[trigger] t[j].key_view() != k by {
                assert(t[j] == s[j]);
            }
            lemma_first_index_at(t, k, i);
        } else {
            match first_index(s, k) {
                Some(m) => {
                    assert forall|j: int| 0 <= j < m implies #[trigger] t[j].key_view() != k by {
                        if j != i {
                            assert(t[j] == s[j]);
                        }
                    }
                    assert(m != i);
                    assert(t[m] == s[m]);
                    lemma_first_index_at(t, k, m);
                },
                None => {
                    assert forall|j: int| 0 <= j < t.len() implies #[trigger] t[j].key_view() != k by {
                        if j != i {
                            assert(t[j] == s[j]);
                        }
                    }
                    lemma_first_index_at(t, k, t.len() as int);
                },
            }
        }
    }
}

pub proof fn lemma_lookup_push<T: Keyed>(s: Seq<T>, x: T)
    requires
        first_index(s, x.key_view()) is None,
    ensures
        forall|k: Seq<char>| #[trigger] lookup(s.push(x), k) == if k == x.key_view() {
            Some(x)
        } else {
            lookup(s, k)
        },
{
    let t = s.push(x);
    lemma_first_index(s, x.key_view());
    assert forall|k: Seq<char>| #[trigger] lookup(t, k) == if k == x.key_view() {
        Some(x)
    } else {
        lookup(s, k)
    } by {
        lemma_first_index(s, k);
        match first_index(s, k) {
            Some(m) => {
                assert(k != x.key_view());
                assert forall|j: int| 0 <= j < m implies #[trigger] t[j].key_view() != k by {
                    assert(t[j] == s[j]);
                }
                assert(t[m] == s[m]);
                lemma_first_index_at(t, k, m);
            },
            None => {
                assert forall|j: int| 0 <= j < s.len() implies #[trigger] t[j].key_view() != k by {
                    assert(t[j] == s[j]);
                }
                if k == x.key_view() {
                    lemma_first_index_at(t, k, s.len() as int);
                } else {
                    lemma_first_index_at(t, k, t.len() as int);
                }
            },
        }
    }
}

/// A table after storing `x` under its key: the record held there is replaced, or `x` is
/// appended.
pub open spec fn upsert_spec<T: Keyed>(s: Seq<T>, x: T) -> Seq<T> {
    match first_index(s, x.key_view()) {
        Some(i) => s.update(i, x),
        None => s.push(x),
    }
}

/// A table after storing each of `xs` in turn.
pub open spec fn upsert_all<T: Keyed>(s: Seq<T>, xs: Seq<T>) -> Seq<T>
    decreases xs.len(),
{
    if xs.len() == 0 {
        s
    } else {
        upsert_all(upsert_spec(s, xs[0]), xs.drop_first())
    }
}

/// Storing one more record after a batch.
pub proof fn lemma_upsert_all_push<T: Keyed>(s: Seq<T>, xs: Seq<T>, x: T)
    ensures
        upsert_all(s, xs.push(x)) == upsert_spec(upsert_all(s, xs), x),
    decreases xs.len(),
{
    reveal_with_fuel(upsert_all, 2);
    if xs.len() > 0 {
        lemma_upsert_all_push(upsert_spec(s, xs[0]), xs.drop_first(), x);
        assert(xs.push(x).drop_first() =~= xs.drop_first().push(x));
        assert(xs.push(x)[0] == xs[0]);
    } else {
        assert(xs.push(x).drop_first() =~= xs);
    }
}

/// Stores `x` under its key, replacing the record held there (an insert into a key-value
/// table).
pub fn upsert<T: Keyed>(v: &mut Vec<T>, x: T)
    ensures
        final(v)@ == upsert_spec(old(v)@, x),
        forall|k: Seq<char>| #[trigger] lookup(final(v)@, k) == if k == x.key_view() {
            Some(x)
        } else {
            lookup(old(v)@, k)
        },
{
    let found = find_key(v, x.key_str());
    match found {
        Some(i) => {
            proof {
                lemma_lookup_update(v@, i as int, x);
            }
            v.set(i, x);
        },
        None => {
            proof {
                lemma_lookup_push(v@, x);
            }
            v.push(x);
        },
    }
}

/// Reads the record held under key `k`.
pub fn get_key<'a, T: Keyed>(v: &'a Vec<T>, k: &str) -> (r: Option<&'a T>)
    ensures
        match r {
            Some(x) => lookup(v@, k@) == Some(*x),
            None => lookup(v@, k@) is None,
        },
{
    match find_key(v, k) {
        Some(i) => Some(&v[i]),
        None => None,
    }
}

/// Position at which `x` enters a list ordered by key: after every record whose key does
/// not sort after `x`'s.
pub open spec fn key_slot<T: Keyed>(sorted: Seq<T>, x: T) -> int
    decreases sorted.len(),
{
    if sorted.len() == 0 {
        0
    } else if lex_lt(x.key_view(), sorted[0].key_view()) {
        0
    } else {
        1 + key_slot(sorted.drop_first(), x)
    }
}

/// Records ordered by key, ascending; records with equal keys keep their order (a stable
/// sort).
pub open spec fn by_key<T: Keyed>(s: Seq<T>) -> Seq<T>
    decreases s.len(),
{
    if s.len() == 0 {
        Seq::empty()
    } else {
        let rest = by_key(s.drop_last());
        rest.insert(key_slot(rest, s.last()), s.last())
    }
}

proof fn lemma_key_slot<T: Keyed>(sorted: Seq<T>, x: T, k: int)
    requires
        0 <= k <= sorted.len(),
        forall|j: int| 0 <= j < k ==> !lex_lt(x.key_view(), #[trigger] sorted[j].key_view()),
        k == sorted.len() || lex_lt(x.key_view(), sorted[k].key_view()),
    ensures
        key_slot(sorted, x) == k,
    decreases sorted.len(),
{
    if sorted.len() > 0 && k > 0 {
        let d = sorted.drop_first();
        assert(!lex_lt(x.key_view(), sorted[0].key_view()));
        assert forall|j: int| 0 <= j < k - 1 implies !lex_lt(x.key_view(), #[trigger] d[j].key_view()) by {
            assert(d[j] == sorted[j + 1]);
        }
        if k < sorted.len() {
            assert(d[k - 1] == sorted[k]);
        }
        lemma_key_slot(d, x, k - 1);
    }
}

/// `key_slot` is a position of the list or just past its end.
pub proof fn lemma_key_slot_range<T: Keyed>(sorted: Seq<T>, x: T)
    ensures
        0 <= key_slot(sorted, x) <= sorted.len(),
    decreases sorted.len(),
{
    if sorted.len() > 0 {
        lemma_key_slot_range(sorted.drop_first(), x);
    }
}

/// Sorts records by key, ascending and stable (see `by_key`).
pub fn sort_by_key<T: Keyed>(v: Vec<T>) -> (r: Vec<T>)
    ensures
        r@ == by_key(v@),
{
    let ghost all = v@;
    let mut rest = v;
    let n = rest.len();
    let mut out: Vec<T> = Vec::new();
    let mut i: usize = 0;
    while i < n
        invariant
            i <= n,
            n == all.len(),
            rest@ == all.skip(i as int),
            out@ == by_key(all.take(i as int)),
        decreases n - i,
    {
        let x = rest.remove(0);
        assert(x == all[i as int]);
        let mut k: usize = 0;
        while k < out.len() && !str_lt(x.key_str(), out[k].key_str())
            invariant
                k <= out@.len(),
                forall|j: int| 0 <= j < k ==> !lex_lt(x.key_view(), #[trigger] out@[j].key_view()),
            decreases out@.len() - k,
        {
            k = k + 1;
        }
        proof {
            lemma_key_slot(out@, x, k as int);
            let sub = all.take(i + 1);
            assert(sub.drop_last() =~= all.take(i as int));
            assert(sub.last() == x);
            assert(rest@ =~= all.skip(i + 1));
        }
        out.insert(k, x);
        i = i + 1;
    }
    assert(all.take(n as int) =~= all);
    out
}

} // verus!
