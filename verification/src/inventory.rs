use vstd::prelude::*;
use crate::error::SettleTradeError;
use crate::text::{chars_vec, str_eq, trim, trim_spec};

verus! {

/// Lexicographic order on character sequences, by code point. For UTF-8 text this is the
/// same order as the byte-wise order that `String`'s `Ord` uses.
pub open spec fn lex_lt(a: Seq<char>, b: Seq<char>) -> bool
    decreases a.len(),
{
    if a.len() == 0 {
        b.len() > 0
    } else if b.len() == 0 {
        false
    } else if a[0] != b[0] {
        a[0] < b[0]
    } else {
        lex_lt(a.drop_first(), b.drop_first())
    }
}

/// `lex_lt` is a strict total order: exactly one of `a < b`, `a == b`, `b < a`.
pub proof fn lemma_lex_total(a: Seq<char>, b: Seq<char>)
    ensures
        lex_lt(a, b) || a == b || lex_lt(b, a),
        !(lex_lt(a, b) && lex_lt(b, a)),
        !lex_lt(a, a),
    decreases a.len(),
{
    if a.len() == 0 && b.len() == 0 {
        assert(a =~= b);
    }
    if a.len() > 0 {
        lemma_lex_total(a.drop_first(), a.drop_first());
    }
    if a.len() > 0 && b.len() > 0 && a[0] == b[0] {
        lemma_lex_total(a.drop_first(), b.drop_first());
        if a.drop_first() == b.drop_first() {
            assert(a =~= seq![a[0]] + a.drop_first());
            assert(b =~= seq![b[0]] + b.drop_first());
        }
    }
}

/// `lex_lt` is transitive.
pub proof fn lemma_lex_trans(a: Seq<char>, b: Seq<char>, c: Seq<char>)
    requires
        lex_lt(a, b),
        lex_lt(b, c),
    ensures
        lex_lt(a, c),
    decreases a.len(),
{
    if a.len() > 0 && b.len() > 0 && c.len() > 0 && a[0] == b[0] && b[0] == c[0] {
        lemma_lex_trans(a.drop_first(), b.drop_first(), c.drop_first());
    }
}

proof fn lemma_lex_skip(a: Seq<char>, b: Seq<char>, i: int)
    requires
        0 <= i <= a.len(),
        i <= b.len(),
        forall|j: int| 0 <= j < i ==> a[j] == b[j],
    ensures
        lex_lt(a, b) == lex_lt(a.subrange(i, a.len() as int), b.subrange(i, b.len() as int)),
    decreases i,
{
    if i > 0 {
        lemma_lex_skip(a.drop_first(), b.drop_first(), i - 1);
        assert(a.drop_first().subrange(i - 1, a.drop_first().len() as int) =~= a.subrange(
            i,
            a.len() as int,
        ));
        assert(b.drop_first().subrange(i - 1, b.drop_first().len() as int) =~= b.subrange(
            i,
            b.len() as int,
        ));
    } else {
        assert(a.subrange(0, a.len() as int) =~= a);
        assert(b.subrange(0, b.len() as int) =~= b);
    }
}

/// Whether `a` sorts strictly before `b`.
pub fn str_lt(a: &str, b: &str) -> (r: bool)
    ensures
        r == lex_lt(a@, b@),
{
    let v = chars_vec(a);
    let w = chars_vec(b);
    let mut i: usize = 0;
    while i < v.len() && i < w.len() && v[i] == w[i]
        invariant
            i <= v@.len(),
            i <= w@.len(),
            forall|j: int| 0 <= j < i ==> v@[j] == w@[j],
        decreases v@.len() - i,
    {
        i = i + 1;
    }
    proof {
        lemma_lex_skip(v@, w@, i as int);
    }
    if i == v.len() {
        i < w.len()
    } else if i == w.len() {
        false
    } else {
        v[i] < w[i]
    }
}

/// Some element of `v` has the text `y`.
pub open spec fn has_text(v: Seq<String>, y: Seq<char>) -> bool {
    exists|i: int| #![trigger v[i]] 0 <= i < v.len() && v[i]@ == y
}

/// Texts of the first `i + 1` elements: those of the first `i`, and element `i`.
pub proof fn lemma_has_text_extend(s: Seq<String>, i: int)
    requires
        0 <= i < s.len(),
    ensures
        forall|y: Seq<char>| has_text(s.subrange(0, i + 1), y) <==> (has_text(s.subrange(0, i), y)
            || y == s[i]@),
{
    let a = s.subrange(0, i);
    let b = s.subrange(0, i + 1);
    assert forall|y: Seq<char>| has_text(b, y) <==> (has_text(a, y) || y == s[i]@) by {
        if has_text(b, y) {
            let j = choose|j: int| #![trigger b[j]] 0 <= j < b.len() && b[j]@ == y;
            if j < i {
                assert(a[j] == b[j]);
            }
        }
        if has_text(a, y) {
            let j = choose|j: int| #![trigger a[j]] 0 <= j < a.len() && a[j]@ == y;
            assert(b[j] == a[j]);
        }
        if y == s[i]@ {
            assert(b[i] == s[i]);
        }
    }
}

/// Elements strictly increasing by `lex_lt`: sorted, and no text twice.
pub open spec fn strictly_sorted(v: Seq<String>) -> bool {
    forall|i: int, j: int| 0 <= i < j < v.len() ==> lex_lt(#[trigger] v[i]@, #[trigger] v[j]@)
}

/// Whether some element of `v` has the text of `s`.
pub fn has_str(v: &[String], s: &str) -> (b: bool)
    ensures
        b == has_text(v@, s@),
{
    let mut i: usize = 0;
    while i < v.len()
        invariant
            i <= v@.len(),
            forall|j: int| 0 <= j < i ==> v@[j]@ != s@,
        decreases v@.len() - i,
    {
        if str_eq(v[i].as_str(), s) {
            assert(v@[i as int]@ == s@);
            return true;
        }
        i = i + 1;
    }
    false
}

/// Every card of `cards` is held in `inv`.
pub fn owns_all(inv: &[String], cards: &[String]) -> (b: bool)
    ensures
        b == (forall|k: int| 0 <= k < cards@.len() ==> has_text(inv@, #[trigger] cards@[k]@)),
{
    let mut k: usize = 0;
    while k < cards.len()
        invariant
            k <= cards@.len(),
            forall|j: int| 0 <= j < k ==> has_text(inv@, #[trigger] cards@[j]@),
        decreases cards@.len() - k,
    {
        if !has_str(inv, cards[k].as_str()) {
            return false;
        }
        k = k + 1;
    }
    true
}

/// Inserts `x` into a strictly sorted vector unless its text is already there.
pub fn insert_sorted_unique(out: &mut Vec<String>, x: String)
    requires
        strictly_sorted(old(out)@),
    ensures
        strictly_sorted(final(out)@),
        forall|y: Seq<char>| has_text(final(out)@, y) <==> (has_text(old(out)@, y) || y == x@),
{
    let n = out.len();
    let mut i: usize = 0;
    while i < n && str_lt(out[i].as_str(), x.as_str())
        invariant
            n == out@.len(),
            i <= n,
            forall|j: int| 0 <= j < i ==> lex_lt(#[trigger] out@[j]@, x@),
        decreases n - i,
    {
        i = i + 1;
    }
    if i < n && str_eq(out[i].as_str(), x.as_str()) {
        assert(out@[i as int]@ == x@);
        return;
    }
    let ghost old_v = out@;
    proof {
        if i < n {
            lemma_lex_total(out@[i as int]@, x@);
            assert forall|j: int| i <= j < n implies lex_lt(x@, #[trigger] old_v[j]@) by {
                if j > i {
                    lemma_lex_trans(x@, old_v[i as int]@, old_v[j]@);
                }
            }
        }
    }
    out.insert(i, x);
    proof {
        let nv = out@;
        assert forall|p: int, q: int| 0 <= p < q < nv.len() implies lex_lt(
            #[trigger] nv[p]@,
            #[trigger] nv[q]@,
        ) by {
            if q < i {
                assert(nv[p] == old_v[p] && nv[q] == old_v[q]);
            } else if q == i {
                assert(nv[p] == old_v[p]);
            } else if p < i {
                assert(nv[p] == old_v[p] && nv[q] == old_v[q - 1]);
                lemma_lex_trans(old_v[p]@, x@, old_v[q - 1]@);
            } else if p == i {
                assert(nv[q] == old_v[q - 1]);
            } else {
                assert(nv[p] == old_v[p - 1] && nv[q] == old_v[q - 1]);
            }
        }
        assert forall|y: Seq<char>| has_text(nv, y) <==> (has_text(old_v, y) || y == x@) by {
            if has_text(old_v, y) {
                let k = choose|k: int| #![trigger old_v[k]] 0 <= k < old_v.len() && old_v[k]@ == y;
                if k < i {
                    assert(nv[k] == old_v[k]);
                } else {
                    assert(nv[k + 1] == old_v[k]);
                }
            }
            if y == x@ {
                assert(nv[i as int] == x);
            }
            if has_text(nv, y) {
                let k = choose|k: int| #![trigger nv[k]] 0 <= k < nv.len() && nv[k]@ == y;
                if k < i {
                    assert(nv[k] == old_v[k]);
                } else if k > i {
                    assert(nv[k] == old_v[k - 1]);
                }
            }
        }
    }
}

/// The texts of `items`, once each, in increasing order (what `sort` then `dedup` gives).
pub fn sort_unique(items: &[String]) -> (r: Vec<String>)
    ensures
        strictly_sorted(r@),
        forall|y: Seq<char>| has_text(r@, y) <==> has_text(items@, y),
{
    let mut out: Vec<String> = Vec::new();
    let mut k: usize = 0;
    while k < items.len()
        invariant
            k <= items@.len(),
            strictly_sorted(out@),
            forall|y: Seq<char>| has_text(out@, y) <==> has_text(items@.subrange(0, k as int), y),
        decreases items@.len() - k,
    {
        let x = items[k].clone();
        let ghost prev = out@;
        insert_sorted_unique(&mut out, x);
        proof {
            let a = items@.subrange(0, k as int);
            let b = items@.subrange(0, k + 1);
            assert forall|y: Seq<char>| has_text(b, y) <==> (has_text(a, y) || y == items@[k as int]@) by {
                if has_text(b, y) {
                    let j = choose|j: int| #![trigger b[j]] 0 <= j < b.len() && b[j]@ == y;
                    if j < k {
                        assert(a[j] == b[j]);
                    }
                }
                if has_text(a, y) {
                    let j = choose|j: int| #![trigger a[j]] 0 <= j < a.len() && a[j]@ == y;
                    assert(b[j] == a[j]);
                }
                if y == items@[k as int]@ {
                    assert(b[k as int] == items@[k as int]);
                }
            }
        }
        k = k + 1;
    }
    assert(items@.subrange(0, items@.len() as int) =~= items@);
    out
}

/// The elements of `cur` whose text is not in `rm`, in their order.
pub open spec fn without(cur: Seq<String>, rm: Seq<String>) -> Seq<String>
    decreases cur.len(),
{
    if cur.len() == 0 {
        Seq::empty()
    } else if has_text(rm, cur.last()@) {
        without(cur.drop_last(), rm)
    } else {
        without(cur.drop_last(), rm).push(cur.last())
    }
}

proof fn lemma_without_has(cur: Seq<String>, rm: Seq<String>)
    ensures
        forall|y: Seq<char>| has_text(without(cur, rm), y) <==> (has_text(cur, y) && !has_text(rm, y)),
    decreases cur.len(),
{
    if cur.len() > 0 {
        let d = cur.drop_last();
        lemma_without_has(d, rm);
        let w = without(cur, rm);
        let wd = without(d, rm);
        assert forall|y: Seq<char>| has_text(w, y) <==> (has_text(cur, y) && !has_text(rm, y)) by {
            if has_text(cur, y) {
                let k = choose|k: int| #![trigger cur[k]] 0 <= k < cur.len() && cur[k]@ == y;
                if k < cur.len() - 1 {
                    assert(d[k] == cur[k]);
                }
            }
            if has_text(d, y) {
                let k = choose|k: int| #![trigger d[k]] 0 <= k < d.len() && d[k]@ == y;
                assert(cur[k] == d[k]);
            }
            if has_text(w, y) && !has_text(rm, cur.last()@) {
                let k = choose|k: int| #![trigger w[k]] 0 <= k < w.len() && w[k]@ == y;
                if k < wd.len() {
                    assert(wd[k] == w[k]);
                } else {
                    assert(cur[cur.len() - 1] == cur.last());
                }
            }
            if !has_text(rm, cur.last()@) && has_text(wd, y) {
                let k = choose|k: int| #![trigger wd[k]] 0 <= k < wd.len() && wd[k]@ == y;
                assert(w[k] == wd[k]);
            }
            if !has_text(rm, cur.last()@) && y == cur.last()@ {
                assert(w[wd.len() as int] == cur.last());
            }
            if has_text(cur, y) && !has_text(d, y) {
                let k = choose|k: int| #![trigger cur[k]] 0 <= k < cur.len() && cur[k]@ == y;
                if k < cur.len() - 1 {
                    assert(d[k] == cur[k]);
                }
                assert(y == cur.last()@);
            }
        }
    }
}

/// Removes the given cards from an inventory, keeping the order of what stays.
pub fn remove_cards(current: &[String], card_ids: &[String]) -> (r: Vec<String>)
    ensures
        r@ == without(current@, card_ids@),
        forall|y: Seq<char>| has_text(r@, y) <==> (has_text(current@, y) && !has_text(card_ids@, y)),
{
    let mut out: Vec<String> = Vec::new();
    let mut k: usize = 0;
    while k < current.len()
        invariant
            k <= current@.len(),
            out@ == without(current@.subrange(0, k as int), card_ids@),
        decreases current@.len() - k,
    {
        let ghost sub = current@.subrange(0, k + 1);
        assert(sub.drop_last() =~= current@.subrange(0, k as int));
        assert(sub.last() == current@[k as int]);
        if !has_str(card_ids, current[k].as_str()) {
            out.push(current[k].clone());
        }
        k = k + 1;
    }
    assert(current@.subrange(0, current@.len() as int) =~= current@);
    proof {
        lemma_without_has(current@, card_ids@);
    }
    out
}

/// New inventory after a swap: what was given away leaves, what was taken arrives; the
/// result is sorted with each card once.
pub fn swap_apply(inv: &mut Vec<String>, give: &[String], take: &[String])
    ensures
        strictly_sorted(final(inv)@),
        forall|y: Seq<char>| has_text(final(inv)@, y) <==> ((has_text(old(inv)@, y) && !has_text(give@, y))
            || has_text(take@, y)),
{
    let kept = remove_cards(inv.as_slice(), give);
    let mut all = kept;
    let ghost kept_v = all@;
    let mut k: usize = 0;
    while k < take.len()
        invariant
            k <= take@.len(),
            all@ == kept_v + take@.subrange(0, k as int),
        decreases take@.len() - k,
    {
        all.push(take[k].clone());
        k = k + 1;
        assert(all@ =~= kept_v + take@.subrange(0, k as int));
    }
    let r = sort_unique(all.as_slice());
    proof {
        assert(take@.subrange(0, take@.len() as int) =~= take@);
        assert forall|y: Seq<char>| has_text(all@, y) <==> (has_text(kept_v, y) || has_text(take@, y)) by {
            if has_text(all@, y) {
                let j = choose|j: int| #![trigger all@[j]] 0 <= j < all@.len() && all@[j]@ == y;
                if j < kept_v.len() {
                    assert(kept_v[j] == all@[j]);
                } else {
                    assert(take@[j - kept_v.len()] == all@[j]);
                }
            }
            if has_text(kept_v, y) {
                let j = choose|j: int| #![trigger kept_v[j]] 0 <= j < kept_v.len() && kept_v[j]@ == y;
                assert(all@[j] == kept_v[j]);
            }
            if has_text(take@, y) {
                let j = choose|j: int| #![trigger take@[j]] 0 <= j < take@.len() && take@[j]@ == y;
                assert(all@[j + kept_v.len()] == take@[j]);
            }
        }
    }
    *inv = r;
}

/// An owned copy of a list of strings.
pub fn clone_strings(v: &[String]) -> (r: Vec<String>)
    ensures
        r@ == v@,
{
    let mut out: Vec<String> = Vec::new();
    let mut k: usize = 0;
    while k < v.len()
        invariant
            k <= v@.len(),
            out@ == v@.subrange(0, k as int),
        decreases v@.len() - k,
    {
        out.push(v[k].clone());
        k = k + 1;
        assert(out@ =~= v@.subrange(0, k as int));
    }
    assert(v@.subrange(0, v@.len() as int) =~= v@);
    out
}

/// Whether `y` is the trimmed, non-empty text of some id in `ids`.
pub open spec fn has_clean_id(ids: Seq<String>, y: Seq<char>) -> bool {
    exists|i: int| #![trigger ids[i]] 0 <= i < ids.len() && trim_spec(ids[i]@) == y && y.len() > 0
}

/// Inventory after adding cards: ids are trimmed, empty ones dropped, each card held once,
/// and the result sorted.
pub fn merge_cards(current: &[String], card_ids: &[String]) -> (r: Vec<String>)
    ensures
        strictly_sorted(r@),
        forall|y: Seq<char>| has_text(r@, y) <==> (has_text(current@, y) || has_clean_id(card_ids@, y)),
{
    let mut out = sort_unique(current);
    let mut k: usize = 0;
    while k < card_ids.len()
        invariant
            k <= card_ids@.len(),
            strictly_sorted(out@),
            forall|y: Seq<char>| has_text(out@, y) <==> (has_text(current@, y) || has_clean_id(
                card_ids@.subrange(0, k as int),
                y,
            )),
        decreases card_ids@.len() - k,
    {
        let clean = trim(card_ids[k].as_str());
        let ghost a = card_ids@.subrange(0, k as int);
        let ghost b = card_ids@.subrange(0, k + 1);
        let nonempty = chars_vec(clean.as_str()).len() > 0;
        if nonempty {
            insert_sorted_unique(&mut out, clean);
        }
        proof {
            assert forall|y: Seq<char>| has_clean_id(b, y) <==> (has_clean_id(a, y) || (
            trim_spec(card_ids@[k as int]@) == y && y.len() > 0)) by {
                if has_clean_id(b, y) {
                    let j = choose|j: int| #![trigger b[j]] 0 <= j < b.len() && trim_spec(b[j]@)
                        == y && y.len() > 0;
                    if j < k {
                        assert(a[j] == b[j]);
                    }
                }
                if has_clean_id(a, y) {
                    let j = choose|j: int| #![trigger a[j]] 0 <= j < a.len() && trim_spec(a[j]@)
                        == y && y.len() > 0;
                    assert(b[j] == a[j]);
                }
                if trim_spec(card_ids@[k as int]@) == y && y.len() > 0 {
                    assert(b[k as int] == card_ids@[k as int]);
                }
            }
        }
        k = k + 1;
    }
    assert(card_ids@.subrange(0, card_ids@.len() as int) =~= card_ids@);
    out
}

/// Decision of an atomic card-for-card settlement, given the trade's open flag and both
/// inventories as they stand: `NotOpen` unless the trade is open, `OwnershipChanged` unless
/// each side still holds what it gives, else both new inventories.
pub fn settle_trade_plan(
    trade_open: bool,
    from_inv: &[String],
    to_inv: &[String],
    offered: &[String],
    requested: &[String],
) -> (r: Result<(Vec<String>, Vec<String>), SettleTradeError>)
    ensures
        !trade_open ==> r matches Err(SettleTradeError::NotOpen),
        trade_open && !(forall|k: int| 0 <= k < offered@.len() ==> has_text(from_inv@, #[trigger] offered@[k]@))
            ==> r matches Err(SettleTradeError::OwnershipChanged),
        trade_open && (forall|k: int| 0 <= k < offered@.len() ==> has_text(from_inv@, #[trigger] offered@[k]@))
            && !(forall|k: int| 0 <= k < requested@.len() ==> has_text(to_inv@, #[trigger] requested@[k]@))
            ==> r matches Err(SettleTradeError::OwnershipChanged),
        r is Ok <==> trade_open && (forall|k: int| 0 <= k < offered@.len() ==> has_text(from_inv@, #[trigger] offered@[k]@))
            && (forall|k: int| 0 <= k < requested@.len() ==> has_text(to_inv@, #[trigger] requested@[k]@)),
        r matches Ok((f, t)) ==> {
            &&& strictly_sorted(f@)
            &&& strictly_sorted(t@)
            &&& forall|y: Seq<char>| has_text(f@, y) <==> ((has_text(from_inv@, y) && !has_text(offered@, y)) || has_text(requested@, y))
            &&& forall|y: Seq<char>| has_text(t@, y) <==> ((has_text(to_inv@, y) && !has_text(requested@, y)) || has_text(offered@, y))
        },
{
    if !trade_open {
        return Err(SettleTradeError::NotOpen);
    }
    if !owns_all(from_inv, offered) || !owns_all(to_inv, requested) {
        return Err(SettleTradeError::OwnershipChanged);
    }
    let mut f = clone_strings(from_inv);
    let mut t = clone_strings(to_inv);
    swap_apply(&mut f, offered, requested);
    swap_apply(&mut t, requested, offered);
    Ok((f, t))
}

} // verus!
