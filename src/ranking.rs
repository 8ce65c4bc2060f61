//! The ranking pipeline shared by both listing kinds: a stable ascending
//! sort by price followed by truncation to the first `n`.

use vstd::prelude::*;
use vstd::seq_lib::group_to_multiset_ensures;

verus! {

/// A listing that carries a price, the sole ranking key.
pub trait Priced {
    spec fn price_spec(&self) -> int;

    fn price(&self) -> (r: i64)
        ensures
            r as int == self.price_spec();
}

/// Index of the first element at or after `j` priced above `k`
/// (the length if there is none).
pub open spec fn scan_pos<T: Priced>(s: Seq<T>, k: int, j: int) -> int
    decreases s.len() - j,
{
    if j >= s.len() {
        s.len() as int
    } else if s[j].price_spec() > k {
        j
    } else {
        scan_pos(s, k, j + 1)
    }
}

/// Inserts `x` after every leading element priced at most as `x`.
pub open spec fn insert_by_price<T: Priced>(s: Seq<T>, x: T) -> Seq<T> {
    s.insert(scan_pos(s, x.price_spec(), 0), x)
}

/// Stable insertion sort by ascending price: elements of equal price keep
/// their input order.
pub open spec fn sort_by_price<T: Priced>(s: Seq<T>) -> Seq<T>
    decreases s.len(),
{
    if s.len() == 0 {
        Seq::empty()
    } else {
        insert_by_price(sort_by_price(s.drop_last()), s.last())
    }
}

pub open spec fn sorted_by_price<T: Priced>(s: Seq<T>) -> bool {
    forall|i: int, j: int| 0 <= i < j < s.len() ==> s[i].price_spec() <= s[j].price_spec()
}

/// The first `n` elements, or all of them if there are fewer.
pub open spec fn top_n<T>(s: Seq<T>, n: nat) -> Seq<T> {
    if s.len() <= n {
        s
    } else {
        s.subrange(0, n as int)
    }
}

proof fn lemma_scan_pos<T: Priced>(s: Seq<T>, k: int, j: int)
    requires
        0 <= j <= s.len(),
    ensures
        j <= scan_pos(s, k, j) <= s.len(),
        forall|m: int| j <= m < scan_pos(s, k, j) ==> s[m].price_spec() <= k,
        scan_pos(s, k, j) < s.len() ==> s[scan_pos(s, k, j)].price_spec() > k,
    decreases s.len() - j,
{
    if j < s.len() && s[j].price_spec() <= k {
        lemma_scan_pos(s, k, j + 1);
    }
}

proof fn lemma_insert_by_price<T: Priced>(s: Seq<T>, x: T)
    requires
        sorted_by_price(s),
    ensures
        sorted_by_price(insert_by_price(s, x)),
        insert_by_price(s, x).to_multiset() == s.to_multiset().insert(x),
        insert_by_price(s, x).len() == s.len() + 1,
{
    broadcast use group_to_multiset_ensures;

    let k = x.price_spec();
    let p = scan_pos(s, k, 0);
    lemma_scan_pos(s, k, 0);
    let t = s.insert(p, x);
    s.insert_ensures(p, x);
    assert forall|i: int, j: int| 0 <= i < j < t.len() implies t[i].price_spec()
        <= t[j].price_spec() by {
        if i < p {
            if j < p {
            } else if j == p {
            } else {
                assert(t[j] == s[j - 1]);
            }
        } else if i == p {
            assert(t[j] == s[j - 1]);
        } else {
            assert(t[i] == s[i - 1]);
            assert(t[j] == s[j - 1]);
        }
    }
}

/// The sort orders by price and keeps every element, each as often as given.
pub proof fn lemma_sort_by_price<T: Priced>(s: Seq<T>)
    ensures
        sorted_by_price(sort_by_price(s)),
        sort_by_price(s).to_multiset() == s.to_multiset(),
        sort_by_price(s).len() == s.len(),
    decreases s.len(),
{
    broadcast use group_to_multiset_ensures;

    if s.len() > 0 {
        lemma_sort_by_price(s.drop_last());
        lemma_insert_by_price(sort_by_price(s.drop_last()), s.last());
        assert(s.drop_last().push(s.last()) =~= s);
    }
}

/// Sorts by ascending price, keeping the input order among equal prices.
pub fn stable_sort_by_price<T: Priced>(v: Vec<T>) -> (r: Vec<T>)
    ensures
        r@ == sort_by_price(v@),
{
    let ghost orig = v@;
    let n = v.len();
    let mut rest = v;
    let mut out: Vec<T> = Vec::new();
    let mut i: usize = 0;
    assert(orig.subrange(0, 0) =~= Seq::<T>::empty());
    while i < n
        invariant
            n == orig.len(),
            i <= n,
            rest@ == orig.subrange(i as int, n as int),
            out@ == sort_by_price(orig.subrange(0, i as int)),
        decreases n - i,
    {
        let x = rest.remove(0);
        assert(x == orig[i as int]);
        assert(rest@ =~= orig.subrange(i + 1, n as int));
        let k = x.price();
        let mut j: usize = 0;
        while j < out.len() && out[j].price() <= k
            invariant
                j <= out@.len(),
                scan_pos(out@, k as int, 0) == scan_pos(out@, k as int, j as int),
            decreases out@.len() - j,
        {
            j = j + 1;
        }
        proof {
            lemma_sort_by_price(orig.subrange(0, i as int));
            lemma_scan_pos(out@, k as int, j as int);
        }
        out.insert(j, x);
        proof {
            let pre = orig.subrange(0, i + 1);
            assert(pre.drop_last() =~= orig.subrange(0, i as int));
            assert(pre.last() == x);
        }
        i = i + 1;
    }
    assert(orig.subrange(0, n as int) =~= orig);
    out
}

/// Stable ascending sort by price, cut to the first `n` elements.
pub fn sort_and_take<T: Priced>(v: Vec<T>, n: usize) -> (r: Vec<T>)
    ensures
        r@ == top_n(sort_by_price(v@), n as nat),
{
    let mut sorted = stable_sort_by_price(v);
    sorted.truncate(n);
    sorted
}

/// What the pipeline keeps: the result is ordered by price; it is the first
/// `n` of the candidates in that order, so it holds only candidates, as many
/// as there are up to `n`; and a candidate left out costs at least as much
/// as every kept one.
pub proof fn lemma_top_n_of_sorted<T: Priced>(cands: Seq<T>, n: nat)
    ensures
        ({
            let r = top_n(sort_by_price(cands), n);
            &&& sorted_by_price(r)
            &&& r.len() == if cands.len() <= n { cands.len() } else { n }
            &&& forall|x: T| #[trigger] r.contains(x) ==> cands.contains(x)
            &&& forall|x: T|
                cands.contains(x) && !#[trigger] r.contains(x) ==> {
                    &&& r.len() == n
                    &&& forall|i: int| 0 <= i < r.len() ==> r[i].price_spec() <= x.price_spec()
                }
        }),
{
    broadcast use group_to_multiset_ensures;

    let s = sort_by_price(cands);
    lemma_sort_by_price(cands);
    let r = top_n(s, n);
    assert forall|x: T| #[trigger] r.contains(x) implies cands.contains(x) by {
        let i = choose|i: int| 0 <= i < r.len() && r[i] == x;
        assert(s[i] == x);
        assert(s.contains(x));
        assert(s.to_multiset().count(x) > 0);
    }
    assert forall|x: T| cands.contains(x) && !#[trigger] r.contains(x) implies {
        &&& r.len() == n
        &&& forall|i: int| 0 <= i < r.len() ==> r[i].price_spec() <= x.price_spec()
    } by {
        assert(cands.to_multiset().count(x) > 0);
        assert(s.contains(x));
        let j = choose|j: int| 0 <= j < s.len() && s[j] == x;
        if s.len() <= n {
            assert(r.contains(x));
        } else if j < n {
            assert(r[j] == x);
            assert(r.contains(x));
        } else {
            assert forall|i: int| 0 <= i < r.len() implies r[i].price_spec() <= x.price_spec() by {
                assert(r[i] == s[i]);
            }
        }
    }
}

} // verus!
