//! Paths of marketplace requests, built from a query's constraints.

use vstd::prelude::*;
use vstd::string::StrSliceExecFns;
use vstd::string::StringExecFns;
use crate::query::words_view;

verus! {

/// The items joined with `sep` between neighbours.
pub open spec fn joined(v: Seq<Seq<char>>, sep: Seq<char>) -> Seq<char>
    decreases v.len(),
{
    if v.len() == 0 {
        Seq::empty()
    } else if v.len() == 1 {
        v[0]
    } else {
        joined(v.drop_last(), sep) + sep + v.last()
    }
}

/// Joins attribute identifiers with commas, as the search expects them.
pub fn join_stats(stats: &Vec<String>) -> (r: String)
    ensures
        r@ == joined(words_view(stats@), ","@),
{
    let ghost w = words_view(stats@);
    let n = stats.len();
    let mut r = String::new();
    let mut i: usize = 0;
    while i < n
        invariant
            n == stats@.len(),
            w == words_view(stats@),
            i <= n,
            r@ == joined(w.subrange(0, i as int), ","@),
        decreases n - i,
    {
        proof {
            let pre = w.subrange(0, i + 1);
            assert(pre.drop_last() =~= w.subrange(0, i as int));
            assert(pre.last() == stats@[i as int]@);
            if i == 0 {
                assert(pre[0] == stats@[0]@);
            }
        }
        if i > 0 {
            r.append(",");
        } else {
            assert(r@ =~= Seq::<char>::empty());
        }
        r.append(stats[i].as_str());
        proof {
            if i == 0 {
                assert(r@ =~= stats@[0]@);
            }
        }
        i = i + 1;
    }
    assert(w.subrange(0, n as int) =~= w);
    r
}

/// `key` followed by `value`, or nothing when `value` is empty.
pub open spec fn optional_param(key: Seq<char>, value: Seq<char>) -> Seq<char> {
    if value.len() == 0 {
        Seq::empty()
    } else {
        key + value
    }
}

pub open spec fn riven_search_path_spec(url_name: Seq<char>, positive: Seq<char>, negative: Seq<char>) -> Seq<char> {
    "/auctions/search?type=riven&weapon_url_name="@ + url_name + "&sort_by=price_asc"@
        + optional_param("&positive_stats="@, positive) + optional_param("&negative_stats="@, negative)
}

/// Path of the riven auction search, cheapest first, with the attribute
/// constraints that are given.
pub fn riven_search_path(url_name: &str, positive_stats: &str, negative_stats: &str) -> (r: String)
    ensures
        r@ == riven_search_path_spec(url_name@, positive_stats@, negative_stats@),
{
    let mut r = "/auctions/search?type=riven&weapon_url_name=".to_owned();
    r.append(url_name);
    r.append("&sort_by=price_asc");
    if positive_stats.unicode_len() > 0 {
        r.append("&positive_stats=");
        r.append(positive_stats);
    } else {
        assert(r@ + optional_param("&positive_stats="@, positive_stats@) =~= r@);
    }
    if negative_stats.unicode_len() > 0 {
        r.append("&negative_stats=");
        r.append(negative_stats);
    } else {
        assert(r@ + optional_param("&negative_stats="@, negative_stats@) =~= r@);
    }
    assert(r@ =~= riven_search_path_spec(url_name@, positive_stats@, negative_stats@));
    r
}

/// Path of the order list of a catalog item.
pub fn item_orders_path(url_name: &str) -> (r: String)
    ensures
        r@ == "/items/"@ + url_name@ + "/orders"@,
{
    let mut r = "/items/".to_owned();
    r.append(url_name);
    r.append("/orders");
    r
}

} // verus!
