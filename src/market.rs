//! Marketplace listings and the two ranking pipelines: sell orders of a
//! catalog item, and riven auctions.

use vstd::prelude::*;
use crate::ranking::{lemma_top_n_of_sorted, sort_and_take, sort_by_price, sorted_by_price, top_n, Priced};
use crate::text::text_eq;

verus! {

/// Orders shown for one item query.
pub const ORDER_LIMIT: usize = 4;

/// Auctions shown for one riven query.
pub const AUCTION_LIMIT: usize = 3;

#[derive(Debug, Clone, Copy, PartialEq, Eq, Structural)]
pub enum OrderType {
    Sell,
    Buy,
}

#[derive(Debug, Clone, Copy, PartialEq, Eq, Structural)]
pub enum UserStatus {
    InGame,
    Online,
    Offline,
}

#[derive(Debug, Clone)]
pub struct User {
    pub ingame_name: String,
    pub status: UserStatus,
    pub reputation: i32,
}

/// An order on a catalog item.
#[derive(Debug, Clone)]
pub struct Order {
    pub platinum: i32,
    pub quantity: i32,
    pub order_type: OrderType,
    pub region: String,
    pub visible: bool,
    pub user: User,
    pub mod_rank: Option<i32>,
}

impl Priced for Order {
    open spec fn price_spec(&self) -> int {
        self.platinum as int
    }

    fn price(&self) -> (r: i64) {
        self.platinum as i64
    }
}

/// The order is a visible sell order in the default region from a seller
/// who is in game, and, when both the order and the query name a mod rank,
/// the ranks agree.
pub open spec fn order_passes(o: Order, mod_lvl: Option<i32>) -> bool {
    &&& o.user.status == UserStatus::InGame
    &&& o.order_type == OrderType::Sell
    &&& o.region@ == "en"@
    &&& o.visible
    &&& match (mod_lvl, o.mod_rank) {
        (Some(a), Some(b)) => a == b,
        _ => true,
    }
}

pub open spec fn order_candidates(orders: Seq<Order>, mod_lvl: Option<i32>) -> Seq<Order> {
    orders.filter(|o: Order| order_passes(o, mod_lvl))
}

/// What an item query shows: the passing orders, cheapest first, equal
/// prices in input order, at most `ORDER_LIMIT` of them.
pub open spec fn best_orders_spec(orders: Seq<Order>, mod_lvl: Option<i32>) -> Seq<Order> {
    top_n(sort_by_price(order_candidates(orders, mod_lvl)), ORDER_LIMIT as nat)
}

fn order_check(o: &Order, mod_lvl: Option<i32>) -> (r: bool)
    ensures
        r == order_passes(*o, mod_lvl),
{
    let rank_ok = match (mod_lvl, o.mod_rank) {
        (Some(a), Some(b)) => a == b,
        _ => true,
    };
    matches!(o.user.status, UserStatus::InGame) && matches!(o.order_type, OrderType::Sell)
        && text_eq(o.region.as_str(), "en") && o.visible && rank_ok
}

/// Keeps the orders that pass the filters, in input order.
pub fn filter_orders(orders: Vec<Order>, mod_lvl: Option<i32>) -> (r: Vec<Order>)
    ensures
        r@ == order_candidates(orders@, mod_lvl),
{
    let ghost orig = orders@;
    let ghost pred = |o: Order| order_passes(o, mod_lvl);
    let n = orders.len();
    let mut rest = orders;
    let mut out: Vec<Order> = Vec::new();
    let mut i: usize = 0;
    assert(orig.subrange(0, 0) =~= Seq::<Order>::empty());
    while i < n
        invariant
            n == orig.len(),
            i <= n,
            rest@ == orig.subrange(i as int, n as int),
            out@ == orig.subrange(0, i as int).filter(pred),
            pred == (|o: Order| order_passes(o, mod_lvl)),
        decreases n - i,
    {
        let x = rest.remove(0);
        assert(rest@ =~= orig.subrange(i + 1, n as int));
        proof {
            let pre = orig.subrange(0, i + 1);
            assert(pre.drop_last() =~= orig.subrange(0, i as int));
            assert(pre.last() == x);
            reveal(Seq::filter);
        }
        if order_check(&x, mod_lvl) {
            out.push(x);
        }
        i = i + 1;
    }
    assert(orig.subrange(0, n as int) =~= orig);
    out
}

/// The orders an item query shows (see `best_orders_spec`).
pub fn best_orders(orders: Vec<Order>, mod_lvl: Option<i32>) -> (r: Vec<Order>)
    ensures
        r@ == best_orders_spec(orders@, mod_lvl),
{
    let cands = filter_orders(orders, mod_lvl);
    sort_and_take(cands, ORDER_LIMIT)
}

#[derive(Debug, Clone, Copy, PartialEq, Eq, Structural)]
pub enum Polarity {
    Naramon,
    Madurai,
    Vazarin,
}

pub open spec fn polarity_nickname(p: Polarity) -> Seq<char> {
    match p {
        Polarity::Naramon => "-"@,
        Polarity::Madurai => "r"@,
        Polarity::Vazarin => "盾"@,
    }
}

impl Polarity {
    /// Short display name of the polarity.
    pub fn nickname(&self) -> (r: &'static str)
        ensures
            r@ == polarity_nickname(*self),
    {
        match self {
            Polarity::Naramon => "-",
            Polarity::Madurai => "r",
            Polarity::Vazarin => "盾",
        }
    }
}

/// One attribute of a riven. The magnitude is kept in hundredths.
#[derive(Debug, Clone)]
pub struct Attribute {
    pub positive: bool,
    pub value_hundredths: i64,
    pub url_name: String,
}

#[derive(Debug, Clone)]
pub struct AuctionItem {
    pub name: String,
    pub mastery_level: i32,
    pub mod_rank: i32,
    pub polarity: Polarity,
    pub re_rolls: i32,
    pub attributes: Vec<Attribute>,
}

/// A riven auction.
#[derive(Debug, Clone)]
pub struct Auction {
    pub buyout_price: Option<i32>,
    pub starting_price: i32,
    pub private: bool,
    pub visible: bool,
    pub item: AuctionItem,
    pub closed: bool,
    pub is_direct_sell: bool,
    pub owner: User,
}

/// The buyout price if there is one, else the starting price.
pub open spec fn effective_price(a: Auction) -> int {
    match a.buyout_price {
        Some(p) => p as int,
        None => a.starting_price as int,
    }
}

impl Auction {
    /// The price the auction ranks by and is shown with.
    pub fn effective_price(&self) -> (r: i32)
        ensures
            r as int == effective_price(*self),
    {
        match self.buyout_price {
            Some(p) => p,
            None => self.starting_price,
        }
    }
}

impl Priced for Auction {
    open spec fn price_spec(&self) -> int {
        effective_price(*self)
    }

    fn price(&self) -> (r: i64) {
        self.effective_price() as i64
    }
}

/// The auction is public, visible and open, from an owner who is in game.
pub open spec fn auction_passes(a: Auction) -> bool {
    &&& a.owner.status == UserStatus::InGame
    &&& !a.private
    &&& a.visible
    &&& !a.closed
}

pub open spec fn auction_candidates(auctions: Seq<Auction>) -> Seq<Auction> {
    auctions.filter(|a: Auction| auction_passes(a))
}

/// What a riven query shows: the passing auctions, cheapest effective price
/// first, equal prices in input order, at most `AUCTION_LIMIT` of them.
pub open spec fn best_auctions_spec(auctions: Seq<Auction>) -> Seq<Auction> {
    top_n(sort_by_price(auction_candidates(auctions)), AUCTION_LIMIT as nat)
}

/// Keeps the auctions that pass the filters, in input order.
pub fn filter_auctions(auctions: Vec<Auction>) -> (r: Vec<Auction>)
    ensures
        r@ == auction_candidates(auctions@),
{
    let ghost orig = auctions@;
    let ghost pred = |a: Auction| auction_passes(a);
    let n = auctions.len();
    let mut rest = auctions;
    let mut out: Vec<Auction> = Vec::new();
    let mut i: usize = 0;
    assert(orig.subrange(0, 0) =~= Seq::<Auction>::empty());
    while i < n
        invariant
            n == orig.len(),
            i <= n,
            rest@ == orig.subrange(i as int, n as int),
            out@ == orig.subrange(0, i as int).filter(pred),
            pred == (|a: Auction| auction_passes(a)),
        decreases n - i,
    {
        let x = rest.remove(0);
        assert(rest@ =~= orig.subrange(i + 1, n as int));
        proof {
            let pre = orig.subrange(0, i + 1);
            assert(pre.drop_last() =~= orig.subrange(0, i as int));
            assert(pre.last() == x);
            reveal(Seq::filter);
        }
        if matches!(x.owner.status, UserStatus::InGame) && !x.private && x.visible && !x.closed {
            out.push(x);
        }
        i = i + 1;
    }
    assert(orig.subrange(0, n as int) =~= orig);
    out
}

/// The auctions a riven query shows (see `best_auctions_spec`).
pub fn best_auctions(auctions: Vec<Auction>) -> (r: Vec<Auction>)
    ensures
        r@ == best_auctions_spec(auctions@),
{
    let cands = filter_auctions(auctions);
    sort_and_take(cands, AUCTION_LIMIT)
}

/// Shown orders are sorted by price and each is an input order that passes
/// every filter; an input order that passes every filter and is not shown
/// costs at least as much as each shown order, of which there are then
/// `ORDER_LIMIT`.
pub proof fn lemma_best_orders_filter_correct(orders: Seq<Order>, mod_lvl: Option<i32>)
    ensures
        ({
            let r = best_orders_spec(orders, mod_lvl);
            &&& sorted_by_price(r)
            &&& forall|x: Order| #[trigger] r.contains(x) ==> orders.contains(x) && order_passes(x, mod_lvl)
            &&& forall|x: Order|
                orders.contains(x) && order_passes(x, mod_lvl) && !#[trigger] r.contains(x) ==> {
                    &&& r.len() == ORDER_LIMIT
                    &&& forall|i: int| 0 <= i < r.len() ==> r[i].platinum <= x.platinum
                }
        }),
{
    let pred = |o: Order| order_passes(o, mod_lvl);
    let c = order_candidates(orders, mod_lvl);
    let r = best_orders_spec(orders, mod_lvl);
    lemma_top_n_of_sorted(c, ORDER_LIMIT as nat);
    orders.filter_lemma(pred);
    assert forall|x: Order| #[trigger] r.contains(x) implies orders.contains(x) && order_passes(x, mod_lvl) by {
        assert(c.contains(x));
        orders.lemma_filter_contains_rev(pred, x);
        let i = choose|i: int| 0 <= i < c.len() && c[i] == x;
        assert(pred(c[i]));
    }
    assert forall|x: Order|
        orders.contains(x) && order_passes(x, mod_lvl) && !#[trigger] r.contains(x) implies {
            &&& r.len() == ORDER_LIMIT
            &&& forall|i: int| 0 <= i < r.len() ==> r[i].platinum <= x.platinum
        } by {
        let j = choose|j: int| 0 <= j < orders.len() && orders[j] == x;
        assert(c.contains(orders[j]));
        assert forall|i: int| 0 <= i < r.len() implies r[i].platinum <= x.platinum by {
            assert(r[i].price_spec() <= x.price_spec());
        }
    }
}

/// Shown auctions are sorted by effective price and each is an input
/// auction that passes every filter; an input auction that passes every
/// filter and is not shown costs at least as much as each shown auction, of
/// which there are then `AUCTION_LIMIT`.
pub proof fn lemma_best_auctions_filter_correct(auctions: Seq<Auction>)
    ensures
        ({
            let r = best_auctions_spec(auctions);
            &&& sorted_by_price(r)
            &&& forall|x: Auction| #[trigger] r.contains(x) ==> auctions.contains(x) && auction_passes(x)
            &&& forall|x: Auction|
                auctions.contains(x) && auction_passes(x) && !#[trigger] r.contains(x) ==> {
                    &&& r.len() == AUCTION_LIMIT
                    &&& forall|i: int| 0 <= i < r.len() ==> effective_price(r[i]) <= effective_price(x)
                }
        }),
{
    let pred = |a: Auction| auction_passes(a);
    let c = auction_candidates(auctions);
    let r = best_auctions_spec(auctions);
    lemma_top_n_of_sorted(c, AUCTION_LIMIT as nat);
    auctions.filter_lemma(pred);
    assert forall|x: Auction| #[trigger] r.contains(x) implies auctions.contains(x) && auction_passes(x) by {
        assert(c.contains(x));
        auctions.lemma_filter_contains_rev(pred, x);
        let i = choose|i: int| 0 <= i < c.len() && c[i] == x;
        assert(pred(c[i]));
    }
    assert forall|x: Auction|
        auctions.contains(x) && auction_passes(x) && !#[trigger] r.contains(x) implies {
            &&& r.len() == AUCTION_LIMIT
            &&& forall|i: int| 0 <= i < r.len() ==> effective_price(r[i]) <= effective_price(x)
        } by {
        let j = choose|j: int| 0 <= j < auctions.len() && auctions[j] == x;
        assert(c.contains(auctions[j]));
        assert forall|i: int| 0 <= i < r.len() implies effective_price(r[i]) <= effective_price(x) by {
            assert(r[i].price_spec() <= x.price_spec());
        }
    }
}

/// The pipelines are functions of their inputs: equal inputs give equal
/// outputs, in the same order and cut at the same place.
pub proof fn lemma_ranking_deterministic(
    o1: Seq<Order>,
    o2: Seq<Order>,
    lvl: Option<i32>,
    a1: Seq<Auction>,
    a2: Seq<Auction>,
)
    requires
        o1 == o2,
        a1 == a2,
    ensures
        best_orders_spec(o1, lvl) == best_orders_spec(o2, lvl),
        best_auctions_spec(a1) == best_auctions_spec(a2),
{
}

} // verus!
