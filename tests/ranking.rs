use wf_bot::market::{
    best_auctions, best_orders, filter_orders, Auction, AuctionItem, Order, OrderType, Polarity,
    User, UserStatus,
};

fn user(name: &str, status: UserStatus) -> User {
    User { ingame_name: name.to_string(), status, reputation: 0 }
}

fn order(name: &str, price: i32) -> Order {
    Order {
        platinum: price,
        quantity: 1,
        order_type: OrderType::Sell,
        region: "en".to_string(),
        visible: true,
        user: user(name, UserStatus::InGame),
        mod_rank: None,
    }
}

fn auction(name: &str, buyout: Option<i32>, start: i32) -> Auction {
    Auction {
        buyout_price: buyout,
        starting_price: start,
        private: false,
        visible: true,
        item: AuctionItem {
            name: "ki".to_string(),
            mastery_level: 8,
            mod_rank: 0,
            polarity: Polarity::Madurai,
            re_rolls: 0,
            attributes: Vec::new(),
        },
        closed: false,
        is_direct_sell: true,
        owner: user(name, UserStatus::InGame),
    }
}

fn names(orders: &[Order]) -> Vec<String> {
    orders.iter().map(|o| o.user.ingame_name.clone()).collect()
}

#[test]
fn five_listings_four_pass() {
    let mut blocked = order("e", 90);
    blocked.user.status = UserStatus::Offline;
    let input = vec![order("a", 50), order("b", 30), order("c", 30), blocked, order("d", 10)];
    let out = best_orders(input, None);
    let prices: Vec<i32> = out.iter().map(|o| o.platinum).collect();
    assert_eq!(prices, vec![10, 30, 30, 50]);
    assert_eq!(names(&out), vec!["d", "b", "c", "a"]);
}

#[test]
fn equal_prices_keep_input_order() {
    let input = vec![order("x", 5), order("y", 5), order("z", 5), order("w", 1)];
    let out = best_orders(input, None);
    assert_eq!(names(&out), vec!["w", "x", "y", "z"]);
}

#[test]
fn truncates_to_four() {
    let input: Vec<Order> = (0..7).map(|i| order(&format!("s{}", i), 100 - i)).collect();
    let out = best_orders(input, None);
    assert_eq!(out.iter().map(|o| o.platinum).collect::<Vec<_>>(), vec![94, 95, 96, 97]);
}

#[test]
fn empty_input_gives_empty_output() {
    assert!(best_orders(Vec::new(), Some(3)).is_empty());
    assert!(best_auctions(Vec::new()).is_empty());
}

#[test]
fn each_order_filter_applies() {
    let mut buy = order("buy", 1);
    buy.order_type = OrderType::Buy;
    let mut region = order("region", 1);
    region.region = "zh".to_string();
    let mut hidden = order("hidden", 1);
    hidden.visible = false;
    let mut online = order("online", 1);
    online.user.status = UserStatus::Online;
    let mut rank3 = order("rank3", 2);
    rank3.mod_rank = Some(3);
    let mut rank5 = order("rank5", 2);
    rank5.mod_rank = Some(5);
    let unranked = order("unranked", 3);
    let input = vec![buy, region, hidden, online, rank3, rank5, unranked];
    let out = filter_orders(input.clone(), Some(5));
    assert_eq!(names(&out), vec!["rank5", "unranked"]);
    let out = filter_orders(input, None);
    assert_eq!(names(&out), vec!["rank3", "rank5", "unranked"]);
}

#[test]
fn ranking_is_repeatable() {
    let input = vec![order("a", 3), order("b", 1), order("c", 3), order("d", 2), order("e", 1)];
    let first = best_orders(input.clone(), None);
    let second = best_orders(input, None);
    assert_eq!(names(&first), names(&second));
    assert_eq!(names(&first), vec!["b", "e", "d", "a"]);
}

#[test]
fn auctions_rank_by_buyout_else_start() {
    let mut private = auction("private", Some(1), 1);
    private.private = true;
    let mut closed = auction("closed", Some(1), 1);
    closed.closed = true;
    let mut hidden = auction("hidden", Some(1), 1);
    hidden.visible = false;
    let mut away = auction("away", Some(1), 1);
    away.owner.status = UserStatus::Offline;
    let input = vec![
        private,
        auction("p", None, 40),
        closed,
        auction("q", Some(20), 5),
        hidden,
        auction("r", Some(40), 10),
        away,
        auction("s", None, 60),
    ];
    let out = best_auctions(input);
    let owners: Vec<String> = out.iter().map(|a| a.owner.ingame_name.clone()).collect();
    assert_eq!(owners, vec!["q", "p", "r"]);
    assert_eq!(out[0].effective_price(), 20);
    assert_eq!(out[1].effective_price(), 40);
}

#[test]
fn polarity_nicknames() {
    assert_eq!(Polarity::Naramon.nickname(), "-");
    assert_eq!(Polarity::Madurai.nickname(), "r");
    assert_eq!(Polarity::Vazarin.nickname(), "盾");
}
