use wf_bot::request::{item_orders_path, join_stats, riven_search_path};

#[test]
fn stats_joined_with_commas() {
    assert_eq!(join_stats(&vec![]), "");
    assert_eq!(join_stats(&vec!["multishot".to_string()]), "multishot");
    assert_eq!(
        join_stats(&vec!["multishot".to_string(), "critical_damage".to_string(), "zoom".to_string()]),
        "multishot,critical_damage,zoom"
    );
}

#[test]
fn riven_search_path_with_and_without_stats() {
    assert_eq!(
        riven_search_path("kuva_bramma", "", ""),
        "/auctions/search?type=riven&weapon_url_name=kuva_bramma&sort_by=price_asc"
    );
    assert_eq!(
        riven_search_path("rubico", "multishot,critical_damage", "zoom"),
        "/auctions/search?type=riven&weapon_url_name=rubico&sort_by=price_asc&positive_stats=multishot,critical_damage&negative_stats=zoom"
    );
    assert_eq!(
        riven_search_path("rubico", "", "recoil"),
        "/auctions/search?type=riven&weapon_url_name=rubico&sort_by=price_asc&negative_stats=recoil"
    );
}

#[test]
fn orders_path() {
    assert_eq!(item_orders_path("primed_flow"), "/items/primed_flow/orders");
}
