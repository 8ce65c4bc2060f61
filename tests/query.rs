use wf_bot::attrs::{attr_display_name, attr_label, attr_url_name};
use wf_bot::query::{normalize_item_name, parse_item_query, parse_riven_query, QueryError};

#[test]
fn unknown_attribute_is_reported_and_query_goes_on() {
    let q = parse_riven_query("zk +暴伤 +不存在 -冲击 绝路 ");
    assert_eq!(q.positive_stats, vec!["critical_damage".to_string()]);
    assert_eq!(q.negative_stats, "impact_damage");
    assert_eq!(q.unresolved, vec!["不存在".to_string()]);
    assert_eq!(q.item_name, "绝路");
}

#[test]
fn riven_name_words_are_joined() {
    let q = parse_riven_query("zk  +多重   Kuva  Bramma");
    assert_eq!(q.positive_stats, vec!["multishot".to_string()]);
    assert_eq!(q.negative_stats, "");
    assert!(q.unresolved.is_empty());
    assert_eq!(q.item_name, "KuvaBramma");
}

#[test]
fn later_negative_replaces_earlier() {
    let q = parse_riven_query("zk -冰 -火 +电 x -毒");
    assert_eq!(q.negative_stats, "heat_damage");
    assert_eq!(q.positive_stats, vec!["electric_damage".to_string()]);
    assert_eq!(q.item_name, "x-毒");
}

#[test]
fn empty_riven_query() {
    let q = parse_riven_query("");
    assert!(q.positive_stats.is_empty());
    assert_eq!(q.item_name, "");
}

#[test]
fn dictionary_both_ways() {
    assert_eq!(attr_url_name("暴率"), Some("critical_chance"));
    assert_eq!(attr_url_name("负"), Some("has"));
    assert_eq!(attr_url_name("暴"), None);
    assert_eq!(attr_display_name("zoom"), Some("变焦"));
    assert_eq!(attr_display_name("fire_rate_/_attack_speed"), Some("攻速"));
    assert_eq!(attr_display_name("nothing"), None);
    assert_eq!(attr_label("multishot"), "多重");
    assert_eq!(attr_label("unknown_stat"), "unknown_stat");
}

#[test]
fn item_query_with_rank() {
    assert_eq!(parse_item_query("wm +10 Primed Flow"), Ok((Some(10), "primedflow".to_string())));
    assert_eq!(parse_item_query("wm ++3 Serration"), Ok((Some(3), "serration".to_string())));
    assert_eq!(parse_item_query("wm +-2 X"), Ok((Some(-2), "x".to_string())));
}

#[test]
fn item_query_without_rank() {
    assert_eq!(parse_item_query("wm  Ash Prime Set "), Ok((None, "ashprimeset".to_string())));
    assert_eq!(parse_item_query("wmwm 川流"), Ok((None, "川流".to_string())));
    assert_eq!(parse_item_query("wm +5"), Ok((None, "+5".to_string())));
    assert_eq!(parse_item_query("wm"), Ok((None, String::new())));
}

#[test]
fn item_query_bad_rank() {
    assert_eq!(parse_item_query("wm +ten Primed Flow"), Err(QueryError::ModRankNotNumber));
    assert_eq!(parse_item_query("wm +99999999999 Flow"), Err(QueryError::ModRankNotNumber));
}

#[test]
fn normalize_lowercases_and_drops_spaces() {
    assert_eq!(normalize_item_name("Primed  Flow"), "primedflow");
    assert_eq!(normalize_item_name("ABC xyz 川流"), "abcxyz川流");
    assert_eq!(normalize_item_name(""), "");
}
