use buff_crawler::crawler::{item_types_of_text, page_step, PageOutcome};
use buff_crawler::item::Item;
use buff_crawler::json::{parse_json, JsonNumber, JsonValue};
use buff_crawler::market::{
    buff_report_of_text, knife_report_of_text, page_report_of_text, Notice, ParseReport,
};
use buff_crawler::watch::{found_items, watch_list_of_text, WatchList};

fn alert_of(r: &ParseReport) -> Option<String> {
    match &r.notice {
        Some(Notice::Alert(m)) => Some(m.clone()),
        _ => None,
    }
}

#[test]
fn json_text_is_parsed() {
    let doc = parse_json(r#"{"a": [1, -2, 1.5, true, null, "x"], "b": {}}"#).unwrap();
    let a = doc.get("a").unwrap().as_array().unwrap();
    assert_eq!(a.len(), 6);
    assert_eq!(a[0].as_u64(), Some(1));
    assert!(matches!(a[1], JsonValue::Number(JsonNumber::NegInt(-2))));
    assert!(matches!(a[2], JsonValue::Number(JsonNumber::Float)));
    assert_eq!(a[3].as_bool(), Some(true));
    assert!(matches!(a[4], JsonValue::Null));
    assert_eq!(a[5].as_str(), Some("x"));
    assert!(parse_json("not json").is_none());
    assert!(parse_json("{\"a\": 1").is_none());
}

#[test]
fn buff_text_is_read() {
    let html = r#"{"data": {"items": [
        {"short_name": "驾驶手套（★） | 雪豹", "sell_min_price": "850.5",
         "goods_info": {"info": {"tags": {"type": {"localized_name": "手套"},
            "quality": {"localized_name": "★"}}}}},
        {"short_name": "AK-47 | 红线"}
    ]}}"#;
    let (r, complete) = buff_report_of_text(html);
    assert!(complete && r.announce && r.proceed);
    assert_eq!(r.listings.len(), 1);
    assert_eq!(r.listings[0].item.typo, "驾驶手套");
    assert_eq!(r.listings[0].item.ware, "无");
    assert_eq!(r.listings[0].price, "850.5");

    let (r, complete) = buff_report_of_text("<html>busy</html>");
    assert!(complete);
    assert_eq!(alert_of(&r), Some("read whole json failed".to_string()));
}

#[test]
fn buff_text_is_read_up_to_an_unnamed_item() {
    let html = r#"{"data": {"items": [
        {"short_name": "a", "sell_min_price": "1"},
        {"sell_min_price": "2"},
        {"short_name": "c", "sell_min_price": "3"}
    ]}}"#;
    let (r, complete) = buff_report_of_text(html);
    assert!(!complete);
    assert!(r.announce);
    assert_eq!(r.listings.len(), 1);
    assert_eq!(r.listings[0].item.name, "a");
}

#[test]
fn knife_text_is_read() {
    let html = r#"{"Code": 0, "Data": [
        {"CommodityName": "爪子刀（★） | 多普勒 (崭新出厂)", "TypeName": "匕首", "Price": "5000",
         "Exterior": "崭新出厂", "Quality": "★", "Rarity": "隐秘"},
        {"TypeName": "步枪", "Price": "1"}
    ]}"#;
    let (r, complete) = knife_report_of_text(html);
    assert!(complete);
    assert_eq!(r.listings.len(), 1);
    assert_eq!(r.listings[0].item.typo, "爪子刀");
    let (r, _) = knife_report_of_text(r#"{"Code": 500, "Msg": "limit \"x\""}"#);
    assert_eq!(
        alert_of(&r),
        Some("http request fail, message: Some(\"limit \\\"x\\\"\")".to_string())
    );
    let (r, complete) = knife_report_of_text(r#"{"Code": 0, "Data": [{"TypeName": "手套"}]}"#);
    assert!(!complete);
    assert!(r.listings.is_empty());
}

#[test]
fn page_text_is_read() {
    let html = r#"{"TotalCount": 40, "Data": [
        {"CommodityName": "M9 刺刀（★） | 虎牙 (崭新出厂)", "TypeName": "匕首", "Price": "3000",
         "Exterior": "崭新出厂", "Quality": "★", "Rarity": "隐秘"},
        {"CommodityName": "x", "Price": "1"}
    ]}"#;
    let (r, complete) = page_report_of_text(html);
    assert!(!complete);
    assert!(r.proceed);
    assert_eq!(r.listings.len(), 1);
    assert_eq!(r.listings[0].item.typo, "M9 刺刀");
    let (r, complete) = page_report_of_text(r#"{"TotalCount": 0}"#);
    assert!(complete && !r.proceed);
    let (r, _) = page_report_of_text("");
    assert_eq!(alert_of(&r), Some("read whole json failed".to_string()));
}

#[test]
fn weapon_types_from_text() {
    assert!(item_types_of_text("oops").is_none());
    assert_eq!(item_types_of_text(r#"{"Data": []}"#), Some(None));
    assert_eq!(item_types_of_text(r#"{"Msg": "x"}"#), Some(None));
    let html = r#"{"Data": [{"Name": "手套", "Children": [
        {"Name": "不限", "HashName": "all"}, {"Name": "专业手套", "HashName": "specialist_gloves"}]}]}"#;
    assert_eq!(item_types_of_text(html), Some(Some(vec!["specialist_gloves".to_string()])));
}

#[test]
fn watch_list_from_text() {
    assert!(matches!(watch_list_of_text("[oops"), WatchList::NotJson));
    assert!(matches!(
        watch_list_of_text(r#"[{"target": "steam", "name": "a", "class": "b", "typo": "c", "ware": "d", "stat_trak": false}]"#),
        WatchList::Unreadable
    ));
    match watch_list_of_text(
        r#"[{"target": "yyyp", "name": "a", "class": "b", "typo": "c", "ware": "d", "stat_trak": true}]"#,
    ) {
        WatchList::Entries(v) => {
            assert_eq!(v.len(), 1);
            assert!(v[0].target == buff_crawler::crawl::Target::Yyyp);
            assert_eq!(v[0].name, "a");
            assert!(v[0].stat_trak);
        }
        _ => panic!("expected entries"),
    }
    match watch_list_of_text(r#"{"not": "a list"}"#) {
        WatchList::Entries(v) => assert!(v.is_empty()),
        _ => panic!("expected an empty list"),
    }
}

fn item(name: &str) -> Item {
    Item {
        id: 1,
        name: name.to_string(),
        class: String::new(),
        typo: String::new(),
        ware: String::new(),
        quality: String::new(),
        rarity: String::new(),
        stat_trak: false,
    }
}

#[test]
fn found_items_keep_order() {
    let found = vec![Some(item("a")), None, Some(item("c")), None];
    let names: Vec<String> = found_items(found).into_iter().map(|i| i.name).collect();
    assert_eq!(names, vec!["a".to_string(), "c".to_string()]);
    assert!(found_items(Vec::new()).is_empty());
}

#[test]
fn page_steps() {
    assert_eq!(page_step(1, PageOutcome::Read(true)), (Some(2), true));
    assert_eq!(page_step(4, PageOutcome::RequestFailed), (Some(5), false));
    assert_eq!(page_step(7, PageOutcome::Read(false)), (None, false));
}
