use buff_crawler::json::{JsonNumber, JsonValue};
use buff_crawler::market::{
    buff_is_readable, failure_message, knife_report_is_readable, page_report_is_readable,
    read_buff, read_knife_report, read_page_report, type_of_name, Notice, ParseReport,
};

fn s(t: &str) -> JsonValue {
    JsonValue::Str(t.to_string())
}

fn obj(members: Vec<(&str, JsonValue)>) -> JsonValue {
    JsonValue::Object(members.into_iter().map(|(k, v)| (k.to_string(), v)).collect())
}

fn num(n: u64) -> JsonValue {
    JsonValue::Number(JsonNumber::PosInt(n))
}

fn tag(name: &str) -> JsonValue {
    obj(vec![("localized_name", s(name))])
}

fn buff_entry(name: &str, price: Option<&str>, quality: &str) -> JsonValue {
    let mut members = vec![
        ("short_name", s(name)),
        (
            "goods_info",
            obj(vec![(
                "info",
                obj(vec![(
                    "tags",
                    obj(vec![
                        ("type", tag("手套")),
                        ("weapon", tag("")),
                        ("exterior", tag("久经沙场")),
                        ("quality", tag(quality)),
                    ]),
                )]),
            )]),
        ),
    ];
    if let Some(p) = price {
        members.push(("sell_min_price", s(p)));
    }
    obj(members)
}

fn alert_of(r: &ParseReport) -> Option<String> {
    match &r.notice {
        Some(Notice::Alert(m)) => Some(m.clone()),
        _ => None,
    }
}

#[test]
fn buff_response_is_read() {
    let doc = obj(vec![(
        "data",
        obj(vec![(
            "items",
            JsonValue::Array(vec![
                buff_entry("裹手（★） | 森林色调", Some("1234.5"), "StatTrak™ ★"),
                buff_entry("运动手套（★） | 潘多拉", None, "★"),
            ]),
        )]),
    )]);
    assert!(buff_is_readable(Some(&doc)));
    let r = read_buff(Some(&doc));
    assert!(r.announce);
    assert!(r.proceed);
    assert!(r.notice.is_none());
    assert_eq!(r.listings.len(), 1);
    let l = &r.listings[0];
    assert_eq!(l.price, "1234.5");
    assert_eq!(l.item.name, "裹手（★） | 森林色调");
    assert_eq!(l.item.class, "手套");
    assert_eq!(l.item.typo, "手部束带");
    assert_eq!(l.item.ware, "久经沙场");
    assert_eq!(l.item.quality, "StatTrak™ ★");
    assert_eq!(l.item.rarity, "无");
    assert!(l.item.stat_trak);
}

#[test]
fn buff_response_failures_alert() {
    let r = read_buff(None);
    assert_eq!(alert_of(&r), Some("read whole json failed".to_string()));
    assert!(r.proceed && !r.announce && r.listings.is_empty());
    let doc = obj(vec![("data", obj(vec![]))]);
    let r = read_buff(Some(&doc));
    assert_eq!(alert_of(&r), Some("read whole json failed, cant find items".to_string()));
    assert!(r.proceed);
}

#[test]
fn buff_unnamed_item_is_not_readable() {
    let doc = obj(vec![(
        "data",
        obj(vec![("items", JsonValue::Array(vec![obj(vec![("sell_min_price", s("1"))])]))]),
    )]);
    assert!(!buff_is_readable(Some(&doc)));
}

fn yyyp_entry(name: &str, class: &str, price: Option<&str>) -> JsonValue {
    let mut members = vec![
        ("CommodityName", s(name)),
        ("TypeName", s(class)),
        ("Exterior", s("崭新出厂")),
        ("Quality", s("★")),
        ("Rarity", s("隐秘")),
    ];
    if let Some(p) = price {
        members.push(("Price", s(p)));
    }
    obj(members)
}

#[test]
fn knife_report_keeps_knives_and_gloves() {
    let doc = obj(vec![
        ("Code", num(0)),
        (
            "Data",
            JsonValue::Array(vec![
                yyyp_entry("鲍伊猎刀（★ StatTrak™） | 虎牙 (崭新出厂)", "匕首", Some("3000")),
                yyyp_entry("AK-47 | 红线", "步枪", Some("100")),
                yyyp_entry("驾驶手套（★） | 雪豹", "手套", None),
            ]),
        ),
    ]);
    assert!(knife_report_is_readable(Some(&doc)));
    let r = read_knife_report(Some(&doc));
    assert!(r.announce && r.proceed && r.notice.is_none());
    assert_eq!(r.listings.len(), 1);
    assert_eq!(r.listings[0].item.typo, "鲍伊猎刀");
    assert_eq!(r.listings[0].item.class, "匕首");
    assert!(r.listings[0].item.stat_trak);
    assert_eq!(r.listings[0].price, "3000");
}

#[test]
fn knife_report_failures() {
    let doc = obj(vec![("Code", num(1)), ("Msg", s("busy"))]);
    let r = read_knife_report(Some(&doc));
    assert_eq!(alert_of(&r), Some("http request fail, message: Some(\"busy\")".to_string()));
    assert!(!r.proceed);
    let doc = obj(vec![("Code", num(7))]);
    let r = read_knife_report(Some(&doc));
    assert_eq!(alert_of(&r), Some("http request fail, message: None".to_string()));
    let doc = obj(vec![("Code", num(0))]);
    let r = read_knife_report(Some(&doc));
    assert_eq!(alert_of(&r), Some("json datas empty".to_string()));
    let r = read_knife_report(None);
    assert_eq!(alert_of(&r), Some("read whole json failed".to_string()));
    assert!(!r.proceed);
}

#[test]
fn knife_without_name_is_not_readable() {
    let doc = obj(vec![
        ("Code", num(0)),
        ("Data", JsonValue::Array(vec![obj(vec![("TypeName", s("匕首"))])])),
    ]);
    assert!(!knife_report_is_readable(Some(&doc)));
}

#[test]
fn page_report_reads_every_priced_offer() {
    let doc = obj(vec![
        ("TotalCount", num(2)),
        (
            "Data",
            JsonValue::Array(vec![
                yyyp_entry("AK-47 | 红线 (久经沙场)", "步枪", Some("100")),
                yyyp_entry("AWP | 二西莫夫 (久经沙场)", "步枪", Some("500")),
                obj(vec![("CommodityName", s("unpriced"))]),
            ]),
        ),
    ]);
    assert!(page_report_is_readable(Some(&doc)));
    let r = read_page_report(Some(&doc));
    assert!(!r.announce && r.proceed && r.notice.is_none());
    assert_eq!(r.listings.len(), 2);
    assert_eq!(r.listings[1].item.typo, "AWP | 二西莫夫 ");
    assert_eq!(r.listings[1].item.class, "步枪");
}

#[test]
fn page_report_end_and_failures() {
    let r = read_page_report(Some(&obj(vec![("TotalCount", num(0))])));
    match &r.notice {
        Some(Notice::Print(m)) => assert_eq!(m, "all pages processed"),
        _ => panic!("expected a printed notice"),
    }
    assert!(!r.proceed);
    let r = read_page_report(Some(&obj(vec![])));
    assert_eq!(alert_of(&r), Some("get total count failed".to_string()));
    let r = read_page_report(Some(&obj(vec![("TotalCount", num(3))])));
    assert_eq!(alert_of(&r), Some("get datas failed".to_string()));
    let r = read_page_report(Some(&obj(vec![("TotalCount", JsonValue::Number(JsonNumber::NegInt(-1)))])));
    assert_eq!(alert_of(&r), Some("get total count failed".to_string()));
    let r = read_page_report(None);
    assert_eq!(alert_of(&r), Some("read whole json failed".to_string()));
}

#[test]
fn priced_offer_without_class_is_not_readable() {
    let doc = obj(vec![
        ("TotalCount", num(1)),
        ("Data", JsonValue::Array(vec![obj(vec![("CommodityName", s("x")), ("Price", s("1"))])])),
    ]);
    assert!(!page_report_is_readable(Some(&doc)));
}

#[test]
fn type_from_names() {
    assert_eq!(type_of_name("AK-47 | 红线 (久经沙场)"), "AK-47 | 红线 ");
    assert_eq!(type_of_name("无括号"), "无括号");
    assert_eq!(type_of_name("（★）"), "");
}

#[test]
fn failure_message_prefix() {
    assert_eq!(failure_message("None"), "http request fail, message: None");
}
