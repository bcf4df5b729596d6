use buff_crawler::crawl::{self, BuffCrawler, Target};
use buff_crawler::crawler::{self, build_crawler, item_types, Crawler, YyypCrawler};
use buff_crawler::json::{JsonValue};
use buff_crawler::utils::{current_timestamp, API_BUFF};

fn s(t: &str) -> JsonValue {
    JsonValue::Str(t.to_string())
}

fn obj(members: Vec<(&str, JsonValue)>) -> JsonValue {
    JsonValue::Object(members.into_iter().map(|(k, v)| (k.to_string(), v)).collect())
}

#[test]
fn test_get_type_from_name() {
    assert_eq!(
        "鲍伊猎刀",
        YyypCrawler::<()>::get_type_by_name("鲍伊猎刀（★ StatTrak™） | 虎牙 (崭新出厂)")
    );
}

#[test]
fn crawl_type_by_name_matches() {
    assert_eq!(
        "鲍伊猎刀",
        crawl::YyypCrawler::<()>::get_type_by_name("鲍伊猎刀（★ StatTrak™） | 虎牙 (崭新出厂)")
    );
}

#[test]
fn targets_by_name() {
    assert!(Target::from("buff") == Target::Buff);
    assert!(Target::from("yyyp") == Target::Yyyp);
}

#[test]
fn crawlers_by_name() {
    assert!(matches!(build_crawler("buff", 1u8), Some(Crawler::Buff(_))));
    assert!(matches!(build_crawler("yyyp", 1u8), Some(Crawler::Yyyp(_))));
    assert!(matches!(build_crawler("igxe", 1u8), Some(Crawler::Igxe(_))));
    assert!(build_crawler("steam", 1u8).is_none());
    let c = build_crawler("igxe", 5u8).unwrap();
    assert_eq!(*c.db(), 5u8);
    assert_eq!(c.name(), "IgxeCrawler");
}

#[test]
fn crawler_names_and_storage() {
    let b = BuffCrawler::new(3u32);
    assert_eq!(b.name(), "BuffCrawler");
    assert_eq!(*b.db(), 3u32);
    let y = crawl::YyypCrawler::new("db");
    assert_eq!(y.name(), "YyypCrawler");
    assert_eq!(*y.db(), "db");
}

#[test]
fn buff_url() {
    assert_eq!(
        BuffCrawler::<()>::build_url_at("1650000000000"),
        format!("{}1650000000000", API_BUFF)
    );
    let url = BuffCrawler::<()>::build_url();
    let stamp = &url[API_BUFF.len()..];
    assert!(url.starts_with(API_BUFF));
    assert!(stamp.parse::<i64>().unwrap() > 1_600_000_000_000);
    let now = current_timestamp();
    assert!(now.chars().all(|c| c.is_ascii_digit()));
}

#[test]
fn messages() {
    assert_eq!(
        crawl::alert_text_at("2022-03-01 23:00:00", "BuffCrawler", "fetch api failed"),
        "[2022-03-01 23:00:00]      \nBuffCrawler: fetch api failed"
    );
    assert_eq!(
        crawl::success_text_at("T", "YyypCrawler"),
        "[T] YyypCrawler: get json items success"
    );
    assert_eq!(crawler::alert_text_at("T", "BuffCrawler", "m"), "[T] BuffCrawler: m");
    assert_eq!(crawler::success_text_at("T"), "[T] get json items success");
    assert_eq!(crawler::page_text_at("T", "weapon_bayonet", 12), "[T] start parse weapon_bayonet page 12");
    let m = crawl::alert_message("BuffCrawler", "x");
    assert!(m.starts_with('[') && m.ends_with("]      \nBuffCrawler: x"));
    let m = crawler::page_message("t", 3);
    assert!(m.ends_with("] start parse t page 3"));
}

#[test]
fn pauses_are_in_range() {
    for _ in 0..20 {
        let a = crawl::pause_seconds();
        assert!((180..240).contains(&a));
        let b = crawler::pause_seconds();
        assert!((15..30).contains(&b));
    }
}

#[test]
fn page_query_members() {
    let q = crawler::build_page_query("weapon_knife_karambit", 12);
    let expected: Vec<(String, String)> = [
        ("gameId", "730"),
        ("listSortType", "1"),
        ("listType", "10"),
        ("pageSize", "20"),
        ("sortType", "0"),
        ("weapon", "weapon_knife_karambit"),
        ("pageIndex", "12"),
    ]
    .iter()
    .map(|(k, v)| (k.to_string(), v.to_string()))
    .collect();
    assert_eq!(q, expected);
}

#[test]
fn item_types_of_knives_and_gloves() {
    let group = |name: &str, children: Vec<JsonValue>| {
        obj(vec![("Name", s(name)), ("Children", JsonValue::Array(children))])
    };
    let child = |name: &str, hash: &str| obj(vec![("Name", s(name)), ("HashName", s(hash))]);
    let doc = obj(vec![(
        "Data",
        JsonValue::Array(vec![
            group("步枪", vec![child("AK-47", "weapon_ak47")]),
            group(
                "匕首",
                vec![child("不限", "all"), child("爪子刀", "weapon_knife_karambit"), obj(vec![("HashName", s("x"))])],
            ),
            group("手套", vec![child("运动手套", "sporty_gloves"), obj(vec![("Name", s("y"))])]),
        ]),
    )]);
    let types = item_types(&doc).unwrap();
    assert_eq!(types, vec!["weapon_knife_karambit".to_string(), "sporty_gloves".to_string()]);
    assert!(item_types(&obj(vec![])).is_none());
}
