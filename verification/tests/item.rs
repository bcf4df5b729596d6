use buff_crawler::item::{pref_value, Item, PriceInfo};

fn trans(n: &str, c: &str, t: &str) -> (String, String, String) {
    (n.to_string(), c.to_string(), t.to_string())
}

#[test]
fn test_pref_value() {
    let (n1, c1, t1) = (
        String::from("SSG 08 | 鬼脸天蛾"),
        String::from("步枪"),
        String::from("SSG 08"),
    );
    assert_eq!(
        trans("SSG 08 | 鬼脸天蛾", "狙击步枪", "SSG 08"),
        pref_value(n1, c1, t1)
    );

    let (n1, c1, t1) = (
        String::from("G3SG1 | 黑暗豹纹"),
        String::from("步枪"),
        String::from("G3SG1"),
    );
    assert_eq!(
        trans("G3SG1 | 黑暗豹纹", "狙击步枪", "G3SG1"),
        pref_value(n1, c1, t1)
    );

    let (n1, c1, t1) = (
        String::from("裹手（★） | 森林色调"),
        String::from("手套"),
        String::from(""),
    );
    assert_eq!(
        trans("裹手（★） | 森林色调", "手套", "手部束带"),
        pref_value(n1, c1, t1)
    );

    let (n1, c1, t1) = (
        String::from("驾驶手套（★） | 雪豹"),
        String::from("手套"),
        String::from(""),
    );
    assert_eq!(
        trans("驾驶手套（★） | 雪豹", "手套", "驾驶手套"),
        pref_value(n1, c1, t1)
    );

    let (n1, c1, t1) = (
        String::from("印花 | Spirit（闪亮）| 2020 RMR"),
        String::from("印花"),
        String::from(""),
    );
    assert_eq!(
        trans("印花 | Spirit（闪亮）| 2020 RMR", "印花", "2020 RMR"),
        pref_value(n1, c1, t1)
    );

    let (n1, c1, t1) = (
        String::from("印花 | Vitality （全息） | 2021年斯德哥尔摩锦标赛"),
        String::from("印花"),
        String::from(""),
    );
    assert_eq!(
        trans(
            "印花 | Vitality （全息） | 2021年斯德哥尔摩锦标赛",
            "印花",
            "2021年斯德哥尔摩锦标赛"
        ),
        pref_value(n1, c1, t1)
    );
}

#[test]
fn pref_value_keeps_other_classes() {
    assert_eq!(
        trans("AK-47 | 红线", "步枪", "AK-47"),
        pref_value("AK-47 | 红线".to_string(), "步枪".to_string(), "AK-47".to_string())
    );
}

#[test]
fn pref_value_gloves_without_bar_keep_type() {
    assert_eq!(
        trans("运动手套", "手套", "原型"),
        pref_value("运动手套".to_string(), "手套".to_string(), "原型".to_string())
    );
}

#[test]
fn pref_value_sticker_with_two_parts_keeps_type() {
    assert_eq!(
        trans("印花 | Spirit", "印花", "x"),
        pref_value("印花 | Spirit".to_string(), "印花".to_string(), "x".to_string())
    );
}

#[test]
fn pref_value_glove_type_may_become_sniper_class() {
    assert_eq!(
        trans(" AWP（★） | 雪豹", "狙击步枪", "AWP"),
        pref_value(" AWP（★） | 雪豹".to_string(), "手套".to_string(), "".to_string())
    );
}

#[test]
fn pref_value_is_idempotent_on_examples() {
    let cases = [
        ("裹手（★） | 森林色调", "手套", ""),
        ("印花 | Spirit（闪亮）| 2020 RMR", "印花", ""),
        ("SCAR-20 | 翡翠", "步枪", "SCAR-20"),
        (" AWP（★） | 雪豹", "手套", ""),
    ];
    for (n, c, t) in cases {
        let once = pref_value(n.to_string(), c.to_string(), t.to_string());
        let twice = pref_value(once.0.clone(), once.1.clone(), once.2.clone());
        assert_eq!(once, twice);
    }
}

#[test]
fn item_new_normalises_and_keeps_the_rest() {
    let item = Item::new(
        "裹手（★） | 森林色调".to_string(),
        "手套".to_string(),
        "".to_string(),
        "久经沙场".to_string(),
        "★".to_string(),
        "隐秘".to_string(),
        true,
    );
    assert_eq!(item.id, 0);
    assert_eq!(item.name, "裹手（★） | 森林色调");
    assert_eq!(item.class, "手套");
    assert_eq!(item.typo, "手部束带");
    assert_eq!(item.ware, "久经沙场");
    assert_eq!(item.quality, "★");
    assert_eq!(item.rarity, "隐秘");
    assert!(item.stat_trak);
}

#[test]
fn price_info_new_is_unstored() {
    let p = PriceInfo::new(7, "2022-03-01".to_string(), 1234);
    assert_eq!(p.id, 0);
    assert_eq!(p.item_id, 7);
    assert_eq!(p.date, "2022-03-01");
    assert_eq!(p.price, 1234);
}
