use buff_crawler::text::{
    contains_str, decimal_i64, decimal_u64, replace_str, split_once_str, split_str, str_eq,
    trim_str,
};

#[test]
fn trim_removes_unicode_white_space() {
    assert_eq!(trim_str("  a b \t\n"), "a b");
    assert_eq!(trim_str("\u{3000}驾驶手套\u{00a0}"), "驾驶手套");
    assert_eq!(trim_str("   "), "");
    assert_eq!(trim_str(""), "");
    let odd = "\u{2005}x\u{205f}";
    assert_eq!(trim_str(odd), odd.trim());
}

#[test]
fn replace_is_left_to_right_without_overlap() {
    assert_eq!(replace_str("aaa", "aa", "b"), "ba");
    assert_eq!(replace_str("裹手（★）", "（★）", ""), "裹手");
    assert_eq!(replace_str("x裹手y裹手", "裹手", "手部束带"), "x手部束带y手部束带");
    assert_eq!(replace_str("abc", "zz", "q"), "abc");
    assert_eq!(replace_str("a", "abc", "q"), "a");
}

#[test]
fn split_matches_std() {
    for s in ["a|b|c", "|", "", "no bar", "印花 | Spirit（闪亮）| 2020 RMR", "||x|"] {
        let expected: Vec<String> = s.split('|').map(|p| p.to_string()).collect();
        assert_eq!(split_str(s, '|'), expected);
        let once = split_once_str(s, '|');
        let std_once = s.split_once('|').map(|(a, b)| (a.to_string(), b.to_string()));
        assert_eq!(once, std_once);
    }
}

#[test]
fn contains_and_eq() {
    assert!(contains_str("StatTrak™ 崭新出厂", "StatTrak"));
    assert!(!contains_str("Stat Trak", "StatTrak"));
    assert!(contains_str("abc", ""));
    assert!(!contains_str("", "a"));
    assert!(str_eq("手套", "手套"));
    assert!(!str_eq("手套", "手"));
}

#[test]
fn decimal_notation() {
    assert_eq!(decimal_u64(0), "0");
    assert_eq!(decimal_u64(730), "730");
    assert_eq!(decimal_u64(u64::MAX), u64::MAX.to_string());
    assert_eq!(decimal_i64(-42), "-42");
    assert_eq!(decimal_i64(i64::MIN), i64::MIN.to_string());
    assert_eq!(decimal_i64(1650000000000), "1650000000000");
}
