use buff_crawler::db::{price_write, IdLookup, IdStep, PriceWrite};
use buff_crawler::http::{Attempts, Response};
use buff_crawler::json::{get_in, JsonValue};

#[test]
fn responses() {
    let r = Response::ok(vec![1, 2]);
    assert_eq!((r.status, r.message.as_str(), r.data), (0, "ok", Some(vec![1, 2])));
    let r: Response<u8> = Response::ok_without_data();
    assert_eq!((r.status, r.message.as_str(), r.data), (0, "ok", None));
    let r: Response<u8> = Response::fail("no such table".to_string());
    assert_eq!((r.status, r.message.as_str(), r.data), (1, "no such table", None));
    let r: Response<u8> = Response::new(Err("e".to_string()));
    assert_eq!((r.status, r.message.as_str()), (1, "e"));
    let r = Response::new(Ok(vec![3u8]));
    assert_eq!((r.status, r.data), (0, Some(vec![3u8])));
}

#[test]
fn request_is_sent_at_most_three_times() {
    let mut a = Attempts::first();
    assert!(a.send_again(500));
    assert!(a.send_again(404));
    assert!(!a.send_again(500));
    assert_eq!(a.sent(), 3);
    let mut b = Attempts::first();
    assert!(!b.send_again(200));
    assert_eq!(b.sent(), 1);
}

#[test]
fn item_is_added_once() {
    let mut l = IdLookup::start();
    assert!(matches!(l.after_lookup(None), IdStep::AddThenLookUp));
    assert!(matches!(l.after_lookup(None), IdStep::Done(None)));
    let mut l = IdLookup::start();
    assert!(matches!(l.after_lookup(Some(4)), IdStep::Done(Some(4))));
    let mut l = IdLookup::start();
    assert!(matches!(l.after_lookup(None), IdStep::AddThenLookUp));
    assert!(matches!(l.after_lookup(Some(9)), IdStep::Done(Some(9))));
}

#[test]
fn price_writes() {
    assert!(matches!(price_write(Some(3)), PriceWrite::Update(3)));
    assert!(matches!(price_write(None), PriceWrite::Insert));
}

#[test]
fn json_lookup_finds_first_member() {
    let doc = JsonValue::Object(vec![
        ("a".to_string(), JsonValue::Bool(true)),
        ("b".to_string(), JsonValue::Str("x".to_string())),
    ]);
    assert_eq!(doc.get("b").and_then(|v| v.as_str()), Some("x"));
    assert_eq!(doc.get("a").and_then(|v| v.as_bool()), Some(true));
    assert!(doc.get("c").is_none());
    assert!(get_in(None, "a").is_none());
    assert!(JsonValue::Null.get("a").is_none());
}
