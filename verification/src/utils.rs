//! Constants of the market interfaces, and the clock and the random source
//! that the crawlers read.

use rand::Rng;
use vstd::prelude::*;

use crate::text::{decimal_i64, signed_decimal};

verus! {

/// The user agent that every request announces.
pub const UA: &'static str = "Mozilla/5.0 (Windows NT 6.1; Win64; x64) AppleWebKit/537.36 (KHTML, like Gecko) Chrome/98.0.4758.102 Safari/537.36";

/// The value of an item property that a market does not give.
pub const DEFAULT: &'static str = "无";

/// The Buff listing endpoint; the current time in milliseconds completes it.
pub const API_BUFF: &'static str = "https://buff.163.com/api/market/goods?game=csgo&page_num=1&page_size=120&use_suggestion=0&trigger=undefined_trigger&_=";

/// The Youpin endpoint that lists the weapon types.
pub const API_YYYP_WEAPON: &'static str = "https://api.youpin898.com/api/v2/commodity/Tag/GetCsGoWeaponList";

/// The Youpin endpoint that lists the offers of one weapon type, page by page.
pub const API_YYYP_PAGE: &'static str = "https://api.youpin898.com/api/homepage/es/template/GetCsGoPagedList";

/// The local time as "YYYY-MM-DD hh:mm:ss" (chrono's `Local::now().format`).
/// It depends on the clock and on the local time zone: nothing is stated of it.
#[verifier::external_body]
pub fn current_time() -> String {
    chrono::Local::now().format("%Y-%m-%d %H:%M:%S").to_string()
}

/// The local date as "YYYY-MM-DD" (chrono's `Local::now().format`).
/// It depends on the clock and on the local time zone: nothing is stated of it.
#[verifier::external_body]
pub fn current_date() -> String {
    chrono::Local::now().format("%Y-%m-%d").to_string()
}

/// The current time in milliseconds since the Unix epoch (chrono's
/// `Local::now().timestamp_millis()`). It depends on the clock: nothing is stated of it.
#[verifier::external_body]
fn now_millis() -> i64 {
    chrono::Local::now().timestamp_millis()
}

/// The current time in milliseconds since the Unix epoch, in decimal.
pub fn current_timestamp() -> (r: String)
    ensures
        exists|millis: i64| r@ == signed_decimal(millis as int),
{
    let millis = now_millis();
    decimal_i64(millis)
}

/// A number drawn by rand's thread-local generator from `low..high`
/// (`thread_rng().gen_range(low..high)`, which panics on an empty range):
/// the result lies in the range.
#[verifier::external_body]
pub(crate) fn random_in(low: u64, high: u64) -> (r: u64)
    requires
        low < high,
    ensures
        low <= r < high,
{
    rand::thread_rng().gen_range(low..high)
}

} // verus!
