//! The crawlers of the price service: Buff, crawled continually, and Youpin,
//! whose knife and glove offers are crawled once a night; and the markets they
//! store their prices for.

use vstd::prelude::*;

use crate::market::type_of_name;
use crate::text::{signed_decimal, str_eq};
use crate::utils::{current_time, current_timestamp, random_in, API_BUFF};

verus! {

/// A market whose prices are stored.
#[derive(PartialEq, Eq, Structural, Hash, Clone, Copy, Debug)]
pub enum Target {
    Buff,
    Yyyp,
}

impl Target {
    /// The market named "buff" or "yyyp" (no other name is known).
    pub fn from(s: &str) -> (r: Target)
        requires
            s@ == "buff"@ || s@ == "yyyp"@,
        ensures
            r == (if s@ == "buff"@ {
                Target::Buff
            } else {
                Target::Yyyp
            }),
    {
        if str_eq(s, "buff") {
            Target::Buff
        } else {
            Target::Yyyp
        }
    }
}

/// The crawler of the Buff market, storing through `D`.
pub struct BuffCrawler<D> {
    db_helper: D,
}

/// The crawler of the Youpin market, storing through `D`.
pub struct YyypCrawler<D> {
    db_helper: D,
}

/// The alert text: "[TIME]      \nNAME: MESSAGE".
pub open spec fn alert_text(time: Seq<char>, name: Seq<char>, message: Seq<char>) -> Seq<char> {
    "["@ + time + "]      \n"@ + name + ": "@ + message
}

/// The announcement that a response was read: "[TIME] NAME: get json items success".
pub open spec fn success_text(time: Seq<char>, name: Seq<char>) -> Seq<char> {
    "["@ + time + "] "@ + name + ": get json items success"@
}

/// The alert text at a given time.
pub fn alert_text_at(time: &str, name: &str, message: &str) -> (r: String)
    ensures
        r@ == alert_text(time@, name@, message@),
{
    let r = String::from_str("[").concat(time).concat("]      \n").concat(name).concat(
        ": ",
    ).concat(message);
    r
}

/// The alert text, stamped with the current time.
pub fn alert_message(name: &str, message: &str) -> (r: String)
    ensures
        exists|time: Seq<char>| r@ == alert_text(time, name@, message@),
{
    let time = current_time();
    alert_text_at(time.as_str(), name, message)
}

/// The announcement that a response was read, at a given time.
pub fn success_text_at(time: &str, name: &str) -> (r: String)
    ensures
        r@ == success_text(time@, name@),
{
    String::from_str("[").concat(time).concat("] ").concat(name).concat(
        ": get json items success",
    )
}

/// The announcement that a response was read, stamped with the current time.
pub fn success_message(name: &str) -> (r: String)
    ensures
        exists|time: Seq<char>| r@ == success_text(time, name@),
{
    let time = current_time();
    success_text_at(time.as_str(), name)
}

/// The pause between two rounds of crawling, in seconds: 3 to 4 minutes.
pub fn pause_seconds() -> (r: u64)
    ensures
        180 <= r < 240,
{
    random_in(180, 240)
}

impl<D> BuffCrawler<D> {
    /// The storage the crawler writes to.
    pub closed spec fn storage(&self) -> D {
        self.db_helper
    }

    /// A crawler that stores through `db_helper`.
    pub fn new(db_helper: D) -> (r: Self)
        ensures
            r.storage() == db_helper,
    {
        Self { db_helper }
    }

    /// The address of the Buff listing at a given time stamp.
    pub fn build_url_at(timestamp: &str) -> (r: String)
        ensures
            r@ == API_BUFF@ + timestamp@,
    {
        String::from_str(API_BUFF).concat(timestamp)
    }

    /// The address of the Buff listing now: the endpoint followed by the current
    /// time in milliseconds.
    pub fn build_url() -> (r: String)
        ensures
            exists|millis: i64| r@ == API_BUFF@ + signed_decimal(millis as int),
    {
        let timestamp = current_timestamp();
        Self::build_url_at(timestamp.as_str())
    }

    /// The crawler's name in messages.
    pub fn name(&self) -> (r: &'static str)
        ensures
            r@ == "BuffCrawler"@,
    {
        "BuffCrawler"
    }

    /// The storage the crawler writes to.
    pub fn db(&self) -> (r: &D)
        ensures
            *r == self.storage(),
    {
        &self.db_helper
    }
}

impl<D> YyypCrawler<D> {
    /// The storage the crawler writes to.
    pub closed spec fn storage(&self) -> D {
        self.db_helper
    }

    /// A crawler that stores through `db_helper`.
    pub fn new(db_helper: D) -> (r: Self)
        ensures
            r.storage() == db_helper,
    {
        Self { db_helper }
    }

    /// The weapon type in an item name: the part before the first bracket.
    pub fn get_type_by_name(name: &str) -> (r: String)
        ensures
            r@ == crate::market::type_by_name(name@),
    {
        type_of_name(name)
    }

    /// The crawler's name in messages.
    pub fn name(&self) -> (r: &'static str)
        ensures
            r@ == "YyypCrawler"@,
    {
        "YyypCrawler"
    }

    /// The storage the crawler writes to.
    pub fn db(&self) -> (r: &D)
        ensures
            *r == self.storage(),
    {
        &self.db_helper
    }
}

} // verus!
