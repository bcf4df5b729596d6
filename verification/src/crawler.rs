//! The command-line crawlers: a crawler is built by market name, and the Youpin
//! crawler walks the offers of every knife and glove type page by page.

use vstd::prelude::*;

use crate::market::{
    count_where, is_knife_or_gloves, lemma_pick_count, lemma_pick_index, lemma_pick_step, pick,
    type_by_name, type_of_name,
};
use crate::json::{array_in, json_of, parse_json, str_in, JsonValue};
use crate::text::{decimal, decimal_u64, str_eq};
use crate::utils::{current_time, random_in};

verus! {

/// The crawler of the Buff market, storing through `D`.
pub struct BuffCrawler<D> {
    db_helper: D,
}

/// The crawler of the Youpin market, storing through `D`.
pub struct YyypCrawler<D> {
    db_helper: D,
}

/// The crawler of the IGXE market, storing through `D` (it reads nothing yet).
pub struct IgxeCrawler<D> {
    db_helper: D,
}

/// A crawler of one of the known markets.
pub enum Crawler<D> {
    Buff(BuffCrawler<D>),
    Yyyp(YyypCrawler<D>),
    Igxe(IgxeCrawler<D>),
}

/// The market that a crawler of the given name crawls.
pub enum Market {
    Buff,
    Yyyp,
    Igxe,
}

/// The market named `target`, if it is one of "buff", "yyyp" and "igxe".
pub open spec fn market_named(target: Seq<char>) -> Option<Market> {
    if target == "buff"@ {
        Some(Market::Buff)
    } else if target == "yyyp"@ {
        Some(Market::Yyyp)
    } else if target == "igxe"@ {
        Some(Market::Igxe)
    } else {
        None
    }
}

impl<D> Crawler<D> {
    /// The market this crawler crawls.
    pub open spec fn market(&self) -> Market {
        match self {
            Crawler::Buff(_) => Market::Buff,
            Crawler::Yyyp(_) => Market::Yyyp,
            Crawler::Igxe(_) => Market::Igxe,
        }
    }

    /// The storage the crawler writes to.
    pub open spec fn storage(&self) -> D {
        match self {
            Crawler::Buff(c) => c.storage(),
            Crawler::Yyyp(c) => c.storage(),
            Crawler::Igxe(c) => c.storage(),
        }
    }

    /// The crawler's name in messages.
    pub fn name(&self) -> (r: &'static str)
        ensures
            r@ == match self.market() {
                Market::Buff => "BuffCrawler"@,
                Market::Yyyp => "YyypCrawler"@,
                Market::Igxe => "IgxeCrawler"@,
            },
    {
        match self {
            Crawler::Buff(_) => "BuffCrawler",
            Crawler::Yyyp(_) => "YyypCrawler",
            Crawler::Igxe(_) => "IgxeCrawler",
        }
    }

    /// The storage the crawler writes to.
    pub fn db(&self) -> (r: &D)
        ensures
            *r == self.storage(),
    {
        match self {
            Crawler::Buff(c) => &c.db_helper,
            Crawler::Yyyp(c) => &c.db_helper,
            Crawler::Igxe(c) => &c.db_helper,
        }
    }
}

impl<D> BuffCrawler<D> {
    /// The storage the crawler writes to.
    pub closed spec fn storage(&self) -> D {
        self.db_helper
    }
}

impl<D> YyypCrawler<D> {
    /// The storage the crawler writes to.
    pub closed spec fn storage(&self) -> D {
        self.db_helper
    }

    /// The weapon type in an item name: the part before the first bracket.
    pub fn get_type_by_name(name: &str) -> (r: String)
        ensures
            r@ == type_by_name(name@),
    {
        type_of_name(name)
    }
}

impl<D> IgxeCrawler<D> {
    /// The storage the crawler writes to.
    pub closed spec fn storage(&self) -> D {
        self.db_helper
    }
}

/// The crawler for the market named `target`, storing through `db_helper`;
/// `None` for an unknown name.
pub fn build_crawler<D>(target: &str, db_helper: D) -> (r: Option<Crawler<D>>)
    ensures
        match r {
            Some(c) => market_named(target@) == Some(c.market()) && c.storage() == db_helper,
            None => market_named(target@) is None,
        },
{
    if str_eq(target, "buff") {
        Some(Crawler::Buff(BuffCrawler { db_helper }))
    } else if str_eq(target, "yyyp") {
        Some(Crawler::Yyyp(YyypCrawler { db_helper }))
    } else if str_eq(target, "igxe") {
        Some(Crawler::Igxe(IgxeCrawler { db_helper }))
    } else {
        None
    }
}

/// The text sent with an alert: "[TIME] NAME: MESSAGE".
pub open spec fn alert_text(time: Seq<char>, name: Seq<char>, message: Seq<char>) -> Seq<char> {
    "["@ + time + "] "@ + name + ": "@ + message
}

/// The text sent with an alert, at a given time.
pub fn alert_text_at(time: &str, name: &str, message: &str) -> (r: String)
    ensures
        r@ == alert_text(time@, name@, message@),
{
    String::from_str("[").concat(time).concat("] ").concat(name).concat(": ").concat(message)
}

/// The text sent with an alert, stamped with the current time.
pub fn alert_message(name: &str, message: &str) -> (r: String)
    ensures
        exists|time: Seq<char>| r@ == alert_text(time, name@, message@),
{
    let time = current_time();
    alert_text_at(time.as_str(), name, message)
}

/// The announcement that a Buff response was read, at a given time.
pub fn success_text_at(time: &str) -> (r: String)
    ensures
        r@ == "["@ + time@ + "] get json items success"@,
{
    String::from_str("[").concat(time).concat("] get json items success")
}

/// The announcement that a Buff response was read, stamped with the current time.
pub fn success_message() -> (r: String)
    ensures
        exists|time: Seq<char>| r@ == "["@ + time + "] get json items success"@,
{
    let time = current_time();
    success_text_at(time.as_str())
}

/// The announcement that a page is read: "[TIME] start parse TYPE page N".
pub open spec fn page_text(time: Seq<char>, typo: Seq<char>, page: nat) -> Seq<char> {
    "["@ + time + "] start parse "@ + typo + " page "@ + decimal(page)
}

/// The announcement that a page is read, at a given time.
pub fn page_text_at(time: &str, typo: &str, page: u64) -> (r: String)
    ensures
        r@ == page_text(time@, typo@, page as nat),
{
    let number = decimal_u64(page);
    String::from_str("[").concat(time).concat("] start parse ").concat(typo).concat(
        " page ",
    ).concat(number.as_str())
}

/// The announcement that a page is read, stamped with the current time.
pub fn page_message(typo: &str, page: u64) -> (r: String)
    ensures
        exists|time: Seq<char>| r@ == page_text(time, typo@, page as nat),
{
    let time = current_time();
    page_text_at(time.as_str(), typo, page)
}

/// The pause between two pages, in seconds: 15 to 29.
pub fn pause_seconds() -> (r: u64)
    ensures
        15 <= r < 30,
{
    random_in(15, 30)
}

/// The request for one page of the Youpin offers of a weapon type: the
/// members of the JSON object that is sent, in this order.
pub open spec fn page_query(typo: Seq<char>, page: nat) -> Seq<(Seq<char>, Seq<char>)> {
    seq![
        ("gameId"@, "730"@),
        ("listSortType"@, "1"@),
        ("listType"@, "10"@),
        ("pageSize"@, "20"@),
        ("sortType"@, "0"@),
        ("weapon"@, typo),
        ("pageIndex"@, decimal(page)),
    ]
}

/// The abstract contents of a list of text pairs.
pub open spec fn pairs_view(v: Seq<(String, String)>) -> Seq<(Seq<char>, Seq<char>)> {
    v.map_values(|p: (String, String)| (p.0@, p.1@))
}

/// The request for one page of the Youpin offers of a weapon type.
pub fn build_page_query(typo: &str, page: u64) -> (r: Vec<(String, String)>)
    ensures
        pairs_view(r@) == page_query(typo@, page as nat),
{
    let mut r: Vec<(String, String)> = Vec::new();
    r.push((String::from_str("gameId"), String::from_str("730")));
    r.push((String::from_str("listSortType"), String::from_str("1")));
    r.push((String::from_str("listType"), String::from_str("10")));
    r.push((String::from_str("pageSize"), String::from_str("20")));
    r.push((String::from_str("sortType"), String::from_str("0")));
    r.push((String::from_str("weapon"), String::from_str(typo)));
    r.push((String::from_str("pageIndex"), decimal_u64(page)));
    assert(pairs_view(r@) =~= page_query(typo@, page as nat));
    r
}

/// The type of one entry of a weapon group: its `HashName`, unless it is the
/// catch-all entry "不限" or has no `Name`.
pub open spec fn child_type(child: JsonValue) -> Option<Seq<char>> {
    match child.at("Name"@).text() {
        Some(n) => if n == "不限"@ {
            None
        } else {
            child.at("HashName"@).text()
        },
        None => None,
    }
}

/// [`child_type`] as a function value.
pub open spec fn child_type_fn() -> spec_fn(JsonValue) -> Option<Seq<char>> {
    |c: JsonValue| child_type(c)
}

/// The types of a weapon group: those of its `Children` if it is the group of
/// knives or of gloves, else none.
pub open spec fn group_types(group: JsonValue) -> Seq<Seq<char>> {
    if is_knife_or_gloves(group.at("Name"@).text()) {
        match group.at("Children"@).elements() {
            Some(children) => pick(children, child_type_fn()),
            None => Seq::empty(),
        }
    } else {
        Seq::empty()
    }
}

/// The types of all weapon groups, group after group.
pub open spec fn types_of_groups(groups: Seq<JsonValue>) -> Seq<Seq<char>>
    decreases groups.len(),
{
    if groups.len() == 0 {
        Seq::empty()
    } else {
        types_of_groups(groups.drop_last()) + group_types(groups.last())
    }
}

/// The knife and glove types in a weapon list response (`Data`); `None` when
/// it has no list of groups.
pub open spec fn item_types_of(doc: JsonValue) -> Option<Seq<Seq<char>>> {
    match doc.at("Data"@).elements() {
        Some(groups) => Some(types_of_groups(groups)),
        None => None,
    }
}

/// The type of one entry of a weapon group.
fn child_type_of(child: &JsonValue) -> (r: Option<&str>)
    ensures
        match r {
            Some(t) => child_type(*child) == Some(t@),
            None => child_type(*child) is None,
        },
{
    match child.get("Name") {
        Some(name) => match name.as_str() {
            Some(n) => if str_eq(n, "不限") {
                None
            } else {
                str_in(child.get("HashName"))
            },
            None => None,
        },
        None => None,
    }
}

/// The knife and glove types in a weapon list response.
pub fn item_types(doc: &JsonValue) -> (r: Option<Vec<String>>)
    ensures
        match r {
            Some(v) => item_types_of(*doc) == Some(v.deep_view()),
            None => item_types_of(*doc) is None,
        },
{
    let groups = match array_in(doc.get("Data")) {
        Some(g) => g,
        None => return None,
    };
    let n = groups.len();
    let mut types: Vec<String> = Vec::new();
    let mut i: usize = 0;
    assert(types.deep_view() =~= types_of_groups(groups@.take(0)));
    while i < n
        invariant
            n == groups@.len(),
            i <= n,
            types.deep_view() == types_of_groups(groups@.take(i as int)),
        decreases n - i,
    {
        let group = &groups[i];
        proof {
            assert(groups@.take(i + 1).drop_last() =~= groups@.take(i as int));
            assert(groups@.take(i + 1).last() == groups@[i as int]);
        }
        let wanted = match str_in(group.get("Name")) {
            Some(name) => str_eq(name, "匕首") || str_eq(name, "手套"),
            None => false,
        };
        if wanted {
            match array_in(group.get("Children")) {
                Some(children) => {
                    let m = children.len();
                    let mut j: usize = 0;
                    let ghost start = types.deep_view();
                    assert(pick(children@.take(0), child_type_fn()) =~= Seq::<Seq<char>>::empty());
                    assert(start + Seq::<Seq<char>>::empty() =~= start);
                    while j < m
                        invariant
                            m == children@.len(),
                            j <= m,
                            types.deep_view() == start + pick(children@.take(j as int), child_type_fn()),
                        decreases m - j,
                    {
                        proof {
                            lemma_pick_step(children@, child_type_fn(), j as int);
                        }
                        match child_type_of(&children[j]) {
                            Some(t) => {
                                let ghost before = types.deep_view();
                                types.push(String::from_str(t));
                                assert(types.deep_view() =~= before.push(t@));
                                assert(start + pick(children@.take(j + 1), child_type_fn()) =~= (start + pick(children@.take(j as int), child_type_fn())).push(t@));
                            },
                            None => {},
                        }
                        j = j + 1;
                    }
                    assert(children@.take(m as int) =~= children@);
                },
                None => {
                    assert(types.deep_view() =~= types.deep_view() + Seq::<Seq<char>>::empty());
                },
            }
        } else {
            assert(types.deep_view() =~= types.deep_view() + Seq::<Seq<char>>::empty());
        }
        i = i + 1;
    }
    assert(groups@.take(n as int) =~= groups@);
    Some(types)
}

/// The weapon types read from the text of a weapon list response: `None` when
/// it is no JSON text; `Some(None)` when it lists no knife or glove type.
pub open spec fn item_types_in_text(text: Seq<char>) -> Option<Option<Seq<Seq<char>>>> {
    match json_of(text) {
        Some(d) => Some(
            match item_types_of(d) {
                Some(types) => if types.len() > 0 {
                    Some(types)
                } else {
                    None
                },
                None => None,
            },
        ),
        None => None,
    }
}

/// The abstract contents of the weapon types read from a text.
pub open spec fn types_view(r: Option<Option<Vec<String>>>) -> Option<Option<Seq<Seq<char>>>> {
    match r {
        Some(Some(v)) => Some(Some(v.deep_view())),
        Some(None) => Some(None),
        None => None,
    }
}

/// The knife and glove types read from the text of a weapon list response.
pub fn item_types_of_text(html: &str) -> (r: Option<Option<Vec<String>>>)
    ensures
        types_view(r) == item_types_in_text(html@),
{
    let doc = parse_json(html);
    match &doc {
        Some(d) => match item_types(d) {
            Some(types) => if types.len() > 0 {
                Some(Some(types))
            } else {
                Some(None)
            },
            None => Some(None),
        },
        None => None,
    }
}

/// How the request for a page went: it failed, or its response was read and
/// the report says whether to go on.
pub enum PageOutcome {
    RequestFailed,
    Read(bool),
}

/// The next step of the page walk after `page`: the next page to request, if
/// any, and whether to pause first. A page whose request failed is not asked
/// again: the walk goes on with the next one at once; a read page that goes
/// on is followed, after a pause, by the next one; a read page that does not
/// go on ends the walk.
pub fn page_step(page: u64, outcome: PageOutcome) -> (r: (Option<u64>, bool))
    requires
        page < u64::MAX,
    ensures
        r == match outcome {
            PageOutcome::RequestFailed => (Some((page + 1) as u64), false),
            PageOutcome::Read(proceed) => if proceed {
                (Some((page + 1) as u64), true)
            } else {
                (None, false)
            },
        },
{
    match outcome {
        PageOutcome::RequestFailed => (Some(page + 1), false),
        PageOutcome::Read(proceed) => if proceed {
            (Some(page + 1), true)
        } else {
            (None, false)
        },
    }
}

/// An entry of a weapon group names a type: it has a `Name` other than "不限"
/// and a `HashName`.
pub open spec fn names_type(child: JsonValue) -> bool {
    match child.at("Name"@).text() {
        Some(n) => n != "不限"@ && child.at("HashName"@).text() is Some,
        None => false,
    }
}

/// [`names_type`] as a function value.
pub open spec fn names_type_fn() -> spec_fn(JsonValue) -> bool {
    |c: JsonValue| names_type(c)
}

/// The number of entries that name a type in a weapon group, counted only for
/// the group of knives ("匕首") and that of gloves ("手套").
pub open spec fn group_type_count(group: JsonValue) -> nat {
    if group.at("Name"@).text() == Some("匕首"@) || group.at("Name"@).text() == Some("手套"@) {
        match group.at("Children"@).elements() {
            Some(children) => count_where(children, names_type_fn()),
            None => 0,
        }
    } else {
        0
    }
}

/// The number of entries that name a type in the knife and glove groups.
pub open spec fn type_count(groups: Seq<JsonValue>) -> nat
    decreases groups.len(),
{
    if groups.len() == 0 {
        0
    } else {
        type_count(groups.drop_last()) + group_type_count(groups.last())
    }
}

/// Every type of a group is among the types of all groups.
proof fn lemma_group_types_in(groups: Seq<JsonValue>, g: int, t: Seq<char>)
    requires
        0 <= g < groups.len(),
        group_types(groups[g]).contains(t),
    ensures
        types_of_groups(groups).contains(t),
    decreases groups.len(),
{
    let front = types_of_groups(groups.drop_last());
    let last = group_types(groups.last());
    if g == groups.len() - 1 {
        let j = choose|j: int| 0 <= j < last.len() && last[j] == t;
        assert((front + last)[front.len() + j] == t);
    } else {
        assert(groups.drop_last()[g] == groups[g]);
        lemma_group_types_in(groups.drop_last(), g, t);
        let j = choose|j: int| 0 <= j < front.len() && front[j] == t;
        assert((front + last)[j] == t);
    }
}

/// The types of the groups number as many as the entries that name one.
proof fn lemma_types_count(groups: Seq<JsonValue>)
    ensures
        types_of_groups(groups).len() == type_count(groups),
    decreases groups.len(),
{
    if groups.len() > 0 {
        lemma_types_count(groups.drop_last());
        let group = groups.last();
        match group.at("Children"@).elements() {
            Some(children) => {
                assert forall|c: JsonValue| #[trigger] names_type_fn()(c) == (child_type_fn()(c) is Some) by {}
                lemma_pick_count(children, child_type_fn(), names_type_fn());
            },
            None => {},
        }
    }
}

/// The knife and glove types: every entry of the group of knives ("匕首") or of
/// gloves ("手套") that has a `Name` other than "不限" contributes its
/// `HashName`, and the list has one type for each such entry.
pub proof fn lemma_item_types_complete(d: JsonValue, groups: Seq<JsonValue>)
    requires
        d.at("Data"@).elements() == Some(groups),
    ensures
        item_types_of(d) matches Some(types) && types.len() == type_count(groups),
        forall|g: int, c: int, children: Seq<JsonValue>|
            0 <= g < groups.len() && (groups[g].at("Name"@).text() == Some("匕首"@) || groups[g].at(
                "Name"@,
            ).text() == Some("手套"@)) && #[trigger] groups[g].at("Children"@).elements() == Some(
                children,
            ) && 0 <= c < children.len() && #[trigger] names_type(children[c])
                ==> item_types_of(d)->0.contains(children[c].at("HashName"@).text()->0),
{
    lemma_types_count(groups);
    assert forall|g: int, c: int, children: Seq<JsonValue>|
        0 <= g < groups.len() && (groups[g].at("Name"@).text() == Some("匕首"@) || groups[g].at(
            "Name"@,
        ).text() == Some("手套"@)) && #[trigger] groups[g].at("Children"@).elements() == Some(
            children,
        ) && 0 <= c < children.len() && #[trigger] names_type(children[c]) implies item_types_of(
        d,
    )->0.contains(children[c].at("HashName"@).text()->0) by {
        let t = children[c].at("HashName"@).text()->0;
        assert(child_type_fn()(children[c]) == Some(t));
        lemma_pick_index(children, child_type_fn(), c);
        let picked = pick(children, child_type_fn());
        let k = pick(children.take(c), child_type_fn()).len() as int;
        assert(group_types(groups[g]) == picked);
        assert(picked[k] == t);
        assert(group_types(groups[g]).contains(t));
        lemma_group_types_in(groups, g, t);
    }
}

} // verus!
