//! What the crawlers read from the market responses: the priced items of a
//! listing page, and what to report about a response.

use vstd::prelude::*;

use crate::item::{lemma_normalised_idempotent, new_item, normalised, Item, ItemView};
use crate::json::{array_in, get_in, json_of, or_null, parse_json, str_in, JsonValue};
use crate::text::{chars_of, contains, contains_str, first_where, lemma_first_where, str_eq};
use crate::utils::DEFAULT;

verus! {

/// An item offered at a price (the price as the market writes it).
pub struct Listing {
    pub item: Item,
    pub price: String,
}

/// The abstract contents of a [`Listing`].
pub struct ListingView {
    pub item: ItemView,
    pub price: Seq<char>,
}

impl View for Listing {
    type V = ListingView;

    open spec fn view(&self) -> ListingView {
        ListingView { item: self.item@, price: self.price@ }
    }
}

/// A message about a response: one to alert the operator with, or one to print.
pub enum Notice {
    Alert(String),
    Print(String),
}

/// The abstract contents of a [`Notice`].
pub enum NoticeView {
    Alert(Seq<char>),
    Print(Seq<char>),
}

impl View for Notice {
    type V = NoticeView;

    open spec fn view(&self) -> NoticeView {
        match self {
            Notice::Alert(m) => NoticeView::Alert(m@),
            Notice::Print(m) => NoticeView::Print(m@),
        }
    }
}

/// What a crawler does with one response: whether it announces that it read
/// the items, the listings to store (in this order), a notice, and whether it
/// goes on to the next page.
pub struct ParseReport {
    pub announce: bool,
    pub listings: Vec<Listing>,
    pub notice: Option<Notice>,
    pub proceed: bool,
}

/// The abstract contents of a [`ParseReport`].
pub struct ReportView {
    pub announce: bool,
    pub listings: Seq<ListingView>,
    pub notice: Option<NoticeView>,
    pub proceed: bool,
}

impl View for ParseReport {
    type V = ReportView;

    open spec fn view(&self) -> ReportView {
        ReportView {
            announce: self.announce,
            listings: self.listings@.map_values(|l: Listing| l@),
            notice: match self.notice {
                Some(n) => Some(n@),
                None => None,
            },
            proceed: self.proceed,
        }
    }
}

/// The report of a response that carries nothing to store.
pub open spec fn notice_only(notice: NoticeView, proceed: bool) -> ReportView {
    ReportView { announce: false, listings: Seq::empty(), notice: Some(notice), proceed }
}

/// The results of `f` on the elements of `s` where it has one, in order.
pub open spec fn pick<A, B>(s: Seq<A>, f: spec_fn(A) -> Option<B>) -> Seq<B>
    decreases s.len(),
{
    if s.len() == 0 {
        Seq::empty()
    } else {
        let front = pick(s.drop_last(), f);
        match f(s.last()) {
            Some(b) => front.push(b),
            None => front,
        }
    }
}

/// One more element: `pick` of a longer prefix.
pub proof fn lemma_pick_step<A, B>(s: Seq<A>, f: spec_fn(A) -> Option<B>, i: int)
    requires
        0 <= i < s.len(),
    ensures
        pick(s.take(i + 1), f) == match f(s[i]) {
            Some(b) => pick(s.take(i), f).push(b),
            None => pick(s.take(i), f),
        },
{
    assert(s.take(i + 1).drop_last() =~= s.take(i));
    assert(s.take(i + 1).last() == s[i]);
}

/// `pick` yields at most one result per element.
pub proof fn lemma_pick_len<A, B>(s: Seq<A>, f: spec_fn(A) -> Option<B>)
    ensures
        pick(s, f).len() <= s.len(),
    decreases s.len(),
{
    if s.len() > 0 {
        lemma_pick_len(s.drop_last(), f);
    }
}

/// The number of elements of `s` that satisfy `p`.
pub open spec fn count_where<A>(s: Seq<A>, p: spec_fn(A) -> bool) -> nat
    decreases s.len(),
{
    if s.len() == 0 {
        0
    } else {
        count_where(s.drop_last(), p) + if p(s.last()) {
            1nat
        } else {
            0nat
        }
    }
}

/// `pick` has one result for each element on which `f` has one.
pub proof fn lemma_pick_count<A, B>(s: Seq<A>, f: spec_fn(A) -> Option<B>, p: spec_fn(A) -> bool)
    requires
        forall|e: A| #[trigger] p(e) == (f(e) is Some),
    ensures
        pick(s, f).len() == count_where(s, p),
    decreases s.len(),
{
    if s.len() > 0 {
        lemma_pick_count(s.drop_last(), f, p);
        assert(p(s.last()) == (f(s.last()) is Some));
    }
}

/// The results of `pick` on a prefix begin the results on the whole.
pub proof fn lemma_pick_prefix<A, B>(s: Seq<A>, f: spec_fn(A) -> Option<B>, j: int)
    requires
        0 <= j <= s.len(),
    ensures
        pick(s.take(j), f).len() <= pick(s, f).len(),
        forall|k: int|
            0 <= k < pick(s.take(j), f).len() ==> #[trigger] pick(s.take(j), f)[k] == pick(s, f)[k],
    decreases s.len(),
{
    if j == s.len() {
        assert(s.take(j) =~= s);
    } else {
        assert(s.take(j) =~= s.drop_last().take(j));
        lemma_pick_prefix(s.drop_last(), f, j);
    }
}

/// The result of `f` on element `i` stands in `pick` after the results on the
/// elements before it.
pub proof fn lemma_pick_index<A, B>(s: Seq<A>, f: spec_fn(A) -> Option<B>, i: int)
    requires
        0 <= i < s.len(),
        f(s[i]) is Some,
    ensures
        pick(s.take(i), f).len() < pick(s, f).len(),
        pick(s, f)[pick(s.take(i), f).len() as int] == f(s[i])->0,
{
    lemma_pick_step(s, f, i);
    lemma_pick_prefix(s, f, i + 1);
    let k = pick(s.take(i), f).len() as int;
    assert(pick(s.take(i + 1), f)[k] == f(s[i])->0);
}

/// The length of the longest prefix of `s` whose elements all satisfy `p`: the
/// elements a reader gets through before it fails on one.
pub open spec fn readable_prefix<A>(s: Seq<A>, p: spec_fn(A) -> bool) -> nat
    decreases s.len(),
{
    if s.len() == 0 {
        0
    } else if !p(s[0]) {
        0
    } else {
        1 + readable_prefix(s.drop_first(), p)
    }
}

/// `readable_prefix` is the index of the first element that fails `p`.
pub proof fn lemma_readable_prefix<A>(s: Seq<A>, p: spec_fn(A) -> bool, k: int)
    requires
        0 <= k <= s.len(),
        forall|j: int| 0 <= j < k ==> p(#[trigger] s[j]),
        k == s.len() || !p(s[k]),
    ensures
        readable_prefix(s, p) == k,
    decreases k,
{
    if k > 0 {
        assert forall|j: int| 0 <= j < k - 1 implies p(#[trigger] s.drop_first()[j]) by {
            assert(s.drop_first()[j] == s[j + 1]);
        }
        lemma_readable_prefix(s.drop_first(), p, k - 1);
    }
}

/// The readable prefix is no longer than the sequence, and all of it when every
/// element is readable.
pub proof fn lemma_readable_prefix_bound<A>(s: Seq<A>, p: spec_fn(A) -> bool)
    ensures
        readable_prefix(s, p) <= s.len(),
        (forall|j: int| 0 <= j < s.len() ==> p(#[trigger] s[j])) ==> readable_prefix(s, p)
            == s.len(),
    decreases s.len(),
{
    if s.len() > 0 {
        lemma_readable_prefix_bound(s.drop_first(), p);
        if forall|j: int| 0 <= j < s.len() ==> p(#[trigger] s[j]) {
            assert forall|j: int| 0 <= j < s.drop_first().len() implies p(
                #[trigger] s.drop_first()[j],
            ) by {
                assert(s.drop_first()[j] == s[j + 1]);
            }
        }
    }
}

/// Every result of `pick` is the result of `f` on some element.
pub proof fn lemma_pick_from<A, B>(s: Seq<A>, f: spec_fn(A) -> Option<B>, k: int)
    requires
        0 <= k < pick(s, f).len(),
    ensures
        exists|i: int| 0 <= i < s.len() && f(s[i]) == Some(pick(s, f)[k]),
    decreases s.len(),
{
    lemma_pick_len(s.drop_last(), f);
    let front = pick(s.drop_last(), f);
    if k < front.len() {
        lemma_pick_from(s.drop_last(), f, k);
        let i = choose|i: int| 0 <= i < s.drop_last().len() && f(s.drop_last()[i]) == Some(front[k]);
        assert(s[i] == s.drop_last()[i]);
    } else {
        assert(f(s[s.len() - 1]) == Some(pick(s, f)[k]));
    }
}

/// An item is in normal form: normalising its description changes nothing.
pub open spec fn is_normal(item: ItemView) -> bool {
    normalised(item.name, item.class, item.typo) == (item.name, item.class, item.typo)
}

/// A new item is in normal form.
pub proof fn lemma_new_item_normal(
    name: Seq<char>,
    class: Seq<char>,
    typo: Seq<char>,
    ware: Seq<char>,
    quality: Seq<char>,
    rarity: Seq<char>,
    stat_trak: bool,
)
    ensures
        is_normal(new_item(name, class, typo, ware, quality, rarity, stat_trak)),
        new_item(name, class, typo, ware, quality, rarity, stat_trak).id == 0,
{
    lemma_normalised_idempotent(name, class, typo);
}

/// The text of a JSON value, or the empty text when it is none.
pub open spec fn text_or_empty(v: JsonValue) -> Seq<char> {
    match v.text() {
        Some(s) => s,
        None => Seq::empty(),
    }
}

// ---------------------------------------------------------------------------
// Buff
// ---------------------------------------------------------------------------

/// The items of a Buff response: `data.items`.
pub open spec fn buff_items(doc: JsonValue) -> Option<Seq<JsonValue>> {
    doc.at("data"@).at("items"@).elements()
}

/// A tag of a Buff item: `goods_info.info.tags[key].localized_name`, or
/// [`DEFAULT`] when it is not a string.
pub open spec fn buff_tag(entry: JsonValue, key: Seq<char>) -> Seq<char> {
    match entry.at("goods_info"@).at("info"@).at("tags"@).at(key).at("localized_name"@).text() {
        Some(s) => s,
        None => DEFAULT@,
    }
}

/// The listing of a Buff item: its item (named by `short_name`, classified by
/// its tags, StatTrak when its quality says so) at its `sell_min_price`;
/// none when it has no price.
pub open spec fn buff_listing(entry: JsonValue) -> Option<ListingView> {
    match entry.at("sell_min_price"@).text() {
        Some(price) => Some(
            ListingView {
                item: new_item(
                    text_or_empty(entry.at("short_name"@)),
                    buff_tag(entry, "type"@),
                    buff_tag(entry, "weapon"@),
                    buff_tag(entry, "exterior"@),
                    buff_tag(entry, "quality"@),
                    buff_tag(entry, "rarity"@),
                    contains(buff_tag(entry, "quality"@), "StatTrak"@),
                ),
                price,
            },
        ),
        None => None,
    }
}

/// [`buff_listing`] as a function value.
pub open spec fn buff_listing_fn() -> spec_fn(JsonValue) -> Option<ListingView> {
    |e: JsonValue| buff_listing(e)
}

/// A Buff item can be read: it is named.
pub open spec fn buff_entry_readable(entry: JsonValue) -> bool {
    entry.at("short_name"@).text() is Some
}

/// [`buff_entry_readable`] as a function value.
pub open spec fn buff_entry_readable_fn() -> spec_fn(JsonValue) -> bool {
    |e: JsonValue| buff_entry_readable(e)
}

/// Every item of the response is named (reading an item without a
/// `short_name` string fails).
pub open spec fn buff_readable(doc: Option<&JsonValue>) -> bool {
    match doc {
        Some(d) => match buff_items(*d) {
            Some(items) => forall|i: int|
                0 <= i < items.len() ==> (#[trigger] items[i]).at("short_name"@).text() is Some,
            None => true,
        },
        None => true,
    }
}

/// The report on a Buff response (`None`: the response was no JSON text). The
/// items are read in order up to the first that cannot be read (see
/// [`buff_readable`]); the listings are those of the items before it.
pub open spec fn buff_report(doc: Option<&JsonValue>) -> ReportView {
    match doc {
        Some(d) => match buff_items(*d) {
            Some(items) => ReportView {
                announce: true,
                listings: pick(
                    items.take(readable_prefix(items, buff_entry_readable_fn()) as int),
                    buff_listing_fn(),
                ),
                notice: None,
                proceed: true,
            },
            None => notice_only(NoticeView::Alert("read whole json failed, cant find items"@), true),
        },
        None => notice_only(NoticeView::Alert("read whole json failed"@), true),
    }
}

/// The report of a response that carries nothing to store.
pub fn notice_report(notice: Notice, proceed: bool) -> (r: ParseReport)
    ensures
        r@ == notice_only(notice@, proceed),
{
    let listings: Vec<Listing> = Vec::new();
    assert(listings@.map_values(|l: Listing| l@) =~= Seq::<ListingView>::empty());
    ParseReport { announce: false, listings, notice: Some(notice), proceed }
}

/// A text as a new `String`.
fn owned(s: &str) -> (r: String)
    ensures
        r@ == s@,
{
    String::from_str(s)
}

/// A tag of a Buff item, read from its `tags` object.
fn buff_tag_of(tags: Option<&JsonValue>, key: &str) -> (r: String)
    ensures
        r@ == match or_null(tags).at(key@).at("localized_name"@).text() {
            Some(s) => s,
            None => DEFAULT@,
        },
{
    match str_in(get_in(get_in(tags, key), "localized_name")) {
        Some(s) => owned(s),
        None => owned(DEFAULT),
    }
}

/// Whether every item of a Buff response is named.
pub fn buff_is_readable(doc: Option<&JsonValue>) -> (r: bool)
    ensures
        r == buff_readable(doc),
{
    match doc {
        Some(d) => match array_in(get_in(get_in(Some(d), "data"), "items")) {
            Some(items) => {
                let n = items.len();
                let mut i: usize = 0;
                while i < n
                    invariant
                        n == items@.len(),
                        i <= n,
                        doc == Some(d),
                        buff_items(*d) == Some(items@),
                        forall|j: int| 0 <= j < i ==> (#[trigger] items@[j]).at("short_name"@).text() is Some,
                    decreases n - i,
                {
                    if str_in(items[i].get("short_name")).is_none() {
                        assert(!(items@[i as int].at("short_name"@).text() is Some));
                        return false;
                    }
                    i = i + 1;
                }
                true
            },
            None => true,
        },
        None => true,
    }
}

/// Reads a Buff response.
pub fn read_buff(doc: Option<&JsonValue>) -> (r: ParseReport)
    ensures
        r@ == buff_report(doc),
{
    match doc {
        None => notice_report(Notice::Alert(owned("read whole json failed")), true),
        Some(d) => match array_in(get_in(get_in(Some(d), "data"), "items")) {
            None => notice_report(
                Notice::Alert(owned("read whole json failed, cant find items")),
                true,
            ),
            Some(items) => {
                let ghost f = buff_listing_fn();
                let n = items.len();
                let mut listings: Vec<Listing> = Vec::new();
                let mut i: usize = 0;
                while i < n && str_in(items[i].get("short_name")).is_some()
                    invariant
                        n == items@.len(),
                        i <= n,
                        f == buff_listing_fn(),
                        forall|j: int| 0 <= j < i ==> buff_entry_readable_fn()(#[trigger] items@[j]),
                        listings@.map_values(|l: Listing| l@) == pick(items@.take(i as int), f),
                    decreases n - i,
                {
                    let entry = &items[i];
                    proof {
                        lemma_pick_step(items@, f, i as int);
                    }
                    match str_in(entry.get("sell_min_price")) {
                        Some(price) => {
                            let name = str_in(entry.get("short_name"));
                            let name = match name {
                                Some(s) => s,
                                None => "",
                            };
                            let tags = get_in(get_in(entry.get("goods_info"), "info"), "tags");
                            let quality = buff_tag_of(tags, "quality");
                            let stat_trak = contains_str(quality.as_str(), "StatTrak");
                            let item = Item::new(
                                owned(name),
                                buff_tag_of(tags, "type"),
                                buff_tag_of(tags, "weapon"),
                                buff_tag_of(tags, "exterior"),
                                quality,
                                buff_tag_of(tags, "rarity"),
                                stat_trak,
                            );
                            let ghost before = listings@.map_values(|l: Listing| l@);
                            listings.push(Listing { item, price: owned(price) });
                            assert(listings@.map_values(|l: Listing| l@) =~= before.push(
                                buff_listing(items@[i as int]).unwrap(),
                            ));
                        },
                        None => {},
                    }
                    i = i + 1;
                }
                proof {
                    lemma_readable_prefix(items@, buff_entry_readable_fn(), i as int);
                }
                ParseReport { announce: true, listings, notice: None, proceed: true }
            },
        },
    }
}

// ---------------------------------------------------------------------------
// Youpin
// ---------------------------------------------------------------------------

/// The test "is an opening bracket, full-width or not".
pub open spec fn is_bracket() -> spec_fn(char) -> bool {
    |c: char| c == '（' || c == '('
}

/// The weapon type in a Youpin item name: the part before the first bracket.
pub open spec fn type_by_name(name: Seq<char>) -> Seq<char> {
    name.take(first_where(name, is_bracket()) as int)
}

/// The type read from a name is the longest beginning of it without a bracket:
/// it holds no bracket, and the name either ends there or goes on with one.
pub proof fn lemma_type_by_name(name: Seq<char>)
    ensures
        type_by_name(name).len() <= name.len(),
        name.take(type_by_name(name).len() as int) == type_by_name(name),
        !type_by_name(name).contains('（') && !type_by_name(name).contains('('),
        type_by_name(name).len() < name.len() ==> (name[type_by_name(name).len() as int] == '（'
            || name[type_by_name(name).len() as int] == '('),
{
    crate::text::lemma_first_where_facts(name, is_bracket());
    let k = first_where(name, is_bracket()) as int;
    assert forall|j: int| 0 <= j < k implies type_by_name(name)[j] != '（' && type_by_name(name)[j] != '(' by {
        assert(!is_bracket()(name[j]));
    }
}

/// The item of a Youpin offer: named by `CommodityName`, of the class
/// `TypeName`, of the type its name begins with, StatTrak when its name says so.
pub open spec fn yyyp_item(entry: JsonValue) -> ItemView {
    let name = text_or_empty(entry.at("CommodityName"@));
    new_item(
        name,
        text_or_empty(entry.at("TypeName"@)),
        type_by_name(name),
        text_or_empty(entry.at("Exterior"@)),
        text_or_empty(entry.at("Quality"@)),
        text_or_empty(entry.at("Rarity"@)),
        contains(name, "StatTrak"@),
    )
}

/// The class is that of knives or of gloves.
pub open spec fn is_knife_or_gloves(class: Option<Seq<char>>) -> bool {
    class == Some("匕首"@) || class == Some("手套"@)
}

/// The listing of a Youpin offer at its `Price`; none when it has no price, or
/// when only knives and gloves are wanted and it is neither.
pub open spec fn yyyp_listing(entry: JsonValue, knives_only: bool) -> Option<ListingView> {
    if knives_only && !is_knife_or_gloves(entry.at("TypeName"@).text()) {
        None
    } else {
        match entry.at("Price"@).text() {
            Some(price) => Some(ListingView { item: yyyp_item(entry), price }),
            None => None,
        }
    }
}

/// [`yyyp_listing`] as a function value.
pub open spec fn yyyp_listing_fn(knives_only: bool) -> spec_fn(JsonValue) -> Option<ListingView> {
    |e: JsonValue| yyyp_listing(e, knives_only)
}

/// The properties of a priced offer can be read: its name, class, exterior,
/// quality and rarity are strings.
pub open spec fn offer_complete(entry: JsonValue) -> bool {
    entry.at("Price"@).text() is Some ==> {
        &&& entry.at("CommodityName"@).text() is Some
        &&& entry.at("TypeName"@).text() is Some
        &&& entry.at("Exterior"@).text() is Some
        &&& entry.at("Quality"@).text() is Some
        &&& entry.at("Rarity"@).text() is Some
    }
}

/// An offer can be read when knives and gloves are wanted: when it is one, it is
/// named (the name is read before the price), and complete.
pub open spec fn knife_offer_readable(entry: JsonValue) -> bool {
    is_knife_or_gloves(entry.at("TypeName"@).text()) ==> {
        &&& entry.at("CommodityName"@).text() is Some
        &&& offer_complete(entry)
    }
}

/// An offer can be read, whether only knives and gloves are wanted or all offers.
pub open spec fn offer_readable(entry: JsonValue, knives_only: bool) -> bool {
    if knives_only {
        knife_offer_readable(entry)
    } else {
        offer_complete(entry)
    }
}

/// [`offer_readable`] as a function value.
pub open spec fn offer_readable_fn(knives_only: bool) -> spec_fn(JsonValue) -> bool {
    |e: JsonValue| offer_readable(e, knives_only)
}

/// Every offer can be read.
pub open spec fn offers_readable(items: Seq<JsonValue>, knives_only: bool) -> bool {
    forall|i: int|
        0 <= i < items.len() ==> if knives_only {
            knife_offer_readable(#[trigger] items[i])
        } else {
            offer_complete(items[i])
        }
}

/// The weapon type in a Youpin item name: the part before the first bracket.
pub fn type_of_name(name: &str) -> (r: String)
    ensures
        r@ == type_by_name(name@),
{
    let v = chars_of(name);
    let mut k: usize = 0;
    while k < v.len() && v[k] != '（' && v[k] != '('
        invariant
            v@ == name@,
            k <= v@.len(),
            forall|j: int| 0 <= j < k ==> !is_bracket()(#[trigger] v@[j]),
        decreases v.len() - k,
    {
        k = k + 1;
    }
    proof {
        lemma_first_where(name@, is_bracket(), k as int);
    }
    crate::text::substring(name, 0, k)
}

/// The text of a JSON value that is known to be a string.
fn text_of(v: Option<&JsonValue>) -> (r: String)
    ensures
        r@ == text_or_empty(or_null(v)),
{
    match str_in(v) {
        Some(s) => owned(s),
        None => String::new(),
    }
}

/// Whether one offer can be read.
fn offer_is_readable(entry: &JsonValue, knives_only: bool) -> (r: bool)
    ensures
        r == if knives_only {
            knife_offer_readable(*entry)
        } else {
            offer_complete(*entry)
        },
{
    let complete = str_in(entry.get("Price")).is_none() || (str_in(entry.get("CommodityName")).is_some()
        && str_in(entry.get("TypeName")).is_some() && str_in(entry.get("Exterior")).is_some()
        && str_in(entry.get("Quality")).is_some() && str_in(entry.get("Rarity")).is_some());
    if knives_only {
        !is_knife_or_gloves_str(str_in(entry.get("TypeName"))) || (str_in(
            entry.get("CommodityName"),
        ).is_some() && complete)
    } else {
        complete
    }
}

/// Whether a class is that of knives or of gloves.
fn is_knife_or_gloves_str(class: Option<&str>) -> (r: bool)
    ensures
        r == is_knife_or_gloves(
            match class {
                Some(c) => Some(c@),
                None => None,
            },
        ),
{
    match class {
        Some(c) => str_eq(c, "匕首") || str_eq(c, "手套"),
        None => false,
    }
}

/// Whether every offer can be read.
pub fn offers_are_readable(items: &Vec<JsonValue>, knives_only: bool) -> (r: bool)
    ensures
        r == offers_readable(items@, knives_only),
{
    let n = items.len();
    let mut i: usize = 0;
    while i < n
        invariant
            n == items@.len(),
            i <= n,
            forall|j: int|
                0 <= j < i ==> if knives_only {
                    knife_offer_readable(#[trigger] items@[j])
                } else {
                    offer_complete(items@[j])
                },
        decreases n - i,
    {
        if !offer_is_readable(&items[i], knives_only) {
            return false;
        }
        i = i + 1;
    }
    true
}

/// The listing of one Youpin offer.
fn yyyp_listing_of(entry: &JsonValue, knives_only: bool) -> (r: Option<Listing>)
    requires
        if knives_only {
            knife_offer_readable(*entry)
        } else {
            offer_complete(*entry)
        },
    ensures
        match r {
            Some(l) => yyyp_listing(*entry, knives_only) == Some(l@),
            None => yyyp_listing(*entry, knives_only) is None,
        },
{
    let class = str_in(entry.get("TypeName"));
    if knives_only && !is_knife_or_gloves_str(class) {
        return None;
    }
    match str_in(entry.get("Price")) {
        Some(price) => {
            let name = text_of(entry.get("CommodityName"));
            let typo = type_of_name(name.as_str());
            let stat_trak = contains_str(name.as_str(), "StatTrak");
            let item = Item::new(
                name,
                text_of(entry.get("TypeName")),
                typo,
                text_of(entry.get("Exterior")),
                text_of(entry.get("Quality")),
                text_of(entry.get("Rarity")),
                stat_trak,
            );
            Some(Listing { item, price: owned(price) })
        },
        None => None,
    }
}

/// The listings of the Youpin offers, in order, up to the first offer that
/// cannot be read.
pub fn yyyp_listings(items: &Vec<JsonValue>, knives_only: bool) -> (r: Vec<Listing>)
    ensures
        r@.map_values(|l: Listing| l@) == pick(
            items@.take(readable_prefix(items@, offer_readable_fn(knives_only)) as int),
            yyyp_listing_fn(knives_only),
        ),
{
    let ghost f = yyyp_listing_fn(knives_only);
    let n = items.len();
    let mut listings: Vec<Listing> = Vec::new();
    let mut i: usize = 0;
    while i < n && offer_is_readable(&items[i], knives_only)
        invariant
            n == items@.len(),
            i <= n,
            f == yyyp_listing_fn(knives_only),
            forall|j: int| 0 <= j < i ==> offer_readable_fn(knives_only)(#[trigger] items@[j]),
            listings@.map_values(|l: Listing| l@) == pick(items@.take(i as int), f),
        decreases n - i,
    {
        proof {
            lemma_pick_step(items@, f, i as int);
        }
        match yyyp_listing_of(&items[i], knives_only) {
            Some(l) => {
                let ghost before = listings@.map_values(|l: Listing| l@);
                let ghost lv = l@;
                listings.push(l);
                assert(listings@.map_values(|l: Listing| l@) =~= before.push(lv));
            },
            None => {},
        }
        i = i + 1;
    }
    proof {
        lemma_readable_prefix(items@, offer_readable_fn(knives_only), i as int);
    }
    listings
}

/// The `Debug` rendering of an optional text (`format!("{:?}", ..)`): its
/// value is named, not stated.
pub uninterp spec fn debug_text(s: Option<Seq<char>>) -> Seq<char>;

/// `format!("{:?}", s)` for an optional text; the result is the name
/// [`debug_text`] applied to it.
#[verifier::external_body]
fn debug_option_str(s: Option<&str>) -> (r: String)
    ensures
        r@ == debug_text(
            match s {
                Some(t) => Some(t@),
                None => None,
            },
        ),
{
    format!("{:?}", s)
}

/// The alert for a Youpin response that reports a failure, given the rendered
/// message of the response.
pub fn failure_message(rendered: &str) -> (r: String)
    ensures
        r@ == "http request fail, message: "@ + rendered@,
{
    owned("http request fail, message: ").concat(rendered)
}

/// The report on a Youpin response that lists the offers of all types, of
/// which knives and gloves are stored (`None`: the response was no JSON text).
/// The offers are read up to the first that cannot be read (see
/// [`knife_report_readable`]).
pub open spec fn knife_report(doc: Option<&JsonValue>) -> ReportView {
    match doc {
        Some(d) => if d.at("Code"@).unsigned() == Some(0u64) {
            match d.at("Data"@).elements() {
                Some(items) => ReportView {
                    announce: true,
                    listings: pick(
                        items.take(readable_prefix(items, offer_readable_fn(true)) as int),
                        yyyp_listing_fn(true),
                    ),
                    notice: None,
                    proceed: true,
                },
                None => notice_only(NoticeView::Alert("json datas empty"@), false),
            }
        } else {
            notice_only(
                NoticeView::Alert(
                    "http request fail, message: "@ + debug_text(d.at("Msg"@).text()),
                ),
                false,
            )
        },
        None => notice_only(NoticeView::Alert("read whole json failed"@), false),
    }
}

/// Every knife and glove offer of the response can be read.
pub open spec fn knife_report_readable(doc: Option<&JsonValue>) -> bool {
    match doc {
        Some(d) => d.at("Code"@).unsigned() == Some(0u64) ==> match d.at("Data"@).elements() {
            Some(items) => offers_readable(items, true),
            None => true,
        },
        None => true,
    }
}

/// Whether every knife and glove offer of the response can be read.
pub fn knife_report_is_readable(doc: Option<&JsonValue>) -> (r: bool)
    ensures
        r == knife_report_readable(doc),
{
    match doc {
        Some(d) => if crate::json::u64_in(d.get("Code")) == Some(0u64) {
            match d.get("Data") {
                Some(data) => match data.as_array() {
                    Some(items) => offers_are_readable(items, true),
                    None => true,
                },
                None => true,
            }
        } else {
            true
        },
        None => true,
    }
}

/// Reads a Youpin response that lists the offers of all types.
pub fn read_knife_report(doc: Option<&JsonValue>) -> (r: ParseReport)
    ensures
        r@ == knife_report(doc),
{
    match doc {
        None => notice_report(Notice::Alert(owned("read whole json failed")), false),
        Some(d) => if crate::json::u64_in(d.get("Code")) == Some(0u64) {
            match array_in(d.get("Data")) {
                Some(items) => {
                    let listings = yyyp_listings(items, true);
                    ParseReport { announce: true, listings, notice: None, proceed: true }
                },
                None => notice_report(Notice::Alert(owned("json datas empty")), false),
            }
        } else {
            let rendered = debug_option_str(str_in(d.get("Msg")));
            notice_report(Notice::Alert(failure_message(rendered.as_str())), false)
        },
    }
}

/// The report on one page of the Youpin offers of a type (`None`: the response
/// was no JSON text): an empty listing ends the pages. The offers are read up
/// to the first that cannot be read (see [`page_report_readable`]).
pub open spec fn page_report(doc: Option<&JsonValue>) -> ReportView {
    match doc {
        Some(d) => match d.at("TotalCount"@).unsigned() {
            None => notice_only(NoticeView::Alert("get total count failed"@), false),
            Some(total) => if total == 0 {
                notice_only(NoticeView::Print("all pages processed"@), false)
            } else {
                match d.at("Data"@).elements() {
                    Some(items) => ReportView {
                        announce: false,
                        listings: pick(
                            items.take(readable_prefix(items, offer_readable_fn(false)) as int),
                            yyyp_listing_fn(false),
                        ),
                        notice: None,
                        proceed: true,
                    },
                    None => notice_only(NoticeView::Alert("get datas failed"@), false),
                }
            },
        },
        None => notice_only(NoticeView::Alert("read whole json failed"@), false),
    }
}

/// Every priced offer of the page can be read.
pub open spec fn page_report_readable(doc: Option<&JsonValue>) -> bool {
    match doc {
        Some(d) => match d.at("TotalCount"@).unsigned() {
            Some(total) => total != 0 ==> match d.at("Data"@).elements() {
                Some(items) => offers_readable(items, false),
                None => true,
            },
            None => true,
        },
        None => true,
    }
}

/// Whether every priced offer of the page can be read.
pub fn page_report_is_readable(doc: Option<&JsonValue>) -> (r: bool)
    ensures
        r == page_report_readable(doc),
{
    match doc {
        Some(d) => match crate::json::u64_in(d.get("TotalCount")) {
            Some(total) => if total == 0 {
                true
            } else {
                match array_in(d.get("Data")) {
                    Some(items) => offers_are_readable(items, false),
                    None => true,
                }
            },
            None => true,
        },
        None => true,
    }
}

/// Reads one page of the Youpin offers of a type.
pub fn read_page_report(doc: Option<&JsonValue>) -> (r: ParseReport)
    ensures
        r@ == page_report(doc),
{
    match doc {
        None => notice_report(Notice::Alert(owned("read whole json failed")), false),
        Some(d) => match crate::json::u64_in(d.get("TotalCount")) {
            None => notice_report(Notice::Alert(owned("get total count failed")), false),
            Some(total) => if total == 0 {
                notice_report(Notice::Print(owned("all pages processed")), false)
            } else {
                match array_in(d.get("Data")) {
                    Some(items) => {
                        let listings = yyyp_listings(items, false);
                        ParseReport { announce: false, listings, notice: None, proceed: true }
                    },
                    None => notice_report(Notice::Alert(owned("get datas failed")), false),
                }
            },
        },
    }
}

/// Listings built by `f` from `items` hold unstored items in normal form, at
/// most one per element.
proof fn lemma_picked_listings_normal(items: Seq<JsonValue>, f: spec_fn(JsonValue) -> Option<ListingView>)
    requires
        forall|e: JsonValue| #[trigger] f(e) is Some ==> is_normal(f(e)->0.item) && f(e)->0.item.id == 0,
    ensures
        pick(items, f).len() <= items.len(),
        forall|k: int| 0 <= k < pick(items, f).len() ==> is_normal(#[trigger] pick(items, f)[k].item)
            && pick(items, f)[k].item.id == 0,
{
    lemma_pick_len(items, f);
    assert forall|k: int| 0 <= k < pick(items, f).len() implies is_normal(#[trigger] pick(items, f)[k].item)
        && pick(items, f)[k].item.id == 0 by {
        lemma_pick_from(items, f, k);
        let i = choose|i: int| 0 <= i < items.len() && f(items[i]) == Some(pick(items, f)[k]);
        assert(f(items[i]) is Some);
    }
}

/// The listings of a report, when it has any, come from the elements of the
/// response; there is at most one per element, and each holds an unstored
/// item in normal form.
pub open spec fn listings_sound(listings: Seq<ListingView>, items: Option<Seq<JsonValue>>) -> bool {
    &&& listings.len() <= match items {
        Some(es) => es.len(),
        None => 0,
    }
    &&& forall|k: int| 0 <= k < listings.len() ==> is_normal(#[trigger] listings[k].item)
        && listings[k].item.id == 0
}

/// What a crawler stores is normalised: every item of every listing read from
/// a Buff or a Youpin response is in normal form and not yet stored, and a
/// response yields at most one listing per element of its item list.
pub proof fn lemma_listings_normal(doc: Option<&JsonValue>)
    ensures
        listings_sound(
            buff_report(doc).listings,
            match doc {
                Some(d) => buff_items(*d),
                None => None,
            },
        ),
        listings_sound(
            knife_report(doc).listings,
            match doc {
                Some(d) => d.at("Data"@).elements(),
                None => None,
            },
        ),
        listings_sound(
            page_report(doc).listings,
            match doc {
                Some(d) => d.at("Data"@).elements(),
                None => None,
            },
        ),
{
    assert forall|e: JsonValue| #[trigger] buff_listing_fn()(e) is Some implies is_normal(
        buff_listing_fn()(e)->0.item,
    ) && buff_listing_fn()(e)->0.item.id == 0 by {
        lemma_new_item_normal(
            text_or_empty(e.at("short_name"@)),
            buff_tag(e, "type"@),
            buff_tag(e, "weapon"@),
            buff_tag(e, "exterior"@),
            buff_tag(e, "quality"@),
            buff_tag(e, "rarity"@),
            contains(buff_tag(e, "quality"@), "StatTrak"@),
        );
    }
    assert forall|b: bool, e: JsonValue| #[trigger] yyyp_listing_fn(b)(e) is Some implies is_normal(
        yyyp_listing_fn(b)(e)->0.item,
    ) && yyyp_listing_fn(b)(e)->0.item.id == 0 by {
        let name = text_or_empty(e.at("CommodityName"@));
        lemma_new_item_normal(
            name,
            text_or_empty(e.at("TypeName"@)),
            type_by_name(name),
            text_or_empty(e.at("Exterior"@)),
            text_or_empty(e.at("Quality"@)),
            text_or_empty(e.at("Rarity"@)),
            contains(name, "StatTrak"@),
        );
    }
    match doc {
        Some(d) => {
            match buff_items(*d) {
                Some(items) => {
                    lemma_readable_prefix_bound(items, buff_entry_readable_fn());
                    let k = readable_prefix(items, buff_entry_readable_fn()) as int;
                    lemma_picked_listings_normal(items.take(k), buff_listing_fn());
                },
                None => {},
            }
            match d.at("Data"@).elements() {
                Some(items) => {
                    lemma_readable_prefix_bound(items, offer_readable_fn(true));
                    lemma_readable_prefix_bound(items, offer_readable_fn(false));
                    let k = readable_prefix(items, offer_readable_fn(true)) as int;
                    let m = readable_prefix(items, offer_readable_fn(false)) as int;
                    lemma_picked_listings_normal(items.take(k), yyyp_listing_fn(true));
                    lemma_picked_listings_normal(items.take(m), yyyp_listing_fn(false));
                },
                None => {},
            }
        },
        None => {},
    }
}

/// When every element of a response can be read, its report lists all of them.
pub proof fn lemma_readable_reports_all(d: JsonValue)
    ensures
        buff_readable(Some(&d)) ==> match buff_items(d) {
            Some(items) => buff_report(Some(&d)).listings == pick(items, buff_listing_fn()),
            None => true,
        },
        knife_report_readable(Some(&d)) && d.at("Code"@).unsigned() == Some(0u64) ==> match d.at(
            "Data"@,
        ).elements() {
            Some(items) => knife_report(Some(&d)).listings == pick(items, yyyp_listing_fn(true)),
            None => true,
        },
        page_report_readable(Some(&d)) && d.at("TotalCount"@).unsigned() is Some && d.at(
            "TotalCount"@,
        ).unsigned() != Some(0u64) ==> match d.at("Data"@).elements() {
            Some(items) => page_report(Some(&d)).listings == pick(items, yyyp_listing_fn(false)),
            None => true,
        },
{
    match buff_items(d) {
        Some(items) => {
            lemma_readable_prefix_bound(items, buff_entry_readable_fn());
            assert(items.take(items.len() as int) =~= items);
        },
        None => {},
    }
    match d.at("Data"@).elements() {
        Some(items) => {
            lemma_readable_prefix_bound(items, offer_readable_fn(true));
            lemma_readable_prefix_bound(items, offer_readable_fn(false));
            assert(items.take(items.len() as int) =~= items);
            assert(offers_readable(items, true) ==> forall|j: int|
                0 <= j < items.len() ==> offer_readable_fn(true)(#[trigger] items[j]));
            assert(offers_readable(items, false) ==> forall|j: int|
                0 <= j < items.len() ==> offer_readable_fn(false)(#[trigger] items[j]));
        },
        None => {},
    }
}

/// Reads a Buff response text: the report, and whether every item could be
/// read (when not, reading fails once the report's listings are stored).
pub fn buff_report_of_text(html: &str) -> (r: (ParseReport, bool))
    ensures
        match json_of(html@) {
            Some(d) => r.0@ == buff_report(Some(&d)) && r.1 == buff_readable(Some(&d)),
            None => r.0@ == buff_report(None) && r.1,
        },
{
    let doc = parse_json(html);
    match &doc {
        Some(d) => (read_buff(Some(d)), buff_is_readable(Some(d))),
        None => (read_buff(None), true),
    }
}

/// Reads a Youpin response text that lists the offers of all types: the
/// report, and whether every knife and glove offer could be read.
pub fn knife_report_of_text(html: &str) -> (r: (ParseReport, bool))
    ensures
        match json_of(html@) {
            Some(d) => r.0@ == knife_report(Some(&d)) && r.1 == knife_report_readable(Some(&d)),
            None => r.0@ == knife_report(None) && r.1,
        },
{
    let doc = parse_json(html);
    match &doc {
        Some(d) => (read_knife_report(Some(d)), knife_report_is_readable(Some(d))),
        None => (read_knife_report(None), true),
    }
}

/// Reads the text of one page of the Youpin offers of a type: the report, and
/// whether every priced offer could be read.
pub fn page_report_of_text(html: &str) -> (r: (ParseReport, bool))
    ensures
        match json_of(html@) {
            Some(d) => r.0@ == page_report(Some(&d)) && r.1 == page_report_readable(Some(&d)),
            None => r.0@ == page_report(None) && r.1,
        },
{
    let doc = parse_json(html);
    match &doc {
        Some(d) => (read_page_report(Some(d)), page_report_is_readable(Some(d))),
        None => (read_page_report(None), true),
    }
}

/// A Buff entry has a price.
pub open spec fn buff_priced(e: JsonValue) -> bool {
    e.at("sell_min_price"@).text() is Some
}

/// [`buff_priced`] as a function value.
pub open spec fn buff_priced_fn() -> spec_fn(JsonValue) -> bool {
    |e: JsonValue| buff_priced(e)
}

/// The `localized_name` of a tag of a Buff entry, "无" when it has none.
pub open spec fn tag_text(e: JsonValue, key: Seq<char>) -> Seq<char> {
    match e.at("goods_info"@).at("info"@).at("tags"@).at(key).at("localized_name"@).text() {
        Some(t) => t,
        None => "无"@,
    }
}

/// A Buff response whose entries are all named lists one item per priced
/// entry, in order. The listing of priced entry `i` (the one after those of the
/// priced entries before it) holds its `sell_min_price`, its `short_name`, and
/// the `localized_name`s of its `exterior`, `quality` and `rarity` tags (or
/// "无"); it is StatTrak when the quality says so; and outside gloves and
/// stickers its class is the `type` tag and its type the `weapon` tag (the
/// class becoming "狙击步枪" for the four sniper rifles).
pub proof fn lemma_buff_listing_fields(d: JsonValue, items: Seq<JsonValue>, i: int)
    requires
        d.at("data"@).at("items"@).elements() == Some(items),
        forall|j: int| 0 <= j < items.len() ==> (#[trigger] items[j]).at("short_name"@).text() is Some,
        0 <= i < items.len(),
        items[i].at("sell_min_price"@).text() is Some,
    ensures
        ({
            let listings = buff_report(Some(&d)).listings;
            let k = count_where(items.take(i), buff_priced_fn()) as int;
            let e = items[i];
            let l = listings[k];
            let class = e.at("goods_info"@).at("info"@).at("tags"@).at("type"@).at("localized_name"@).text();
            let weapon = tag_text(e, "weapon"@);
            &&& listings.len() == count_where(items, buff_priced_fn())
            &&& 0 <= k < listings.len()
            &&& Some(l.price) == e.at("sell_min_price"@).text()
            &&& Some(l.item.name) == e.at("short_name"@).text()
            &&& l.item.id == 0
            &&& l.item.ware == tag_text(e, "exterior"@)
            &&& l.item.quality == tag_text(e, "quality"@)
            &&& l.item.rarity == tag_text(e, "rarity"@)
            &&& l.item.stat_trak == contains(tag_text(e, "quality"@), "StatTrak"@)
            &&& (class matches Some(c) && c != "手套"@ && c != "印花"@) ==> {
                &&& l.item.typo == weapon
                &&& l.item.class == if weapon == "SSG 08"@ || weapon == "SCAR-20"@ || weapon
                    == "AWP"@ || weapon == "G3SG1"@ {
                    "狙击步枪"@
                } else {
                    class->0
                }
            }
        }),
{
    reveal_strlit("无");
    let f = buff_listing_fn();
    assert forall|j: int| 0 <= j < items.len() implies buff_entry_readable_fn()(#[trigger] items[j]) by {
        assert(items[j].at("short_name"@).text() is Some);
    }
    lemma_readable_prefix_bound(items, buff_entry_readable_fn());
    assert(items.take(items.len() as int) =~= items);
    assert forall|e: JsonValue| #[trigger] buff_priced_fn()(e) == (f(e) is Some) by {}
    lemma_pick_count(items, f, buff_priced_fn());
    lemma_pick_count(items.take(i), f, buff_priced_fn());
    lemma_pick_index(items, f, i);
    let e = items[i];
    let class = e.at("goods_info"@).at("info"@).at("tags"@).at("type"@).at("localized_name"@).text();
    if class matches Some(c) && c != "手套"@ && c != "印花"@ {
        crate::item::lemma_sniper_rifle_class(
            text_or_empty(e.at("short_name"@)),
            buff_tag(e, "type"@),
            buff_tag(e, "weapon"@),
        );
    }
}

/// A Youpin offer is a priced knife or glove offer.
pub open spec fn knife_priced(e: JsonValue) -> bool {
    &&& (e.at("TypeName"@).text() == Some("匕首"@) || e.at("TypeName"@).text() == Some("手套"@))
    &&& e.at("Price"@).text() is Some
}

/// [`knife_priced`] as a function value.
pub open spec fn knife_priced_fn() -> spec_fn(JsonValue) -> bool {
    |e: JsonValue| knife_priced(e)
}

/// The properties of an offer are strings.
pub open spec fn offer_fields_present(e: JsonValue) -> bool {
    &&& e.at("CommodityName"@).text() is Some
    &&& e.at("TypeName"@).text() is Some
    &&& e.at("Exterior"@).text() is Some
    &&& e.at("Quality"@).text() is Some
    &&& e.at("Rarity"@).text() is Some
}

/// What a listing of a Youpin offer holds: its `Price`, `CommodityName`,
/// `TypeName` (before normalisation), `Exterior`, `Quality` and `Rarity`, and
/// StatTrak when the name says so.
pub open spec fn offer_listed(l: ListingView, e: JsonValue) -> bool {
    &&& Some(l.price) == e.at("Price"@).text()
    &&& Some(l.item.name) == e.at("CommodityName"@).text()
    &&& Some(l.item.ware) == e.at("Exterior"@).text()
    &&& Some(l.item.quality) == e.at("Quality"@).text()
    &&& Some(l.item.rarity) == e.at("Rarity"@).text()
    &&& l.item.stat_trak == contains(l.item.name, "StatTrak"@)
    &&& l.item.id == 0
}

/// A Youpin response that lists the offers of all types, whose knife and glove
/// offers can all be read, lists one item per priced offer of the class
/// "匕首" or "手套", in order: the listing of such offer `i` (the one after
/// those of the such offers before it) holds that offer; a knife's type is the
/// part of its name before the first bracket.
pub proof fn lemma_knife_listing_fields(d: JsonValue, items: Seq<JsonValue>, i: int)
    requires
        d.at("Code"@).unsigned() == Some(0u64),
        d.at("Data"@).elements() == Some(items),
        forall|j: int|
            0 <= j < items.len() && ((#[trigger] items[j]).at("TypeName"@).text() == Some("匕首"@)
                || items[j].at("TypeName"@).text() == Some("手套"@)) ==> items[j].at(
                "CommodityName"@,
            ).text() is Some && (items[j].at("Price"@).text() is Some ==> offer_fields_present(
                items[j],
            )),
        0 <= i < items.len(),
        knife_priced(items[i]),
    ensures
        ({
            let listings = knife_report(Some(&d)).listings;
            let k = count_where(items.take(i), knife_priced_fn()) as int;
            let e = items[i];
            &&& listings.len() == count_where(items, knife_priced_fn())
            &&& 0 <= k < listings.len()
            &&& offer_listed(listings[k], e)
            &&& e.at("TypeName"@).text() == Some("匕首"@) ==> {
                let typo = listings[k].item.typo;
                &&& typo == type_by_name(listings[k].item.name)
                &&& listings[k].item.class == if typo == "SSG 08"@ || typo == "SCAR-20"@ || typo
                    == "AWP"@ || typo == "G3SG1"@ {
                    "狙击步枪"@
                } else {
                    "匕首"@
                }
            }
        }),
{
    let f = yyyp_listing_fn(true);
    assert forall|j: int| 0 <= j < items.len() implies offer_readable_fn(true)(#[trigger] items[j]) by {
        let e = items[j];
        if is_knife_or_gloves(e.at("TypeName"@).text()) {
            assert(e.at("CommodityName"@).text() is Some);
        }
    }
    lemma_readable_prefix_bound(items, offer_readable_fn(true));
    assert(items.take(items.len() as int) =~= items);
    assert forall|e: JsonValue| #[trigger] knife_priced_fn()(e) == (f(e) is Some) by {}
    lemma_pick_count(items, f, knife_priced_fn());
    lemma_pick_count(items.take(i), f, knife_priced_fn());
    lemma_pick_index(items, f, i);
    let e = items[i];
    if e.at("TypeName"@).text() == Some("匕首"@) {
        reveal_strlit("匕首");
        reveal_strlit("手套");
        reveal_strlit("印花");
        assert("匕首"@[0] != "手套"@[0]);
        assert("匕首"@[0] != "印花"@[0]);
        let name = text_or_empty(e.at("CommodityName"@));
        crate::item::lemma_sniper_rifle_class(name, "匕首"@, type_by_name(name));
    }
}

/// A Youpin page whose priced offers can all be read lists one item per priced
/// offer, in order: the listing of priced offer `i` (the one after those of the
/// priced offers before it) holds that offer.
pub proof fn lemma_page_listing_fields(d: JsonValue, items: Seq<JsonValue>, i: int)
    requires
        d.at("TotalCount"@).unsigned() matches Some(n) && n != 0,
        d.at("Data"@).elements() == Some(items),
        forall|j: int|
            0 <= j < items.len() && (#[trigger] items[j]).at("Price"@).text() is Some
                ==> offer_fields_present(items[j]),
        0 <= i < items.len(),
        items[i].at("Price"@).text() is Some,
    ensures
        ({
            let listings = page_report(Some(&d)).listings;
            let k = count_where(items.take(i), priced_offer_fn()) as int;
            &&& listings.len() == count_where(items, priced_offer_fn())
            &&& 0 <= k < listings.len()
            &&& offer_listed(listings[k], items[i])
        }),
{
    let f = yyyp_listing_fn(false);
    assert forall|j: int| 0 <= j < items.len() implies offer_readable_fn(false)(#[trigger] items[j]) by {
        if items[j].at("Price"@).text() is Some {
            assert(offer_fields_present(items[j]));
        }
    }
    lemma_readable_prefix_bound(items, offer_readable_fn(false));
    assert(items.take(items.len() as int) =~= items);
    assert forall|e: JsonValue| #[trigger] priced_offer_fn()(e) == (f(e) is Some) by {}
    lemma_pick_count(items, f, priced_offer_fn());
    lemma_pick_count(items.take(i), f, priced_offer_fn());
    lemma_pick_index(items, f, i);
}

/// A Youpin offer has a price.
pub open spec fn priced_offer_fn() -> spec_fn(JsonValue) -> bool {
    |e: JsonValue| e.at("Price"@).text() is Some
}

} // verus!
