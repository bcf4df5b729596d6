//! The watch list of the price service: the items whose prices are shown,
//! each with the market it is watched on.

use vstd::prelude::*;

use crate::crawl::Target;
use crate::item::{Item, ItemView};
use crate::json::{bool_in, json_of, parse_json, str_in, JsonValue};
use crate::market::{lemma_pick_step, pick, text_or_empty};
use crate::text::str_eq;

verus! {

/// An item to watch, as the watch list describes it.
pub struct WatchEntry {
    pub target: Target,
    pub name: String,
    pub class: String,
    pub typo: String,
    pub ware: String,
    pub stat_trak: bool,
}

/// The abstract contents of a [`WatchEntry`].
pub struct WatchEntryView {
    pub target: Target,
    pub name: Seq<char>,
    pub class: Seq<char>,
    pub typo: Seq<char>,
    pub ware: Seq<char>,
    pub stat_trak: bool,
}

impl View for WatchEntry {
    type V = WatchEntryView;

    open spec fn view(&self) -> WatchEntryView {
        WatchEntryView {
            target: self.target,
            name: self.name@,
            class: self.class@,
            typo: self.typo@,
            ware: self.ware@,
            stat_trak: self.stat_trak,
        }
    }
}

/// An element of the watch list can be read: its `target` names a known market,
/// its `name`, `class`, `typo` and `ware` are strings and `stat_trak` is a boolean.
pub open spec fn entry_readable(v: JsonValue) -> bool {
    &&& (v.at("target"@).text() == Some("buff"@) || v.at("target"@).text() == Some("yyyp"@))
    &&& v.at("name"@).text() is Some
    &&& v.at("class"@).text() is Some
    &&& v.at("typo"@).text() is Some
    &&& v.at("ware"@).text() is Some
    &&& v.at("stat_trak"@).boolean() is Some
}

/// The entry an element of the watch list describes.
pub open spec fn entry_of(v: JsonValue) -> WatchEntryView {
    WatchEntryView {
        target: if v.at("target"@).text() == Some("buff"@) {
            Target::Buff
        } else {
            Target::Yyyp
        },
        name: text_or_empty(v.at("name"@)),
        class: text_or_empty(v.at("class"@)),
        typo: text_or_empty(v.at("typo"@)),
        ware: text_or_empty(v.at("ware"@)),
        stat_trak: v.at("stat_trak"@).boolean() == Some(true),
    }
}

/// Every element of the watch list can be read (a list that is no array is empty).
pub open spec fn watch_list_readable(doc: JsonValue) -> bool {
    match doc.elements() {
        Some(vs) => forall|i: int| 0 <= i < vs.len() ==> entry_readable(#[trigger] vs[i]),
        None => true,
    }
}

/// The entries of the watch list, in order (none when it is no array).
pub open spec fn watch_list(doc: JsonValue) -> Seq<WatchEntryView> {
    match doc.elements() {
        Some(vs) => vs.map_values(|v: JsonValue| entry_of(v)),
        None => Seq::empty(),
    }
}

/// Whether one element of the watch list can be read.
fn entry_is_readable(v: &JsonValue) -> (r: bool)
    ensures
        r == entry_readable(*v),
{
    let known = match str_in(v.get("target")) {
        Some(t) => str_eq(t, "buff") || str_eq(t, "yyyp"),
        None => false,
    };
    known && str_in(v.get("name")).is_some() && str_in(v.get("class")).is_some() && str_in(
        v.get("typo"),
    ).is_some() && str_in(v.get("ware")).is_some() && bool_in(v.get("stat_trak")).is_some()
}

/// Whether every element of the watch list can be read.
pub fn watch_list_is_readable(doc: &JsonValue) -> (r: bool)
    ensures
        r == watch_list_readable(*doc),
{
    match doc.as_array() {
        Some(vs) => {
            let n = vs.len();
            let mut i: usize = 0;
            assert(doc.elements()->0 == vs@);
            assert(watch_list_readable(*doc) == (forall|j: int|
                0 <= j < vs@.len() ==> entry_readable(#[trigger] vs@[j])));
            while i < n
                invariant
                    n == vs@.len(),
                    i <= n,
                    watch_list_readable(*doc) == (forall|j: int|
                        0 <= j < vs@.len() ==> entry_readable(#[trigger] vs@[j])),
                    forall|j: int| 0 <= j < i ==> entry_readable(#[trigger] vs@[j]),
                decreases n - i,
            {
                if !entry_is_readable(&vs[i]) {
                    assert(!entry_readable(vs@[i as int]));
                    return false;
                }
                i = i + 1;
            }
            true
        },
        None => true,
    }
}

/// The text of a member that is known to be a string.
fn text_at(v: &JsonValue, key: &str) -> (r: String)
    ensures
        r@ == text_or_empty(v.at(key@)),
{
    match str_in(v.get(key)) {
        Some(s) => String::from_str(s),
        None => String::new(),
    }
}

/// The entry one element of the watch list describes.
fn read_entry(v: &JsonValue) -> (r: WatchEntry)
    requires
        entry_readable(*v),
    ensures
        r@ == entry_of(*v),
{
    let target = match str_in(v.get("target")) {
        Some(t) => Target::from(t),
        None => Target::Yyyp,
    };
    WatchEntry {
        target,
        name: text_at(v, "name"),
        class: text_at(v, "class"),
        typo: text_at(v, "typo"),
        ware: text_at(v, "ware"),
        stat_trak: bool_in(v.get("stat_trak")) == Some(true),
    }
}

/// The entries of the watch list, in order.
pub fn watch_entries(doc: &JsonValue) -> (r: Vec<WatchEntry>)
    requires
        watch_list_readable(*doc),
    ensures
        r@.map_values(|e: WatchEntry| e@) == watch_list(*doc),
{
    let mut entries: Vec<WatchEntry> = Vec::new();
    match doc.as_array() {
        Some(vs) => {
            let n = vs.len();
            let mut i: usize = 0;
            assert(doc.elements()->0 == vs@);
            assert(watch_list_readable(*doc) == (forall|j: int|
                0 <= j < vs@.len() ==> entry_readable(#[trigger] vs@[j])));
            while i < n
                invariant
                    n == vs@.len(),
                    i <= n,
                    forall|j: int| 0 <= j < n ==> entry_readable(#[trigger] vs@[j]),
                    entries@.map_values(|e: WatchEntry| e@) == vs@.take(i as int).map_values(
                        |v: JsonValue| entry_of(v),
                    ),
                decreases n - i,
            {
                let e = read_entry(&vs[i]);
                let ghost ev = e@;
                entries.push(e);
                assert(vs@.take(i + 1) =~= vs@.take(i as int).push(vs@[i as int]));
                assert(vs@.take(i + 1).map_values(|v: JsonValue| entry_of(v)) =~= vs@.take(
                    i as int,
                ).map_values(|v: JsonValue| entry_of(v)).push(ev));
                assert(entries@.map_values(|e: WatchEntry| e@) =~= vs@.take(i + 1).map_values(
                    |v: JsonValue| entry_of(v),
                ));
                i = i + 1;
            }
            assert(vs@.take(n as int) =~= vs@);
        },
        None => {
            assert(entries@.map_values(|e: WatchEntry| e@) =~= Seq::<WatchEntryView>::empty());
        },
    }
    entries
}

/// The watch list read from its text.
pub enum WatchList {
    /// The text is no JSON text.
    NotJson,
    /// An element of the list cannot be read.
    Unreadable,
    /// The entries, in order.
    Entries(Vec<WatchEntry>),
}

/// Reads the watch list from its text.
pub fn watch_list_of_text(text: &str) -> (r: WatchList)
    ensures
        match json_of(text@) {
            Some(d) => if watch_list_readable(d) {
                r matches WatchList::Entries(v) && v@.map_values(|e: WatchEntry| e@) == watch_list(d)
            } else {
                r is Unreadable
            },
            None => r is NotJson,
        },
{
    let doc = parse_json(text);
    match &doc {
        Some(d) => if watch_list_is_readable(d) {
            WatchList::Entries(watch_entries(d))
        } else {
            WatchList::Unreadable
        },
        None => WatchList::NotJson,
    }
}

/// The item of a store lookup that found one.
pub open spec fn found_fn() -> spec_fn(Option<Item>) -> Option<ItemView> {
    |o: Option<Item>| match o {
        Some(i) => Some(i@),
        None => None,
    }
}

/// The items that the store lookups of the watch list found, in the order of
/// the list; the entries that were not found are left out.
pub fn found_items(found: Vec<Option<Item>>) -> (r: Vec<Item>)
    ensures
        r@.map_values(|i: Item| i@) == pick(found@, found_fn()),
{
    let ghost all = found@;
    let mut rest = found;
    let n = rest.len();
    let mut items: Vec<Item> = Vec::new();
    let mut i: usize = 0;
    assert(items@.map_values(|i: Item| i@) =~= pick(all.take(0), found_fn()));
    while i < n
        invariant
            n == all.len(),
            i <= n,
            rest@ == all.skip(i as int),
            items@.map_values(|i: Item| i@) == pick(all.take(i as int), found_fn()),
        decreases n - i,
    {
        proof {
            lemma_pick_step(all, found_fn(), i as int);
        }
        let o = rest.remove(0);
        assert(o == all[i as int]);
        assert(rest@ =~= all.skip(i + 1));
        match o {
            Some(item) => {
                let ghost before = items@.map_values(|i: Item| i@);
                let ghost v = item@;
                items.push(item);
                assert(items@.map_values(|i: Item| i@) =~= before.push(v));
            },
            None => {},
        }
        i = i + 1;
    }
    assert(all.take(n as int) =~= all);
    items
}

/// A readable watch list has one entry per element, in order, and entry `i`
/// holds the `name`, `class`, `typo`, `ware` and `stat_trak` members of element
/// `i`, and the market its `target` names.
pub proof fn lemma_watch_entry_fields(d: JsonValue, vs: Seq<JsonValue>, i: int)
    requires
        d.elements() == Some(vs),
        watch_list_readable(d),
        0 <= i < vs.len(),
    ensures
        watch_list(d).len() == vs.len(),
        Some(watch_list(d)[i].name) == vs[i].at("name"@).text(),
        Some(watch_list(d)[i].class) == vs[i].at("class"@).text(),
        Some(watch_list(d)[i].typo) == vs[i].at("typo"@).text(),
        Some(watch_list(d)[i].ware) == vs[i].at("ware"@).text(),
        Some(watch_list(d)[i].stat_trak) == vs[i].at("stat_trak"@).boolean(),
        (watch_list(d)[i].target == Target::Buff) == (vs[i].at("target"@).text() == Some("buff"@)),
        (watch_list(d)[i].target == Target::Yyyp) == (vs[i].at("target"@).text() == Some("yyyp"@)),
{
    assert(entry_readable(vs[i]));
    reveal_strlit("buff");
    reveal_strlit("yyyp");
    assert("buff"@[0] != "yyyp"@[0]);
}

} // verus!
