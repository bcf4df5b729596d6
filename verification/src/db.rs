//! The decisions of the price store: an item's id is looked up, and the item is
//! added (once) when it is not found; a day's price is updated when that day
//! already has one, else added.

use vstd::prelude::*;

use crate::item::ItemView;

verus! {

/// What to do after looking up an item's id.
pub enum IdStep {
    /// Answer with this id (`None`: the item could not be stored).
    Done(Option<u32>),
    /// Add the item, then look it up again.
    AddThenLookUp,
}

/// The lookup of an item's id, which adds the item when it is missing.
pub struct IdLookup {
    added: bool,
}

impl IdLookup {
    /// Whether the item has been added during this lookup.
    pub closed spec fn has_added(&self) -> bool {
        self.added
    }

    /// A lookup that has added nothing yet.
    pub fn start() -> (r: Self)
        ensures
            !r.has_added(),
    {
        IdLookup { added: false }
    }

    /// The next step after a lookup that found `found`: a found id is the
    /// answer; a missing item is added once, and missing again it is no answer.
    pub fn after_lookup(&mut self, found: Option<u32>) -> (step: IdStep)
        ensures
            step == match found {
                Some(id) => IdStep::Done(Some(id)),
                None => if old(self).has_added() {
                    IdStep::Done(None)
                } else {
                    IdStep::AddThenLookUp
                },
            },
            final(self).has_added() == (old(self).has_added() || step is AddThenLookUp),
    {
        match found {
            Some(id) => IdStep::Done(Some(id)),
            None => if self.added {
                IdStep::Done(None)
            } else {
                self.added = true;
                IdStep::AddThenLookUp
            },
        }
    }
}

/// How a day's price is written.
pub enum PriceWrite {
    /// Overwrite the price of the existing record with this id.
    Update(usize),
    /// Add a new record.
    Insert,
}

/// The write for a day's price, given the id of the record that the item
/// already has for that day, if any.
pub fn price_write(existing: Option<usize>) -> (w: PriceWrite)
    ensures
        w == match existing {
            Some(id) => PriceWrite::Update(id),
            None => PriceWrite::Insert,
        },
{
    match existing {
        Some(id) => PriceWrite::Update(id),
        None => PriceWrite::Insert,
    }
}

// ---------------------------------------------------------------------------
// A model of the store's tables, and the laws of the store over repeated calls
// ---------------------------------------------------------------------------

/// A row of the price table: (id, item id, date, price).
pub type PriceRow = (nat, u32, Seq<char>, usize);

/// A row of the item table: (id, item).
pub type ItemRow = (nat, ItemView);

/// Index of the first price row of `item_id` on `date`; `rows.len()` when there is none.
pub open spec fn price_index(rows: Seq<PriceRow>, item_id: u32, date: Seq<char>) -> nat
    decreases rows.len(),
{
    if rows.len() == 0 {
        0
    } else if rows[0].1 == item_id && rows[0].2 == date {
        0
    } else {
        1 + price_index(rows.drop_first(), item_id, date)
    }
}

/// The id of the price record of `item_id` on `date`, as the store's lookup
/// (`find_price_info_id`) finds it.
pub open spec fn price_record(rows: Seq<PriceRow>, item_id: u32, date: Seq<char>) -> Option<nat> {
    let k = price_index(rows, item_id, date);
    if k < rows.len() {
        Some(rows[k as int].0)
    } else {
        None
    }
}

/// The price of `item_id` on `date` that the store's lookup finds.
pub open spec fn price_found(rows: Seq<PriceRow>, item_id: u32, date: Seq<char>) -> Option<usize> {
    let k = price_index(rows, item_id, date);
    if k < rows.len() {
        Some(rows[k as int].3)
    } else {
        None
    }
}

/// A fresh id: greater than every id of the table (an autoincrement key).
pub open spec fn next_id<T>(rows: Seq<(nat, T)>) -> nat
    decreases rows.len(),
{
    if rows.len() == 0 {
        1
    } else {
        let front = next_id(rows.drop_last());
        if rows.last().0 + 1 > front {
            rows.last().0 + 1
        } else {
            front
        }
    }
}

/// A fresh id of the price table.
pub open spec fn next_price_id(rows: Seq<PriceRow>) -> nat {
    next_id(rows.map_values(|r: PriceRow| (r.0, ())))
}

/// The price table after storing `price` for `item_id` on `date` as
/// `add_price_info` does: the write that [`price_write`] decides on the record
/// found, an update of that record's price or a new record.
pub open spec fn store_price(rows: Seq<PriceRow>, item_id: u32, date: Seq<char>, price: usize) -> Seq<
    PriceRow,
> {
    match price_record(rows, item_id, date) {
        Some(id) => rows.map_values(
            |r: PriceRow|
                if r.0 == id {
                    (r.0, r.1, r.2, price)
                } else {
                    r
                },
        ),
        None => rows.push((next_price_id(rows), item_id, date, price)),
    }
}

/// Changing prices keeps where the first row of an item and day is.
proof fn lemma_price_index_prices(rows: Seq<PriceRow>, rows2: Seq<PriceRow>, item_id: u32, date: Seq<char>)
    requires
        rows.len() == rows2.len(),
        forall|j: int| 0 <= j < rows.len() ==> (#[trigger] rows[j]).0 == rows2[j].0 && rows[j].1 == rows2[j].1 && rows[j].2 == rows2[j].2,
    ensures
        price_index(rows, item_id, date) == price_index(rows2, item_id, date),
        price_index(rows, item_id, date) <= rows.len(),
    decreases rows.len(),
{
    if rows.len() > 0 {
        assert(rows[0].1 == rows2[0].1);
        assert forall|j: int| 0 <= j < rows.drop_first().len() implies (#[trigger] rows.drop_first()[j]).0
            == rows2.drop_first()[j].0 && rows.drop_first()[j].1 == rows2.drop_first()[j].1
            && rows.drop_first()[j].2 == rows2.drop_first()[j].2 by {
            assert(rows.drop_first()[j] == rows[j + 1]);
            assert(rows2.drop_first()[j] == rows2[j + 1]);
        }
        lemma_price_index_prices(rows.drop_first(), rows2.drop_first(), item_id, date);
    }
}

/// The first row of an item and day is the first that matches.
proof fn lemma_price_index_facts(rows: Seq<PriceRow>, item_id: u32, date: Seq<char>)
    ensures
        price_index(rows, item_id, date) <= rows.len(),
        forall|j: int| 0 <= j < price_index(rows, item_id, date) ==> !((#[trigger] rows[j]).1 == item_id && rows[j].2 == date),
        price_index(rows, item_id, date) < rows.len() ==> rows[price_index(rows, item_id, date) as int].1 == item_id
            && rows[price_index(rows, item_id, date) as int].2 == date,
    decreases rows.len(),
{
    if rows.len() > 0 && !(rows[0].1 == item_id && rows[0].2 == date) {
        lemma_price_index_facts(rows.drop_first(), item_id, date);
        assert forall|j: int| 0 <= j < price_index(rows, item_id, date) implies !((#[trigger] rows[j]).1
            == item_id && rows[j].2 == date) by {
            if j > 0 {
                assert(rows[j] == rows.drop_first()[j - 1]);
            }
        }
    }
}

/// Appending a row after a table without a row of an item and day makes the
/// new row the first of it.
proof fn lemma_price_index_push(rows: Seq<PriceRow>, row: PriceRow)
    requires
        price_index(rows, row.1, row.2) == rows.len(),
    ensures
        price_index(rows.push(row), row.1, row.2) == rows.len(),
    decreases rows.len(),
{
    if rows.len() > 0 {
        assert(rows.push(row).drop_first() =~= rows.drop_first().push(row));
        lemma_price_index_push(rows.drop_first(), row);
    }
}

/// A fresh id is greater than every id of the table.
proof fn lemma_next_id<T>(rows: Seq<(nat, T)>)
    ensures
        forall|j: int| 0 <= j < rows.len() ==> (#[trigger] rows[j]).0 < next_id(rows),
    decreases rows.len(),
{
    if rows.len() > 0 {
        lemma_next_id(rows.drop_last());
        assert forall|j: int| 0 <= j < rows.len() implies (#[trigger] rows[j]).0 < next_id(rows) by {
            if j < rows.len() - 1 {
                assert(rows[j] == rows.drop_last()[j]);
            }
        }
    }
}

/// One price per item and day: storing a price leaves the price of that item
/// and day at it, adds a record only when the day had none, and storing the
/// same price again changes nothing.
pub proof fn lemma_store_price(rows: Seq<PriceRow>, item_id: u32, date: Seq<char>, price: usize)
    ensures
        price_found(store_price(rows, item_id, date, price), item_id, date) == Some(price),
        store_price(rows, item_id, date, price).len() == rows.len() + if price_record(
            rows,
            item_id,
            date,
        ) is Some {
            0int
        } else {
            1int
        },
        store_price(store_price(rows, item_id, date, price), item_id, date, price) == store_price(
            rows,
            item_id,
            date,
            price,
        ),
{
    let after = store_price(rows, item_id, date, price);
    lemma_price_index_facts(rows, item_id, date);
    let k = price_index(rows, item_id, date);
    match price_record(rows, item_id, date) {
        Some(id) => {
            lemma_price_index_prices(rows, after, item_id, date);
            assert(after[k as int].0 == id);
            let again = store_price(after, item_id, date, price);
            assert(price_record(after, item_id, date) == Some(id));
            assert(again =~= after);
        },
        None => {
            let row = (next_price_id(rows), item_id, date, price);
            lemma_price_index_push(rows, row);
            assert(after == rows.push(row));
            assert(price_index(after, item_id, date) == rows.len());
            assert(price_record(after, item_id, date) == Some(next_price_id(rows)));
            let ids = rows.map_values(|r: PriceRow| (r.0, ()));
            lemma_next_id(ids);
            let again = store_price(after, item_id, date, price);
            assert forall|j: int| 0 <= j < after.len() implies (#[trigger] again[j]) == after[j] by {
                if j < rows.len() {
                    assert(ids[j].0 == rows[j].0);
                    assert(after[j] == rows[j]);
                }
            }
            assert(again =~= after);
        },
    }
}

/// The two descriptions name the same item: all fields but the id agree.
pub open spec fn same_item(a: ItemView, b: ItemView) -> bool {
    &&& a.name == b.name
    &&& a.class == b.class
    &&& a.typo == b.typo
    &&& a.ware == b.ware
    &&& a.quality == b.quality
    &&& a.rarity == b.rarity
    &&& a.stat_trak == b.stat_trak
}

/// The id of the first row that holds `item`, as the store's lookup
/// (`find_item_id`) finds it.
pub open spec fn item_record(rows: Seq<ItemRow>, item: ItemView) -> Option<nat>
    decreases rows.len(),
{
    if rows.len() == 0 {
        None
    } else if same_item(rows[0].1, item) {
        Some(rows[0].0)
    } else {
        item_record(rows.drop_first(), item)
    }
}

/// The id `get_item_id` answers for `item`, and the item table afterwards,
/// following the steps of [`IdLookup`]: a found id is the answer; otherwise
/// the item is added and looked up again.
pub open spec fn resolve_item_id(rows: Seq<ItemRow>, item: ItemView) -> (Option<nat>, Seq<ItemRow>) {
    match item_record(rows, item) {
        Some(id) => (Some(id), rows),
        None => {
            let added = rows.push((next_id(rows), item));
            (item_record(added, item), added)
        },
    }
}

/// Appending a row for an item that the table lacks makes it the item's row.
proof fn lemma_item_record_push(rows: Seq<ItemRow>, row: ItemRow, item: ItemView)
    requires
        item_record(rows, item) is None,
        same_item(row.1, item),
    ensures
        item_record(rows.push(row), item) == Some(row.0),
    decreases rows.len(),
{
    if rows.len() > 0 {
        assert(rows.push(row).drop_first() =~= rows.drop_first().push(row));
        lemma_item_record_push(rows.drop_first(), row, item);
    } else {
        assert(rows.push(row)[0] == row);
    }
}

/// An item is added at most once: looking up its id always finds one, adds a
/// row only when the item had none, and a second lookup answers the same id
/// and adds nothing.
pub proof fn lemma_resolve_item_id(rows: Seq<ItemRow>, item: ItemView)
    ensures
        resolve_item_id(rows, item).0 is Some,
        item_record(resolve_item_id(rows, item).1, item) == resolve_item_id(rows, item).0,
        resolve_item_id(rows, item).1.len() == rows.len() + if item_record(rows, item) is Some {
            0int
        } else {
            1int
        },
        resolve_item_id(resolve_item_id(rows, item).1, item) == resolve_item_id(rows, item),
{
    if item_record(rows, item) is None {
        lemma_item_record_push(rows, (next_id(rows), item), item);
    }
}

} // verus!
