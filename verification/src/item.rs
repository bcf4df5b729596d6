//! Market items and daily prices, and the normalisation that makes item
//! descriptions from different markets comparable.

use vstd::prelude::*;

use crate::text::{
    contains, lemma_replace_absent, lemma_replace_after, lemma_split_on_cons, lemma_split_on_none,
    lemma_split_once_at, replace_all, replace_str, split_on, split_once, split_once_str, split_str, str_eq, trim,
    trim_str,
};

verus! {

/// An item offered on a market.
pub struct Item {
    pub id: u32,
    pub name: String,
    pub class: String,
    pub typo: String,
    pub ware: String,
    pub quality: String,
    pub rarity: String,
    pub stat_trak: bool,
}

/// The abstract contents of an [`Item`].
pub struct ItemView {
    pub id: u32,
    pub name: Seq<char>,
    pub class: Seq<char>,
    pub typo: Seq<char>,
    pub ware: Seq<char>,
    pub quality: Seq<char>,
    pub rarity: Seq<char>,
    pub stat_trak: bool,
}

impl View for Item {
    type V = ItemView;

    open spec fn view(&self) -> ItemView {
        ItemView {
            id: self.id,
            name: self.name@,
            class: self.class@,
            typo: self.typo@,
            ware: self.ware@,
            quality: self.quality@,
            rarity: self.rarity@,
            stat_trak: self.stat_trak,
        }
    }
}

/// The class of gloves.
pub open spec fn gloves() -> Seq<char> {
    "手套"@
}

/// The class of stickers.
pub open spec fn stickers() -> Seq<char> {
    "印花"@
}

/// The class of sniper rifles.
pub open spec fn sniper_rifles() -> Seq<char> {
    "狙击步枪"@
}

/// The weapon types that count as sniper rifles, whatever class a market gives them.
pub open spec fn is_sniper_rifle(typo: Seq<char>) -> bool {
    ||| typo == "SSG 08"@
    ||| typo == "SCAR-20"@
    ||| typo == "AWP"@
    ||| typo == "G3SG1"@
}

/// The type of a pair of gloves, read from its name "TYPE（★） | SKIN": the part
/// before the first `|`, without the star marker, with "裹手" spelled
/// "手部束带", and trimmed. `None` when the name has no `|`.
pub open spec fn glove_type(name: Seq<char>) -> Option<Seq<char>> {
    match split_once(name, '|') {
        Some((head, _)) => Some(
            trim(replace_all(replace_all(head, "（★）"@, ""@), "裹手"@, "手部束带"@)),
        ),
        None => None,
    }
}

/// The type of a sticker, read from its name "印花 | TEAM | EVENT": the
/// trimmed third part. `None` unless the name has exactly three parts.
pub open spec fn sticker_type(name: Seq<char>) -> Option<Seq<char>> {
    let parts = split_on(name, '|');
    if parts.len() == 3 {
        Some(trim(parts[2]))
    } else {
        None
    }
}

/// The normalised type: gloves and stickers take their type from the name where
/// it can be read there; every other item keeps the type it was given.
pub open spec fn normalised_typo(name: Seq<char>, class: Seq<char>, typo: Seq<char>) -> Seq<
    char,
> {
    if class == gloves() {
        match glove_type(name) {
            Some(t) => t,
            None => typo,
        }
    } else if class == stickers() {
        match sticker_type(name) {
            Some(t) => t,
            None => typo,
        }
    } else {
        typo
    }
}

/// The normalised class: sniper rifles by their (normalised) type, else the given class.
pub open spec fn normalised_class(class: Seq<char>, typo: Seq<char>) -> Seq<char> {
    if is_sniper_rifle(typo) {
        sniper_rifles()
    } else {
        class
    }
}

/// The normalised (name, class, type) of an item description.
pub open spec fn normalised(name: Seq<char>, class: Seq<char>, typo: Seq<char>) -> (
    Seq<char>,
    Seq<char>,
    Seq<char>,
) {
    let t = normalised_typo(name, class, typo);
    (name, normalised_class(class, t), t)
}

/// The item that [`Item::new`] builds from a description.
pub open spec fn new_item(
    name: Seq<char>,
    class: Seq<char>,
    typo: Seq<char>,
    ware: Seq<char>,
    quality: Seq<char>,
    rarity: Seq<char>,
    stat_trak: bool,
) -> ItemView {
    let n = normalised(name, class, typo);
    ItemView { id: 0, name: n.0, class: n.1, typo: n.2, ware, quality, rarity, stat_trak }
}

/// The three class names are different from one another.
pub proof fn lemma_classes_distinct()
    ensures
        gloves() != stickers(),
        gloves() != sniper_rifles(),
        stickers() != sniper_rifles(),
{
    reveal_strlit("手套");
    reveal_strlit("印花");
    reveal_strlit("狙击步枪");
    assert(gloves()[0] != stickers()[0]);
    assert(gloves().len() != sniper_rifles().len());
    assert(stickers().len() != sniper_rifles().len());
}

/// Normalising is idempotent: a normalised description is left as it is.
pub proof fn lemma_normalised_idempotent(name: Seq<char>, class: Seq<char>, typo: Seq<char>)
    ensures
        ({
            let n = normalised(name, class, typo);
            normalised(n.0, n.1, n.2) == n
        }),
{
    lemma_classes_distinct();
}

/// Normalising never changes the name, and the class changes only to
/// "狙击步枪", which it becomes exactly when the normalised type is a sniper rifle.
pub proof fn lemma_normalised_class(name: Seq<char>, class: Seq<char>, typo: Seq<char>)
    ensures
        normalised(name, class, typo).0 == name,
        normalised(name, class, typo).1 == class || normalised(name, class, typo).1
            == sniper_rifles(),
        is_sniper_rifle(normalised(name, class, typo).2) ==> normalised(name, class, typo).1
            == sniper_rifles(),
        !is_sniper_rifle(normalised(name, class, typo).2) ==> normalised(name, class, typo).1
            == class,
{
}

/// Outside gloves and stickers the type is kept, and the four sniper rifle types
/// "SSG 08", "SCAR-20", "AWP" and "G3SG1" get the class "狙击步枪"; every other
/// type keeps its class.
pub proof fn lemma_sniper_rifle_class(name: Seq<char>, class: Seq<char>, typo: Seq<char>)
    requires
        class != "手套"@,
        class != "印花"@,
    ensures
        normalised(name, class, typo) == (
            name,
            if typo == "SSG 08"@ || typo == "SCAR-20"@ || typo == "AWP"@ || typo == "G3SG1"@ {
                "狙击步枪"@
            } else {
                class
            },
            typo,
        ),
{
}

/// A rifle ("步枪") of one of the four sniper rifle types is classed "狙击步枪",
/// whatever its name.
pub proof fn lemma_rifles_become_sniper_rifles(name: Seq<char>)
    ensures
        normalised(name, "步枪"@, "SSG 08"@).1 == "狙击步枪"@,
        normalised(name, "步枪"@, "SCAR-20"@).1 == "狙击步枪"@,
        normalised(name, "步枪"@, "AWP"@).1 == "狙击步枪"@,
        normalised(name, "步枪"@, "G3SG1"@).1 == "狙击步枪"@,
{
    reveal_strlit("步枪");
    reveal_strlit("手套");
    reveal_strlit("印花");
    assert("步枪"@[0] != "手套"@[0]);
    assert("步枪"@[0] != "印花"@[0]);
    lemma_sniper_rifle_class(name, "步枪"@, "SSG 08"@);
    lemma_sniper_rifle_class(name, "步枪"@, "SCAR-20"@);
    lemma_sniper_rifle_class(name, "步枪"@, "AWP"@);
    lemma_sniper_rifle_class(name, "步枪"@, "G3SG1"@);
}

/// A sticker named "A|B|C" (three parts without `|`) has the type C, trimmed,
/// whatever type it was given.
pub proof fn lemma_sticker_type(a: Seq<char>, b: Seq<char>, c: Seq<char>, typo: Seq<char>)
    requires
        !a.contains('|'),
        !b.contains('|'),
        !c.contains('|'),
    ensures
        normalised(a + seq!['|'] + b + seq!['|'] + c, "印花"@, typo).2 == trim(c),
{
    lemma_classes_distinct();
    let name = a + seq!['|'] + b + seq!['|'] + c;
    assert(name =~= a + seq!['|'] + (b + seq!['|'] + c));
    lemma_split_on_cons(a, '|', b + seq!['|'] + c);
    lemma_split_on_cons(b, '|', c);
    lemma_split_on_none(c, '|');
    assert(split_on(name, '|') =~= seq![a, b, c]);
}

/// A pair of gloves named "X（★）Y|REST", where X and Y hold no `|`, X no
/// opening bracket and neither the star marker nor "裹手" occurs, has the type
/// XY, trimmed.
pub proof fn lemma_glove_type(x: Seq<char>, y: Seq<char>, rest: Seq<char>, typo: Seq<char>)
    requires
        !x.contains('|'),
        !y.contains('|'),
        !x.contains('（'),
        !contains(y, "（★）"@),
        !contains(x + y, "裹手"@),
    ensures
        normalised(x + "（★）"@ + y + seq!['|'] + rest, "手套"@, typo).2 == trim(x + y),
{
    reveal_strlit("（★）");
    reveal_strlit("");
    reveal_strlit("裹手");
    let star = "（★）"@;
    let h = x + star + y;
    assert(!h.contains('|')) by {
        assert forall|j: int| 0 <= j < h.len() implies h[j] != '|' by {
            if j < x.len() {
                assert(h[j] == x[j]);
            } else if j < x.len() + 3 {
                assert(h[j] == star[j - x.len()]);
            } else {
                assert(h[j] == y[j - x.len() - 3]);
            }
        }
    }
    assert(x + star + y + seq!['|'] + rest =~= h + seq!['|'] + rest);
    lemma_split_once_at(h, '|', rest);
    lemma_replace_after(x, star, ""@, y);
    lemma_replace_absent(y, star, ""@);
    assert(x + ""@ + y =~= x + y);
    lemma_replace_absent(x + y, "裹手"@, "手部束带"@);
}

/// Wrapped gloves, named "裹手X（★）Y|REST" (X and Y as in
/// [`lemma_glove_type`]), have the type "手部束带" followed by XY, trimmed.
pub proof fn lemma_wrapped_glove_type(x: Seq<char>, y: Seq<char>, rest: Seq<char>, typo: Seq<char>)
    requires
        !x.contains('|'),
        !y.contains('|'),
        !x.contains('（'),
        !contains(y, "（★）"@),
        !contains(x + y, "裹手"@),
    ensures
        normalised("裹手"@ + x + "（★）"@ + y + seq!['|'] + rest, "手套"@, typo).2 == trim(
            "手部束带"@ + x + y,
        ),
{
    reveal_strlit("（★）");
    reveal_strlit("");
    reveal_strlit("裹手");
    let star = "（★）"@;
    let wrap = "裹手"@;
    let front = wrap + x;
    assert(!front.contains('（')) by {
        assert forall|j: int| 0 <= j < front.len() implies front[j] != '（' by {
            if j >= 2 {
                assert(front[j] == x[j - 2]);
            }
        }
    }
    assert(!front.contains('|')) by {
        assert forall|j: int| 0 <= j < front.len() implies front[j] != '|' by {
            if j >= 2 {
                assert(front[j] == x[j - 2]);
            }
        }
    }
    let h = front + star + y;
    assert(!h.contains('|')) by {
        assert forall|j: int| 0 <= j < h.len() implies h[j] != '|' by {
            if j < front.len() {
                assert(h[j] == front[j]);
            } else if j < front.len() + 3 {
                assert(h[j] == star[j - front.len()]);
            } else {
                assert(h[j] == y[j - front.len() - 3]);
            }
        }
    }
    assert(wrap + x + star + y + seq!['|'] + rest =~= h + seq!['|'] + rest);
    lemma_split_once_at(h, '|', rest);
    lemma_replace_after(front, star, ""@, y);
    lemma_replace_absent(y, star, ""@);
    assert(front + ""@ + y =~= Seq::<char>::empty() + wrap + (x + y));
    lemma_replace_after(Seq::<char>::empty(), wrap, "手部束带"@, x + y);
    lemma_replace_absent(x + y, wrap, "手部束带"@);
    assert(Seq::<char>::empty() + "手部束带"@ + (x + y) =~= "手部束带"@ + x + y);
}

/// `typo` is one of the sniper rifle types.
fn is_sniper_rifle_str(typo: &str) -> (r: bool)
    ensures
        r == is_sniper_rifle(typo@),
{
    str_eq(typo, "SSG 08") || str_eq(typo, "SCAR-20") || str_eq(typo, "AWP") || str_eq(
        typo,
        "G3SG1",
    )
}

/// Normalises an item description: the name is kept, gloves and stickers get
/// the type written in their name, and sniper rifles get the class "狙击步枪".
pub fn pref_value(name: String, class: String, typo: String) -> (r: (String, String, String))
    ensures
        (r.0@, r.1@, r.2@) == normalised(name@, class@, typo@),
{
    let mut class = class;
    let mut typo = typo;
    if str_eq(class.as_str(), "手套") {
        match split_once_str(name.as_str(), '|') {
            Some((head, _)) => {
                proof {
                    reveal_strlit("（★）");
                    reveal_strlit("裹手");
                }
                let unstarred = replace_str(head.as_str(), "（★）", "");
                let renamed = replace_str(unstarred.as_str(), "裹手", "手部束带");
                typo = trim_str(renamed.as_str());
            },
            None => {},
        }
    } else if str_eq(class.as_str(), "印花") {
        let splits = split_str(name.as_str(), '|');
        if splits.len() == 3 {
            assert(splits.deep_view()[2] == splits@[2]@);
            typo = trim_str(splits[2].as_str());
        }
    }
    if is_sniper_rifle_str(typo.as_str()) {
        class = String::from_str("狙击步枪");
    }
    (name, class, typo)
}

impl Item {
    /// A new item (not yet stored: `id` is 0) with its description normalised.
    pub fn new(
        name: String,
        class: String,
        typo: String,
        ware: String,
        quality: String,
        rarity: String,
        stat_trak: bool,
    ) -> (r: Item)
        ensures
            r@ == new_item(name@, class@, typo@, ware@, quality@, rarity@, stat_trak),
    {
        let (name, class, typo) = pref_value(name, class, typo);
        Item { id: 0, name, class, typo, ware, quality, rarity, stat_trak }
    }
}

/// A price record of one item on one day.
pub struct PriceInfo {
    pub id: usize,
    pub item_id: u32,
    pub date: String,
    pub price: usize,
}

impl PriceInfo {
    /// A record not yet stored (its `id` is 0).
    pub fn new(item_id: u32, date: String, price: usize) -> (r: Self)
        ensures
            r.id == 0,
            r.item_id == item_id,
            r.date@ == date@,
            r.price == price,
    {
        PriceInfo { id: 0, item_id, date, price }
    }
}

} // verus!
