use vstd::prelude::*;

verus! {

/// A stored record: a caller-supplied numeric identifier and a name.
/// Identifiers are not required to be unique; the store keeps records
/// in insertion order and lookups go by the first match.
pub struct Item {
    pub id: u32,
    pub name: String,
}

/// The mathematical value of an [`Item`]: its identifier and the
/// characters of its name.
pub struct ItemV {
    pub id: u32,
    pub name: Seq<char>,
}

impl View for Item {
    type V = ItemV;

    open spec fn view(&self) -> ItemV {
        ItemV { id: self.id, name: self.name@ }
    }
}

impl Item {
    pub fn new(id: u32, name: String) -> (r: Item)
        ensures
            r@ == (ItemV { id: id, name: name@ }),
    {
        Item { id, name }
    }
}

impl Clone for Item {
    fn clone(&self) -> (r: Item)
        ensures
            r@ == self@,
    {
        Item { id: self.id, name: self.name.clone() }
    }
}

/// The records a sequence of items stands for.
pub open spec fn views_of(s: Seq<Item>) -> Seq<ItemV> {
    s.map_values(|i: Item| i@)
}

} // verus!
