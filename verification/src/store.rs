use vstd::prelude::*;
use crate::item::{Item, ItemV, views_of};

verus! {

/// Whether some record in `s` carries the identifier `id`.
pub open spec fn has_id(s: Seq<ItemV>, id: u32) -> bool {
    exists|k: int| 0 <= k < s.len() && s[k].id == id
}

/// The index of the first record in `s` whose identifier is `id`,
/// or `-1` when there is none.
pub open spec fn first_index_of(s: Seq<ItemV>, id: u32) -> int
    decreases s.len(),
{
    if s.len() == 0 {
        -1
    } else if s[0].id == id {
        0
    } else {
        let rest = first_index_of(s.drop_first(), id);
        if rest < 0 {
            -1
        } else {
            rest + 1
        }
    }
}

/// `s` after an update request for `id` carrying the record `r`: the
/// first record whose identifier is `id` is overwritten whole (its
/// identifier included); without a match, `s` is unchanged.
pub open spec fn replaced(s: Seq<ItemV>, id: u32, r: ItemV) -> Seq<ItemV> {
    if has_id(s, id) {
        s.update(first_index_of(s, id), r)
    } else {
        s
    }
}

/// `s` after a delete request for `id`: every record whose identifier
/// is `id` is removed; the remaining records keep their order.
pub open spec fn removed_all(s: Seq<ItemV>, id: u32) -> Seq<ItemV> {
    s.filter(|x: ItemV| x.id != id)
}

/// How many records in `s` carry the identifier `id`.
pub open spec fn occurrences(s: Seq<ItemV>, id: u32) -> nat {
    s.filter(|x: ItemV| x.id == id).len()
}

/// With no match anywhere, the identifier occurs zero times.
pub proof fn lemma_occurrences_none(s: Seq<ItemV>, id: u32)
    requires
        forall|j: int| 0 <= j < s.len() ==> #[trigger] s[j].id != id,
    ensures
        occurrences(s, id) == 0,
    decreases s.len(),
{
    reveal(Seq::filter);
    if s.len() > 0 {
        lemma_occurrences_none(s.drop_last(), id);
    }
}

/// With a match at `i` and none elsewhere, the identifier occurs
/// exactly once.
pub proof fn lemma_occurrences_single(s: Seq<ItemV>, id: u32, i: int)
    requires
        0 <= i < s.len(),
        s[i].id == id,
        forall|j: int| 0 <= j < s.len() && j != i ==> #[trigger] s[j].id != id,
    ensures
        occurrences(s, id) == 1,
    decreases s.len(),
{
    reveal(Seq::filter);
    if i == s.len() - 1 {
        lemma_occurrences_none(s.drop_last(), id);
    } else {
        lemma_occurrences_single(s.drop_last(), id, i);
    }
}

/// A match at `i` with no match before it pins `first_index_of` to `i`.
pub proof fn lemma_first_index_of_is(s: Seq<ItemV>, id: u32, i: int)
    requires
        0 <= i < s.len(),
        s[i].id == id,
        forall|j: int| 0 <= j < i ==> #[trigger] s[j].id != id,
    ensures
        first_index_of(s, id) == i,
    decreases s.len(),
{
    if i == 0 {
    } else {
        let rest = s.drop_first();
        assert forall|k: int| 0 <= k < rest.len() implies rest[k] == s[k + 1] by {}
        lemma_first_index_of_is(rest, id, i - 1);
    }
}

/// The record collection: items in insertion order, no uniqueness
/// demanded of identifiers. Its mathematical value is the sequence of
/// record values in that order.
pub struct Store {
    items: Vec<Item>,
}

impl View for Store {
    type V = Seq<ItemV>;

    closed spec fn view(&self) -> Seq<ItemV> {
        views_of(self.items@)
    }
}

impl Store {
    /// A store with no records.
    pub fn new() -> (s: Store)
        ensures
            s@ == Seq::<ItemV>::empty(),
    {
        let s = Store { items: Vec::new() };
        proof {
            assert(s@ =~= Seq::<ItemV>::empty());
        }
        s
    }

    /// How many records the store holds.
    pub fn len(&self) -> (n: usize)
        ensures
            n == self@.len(),
    {
        self.items.len()
    }

    /// A snapshot of all records in their current order.
    pub fn list(&self) -> (out: Vec<Item>)
        ensures
            views_of(out@) == self@,
    {
        let mut out: Vec<Item> = Vec::new();
        let mut i: usize = 0;
        while i < self.items.len()
            invariant
                i <= self.items.len(),
                views_of(out@) == self@.take(i as int),
            decreases self.items.len() - i,
        {
            out.push(self.items[i].clone());
            proof {
                assert(self@.take(i + 1) =~= self@.take(i as int).push(self@[i as int]));
                assert(views_of(out@) =~= self@.take(i + 1));
            }
            i += 1;
        }
        proof {
            assert(self@.take(self.items@.len() as int) =~= self@);
        }
        out
    }

    /// Appends `r` at the end; duplicate identifiers are not checked.
    pub fn append(&mut self, r: Item)
        ensures
            final(self)@ == old(self)@.push(r@),
    {
        self.items.push(r);
        proof {
            assert(self@ =~= old(self)@.push(self.items@.last()@));
        }
    }

    /// Overwrites the first record whose identifier is `id` with `r`
    /// and reports whether there was one; without a match the store is
    /// left unchanged.
    pub fn replace(&mut self, id: u32, r: Item) -> (found: bool)
        ensures
            found == has_id(old(self)@, id),
            final(self)@ == replaced(old(self)@, id, r@),
    {
        let ghost s0 = self@;
        let mut i: usize = 0;
        while i < self.items.len()
            invariant
                i <= self.items.len(),
                self.items@ == old(self).items@,
                s0 == self@,
                s0.len() == self.items@.len(),
                forall|j: int| 0 <= j < i ==> #[trigger] s0[j].id != id,
            decreases self.items.len() - i,
        {
            proof {
                assert(s0[i as int] == self.items[i as int]@);
            }
            if self.items[i].id == id {
                proof {
                    assert(s0[i as int].id == id);
                    lemma_first_index_of_is(s0, id, i as int);
                }
                self.items[i] = r;
                proof {
                    assert(self@ =~= s0.update(i as int, r@));
                }
                return true;
            }
            i += 1;
        }
        proof {
            assert(!has_id(s0, id));
        }
        false
    }

    /// Removes every record whose identifier is `id`; absence of a
    /// match is not an error.
    pub fn remove_all(&mut self, id: u32)
        ensures
            final(self)@ == removed_all(old(self)@, id),
    {
        let ghost s0 = self@;
        let mut out: Vec<Item> = Vec::new();
        let mut i: usize = 0;
        while i < self.items.len()
            invariant
                i <= self.items.len(),
                self.items@ == old(self).items@,
                s0 == self@,
                s0.len() == self.items@.len(),
                views_of(out@) == removed_all(s0.take(i as int), id),
            decreases self.items.len() - i,
        {
            proof {
                broadcast use vstd::prelude::Seq::lemma_filter_push;

                assert(s0.take(i + 1) =~= s0.take(i as int).push(s0[i as int]));
                assert(s0[i as int] == self.items[i as int]@);
            }
            if self.items[i].id != id {
                out.push(self.items[i].clone());
                proof {
                    assert(views_of(out@) =~= removed_all(s0.take(i as int), id).push(
                        s0[i as int],
                    ));
                }
            } else {
                proof {
                    assert(removed_all(s0.take(i + 1), id) == removed_all(s0.take(i as int), id));
                }
            }
            i += 1;
        }
        proof {
            assert(s0.take(self.items@.len() as int) =~= s0);
        }
        self.items = out;
    }
}

} // verus!
