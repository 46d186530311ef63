use vstd::prelude::*;
use crate::codec::json_of_items;
use crate::dispatch::{response_body_after, status_after, store_after};
use crate::item::ItemV;
use crate::routing::Route;
use crate::store::{has_id, lemma_first_index_of_is, lemma_occurrences_none,
    lemma_occurrences_single, occurrences, removed_all};

verus! {

/// Round trip: a create request appends the posted record, so a list
/// request right after shows the old records unchanged and the posted
/// record as the last element, and returns exactly their JSON array.
pub proof fn lemma_post_then_get(s: Seq<ItemV>, r: ItemV)
    ensures
        store_after(s, Route::PostItems, Some(r)) == s.push(r),
        store_after(s, Route::PostItems, Some(r)).len() == s.len() + 1,
        store_after(s, Route::PostItems, Some(r)).last() == r,
        forall|i: int|
            0 <= i < s.len() ==> store_after(s, Route::PostItems, Some(r))[i] == s[i],
        store_after(s.push(r), Route::GetItems, None) == s.push(r),
        response_body_after(s.push(r), Route::GetItems, None) == json_of_items(s.push(r)),
{
}

/// List requests are idempotent: a list request leaves the collection
/// as it was, so two of them with no mutation between return the same
/// body, whatever (ignored) bodies they carry.
pub proof fn lemma_get_idempotent(s: Seq<ItemV>, b1: Option<ItemV>, b2: Option<ItemV>)
    ensures
        store_after(s, Route::GetItems, b1) == s,
        response_body_after(store_after(s, Route::GetItems, b1), Route::GetItems, b2)
            == response_body_after(s, Route::GetItems, b1),
        status_after(Route::GetItems, b1) == 200,
{
}

/// An update hits the first match only: with a match at `i` and none
/// before it, the update puts `r` at `i`, leaves every other position
/// (later matches included) untouched, and reports success.
pub proof fn lemma_update_first_match(s: Seq<ItemV>, id: u32, r: ItemV, i: int)
    requires
        0 <= i < s.len(),
        s[i].id == id,
        forall|j: int| 0 <= j < i ==> #[trigger] s[j].id != id,
    ensures
        store_after(s, Route::PutItem(id), Some(r)) == s.update(i, r),
        store_after(s, Route::PutItem(id), Some(r))[i] == r,
        store_after(s, Route::PutItem(id), Some(r)).len() == s.len(),
        forall|j: int|
            0 <= j < s.len() && j != i ==> store_after(s, Route::PutItem(id), Some(r))[j] == s[j],
        status_after(Route::PutItem(id), Some(r)) == 200,
        response_body_after(s, Route::PutItem(id), Some(r)) == "Item updated"@,
{
    assert(has_id(s, id));
    lemma_first_index_of_is(s, id, i);
}

/// A delete removes every match: afterwards no record carries the
/// identifier, and each record that did not is still there.
pub proof fn lemma_delete_removes_all(s: Seq<ItemV>, id: u32)
    ensures
        store_after(s, Route::DeleteItem(id), None) == removed_all(s, id),
        forall|k: int|
            0 <= k < removed_all(s, id).len() ==> #[trigger] removed_all(s, id)[k].id != id,
        forall|k: int|
            0 <= k < s.len() && s[k].id != id ==> removed_all(s, id).contains(#[trigger] s[k]),
        occurrences(removed_all(s, id), id) == 0,
        status_after(Route::DeleteItem(id), None) == 200,
        response_body_after(s, Route::DeleteItem(id), None) == "Item deleted"@,
{
    let p = |x: ItemV| x.id != id;
    assert forall|k: int|
        0 <= k < removed_all(s, id).len() implies #[trigger] removed_all(s, id)[k].id != id by {
        s.lemma_filter_pred(p, k);
    }
    assert forall|k: int|
        0 <= k < s.len() && s[k].id != id implies removed_all(s, id).contains(#[trigger] s[k]) by {
        s.lemma_filter_contains(p, k);
    }
    lemma_occurrences_none(removed_all(s, id), id);
}

/// An update for an absent identifier changes nothing and reports
/// not-found with a success status.
pub proof fn lemma_update_absent(s: Seq<ItemV>, id: u32, r: ItemV)
    requires
        !has_id(s, id),
    ensures
        store_after(s, Route::PutItem(id), Some(r)) == s,
        status_after(Route::PutItem(id), Some(r)) == 200,
        response_body_after(s, Route::PutItem(id), Some(r)) == "Item not found"@,
{
}

/// Filtering by a predicate every element meets keeps the sequence.
proof fn lemma_filter_all_kept(s: Seq<ItemV>, p: spec_fn(ItemV) -> bool)
    requires
        forall|k: int| 0 <= k < s.len() ==> p(#[trigger] s[k]),
    ensures
        s.filter(p) == s,
    decreases s.len(),
{
    reveal(Seq::filter);
    if s.len() != 0 {
        lemma_filter_all_kept(s.drop_last(), p);
        assert(s.drop_last().filter(p).push(s.last()) =~= s);
    }
}

/// A delete for an absent identifier still reports deletion, and the
/// collection stays as it was.
pub proof fn lemma_delete_absent(s: Seq<ItemV>, id: u32)
    requires
        !has_id(s, id),
    ensures
        store_after(s, Route::DeleteItem(id), None) == s,
        status_after(Route::DeleteItem(id), None) == 200,
        response_body_after(s, Route::DeleteItem(id), None) == "Item deleted"@,
{
    let p = |x: ItemV| x.id != id;
    assert forall|k: int| 0 <= k < s.len() implies p(#[trigger] s[k]) by {
        assert(!(0 <= k < s.len() && s[k].id == id));
    }
    lemma_filter_all_kept(s, p);
}

/// A request outside the routing table changes nothing and is answered
/// with status 404 and an empty body.
pub proof fn lemma_unknown_route(s: Seq<ItemV>, b: Option<ItemV>)
    ensures
        store_after(s, Route::NotFound, b) == s,
        status_after(Route::NotFound, b) == 404,
        response_body_after(s, Route::NotFound, b) == Seq::<char>::empty(),
{
}

/// The collection after a batch of create requests, applied in the
/// order the store serialized them.
pub open spec fn after_posts(s: Seq<ItemV>, posted: Seq<ItemV>) -> Seq<ItemV>
    decreases posted.len(),
{
    if posted.len() == 0 {
        s
    } else {
        after_posts(store_after(s, Route::PostItems, Some(posted[0])), posted.drop_first())
    }
}

/// A batch of creates appends the batch: whatever order the lock
/// granted, the result is the old records followed by the posted ones.
pub proof fn lemma_after_posts_appends(s: Seq<ItemV>, posted: Seq<ItemV>)
    ensures
        after_posts(s, posted) == s + posted,
    decreases posted.len(),
{
    if posted.len() == 0 {
        assert(s + posted =~= s);
    } else {
        lemma_after_posts_appends(s.push(posted[0]), posted.drop_first());
        assert(s.push(posted[0]) + posted.drop_first() =~= s + posted);
    }
}

/// Concurrent creates serialized by the lock, with pairwise distinct
/// identifiers, starting from an empty collection: every posted record
/// is present, none is duplicated, and the count is exactly the number
/// of requests. The serialization order is the parameter, so this holds
/// of every order the lock may grant.
pub proof fn lemma_concurrent_posts(posted: Seq<ItemV>)
    requires
        forall|a: int, b: int|
            0 <= a < b < posted.len() ==> #[trigger] posted[a].id != #[trigger] posted[b].id,
    ensures
        after_posts(Seq::<ItemV>::empty(), posted) == posted,
        after_posts(Seq::<ItemV>::empty(), posted).len() == posted.len(),
        forall|i: int|
            0 <= i < posted.len() ==> has_id(after_posts(Seq::<ItemV>::empty(), posted), #[trigger] posted[i].id),
        forall|i: int|
            0 <= i < posted.len() ==> occurrences(
                after_posts(Seq::<ItemV>::empty(), posted),
                #[trigger] posted[i].id,
            ) == 1,
{
    lemma_after_posts_appends(Seq::<ItemV>::empty(), posted);
    assert(Seq::<ItemV>::empty() + posted =~= posted);
    assert forall|i: int|
        0 <= i < posted.len() implies has_id(
        after_posts(Seq::<ItemV>::empty(), posted),
        #[trigger] posted[i].id,
    ) by {
        let res = after_posts(Seq::<ItemV>::empty(), posted);
        assert(res[i].id == posted[i].id);
    }
    assert forall|i: int|
        0 <= i < posted.len() implies occurrences(
        after_posts(Seq::<ItemV>::empty(), posted),
        #[trigger] posted[i].id,
    ) == 1 by {
        let res = after_posts(Seq::<ItemV>::empty(), posted);
        assert forall|j: int|
            0 <= j < res.len() && j != i implies #[trigger] res[j].id != posted[i].id by {
            if j < i {
                assert(posted[j].id != posted[i].id);
            } else {
                assert(posted[i].id != posted[j].id);
            }
        }
        lemma_occurrences_single(res, posted[i].id, i);
    }
}

} // verus!
