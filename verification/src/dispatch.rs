use vstd::prelude::*;
use vstd::string::StringExecFns;
use crate::codec::{encode_items, json_of_items};
use crate::item::{Item, ItemV};
use crate::routing::{route, route_of, Method, Route};
use crate::store::{has_id, removed_all, replaced, Store};

verus! {

/// What the dispatcher answers: a status code and a body.
pub struct HttpResponse {
    pub status: u16,
    pub body: String,
}

/// The record value a decoded request body stands for, when there
/// is one.
pub open spec fn body_view(b: Option<Item>) -> Option<ItemV> {
    match b {
        Some(it) => Some(it@),
        None => None,
    }
}

/// The collection after a routed request: create appends, update
/// overwrites the first match, delete removes all matches, everything
/// else (a list, a missing or undecodable body, a bad identifier, an
/// unknown route) leaves it unchanged.
pub open spec fn store_after(s: Seq<ItemV>, r: Route, body: Option<ItemV>) -> Seq<ItemV> {
    match r {
        Route::PostItems => match body {
            Some(it) => s.push(it),
            None => s,
        },
        Route::GetItems => s,
        Route::PutItem(id) => match body {
            Some(it) => replaced(s, id, it),
            None => s,
        },
        Route::DeleteItem(id) => removed_all(s, id),
        Route::BadId => s,
        Route::NotFound => s,
    }
}

/// The status of the response to a routed request: success everywhere
/// the routing table has a row (a missed update included), bad request
/// for an undecodable body or a malformed identifier, and not-found
/// for everything else.
pub open spec fn status_after(r: Route, body: Option<ItemV>) -> u16 {
    match r {
        Route::PostItems => if body is Some {
            200u16
        } else {
            400u16
        },
        Route::GetItems => 200u16,
        Route::PutItem(id) => if body is Some {
            200u16
        } else {
            400u16
        },
        Route::DeleteItem(id) => 200u16,
        Route::BadId => 400u16,
        Route::NotFound => 404u16,
    }
}

/// The body of the response to a routed request: the fixed confirmation
/// strings for the mutating verbs, the JSON array for a list, and an
/// empty body for every rejection.
pub open spec fn response_body_after(s: Seq<ItemV>, r: Route, body: Option<ItemV>) -> Seq<char> {
    match r {
        Route::PostItems => if body is Some {
            "Item added"@
        } else {
            Seq::<char>::empty()
        },
        Route::GetItems => json_of_items(s),
        Route::PutItem(id) => match body {
            Some(_) => if has_id(s, id) {
                "Item updated"@
            } else {
                "Item not found"@
            },
            None => Seq::<char>::empty(),
        },
        Route::DeleteItem(id) => "Item deleted"@,
        Route::BadId => Seq::<char>::empty(),
        Route::NotFound => Seq::<char>::empty(),
    }
}

/// Performs a routed request on the store and builds the response,
/// exactly as `store_after`, `status_after` and `response_body_after`
/// say. `body` is the decoded request body where the route needs one:
/// `None` stands for a missing or undecodable body and is answered
/// with a bad-request status and no mutation.
pub fn apply(store: &mut Store, r: Route, body: Option<Item>) -> (resp: HttpResponse)
    ensures
        final(store)@ == store_after(old(store)@, r, body_view(body)),
        resp.status == status_after(r, body_view(body)),
        resp.body@ == response_body_after(old(store)@, r, body_view(body)),
{
    match r {
        Route::PostItems => match body {
            Some(it) => {
                store.append(it);
                HttpResponse { status: 200, body: String::from_str("Item added") }
            },
            None => HttpResponse { status: 400, body: String::new() },
        },
        Route::GetItems => {
            let snapshot = store.list();
            HttpResponse { status: 200, body: encode_items(&snapshot) }
        },
        Route::PutItem(id) => match body {
            Some(it) => {
                let found = store.replace(id, it);
                if found {
                    HttpResponse { status: 200, body: String::from_str("Item updated") }
                } else {
                    HttpResponse { status: 200, body: String::from_str("Item not found") }
                }
            },
            None => HttpResponse { status: 400, body: String::new() },
        },
        Route::DeleteItem(id) => {
            store.remove_all(id);
            HttpResponse { status: 200, body: String::from_str("Item deleted") }
        },
        Route::BadId => HttpResponse { status: 400, body: String::new() },
        Route::NotFound => HttpResponse { status: 404, body: String::new() },
    }
}

/// Whether a route carries a request body the dispatcher must decode.
pub fn needs_body(r: Route) -> (b: bool)
    ensures
        b == (r is PostItems || r is PutItem),
{
    match r {
        Route::PostItems => true,
        Route::PutItem(_) => true,
        _ => false,
    }
}

/// Handles one request: routes the method and path, then performs the
/// selected action on the store. The path comes in as bytes; `body` is
/// the decoded request body, `None` where there was none or it did not
/// decode.
pub fn dispatch(store: &mut Store, method: Method, path: &[u8], body: Option<Item>) -> (resp:
    HttpResponse)
    ensures
        final(store)@ == store_after(old(store)@, route_of(method, path@), body_view(body)),
        resp.status == status_after(route_of(method, path@), body_view(body)),
        resp.body@ == response_body_after(old(store)@, route_of(method, path@), body_view(body)),
{
    let r = route(method, path);
    apply(store, r, body)
}

} // verus!
