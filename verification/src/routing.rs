use vstd::prelude::*;

verus! {

/// ASCII `/`.
pub const SLASH: u8 = 47;

/// ASCII `i`.
pub const LC_I: u8 = 105;

/// ASCII `t`.
pub const LC_T: u8 = 116;

/// ASCII `e`.
pub const LC_E: u8 = 101;

/// ASCII `m`.
pub const LC_M: u8 = 109;

/// ASCII `s`.
pub const LC_S: u8 = 115;

/// ASCII `+`.
pub const PLUS: u8 = 43;

/// ASCII `0`.
pub const DIGIT_0: u8 = 48;

/// ASCII `9`.
pub const DIGIT_9: u8 = 57;

/// The request methods the routing table distinguishes; any other
/// method is `Other` and falls through to the not-found response.
#[derive(Clone, Copy, PartialEq, Eq, Structural, Debug)]
pub enum Method {
    Get,
    Post,
    Put,
    Delete,
    Other,
}

/// Where a request goes: one collection route per verb, a bad-identifier
/// outcome for an `/items/{id}` path whose suffix is not an unsigned
/// integer, and the catch-all.
#[derive(Clone, Copy, PartialEq, Eq, Structural, Debug)]
pub enum Route {
    /// `POST /items`: append the decoded body.
    PostItems,
    /// `GET /items`: list all records.
    GetItems,
    /// `PUT /items/{id}`: overwrite the first record with that identifier.
    PutItem(u32),
    /// `DELETE /items/{id}`: remove every record with that identifier.
    DeleteItem(u32),
    /// `PUT`/`DELETE` below `/items/` with a malformed identifier.
    BadId,
    /// Every other method and path.
    NotFound,
}

/// The collection path, `/items`, as bytes.
pub open spec fn items_path() -> Seq<u8> {
    seq![SLASH, LC_I, LC_T, LC_E, LC_M, LC_S]
}

/// The prefix of the single-record paths, `/items/`, as bytes.
pub open spec fn items_prefix() -> Seq<u8> {
    seq![SLASH, LC_I, LC_T, LC_E, LC_M, LC_S, SLASH]
}

/// Whether `p` begins with `prefix`.
pub open spec fn starts_with(p: Seq<u8>, prefix: Seq<u8>) -> bool {
    p.len() >= prefix.len() && p.take(prefix.len() as int) == prefix
}

/// An ASCII decimal digit.
pub open spec fn is_digit(b: u8) -> bool {
    DIGIT_0 <= b && b <= DIGIT_9
}

/// The numeric value of the digit `b`.
pub open spec fn digit_val(b: u8) -> nat {
    (b - DIGIT_0) as nat
}

/// The number the digit string `s` denotes in base ten.
pub open spec fn dec_val(s: Seq<u8>) -> nat
    decreases s.len(),
{
    if s.len() == 0 {
        0
    } else {
        dec_val(s.drop_last()) * 10 + digit_val(s.last())
    }
}

/// The digits of an unsigned-integer literal: everything after one
/// optional leading plus sign.
pub open spec fn digits_part(s: Seq<u8>) -> Seq<u8> {
    if s.len() > 0 && s[0] == PLUS {
        s.drop_first()
    } else {
        s
    }
}

/// Whether `s` is a well-formed `u32` literal: an optional plus sign,
/// then at least one digit, denoting a value that fits in 32 bits.
pub open spec fn parse_ok(s: Seq<u8>) -> bool {
    let d = digits_part(s);
    d.len() > 0 && (forall|k: int| 0 <= k < d.len() ==> is_digit(#[trigger] d[k])) && dec_val(d)
        <= u32::MAX
}

/// The value a well-formed `u32` literal denotes.
pub open spec fn parsed_u32(s: Seq<u8>) -> u32 {
    dec_val(digits_part(s)) as u32
}

/// A digit string never denotes less than any of its prefixes.
proof fn lemma_dec_val_prefix(d: Seq<u8>, k: int)
    requires
        0 <= k <= d.len(),
    ensures
        dec_val(d.take(k)) <= dec_val(d),
    decreases d.len() - k,
{
    if k < d.len() {
        assert(d.take(k + 1).drop_last() =~= d.take(k));
        assert(d.take(k + 1).last() == d[k]);
        assert(dec_val(d.take(k + 1)) == dec_val(d.take(k)) * 10 + digit_val(d[k]));
        assert(dec_val(d.take(k)) * 10 >= dec_val(d.take(k)));
        lemma_dec_val_prefix(d, k + 1);
    } else {
        assert(d.take(k) =~= d);
    }
}

/// Parses `s` as Rust parses a `u32` literal: an optional leading `+`,
/// then decimal digits; anything else, or a value over `u32::MAX`,
/// is rejected.
pub fn parse_u32(s: &[u8]) -> (r: Option<u32>)
    ensures
        r == if parse_ok(s@) {
            Some(parsed_u32(s@))
        } else {
            None::<u32>
        },
{
    let start: usize = if s.len() > 0 && s[0] == PLUS {
        1
    } else {
        0
    };
    let ghost d = digits_part(s@);
    proof {
        assert(d =~= s@.skip(start as int));
    }
    if start == s.len() {
        return None;
    }
    let mut acc: u64 = 0;
    let mut j: usize = start;
    while j < s.len()
        invariant
            start <= j <= s.len(),
            d == digits_part(s@),
            d == s@.skip(start as int),
            d.len() == s.len() - start,
            acc == dec_val(d.take(j - start)),
            acc <= u32::MAX,
            forall|k: int| 0 <= k < j - start ==> is_digit(#[trigger] d[k]),
        decreases s.len() - j,
    {
        let b = s[j];
        proof {
            assert(d[j - start] == s@[j as int]);
        }
        if !(DIGIT_0 <= b && b <= DIGIT_9) {
            proof {
                assert(!is_digit(d[j - start]));
            }
            return None;
        }
        let ghost pre = d.take(j - start);
        acc = acc * 10 + ((b - DIGIT_0) as u64);
        proof {
            assert(d.take(j - start + 1).drop_last() =~= pre);
            assert(d.take(j - start + 1).last() == d[j - start]);
            assert(acc == dec_val(d.take(j - start + 1)));
        }
        if acc > 0xFFFF_FFFF {
            proof {
                lemma_dec_val_prefix(d, j - start + 1);
                assert(dec_val(d) > u32::MAX);
            }
            return None;
        }
        j += 1;
    }
    proof {
        assert(d.take(s@.len() - start) =~= d);
        assert(parse_ok(s@));
    }
    Some(acc as u32)
}

/// Whether `p` is exactly the collection path `/items`.
fn is_items_path(p: &[u8]) -> (b: bool)
    ensures
        b == (p@ == items_path()),
{
    if p.len() != 6 {
        proof {
            assert(items_path().len() == 6);
        }
        return false;
    }
    let b = p[0] == SLASH && p[1] == LC_I && p[2] == LC_T && p[3] == LC_E && p[4] == LC_M && p[5]
        == LC_S;
    proof {
        if b {
            assert(p@ =~= items_path());
        } else {
            assert(p@ != items_path());
        }
    }
    b
}

/// Whether `p` begins with the single-record prefix `/items/`.
fn has_items_prefix(p: &[u8]) -> (b: bool)
    ensures
        b == starts_with(p@, items_prefix()),
{
    if p.len() < 7 {
        return false;
    }
    let b = p[0] == SLASH && p[1] == LC_I && p[2] == LC_T && p[3] == LC_E && p[4] == LC_M && p[5]
        == LC_S && p[6] == SLASH;
    proof {
        if b {
            assert(p@.take(7) =~= items_prefix());
        } else {
            assert(p@.take(7) != items_prefix());
        }
    }
    b
}

/// The route for an identifier-bearing path: the suffix after
/// `/items/` taken verbatim and read as a `u32`.
pub open spec fn id_route_of(p: Seq<u8>, put: bool) -> Route {
    let suffix = p.skip(items_prefix().len() as int);
    if parse_ok(suffix) {
        if put {
            Route::PutItem(parsed_u32(suffix))
        } else {
            Route::DeleteItem(parsed_u32(suffix))
        }
    } else {
        Route::BadId
    }
}

/// The routing table: which action a request's method and path select.
pub open spec fn route_of(m: Method, p: Seq<u8>) -> Route {
    match m {
        Method::Post => if p == items_path() {
            Route::PostItems
        } else {
            Route::NotFound
        },
        Method::Get => if p == items_path() {
            Route::GetItems
        } else {
            Route::NotFound
        },
        Method::Put => if starts_with(p, items_prefix()) {
            id_route_of(p, true)
        } else {
            Route::NotFound
        },
        Method::Delete => if starts_with(p, items_prefix()) {
            id_route_of(p, false)
        } else {
            Route::NotFound
        },
        Method::Other => Route::NotFound,
    }
}

/// Routes a request by its method and path, as the routing table says.
pub fn route(method: Method, path: &[u8]) -> (r: Route)
    ensures
        r == route_of(method, path@),
{
    match method {
        Method::Post => {
            if is_items_path(path) {
                Route::PostItems
            } else {
                Route::NotFound
            }
        },
        Method::Get => {
            if is_items_path(path) {
                Route::GetItems
            } else {
                Route::NotFound
            }
        },
        Method::Put => {
            if has_items_prefix(path) {
                let suffix: &[u8] = &path[7..path.len()];
                proof {
                    assert(suffix@ =~= path@.skip(7));
                }
                match parse_u32(suffix) {
                    Some(id) => Route::PutItem(id),
                    None => Route::BadId,
                }
            } else {
                Route::NotFound
            }
        },
        Method::Delete => {
            if has_items_prefix(path) {
                let suffix: &[u8] = &path[7..path.len()];
                proof {
                    assert(suffix@ =~= path@.skip(7));
                }
                match parse_u32(suffix) {
                    Some(id) => Route::DeleteItem(id),
                    None => Route::BadId,
                }
            } else {
                Route::NotFound
            }
        },
        Method::Other => Route::NotFound,
    }
}

} // verus!
