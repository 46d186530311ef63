use vstd::prelude::*;
use vstd::string::StrSliceExecFns;
use crate::item::{Item, ItemV, views_of};

verus! {

/// The character for the decimal digit `d`.
pub open spec fn digit_char(d: nat) -> char {
    if d == 0 {
        '0'
    } else if d == 1 {
        '1'
    } else if d == 2 {
        '2'
    } else if d == 3 {
        '3'
    } else if d == 4 {
        '4'
    } else if d == 5 {
        '5'
    } else if d == 6 {
        '6'
    } else if d == 7 {
        '7'
    } else if d == 8 {
        '8'
    } else {
        '9'
    }
}

/// The character for the hexadecimal digit `d`, lower case.
pub open spec fn hex_char(d: nat) -> char {
    if d < 10 {
        digit_char(d)
    } else if d == 10 {
        'a'
    } else if d == 11 {
        'b'
    } else if d == 12 {
        'c'
    } else if d == 13 {
        'd'
    } else if d == 14 {
        'e'
    } else {
        'f'
    }
}

/// The decimal digits of `n`, most significant first, no sign and no
/// leading zero (a single `0` for zero).
pub open spec fn dec_chars(n: nat) -> Seq<char>
    decreases n,
{
    if n < 10 {
        seq![digit_char(n)]
    } else {
        dec_chars(n / 10).push(digit_char(n % 10))
    }
}

/// How a character appears inside a JSON string literal: quote and
/// backslash get a backslash escape, the control characters with short
/// escapes get those, every other control character becomes a
/// `\u00` escape with two lower-case hex digits, and everything else
/// stands as itself.
pub open spec fn escape_char(c: char) -> Seq<char> {
    if c == '"' {
        seq!['\\', '"']
    } else if c == '\\' {
        seq!['\\', '\\']
    } else if (c as u32) == 8 {
        seq!['\\', 'b']
    } else if (c as u32) == 9 {
        seq!['\\', 't']
    } else if (c as u32) == 10 {
        seq!['\\', 'n']
    } else if (c as u32) == 12 {
        seq!['\\', 'f']
    } else if (c as u32) == 13 {
        seq!['\\', 'r']
    } else if (c as u32) < 32 {
        seq!['\\', 'u', '0', '0', hex_char(((c as u32) / 16) as nat), hex_char(((c as u32) % 16) as nat)]
    } else {
        seq![c]
    }
}

/// The body of the JSON string literal for `s`: each character in
/// order, escaped as JSON asks.
pub open spec fn escaped(s: Seq<char>) -> Seq<char>
    decreases s.len(),
{
    if s.len() == 0 {
        Seq::empty()
    } else {
        escaped(s.drop_last()) + escape_char(s.last())
    }
}

/// The JSON object for one record: `{"id":N,"name":"..."}`, fields in
/// declaration order, no spacing.
pub open spec fn json_of_item(it: ItemV) -> Seq<char> {
    seq!['{', '"', 'i', 'd', '"', ':'] + dec_chars(it.id as nat) + seq![
        ',',
        '"',
        'n',
        'a',
        'm',
        'e',
        '"',
        ':',
        '"',
    ] + escaped(it.name) + seq!['"', '}']
}

/// The comma-separated JSON objects of the records in `s`, in order.
pub open spec fn joined_items(s: Seq<ItemV>) -> Seq<char>
    decreases s.len(),
{
    if s.len() == 0 {
        Seq::empty()
    } else if s.len() == 1 {
        json_of_item(s[0])
    } else {
        joined_items(s.drop_last()) + seq![','] + json_of_item(s.last())
    }
}

/// The JSON array of the records in `s`: `[` objects `]`, no spacing.
pub open spec fn json_of_items(s: Seq<ItemV>) -> Seq<char> {
    seq!['['] + joined_items(s) + seq![']']
}

/// The character for the decimal digit `d`, as `digit_char` gives it.
fn digit_char_x(d: u32) -> (c: char)
    requires
        d < 10,
    ensures
        c == digit_char(d as nat),
{
    if d == 0 {
        '0'
    } else if d == 1 {
        '1'
    } else if d == 2 {
        '2'
    } else if d == 3 {
        '3'
    } else if d == 4 {
        '4'
    } else if d == 5 {
        '5'
    } else if d == 6 {
        '6'
    } else if d == 7 {
        '7'
    } else if d == 8 {
        '8'
    } else {
        '9'
    }
}

/// The character for the hexadecimal digit `d`, as `hex_char` gives it.
fn hex_char_x(d: u32) -> (c: char)
    requires
        d < 16,
    ensures
        c == hex_char(d as nat),
{
    if d < 10 {
        digit_char_x(d)
    } else if d == 10 {
        'a'
    } else if d == 11 {
        'b'
    } else if d == 12 {
        'c'
    } else if d == 13 {
        'd'
    } else if d == 14 {
        'e'
    } else {
        'f'
    }
}

/// Appends the decimal digits of `n` to `out`.
fn push_dec(out: &mut Vec<char>, n: u32)
    ensures
        final(out)@ == old(out)@ + dec_chars(n as nat),
    decreases n,
{
    if n < 10 {
        out.push(digit_char_x(n));
        proof {
            assert(final(out)@ =~= old(out)@ + dec_chars(n as nat));
        }
    } else {
        push_dec(out, n / 10);
        out.push(digit_char_x(n % 10));
        proof {
            assert((n / 10) as nat == n as nat / 10);
            assert((n % 10) as nat == n as nat % 10);
            assert(final(out)@ =~= old(out)@ + dec_chars(n as nat));
        }
    }
}

/// Appends the JSON escape of the one character `c` to `out`.
fn push_escaped_char(out: &mut Vec<char>, c: char)
    ensures
        final(out)@ == old(out)@ + escape_char(c),
{
    if c == '"' {
        out.push('\\');
        out.push('"');
    } else if c == '\\' {
        out.push('\\');
        out.push('\\');
    } else {
        let u = c as u32;
        if u == 8 {
            out.push('\\');
            out.push('b');
        } else if u == 9 {
            out.push('\\');
            out.push('t');
        } else if u == 10 {
            out.push('\\');
            out.push('n');
        } else if u == 12 {
            out.push('\\');
            out.push('f');
        } else if u == 13 {
            out.push('\\');
            out.push('r');
        } else if u < 32 {
            out.push('\\');
            out.push('u');
            out.push('0');
            out.push('0');
            out.push(hex_char_x(u / 16));
            out.push(hex_char_x(u % 16));
        } else {
            out.push(c);
        }
    }
    proof {
        assert(final(out)@ =~= old(out)@ + escape_char(c));
    }
}

/// Appends the escaped characters of `s` to `out`.
fn push_escaped(out: &mut Vec<char>, s: &String)
    ensures
        final(out)@ == old(out)@ + escaped(s@),
{
    let n = s.as_str().unicode_len();
    let mut i: usize = 0;
    while i < n
        invariant
            i <= n,
            n == s@.len(),
            out@ == old(out)@ + escaped(s@.take(i as int)),
        decreases n - i,
    {
        let c = s.as_str().get_char(i);
        push_escaped_char(out, c);
        proof {
            assert(s@.take(i + 1).drop_last() =~= s@.take(i as int));
            assert(s@.take(i + 1).last() == s@[i as int]);
            assert(out@ =~= old(out)@ + escaped(s@.take(i + 1)));
        }
        i += 1;
    }
    proof {
        assert(s@.take(n as int) =~= s@);
    }
}

/// Appends the JSON object for the record `it` to `out`.
fn push_item(out: &mut Vec<char>, it: &Item)
    ensures
        final(out)@ == old(out)@ + json_of_item(it@),
{
    out.push('{');
    out.push('"');
    out.push('i');
    out.push('d');
    out.push('"');
    out.push(':');
    proof {
        assert(out@ =~= old(out)@ + seq!['{', '"', 'i', 'd', '"', ':']);
    }
    push_dec(out, it.id);
    out.push(',');
    out.push('"');
    out.push('n');
    out.push('a');
    out.push('m');
    out.push('e');
    out.push('"');
    out.push(':');
    out.push('"');
    proof {
        assert(out@ =~= old(out)@ + seq!['{', '"', 'i', 'd', '"', ':'] + dec_chars(it.id as nat)
            + seq![',', '"', 'n', 'a', 'm', 'e', '"', ':', '"']);
    }
    push_escaped(out, &it.name);
    out.push('"');
    out.push('}');
    proof {
        assert(out@ =~= old(out)@ + json_of_item(it@));
    }
}

/// Relies on `String: FromIterator<char>`: collecting characters gives
/// the string of exactly those characters in order.
#[verifier::external_body]
fn chars_to_string(v: &Vec<char>) -> (s: String)
    ensures
        s@ == v@,
{
    v.iter().collect()
}

/// Encodes the records as the `GET /items` response body: a JSON array
/// of `{"id":N,"name":"..."}` objects in store order, without spacing.
pub fn encode_items(items: &Vec<Item>) -> (r: String)
    ensures
        r@ == json_of_items(views_of(items@)),
{
    let ghost vs = views_of(items@);
    let mut out: Vec<char> = Vec::new();
    out.push('[');
    let mut i: usize = 0;
    while i < items.len()
        invariant
            i <= items.len(),
            vs == views_of(items@),
            vs.len() == items@.len(),
            out@ == seq!['['] + joined_items(vs.take(i as int)),
        decreases items.len() - i,
    {
        if i > 0 {
            out.push(',');
        }
        push_item(&mut out, &items[i]);
        proof {
            assert(vs.take(i + 1).drop_last() =~= vs.take(i as int));
            assert(vs.take(i + 1).last() == vs[i as int]);
            assert(vs[i as int] == items@[i as int]@);
            if i == 0 {
                assert(joined_items(vs.take(1)) == json_of_item(vs.take(1)[0]));
                assert(out@ =~= seq!['['] + joined_items(vs.take(i + 1)));
            } else {
                assert(joined_items(vs.take(i + 1)) == joined_items(vs.take(i as int)) + seq![',']
                    + json_of_item(vs[i as int]));
                assert(out@ =~= seq!['['] + joined_items(vs.take(i + 1)));
            }
        }
        i += 1;
    }
    out.push(']');
    proof {
        assert(vs.take(items@.len() as int) =~= vs);
        assert(out@ =~= json_of_items(vs));
    }
    chars_to_string(&out)
}

} // verus!
