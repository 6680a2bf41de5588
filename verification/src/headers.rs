//! Header lists: ordered `(name, value)` pairs in which a name may repeat,
//! and their lookup by field name, matched ASCII case-insensitively.

use vstd::prelude::*;
use vstd::utf8::encode_utf8;

verus! {

/// `b` with an ASCII upper-case letter mapped to its lower-case letter.
pub open spec fn lower_byte(b: u8) -> u8 {
    if 65 <= b <= 90 {
        (b + 32) as u8
    } else {
        b
    }
}

/// The bytes with every ASCII upper-case letter mapped to lower case;
/// every other byte is unchanged.
pub open spec fn ascii_lowercase(bytes: Seq<u8>) -> Seq<u8> {
    bytes.map_values(|b: u8| lower_byte(b))
}

/// Two header names denote the same field: their UTF-8 encodings are equal
/// once ASCII letters are compared without regard to case.
pub open spec fn same_field_name(a: Seq<char>, b: Seq<char>) -> bool {
    ascii_lowercase(encode_utf8(a)) == ascii_lowercase(encode_utf8(b))
}

/// A header list as `(name, value)` character sequences.
pub open spec fn header_view(headers: Seq<(String, String)>) -> Seq<(Seq<char>, Seq<char>)> {
    headers.map_values(|h: (String, String)| (h.0@, h.1@))
}

/// The values of every entry of `headers` whose name is the field `name`,
/// in list order.
pub open spec fn field_values(headers: Seq<(Seq<char>, Seq<char>)>, name: Seq<char>) -> Seq<Seq<char>>
    decreases headers.len(),
{
    if headers.len() == 0 {
        seq![]
    } else {
        let rest = field_values(headers.drop_last(), name);
        if same_field_name(headers.last().0, name) {
            rest.push(headers.last().1)
        } else {
            rest
        }
    }
}

/// The entries of `headers` whose name is not the field `name`, in list order.
pub open spec fn without_field(headers: Seq<(Seq<char>, Seq<char>)>, name: Seq<char>) -> Seq<(Seq<char>, Seq<char>)>
    decreases headers.len(),
{
    if headers.len() == 0 {
        seq![]
    } else {
        let rest = without_field(headers.drop_last(), name);
        if same_field_name(headers.last().0, name) {
            rest
        } else {
            rest.push(headers.last())
        }
    }
}

/// The character views of a list of string slices.
pub open spec fn str_views(strs: Seq<&str>) -> Seq<Seq<char>> {
    strs.map_values(|s: &str| s@)
}

fn lower_byte_exec(b: u8) -> (res: u8)
    ensures
        res == lower_byte(b),
{
    if 65 <= b && b <= 90 {
        b + 32
    } else {
        b
    }
}

/// Whether `a` and `b` name the same header field (ASCII case-insensitive).
pub fn same_field(a: &str, b: &str) -> (res: bool)
    ensures
        res == same_field_name(a@, b@),
{
    let ab = a.as_bytes();
    let bb = b.as_bytes();
    let len = ab.len();
    if len != bb.len() {
        assert(ascii_lowercase(ab@).len() != ascii_lowercase(bb@).len());
        return false;
    }
    let mut i: usize = 0;
    while i < len
        invariant
            0 <= i <= len,
            len == ab@.len(),
            len == bb@.len(),
            ab@ == encode_utf8(a@),
            bb@ == encode_utf8(b@),
            forall|j: int| 0 <= j < i ==> lower_byte(ab@[j]) == lower_byte(bb@[j]),
        decreases len - i,
    {
        if lower_byte_exec(ab[i]) != lower_byte_exec(bb[i]) {
            assert(ascii_lowercase(ab@)[i as int] != ascii_lowercase(bb@)[i as int]);
            return false;
        }
        i += 1;
    }
    assert(ascii_lowercase(ab@) =~= ascii_lowercase(bb@));
    true
}

/// Every value of the field `name` in `headers`, in list order.
pub fn values_of<'a>(headers: &'a Vec<(String, String)>, name: &str) -> (res: Vec<&'a str>)
    ensures
        str_views(res@) == field_values(header_view(headers@), name@),
{
    let mut out: Vec<&'a str> = Vec::new();
    let len = headers.len();
    let ghost view = header_view(headers@);
    let mut i: usize = 0;
    while i < len
        invariant
            0 <= i <= len,
            len == headers@.len(),
            view == header_view(headers@),
            str_views(out@) == field_values(view.take(i as int), name@),
        decreases len - i,
    {
        let entry = &headers[i];
        let ghost before = out@;
        assert(view.take(i + 1).drop_last() =~= view.take(i as int));
        assert(view.take(i + 1).last() == (entry.0@, entry.1@));
        if same_field(entry.0.as_str(), name) {
            out.push(entry.1.as_str());
            assert(str_views(out@) =~= str_views(before).push(entry.1@));
        }
        i += 1;
    }
    assert(view.take(len as int) =~= view);
    out
}

/// The first value of the field `name` in `headers`.
pub fn first_value_of<'a>(headers: &'a Vec<(String, String)>, name: &str) -> (res: Option<&'a str>)
    ensures
        res is Some <==> field_values(header_view(headers@), name@).len() > 0,
        res matches Some(v) ==> v@ == field_values(header_view(headers@), name@)[0],
{
    let values = values_of(headers, name);
    if values.len() > 0 {
        assert(str_views(values@)[0] == values@[0]@);
        Some(values[0])
    } else {
        None
    }
}

/// `headers` without any entry of the field `name`.
pub fn remove_field(headers: &Vec<(String, String)>, name: &str) -> (res: Vec<(String, String)>)
    ensures
        header_view(res@) == without_field(header_view(headers@), name@),
{
    let mut out: Vec<(String, String)> = Vec::new();
    let len = headers.len();
    let ghost view = header_view(headers@);
    let mut i: usize = 0;
    while i < len
        invariant
            0 <= i <= len,
            len == headers@.len(),
            view == header_view(headers@),
            header_view(out@) == without_field(view.take(i as int), name@),
        decreases len - i,
    {
        let entry = &headers[i];
        let ghost before = out@;
        assert(view.take(i + 1).drop_last() =~= view.take(i as int));
        assert(view.take(i + 1).last() == (entry.0@, entry.1@));
        if !same_field(entry.0.as_str(), name) {
            out.push((entry.0.clone(), entry.1.clone()));
            assert(header_view(out@) =~= header_view(before).push((entry.0@, entry.1@)));
        }
        i += 1;
    }
    assert(view.take(len as int) =~= view);
    out
}

/// Appending a header line adds its value after the values already there for
/// every name that matches its name, and changes what no other name finds:
/// two lines with one name both stay.
pub proof fn law_append_keeps_earlier_values(headers: Seq<(Seq<char>, Seq<char>)>, entry: (Seq<char>, Seq<char>), name: Seq<char>)
    ensures
        field_values(headers.push(entry), name) == if same_field_name(entry.0, name) {
            field_values(headers, name).push(entry.1)
        } else {
            field_values(headers, name)
        },
{
    assert(headers.push(entry).drop_last() =~= headers);
}

/// Header names are matched case-insensitively: names that match each other
/// find the same values.
pub proof fn law_lookup_ignores_ascii_case(headers: Seq<(Seq<char>, Seq<char>)>, a: Seq<char>, b: Seq<char>)
    requires
        same_field_name(a, b),
    ensures
        field_values(headers, a) == field_values(headers, b),
    decreases headers.len(),
{
    if headers.len() > 0 {
        law_lookup_ignores_ascii_case(headers.drop_last(), a, b);
    }
}

/// Removing a field leaves no value for any name that matches it, and leaves
/// what every other name finds as it was.
pub proof fn law_remove_field(headers: Seq<(Seq<char>, Seq<char>)>, removed: Seq<char>, name: Seq<char>)
    ensures
        field_values(without_field(headers, removed), name) == if same_field_name(removed, name) {
            Seq::<Seq<char>>::empty()
        } else {
            field_values(headers, name)
        },
    decreases headers.len(),
{
    if headers.len() > 0 {
        let prefix = headers.drop_last();
        law_remove_field(prefix, removed, name);
        let rest = without_field(prefix, removed);
        if !same_field_name(headers.last().0, removed) {
            law_append_keeps_earlier_values(rest, headers.last(), name);
        }
    } else {
        assert(field_values(Seq::<(Seq<char>, Seq<char>)>::empty(), name) =~= Seq::<Seq<char>>::empty());
    }
}

/// ASCII case folding maps each upper-case letter, `A` to `Z`, to the letter
/// 32 above it, and leaves every other byte as it is.
pub proof fn law_lower_byte_folds_upper_case(b: u8)
    ensures
        65 <= b <= 90 ==> lower_byte(b) == b + 32,
        !(65 <= b <= 90) ==> lower_byte(b) == b,
{
}

/// Two header names are the same field exactly when their UTF-8 bytes have
/// the same length and, position by position, are equal or are the upper-
/// and lower-case forms of one ASCII letter.
pub proof fn law_same_field_is_ascii_case_variants(a: Seq<char>, b: Seq<char>)
    ensures
        same_field_name(a, b) <==> {
            &&& encode_utf8(a).len() == encode_utf8(b).len()
            &&& forall|i: int|
                0 <= i < encode_utf8(a).len() ==> {
                    let x = #[trigger] encode_utf8(a)[i];
                    let y = encode_utf8(b)[i];
                    ||| x == y
                    ||| (65 <= x <= 90 && y == x + 32)
                    ||| (65 <= y <= 90 && x == y + 32)
                }
        },
{
    let ea = encode_utf8(a);
    let eb = encode_utf8(b);
    if same_field_name(a, b) {
        assert(ascii_lowercase(ea).len() == ascii_lowercase(eb).len());
        assert forall|i: int| 0 <= i < ea.len() implies {
            let x = #[trigger] ea[i];
            let y = eb[i];
            ||| x == y
            ||| (65 <= x <= 90 && y == x + 32)
            ||| (65 <= y <= 90 && x == y + 32)
        } by {
            assert(ascii_lowercase(ea)[i] == ascii_lowercase(eb)[i]);
        }
    }
    if ea.len() == eb.len() && forall|i: int|
        0 <= i < ea.len() ==> {
            let x = #[trigger] ea[i];
            let y = eb[i];
            ||| x == y
            ||| (65 <= x <= 90 && y == x + 32)
            ||| (65 <= y <= 90 && x == y + 32)
        } {
        assert forall|i: int| 0 <= i < ea.len() implies ascii_lowercase(ea)[i] == ascii_lowercase(eb)[i] by {
            let x = ea[i];
            let y = eb[i];
        }
        assert(ascii_lowercase(ea) =~= ascii_lowercase(eb));
    }
}

/// Replacing a field with one line leaves exactly that line's value for every
/// name that matches it, and what every other name finds as it was.
pub proof fn law_replace_field(headers: Seq<(Seq<char>, Seq<char>)>, name: Seq<char>, value: Seq<char>, query: Seq<char>)
    ensures
        field_values(without_field(headers, name).push((name, value)), query) == if same_field_name(name, query) {
            seq![value]
        } else {
            field_values(headers, query)
        },
{
    law_remove_field(headers, name, query);
    law_append_keeps_earlier_values(without_field(headers, name), (name, value), query);
    if same_field_name(name, query) {
        assert(Seq::<Seq<char>>::empty().push(value) =~= seq![value]);
    }
}

} // verus!
