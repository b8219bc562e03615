//! What holds of JSON values, in terms of their members and items.

use vstd::prelude::*;
use crate::json::{
    Json, JsonNumber, JsonView, NumberView, as_list, as_text, as_unsigned, empty_object, field,
    list_field, list_or_empty, number, opt_number, opt_text_value, takes_members, text_field,
    text_list, text_or_empty, unsigned_field, views, with_field, without_field,
};

verus! {

/// A member that is set is there with its value, in an object as in what becomes one; the other
/// members of an object stay, and a value that is no object has no others.
pub proof fn lemma_set_member(v: JsonView, name: Seq<char>, x: JsonView, other: Seq<char>)
    ensures
        with_field(v, name, x) is Object,
        field(with_field(v, name, x), name) == Some(x),
        other != name ==> field(with_field(v, name, x), other) == field(v, other),
{
}

/// A member that is removed is gone, and all else stays.
pub proof fn lemma_removed_member(v: JsonView, name: Seq<char>, other: Seq<char>)
    ensures
        field(without_field(v, name), name) is None,
        other != name ==> field(without_field(v, name), other) == field(v, other),
        without_field(v, name) is Object <==> v is Object,
        !(v is Object) ==> without_field(v, name) == v,
{
}

/// Only objects have members, and these are the ones that they hold.
pub proof fn lemma_members(m: Map<Seq<char>, JsonView>, v: JsonView, name: Seq<char>)
    ensures
        m.contains_key(name) ==> field(JsonView::Object(m), name) == Some(m[name]),
        !m.contains_key(name) ==> field(JsonView::Object(m), name) is None,
        !(v is Object) ==> field(v, name) is None,
        field(empty_object(), name) is None,
        takes_members(v) <==> v is Object || v is Null,
{
}

/// A member is read as text, as a list or as an unsigned integer exactly if it is one.
pub proof fn lemma_members_are_read(
    v: JsonView,
    name: Seq<char>,
    s: Seq<char>,
    items: Seq<JsonView>,
    n: u64,
)
    ensures
        text_field(v, name) == Some(s) <==> field(v, name) == Some(JsonView::Text(s)),
        text_field(v, name) is None <==> !(field(v, name) matches Some(JsonView::Text(_))),
        list_field(v, name) == Some(items) <==> field(v, name) == Some(JsonView::List(items)),
        list_field(v, name) is None <==> !(field(v, name) matches Some(JsonView::List(_))),
        unsigned_field(v, name) == Some(n) <==> field(v, name) == Some(
            JsonView::Number(NumberView::Integer(n as int)),
        ),
        text_field(v, name) matches Some(t) ==> text_or_empty(v, name) == t,
        text_field(v, name) is None ==> text_or_empty(v, name).len() == 0,
        list_field(v, name) matches Some(l) ==> list_or_empty(v, name) == l,
        list_field(v, name) is None ==> list_or_empty(v, name).len() == 0,
{
}

/// Values are read as what they are and as nothing else.
pub proof fn lemma_values_are_read(v: JsonView, s: Seq<char>, items: Seq<JsonView>, n: int)
    ensures
        as_text(v) == Some(s) <==> v == JsonView::Text(s),
        as_list(v) == Some(items) <==> v == JsonView::List(items),
        as_unsigned(v) matches Some(k) ==> v == JsonView::Number(NumberView::Integer(k as int)),
        0 <= n <= u64::MAX ==> as_unsigned(JsonView::Number(NumberView::Integer(n))) == Some(
            n as u64,
        ),
        n < 0 || n > u64::MAX ==> as_unsigned(JsonView::Number(NumberView::Integer(n))) is None,
        number(n) == JsonView::Number(NumberView::Integer(n)),
{
}

/// Optional values become null where they are absent.
pub proof fn lemma_optional_values(s: Seq<char>, n: u32)
    ensures
        opt_text_value(Some(s)) == JsonView::Text(s),
        opt_text_value(None) == JsonView::Null,
        opt_number(Some(n)) == JsonView::Number(NumberView::Integer(n as int)),
        opt_number(None) == JsonView::Null,
{
}

/// A list has the value of each of its items, in their order.
pub proof fn lemma_items(v: Seq<Json>, texts: Seq<Seq<char>>)
    ensures
        views(v).len() == v.len(),
        forall|i: int| 0 <= i < v.len() ==> #[trigger] views(v)[i] == v[i]@,
        text_list(texts) matches JsonView::List(l) && l.len() == texts.len() && forall|i: int|
            0 <= i < texts.len() ==> #[trigger] l[i] == JsonView::Text(texts[i]),
{
}

/// Numbers are the same if their values are: an integer however it is held, and a zero with either
/// sign.
pub proof fn lemma_numbers(n: u64, k: i64, bits: u64)
    ensures
        JsonNumber::Unsigned(n)@ == NumberView::Integer(n as int),
        JsonNumber::Negative(k)@ == NumberView::Integer(k as int),
        bits != 0x8000_0000_0000_0000 ==> JsonNumber::Float(bits)@ == NumberView::Float(bits),
        JsonNumber::Float(0x8000_0000_0000_0000)@ == JsonNumber::Float(0)@,
{
}

} // verus!
