//! JSON values as plain data.
//!
//! A [`Json`] holds what a report or a model's reply holds. Its view, [`JsonView`], is the value
//! as JSON sees it: the order of an object's members does not matter, and neither does the sign
//! of a floating-point zero. Two values are equal where their views are.

use vstd::prelude::*;

use crate::text;

verus! {

/// A JSON number. A floating-point number is held by its IEEE 754 bit pattern.
#[derive(Debug, Clone, Copy)]
pub enum JsonNumber {
    Unsigned(u64),
    Negative(i64),
    Float(u64),
}

/// A JSON value.
#[derive(Debug)]
pub enum Json {
    Null,
    Bool(bool),
    Number(JsonNumber),
    Text(String),
    List(Vec<Json>),
    Object(JsonMap),
}

/// The members of a JSON object; no two have the same name.
#[derive(Debug)]
pub struct JsonMap {
    entries: Vec<(String, Json)>,
}

/// A JSON number as a value.
pub enum NumberView {
    Integer(int),
    Float(u64),
}

/// A JSON value as a mathematical object.
#[verifier::ext_equal]
pub enum JsonView {
    Null,
    Bool(bool),
    Number(NumberView),
    Text(Seq<char>),
    List(Seq<JsonView>),
    Object(Map<Seq<char>, JsonView>),
}

impl JsonNumber {
    pub open spec fn view(&self) -> NumberView {
        match *self {
            JsonNumber::Unsigned(n) => NumberView::Integer(n as int),
            JsonNumber::Negative(n) => NumberView::Integer(n as int),
            JsonNumber::Float(bits) => NumberView::Float(
                if bits == 0x8000_0000_0000_0000 {
                    0
                } else {
                    bits
                },
            ),
        }
    }
}

impl Json {
    pub open spec fn view(&self) -> JsonView
        decreases self,
    {
        match *self {
            Json::Null => JsonView::Null,
            Json::Bool(b) => JsonView::Bool(b),
            Json::Number(n) => JsonView::Number(n.view()),
            Json::Text(s) => JsonView::Text(s@),
            Json::List(v) => JsonView::List(
                Seq::new(
                    v@.len(),
                    |i: int|
                        if 0 <= i < v@.len() {
                            v@[i].view()
                        } else {
                            JsonView::Null
                        },
                ),
            ),
            Json::Object(m) => JsonView::Object(m.view()),
        }
    }
}

/// The members as a map, the last one winning where a name occurs twice.
spec fn entries_map(entries: Seq<(String, Json)>) -> Map<Seq<char>, JsonView>
    decreases entries,
{
    if entries.len() == 0 {
        Map::empty()
    } else {
        entries_map(entries.drop_last()).insert(entries.last().0@, entries.last().1.view())
    }
}

impl JsonMap {
    pub closed spec fn view(&self) -> Map<Seq<char>, JsonView>
        decreases self,
    {
        entries_map(self.entries@)
    }

    #[verifier::type_invariant]
    closed spec fn names_differ(self) -> bool {
        distinct_names(self.entries@)
    }
}

spec fn distinct_names(entries: Seq<(String, Json)>) -> bool {
    forall|i: int, j: int|
        0 <= i < j < entries.len() ==> (#[trigger] entries[i]).0@ != (#[trigger] entries[j]).0@
}


/// The map of members by position: each name maps to the value beside it.
proof fn lemma_entries_map(entries: Seq<(String, Json)>)
    requires
        distinct_names(entries),
    ensures
        forall|i: int|
            0 <= i < entries.len() ==> entries_map(entries).contains_key(
                (#[trigger] entries[i]).0@,
            ) && entries_map(entries)[entries[i].0@] == entries[i].1.view(),
        forall|name: Seq<char>| #[trigger]
            entries_map(entries).contains_key(name) ==> exists|i: int|
                0 <= i < entries.len() && (#[trigger] entries[i]).0@ == name,
    decreases entries.len(),
{
    if entries.len() > 0 {
        let rest = entries.drop_last();
        assert forall|i: int, j: int| 0 <= i < j < rest.len() implies (#[trigger] rest[i]).0@ != (
        #[trigger] rest[j]).0@ by {
            assert(rest[i] == entries[i] && rest[j] == entries[j]);
        }
        lemma_entries_map(rest);
        let last = entries.len() - 1;
        assert forall|i: int| 0 <= i < entries.len() implies entries_map(entries).contains_key(
            (#[trigger] entries[i]).0@,
        ) && entries_map(entries)[entries[i].0@] == entries[i].1.view() by {
            if i < last {
                assert(rest[i] == entries[i]);
                assert(entries[i].0@ != entries[last].0@);
            }
        }
        assert forall|name: Seq<char>| #[trigger]
            entries_map(entries).contains_key(name) implies exists|i: int|
            0 <= i < entries.len() && (#[trigger] entries[i]).0@ == name by {
            if name == entries[last].0@ {
                assert(entries[last].0@ == name);
            } else {
                assert(entries_map(rest).contains_key(name));
                let i = choose|i: int| 0 <= i < rest.len() && (#[trigger] rest[i]).0@ == name;
                assert(entries[i].0@ == name);
            }
        }
    }
}

/// Members with the same names and values, one by one, make the same map.
proof fn lemma_same_entries(a: Seq<(String, Json)>, b: Seq<(String, Json)>)
    requires
        a.len() == b.len(),
        forall|i: int|
            0 <= i < a.len() ==> (#[trigger] a[i]).0@ == b[i].0@ && a[i].1.view() == b[i].1.view(),
    ensures
        entries_map(a) == entries_map(b),
    decreases a.len(),
{
    if a.len() > 0 {
        let ra = a.drop_last();
        let rb = b.drop_last();
        assert forall|i: int| 0 <= i < ra.len() implies (#[trigger] ra[i]).0@ == rb[i].0@
            && ra[i].1.view() == rb[i].1.view() by {
            assert(ra[i] == a[i] && rb[i] == b[i]);
        }
        lemma_same_entries(ra, rb);
        assert(a[a.len() - 1].0@ == b[b.len() - 1].0@);
    }
}

fn find_name(entries: &Vec<(String, Json)>, name: &str) -> (r: usize)
    ensures
        r <= entries@.len(),
        r < entries@.len() ==> entries@[r as int].0@ == name@,
        forall|i: int| 0 <= i < r ==> (#[trigger] entries@[i]).0@ != name@,
{
    let wanted = name.to_owned();
    let mut i: usize = 0;
    while i < entries.len()
        invariant
            wanted@ == name@,
            i <= entries@.len(),
            forall|j: int| 0 <= j < i ==> (#[trigger] entries@[j]).0@ != name@,
        decreases entries@.len() - i,
    {
        if entries[i].0 == wanted {
            return i;
        }
        i += 1;
    }
    i
}

impl JsonMap {
    pub fn new() -> (r: JsonMap)
        ensures
            r@ == Map::<Seq<char>, JsonView>::empty(),
    {
        JsonMap { entries: Vec::new() }
    }

    /// The value of a member.
    pub fn get(&self, name: &str) -> (r: Option<&Json>)
        ensures
            match r {
                Some(v) => self@.contains_key(name@) && self@[name@] == v@,
                None => !self@.contains_key(name@),
            },
    {
        proof {
            use_type_invariant(self);
            lemma_entries_map(self.entries@);
        }
        let i = find_name(&self.entries, name);
        if i < self.entries.len() {
            Some(&self.entries[i].1)
        } else {
            None
        }
    }

    /// Gives a member a value, adding the member where it is missing.
    pub fn set(&mut self, name: &str, value: Json)
        ensures
            final(self)@ == old(self)@.insert(name@, value@),
    {
        proof {
            use_type_invariant(&*self);
            lemma_entries_map(self.entries@);
        }
        let mut entries: Vec<(String, Json)> = Vec::new();
        std::mem::swap(&mut entries, &mut self.entries);
        let ghost before = entries@;
        let i = find_name(&entries, name);
        if i < entries.len() {
            entries.set(i, (name.to_owned(), value));
        } else {
            entries.push((name.to_owned(), value));
        }
        proof {
            let after = entries@;
            assert forall|j: int, k: int| 0 <= j < k < after.len() implies (#[trigger] after[j]).0@
                != (#[trigger] after[k]).0@ by {
                if j < before.len() && k < before.len() {
                    assert(after[j].0@ == before[j].0@);
                    assert(after[k].0@ == before[k].0@);
                } else {
                    assert(after[j].0@ == before[j].0@);
                }
            }
            lemma_entries_map(after);
            let want = entries_map(before).insert(name@, value@);
            assert forall|n: Seq<char>|
                #![trigger entries_map(after).dom().contains(n)]
                #![trigger want.dom().contains(n)]
                #![trigger entries_map(after)[n]]
                entries_map(after).dom().contains(n) == want.dom().contains(n) && (entries_map(
                    after,
                ).dom().contains(n) ==> entries_map(after)[n] == want[n]) by {
                if n == name@ {
                    assert(after[i as int].0@ == name@);
                } else {
                    if entries_map(before).contains_key(n) {
                        let j = choose|j: int|
                            0 <= j < before.len() && (#[trigger] before[j]).0@ == n;
                        assert(after[j] == before[j]);
                    }
                    if entries_map(after).contains_key(n) {
                        let j = choose|j: int|
                            0 <= j < after.len() && (#[trigger] after[j]).0@ == n;
                        assert(after[j] == before[j]);
                    }
                }
            }
            assert(entries_map(after) =~= want);
        }
        self.entries = entries;
    }

    /// Removes a member, where there is one of that name.
    pub fn remove(&mut self, name: &str)
        ensures
            final(self)@ == old(self)@.remove(name@),
    {
        proof {
            use_type_invariant(&*self);
            lemma_entries_map(self.entries@);
        }
        let mut entries: Vec<(String, Json)> = Vec::new();
        std::mem::swap(&mut entries, &mut self.entries);
        let ghost before = entries@;
        let i = find_name(&entries, name);
        if i < entries.len() {
            entries.remove(i);
        }
        proof {
            let after = entries@;
            assert forall|j: int, k: int| 0 <= j < k < after.len() implies (#[trigger] after[j]).0@
                != (#[trigger] after[k]).0@ by {
                let j0 = if j < i { j } else { j + 1 };
                let k0 = if k < i { k } else { k + 1 };
                if i < before.len() {
                    assert(after[j] == before[j0] && after[k] == before[k0]);
                } else {
                    assert(after[j] == before[j] && after[k] == before[k]);
                }
            }
            lemma_entries_map(after);
            let want = entries_map(before).remove(name@);
            assert forall|n: Seq<char>|
                #![trigger entries_map(after).dom().contains(n)]
                #![trigger want.dom().contains(n)]
                #![trigger entries_map(after)[n]]
                entries_map(after).dom().contains(n) == want.dom().contains(n) && (entries_map(
                    after,
                ).dom().contains(n) ==> entries_map(after)[n] == want[n]) by {
                if entries_map(before).contains_key(n) && n != name@ {
                    let j = choose|j: int| 0 <= j < before.len() && (#[trigger] before[j]).0@ == n;
                    let j1 = if j < i { j } else { j - 1 };
                    assert(after[j1] == before[j]);
                }
                if entries_map(after).contains_key(n) {
                    let j = choose|j: int| 0 <= j < after.len() && (#[trigger] after[j]).0@ == n;
                    if i < before.len() {
                        let j0 = if j < i { j } else { j + 1 };
                        assert(after[j] == before[j0]);
                        if n == name@ {
                            assert(before[i as int].0@ == before[j0].0@);
                        }
                    } else {
                        assert(after[j] == before[j]);
                    }
                }
            }
            assert(entries_map(after) =~= want);
        }
        self.entries = entries;
    }

    /// The number of members.
    pub fn len(&self) -> (r: usize)
        ensures
            r == self.names().len(),
    {
        self.entries.len()
    }

    /// The names of the members in the order in which they are held.
    pub closed spec fn names(&self) -> Seq<Seq<char>> {
        Seq::new(self.entries@.len(), |i: int| self.entries@[i].0@)
    }

    /// A member by position.
    pub fn member(&self, i: usize) -> (r: (&String, &Json))
        requires
            i < self.names().len(),
        ensures
            r.0@ == self.names()[i as int],
            self@.contains_key(r.0@),
            self@[r.0@] == r.1@,
    {
        proof {
            use_type_invariant(self);
            lemma_entries_map(self.entries@);
        }
        (&self.entries[i].0, &self.entries[i].1)
    }

    /// The positions run through all members.
    pub proof fn lemma_names(&self)
        ensures
            forall|name: Seq<char>| #[trigger]
                self@.contains_key(name) ==> self.names().contains(name),
    {
        lemma_entries_names(self.entries@);
        assert forall|name: Seq<char>| #[trigger] self@.contains_key(name) implies self.names().contains(
            name,
        ) by {
            assert(entries_map(self.entries@).contains_key(name));
            let i = choose|i: int|
                0 <= i < self.entries@.len() && (#[trigger] self.entries@[i]).0@ == name;
            assert(self.names()[i] == name);
        }
    }
}

proof fn lemma_entries_names(entries: Seq<(String, Json)>)
    ensures
        forall|name: Seq<char>| #[trigger]
            entries_map(entries).contains_key(name) ==> exists|i: int|
                0 <= i < entries.len() && (#[trigger] entries[i]).0@ == name,
    decreases entries.len(),
{
    if entries.len() > 0 {
        let rest = entries.drop_last();
        let last = entries.len() - 1;
        lemma_entries_names(rest);
        assert forall|name: Seq<char>| #[trigger]
            entries_map(entries).contains_key(name) implies exists|i: int|
            0 <= i < entries.len() && (#[trigger] entries[i]).0@ == name by {
            if name == entries[last].0@ {
                assert(entries[last].0@ == name);
            } else {
                assert(entries_map(rest).contains_key(name));
                let i = choose|i: int| 0 <= i < rest.len() && (#[trigger] rest[i]).0@ == name;
                assert(entries[i].0@ == name);
            }
        }
    }
}

/// The views of the values of a list.
pub open spec fn views(v: Seq<Json>) -> Seq<JsonView> {
    Seq::new(v.len(), |i: int| v[i]@)
}

/// The view of a list is the list of the views.
pub proof fn lemma_list_view(v: Vec<Json>)
    ensures
        Json::List(v)@ == JsonView::List(views(v@)),
{
    assert(Json::List(v)@->List_0 =~= views(v@));
}

/// A copy of a list of values.
pub fn copy_list(v: &Vec<Json>) -> (r: Vec<Json>)
    ensures
        views(r@) == views(v@),
    decreases v,
{
    let mut out: Vec<Json> = Vec::new();
    let mut i: usize = 0;
    while i < v.len()
        invariant
            i <= v@.len(),
            out@.len() == i,
            forall|j: int| 0 <= j < i ==> (#[trigger] out@[j])@ == v@[j]@,
        decreases v@.len() - i,
    {
        out.push(v[i].clone());
        i += 1;
    }
    assert(views(out@) =~= views(v@));
    out
}

impl Clone for JsonMap {
    fn clone(&self) -> (r: JsonMap)
        ensures
            r@ == self@,
        decreases self,
    {
        proof {
            use_type_invariant(self);
        }
        let mut out: Vec<(String, Json)> = Vec::new();
        let mut i: usize = 0;
        while i < self.entries.len()
            invariant
                i <= self.entries@.len(),
                out@.len() == i,
                forall|j: int|
                    0 <= j < i ==> (#[trigger] out@[j]).0@ == self.entries@[j].0@
                        && out@[j].1.view() == self.entries@[j].1.view(),
            decreases self.entries@.len() - i,
        {
            let name = self.entries[i].0.clone();
            let value = self.entries[i].1.clone();
            out.push((name, value));
            i += 1;
        }
        proof {
            lemma_same_entries(out@, self.entries@);
            assert forall|j: int, k: int| 0 <= j < k < out@.len() implies (#[trigger] out@[j]).0@
                != (#[trigger] out@[k]).0@ by {
                assert(self.entries@[j].0@ != self.entries@[k].0@);
            }
        }
        JsonMap { entries: out }
    }
}

impl Clone for Json {
    fn clone(&self) -> (r: Json)
        ensures
            r@ == self@,
        decreases self,
    {
        match self {
            Json::Null => Json::Null,
            Json::Bool(b) => Json::Bool(*b),
            Json::Number(n) => Json::Number(*n),
            Json::Text(s) => Json::Text(s.clone()),
            Json::List(v) => {
                let copy = copy_list(v);
                proof {
                    lemma_list_view(*v);
                    lemma_list_view(copy);
                }
                Json::List(copy)
            },
            Json::Object(m) => Json::Object(m.clone()),
        }
    }
}


// ---------------------------------------------------------------------------------------------
// Reading and changing values
// ---------------------------------------------------------------------------------------------

/// The value of a member, where the value is an object that has it.
pub open spec fn field(v: JsonView, name: Seq<char>) -> Option<JsonView> {
    match v {
        JsonView::Object(m) => if m.contains_key(name) {
            Some(m[name])
        } else {
            None
        },
        _ => None,
    }
}

pub open spec fn as_text(v: JsonView) -> Option<Seq<char>> {
    match v {
        JsonView::Text(s) => Some(s),
        _ => None,
    }
}

pub open spec fn as_list(v: JsonView) -> Option<Seq<JsonView>> {
    match v {
        JsonView::List(s) => Some(s),
        _ => None,
    }
}

/// The value as an unsigned 64-bit integer.
pub open spec fn as_unsigned(v: JsonView) -> Option<u64> {
    match v {
        JsonView::Number(NumberView::Integer(n)) => if 0 <= n <= u64::MAX {
            Some(n as u64)
        } else {
            None
        },
        _ => None,
    }
}

/// The text of a member.
pub open spec fn text_field(v: JsonView, name: Seq<char>) -> Option<Seq<char>> {
    match field(v, name) {
        Some(x) => as_text(x),
        None => None,
    }
}

/// The text of a member, empty where there is none.
pub open spec fn text_or_empty(v: JsonView, name: Seq<char>) -> Seq<char> {
    match text_field(v, name) {
        Some(s) => s,
        None => Seq::empty(),
    }
}

/// The values of a member that is a list.
pub open spec fn list_field(v: JsonView, name: Seq<char>) -> Option<Seq<JsonView>> {
    match field(v, name) {
        Some(x) => as_list(x),
        None => None,
    }
}

/// The values of a member that is a list, none where it is no list.
pub open spec fn list_or_empty(v: JsonView, name: Seq<char>) -> Seq<JsonView> {
    match list_field(v, name) {
        Some(s) => s,
        None => Seq::empty(),
    }
}

/// The value of a member that is an unsigned integer.
pub open spec fn unsigned_field(v: JsonView, name: Seq<char>) -> Option<u64> {
    match field(v, name) {
        Some(x) => as_unsigned(x),
        None => None,
    }
}

/// Whether members can be given to the value: an object, or null, which then becomes one.
pub open spec fn takes_members(v: JsonView) -> bool {
    v is Object || v is Null
}

/// The value with a member set.
pub open spec fn with_field(v: JsonView, name: Seq<char>, x: JsonView) -> JsonView {
    match v {
        JsonView::Object(m) => JsonView::Object(m.insert(name, x)),
        _ => JsonView::Object(Map::empty().insert(name, x)),
    }
}

/// The value without a member.
pub open spec fn without_field(v: JsonView, name: Seq<char>) -> JsonView {
    match v {
        JsonView::Object(m) => JsonView::Object(m.remove(name)),
        _ => v,
    }
}

/// The object without members.
pub open spec fn empty_object() -> JsonView {
    JsonView::Object(Map::empty())
}

/// An unsigned integer as a value.
pub open spec fn number(n: int) -> JsonView {
    JsonView::Number(NumberView::Integer(n))
}

/// An optional text, null where it is absent.
pub open spec fn opt_text_value(s: Option<Seq<char>>) -> JsonView {
    match s {
        Some(s) => JsonView::Text(s),
        None => JsonView::Null,
    }
}

/// An optional count, null where it is absent.
pub open spec fn opt_number(n: Option<u32>) -> JsonView {
    match n {
        Some(n) => number(n as int),
        None => JsonView::Null,
    }
}

/// The texts as a list of values.
pub open spec fn text_list(s: Seq<Seq<char>>) -> JsonView {
    JsonView::List(Seq::new(s.len(), |i: int| JsonView::Text(s[i])))
}

impl Json {
    pub fn text(s: &str) -> (r: Json)
        ensures
            r@ == JsonView::Text(s@),
    {
        Json::Text(s.to_owned())
    }

    pub fn number(n: u64) -> (r: Json)
        ensures
            r@ == number(n as int),
    {
        Json::Number(JsonNumber::Unsigned(n))
    }

    pub fn list(v: Vec<Json>) -> (r: Json)
        ensures
            r@ == JsonView::List(views(v@)),
    {
        proof {
            lemma_list_view(v);
        }
        Json::List(v)
    }

    /// A list without values.
    pub fn empty_list() -> (r: Json)
        ensures
            r@ == JsonView::List(Seq::empty()),
    {
        let none: Vec<Json> = Vec::new();
        assert(views(none@) =~= Seq::<JsonView>::empty());
        Json::list(none)
    }

    /// The object without members.
    pub fn object() -> (r: Json)
        ensures
            r@ == empty_object(),
    {
        Json::Object(JsonMap::new())
    }

    /// Text where there is some, else null.
    pub fn opt_text(s: &Option<String>) -> (r: Json)
        ensures
            r@ == opt_text_value(text::opt_text(*s)),
    {
        match s {
            Some(s) => Json::Text(s.clone()),
            None => Json::Null,
        }
    }

    /// A count where there is one, else null.
    pub fn opt_number(n: Option<u32>) -> (r: Json)
        ensures
            r@ == opt_number(n),
    {
        match n {
            Some(n) => Json::number(n as u64),
            None => Json::Null,
        }
    }

    /// A list of texts.
    pub fn text_list(s: &[String]) -> (r: Json)
        ensures
            r@ == text_list(text::texts(s@)),
    {
        let mut out: Vec<Json> = Vec::new();
        let mut i: usize = 0;
        while i < s.len()
            invariant
                i <= s@.len(),
                out@.len() == i,
                forall|j: int| 0 <= j < i ==> (#[trigger] out@[j])@ == JsonView::Text(s@[j]@),
            decreases s@.len() - i,
        {
            out.push(Json::text(s[i].as_str()));
            i += 1;
        }
        let r = Json::list(out);
        assert(views(out@) =~= text_list(text::texts(s@))->List_0);
        r
    }

    /// The value of a member.
    pub fn get(&self, name: &str) -> (r: Option<&Json>)
        ensures
            match r {
                Some(x) => field(self@, name@) == Some(x@),
                None => field(self@, name@) is None,
            },
    {
        match self {
            Json::Object(m) => m.get(name),
            _ => None,
        }
    }

    pub fn as_str(&self) -> (r: Option<&str>)
        ensures
            match r {
                Some(s) => as_text(self@) == Some(s@),
                None => as_text(self@) is None,
            },
    {
        match self {
            Json::Text(s) => Some(s.as_str()),
            _ => None,
        }
    }

    pub fn as_list(&self) -> (r: Option<&Vec<Json>>)
        ensures
            match r {
                Some(v) => as_list(self@) == Some(views(v@)),
                None => as_list(self@) is None,
            },
    {
        match self {
            Json::List(v) => {
                proof {
                    lemma_list_view(*v);
                }
                Some(v)
            },
            _ => None,
        }
    }

    pub fn as_u64(&self) -> (r: Option<u64>)
        ensures
            r == as_unsigned(self@),
    {
        match self {
            Json::Number(JsonNumber::Unsigned(n)) => Some(*n),
            Json::Number(JsonNumber::Negative(n)) => if *n >= 0 {
                Some(*n as u64)
            } else {
                None
            },
            _ => None,
        }
    }

    pub fn as_bool(&self) -> (r: Option<bool>)
        ensures
            r == match self@ {
                JsonView::Bool(b) => Some(b),
                _ => None,
            },
    {
        match self {
            Json::Bool(b) => Some(*b),
            _ => None,
        }
    }

    pub fn is_object(&self) -> (r: bool)
        ensures
            r == (self@ is Object),
    {
        match self {
            Json::Object(_) => true,
            _ => false,
        }
    }

    /// The text of a member.
    pub fn get_str(&self, name: &str) -> (r: Option<&str>)
        ensures
            match r {
                Some(s) => text_field(self@, name@) == Some(s@),
                None => text_field(self@, name@) is None,
            },
    {
        match self.get(name) {
            Some(x) => x.as_str(),
            None => None,
        }
    }

    /// The text of a member, empty where there is none.
    pub fn str_or_empty(&self, name: &str) -> (r: String)
        ensures
            r@ == text_or_empty(self@, name@),
    {
        match self.get_str(name) {
            Some(s) => s.to_owned(),
            None => String::new(),
        }
    }

    /// The values of a member that is a list.
    pub fn get_list(&self, name: &str) -> (r: Option<&Vec<Json>>)
        ensures
            match r {
                Some(v) => list_field(self@, name@) == Some(views(v@)),
                None => list_field(self@, name@) is None,
            },
    {
        match self.get(name) {
            Some(x) => x.as_list(),
            None => None,
        }
    }

    /// A copy of the values of a member that is a list, none where it is no list.
    pub fn list_or_empty(&self, name: &str) -> (r: Vec<Json>)
        ensures
            views(r@) == list_or_empty(self@, name@),
    {
        match self.get_list(name) {
            Some(v) => copy_list(v),
            None => {
                let r: Vec<Json> = Vec::new();
                assert(views(r@) =~= Seq::<JsonView>::empty());
                r
            },
        }
    }

    /// The value of a member that is an unsigned integer.
    pub fn get_u64(&self, name: &str) -> (r: Option<u64>)
        ensures
            r == unsigned_field(self@, name@),
    {
        match self.get(name) {
            Some(x) => x.as_u64(),
            None => None,
        }
    }

    /// Sets a member. A value that is no object becomes one.
    pub fn set(&mut self, name: &str, value: Json)
        ensures
            final(self)@ == with_field(old(self)@, name@, value@),
    {
        match self {
            Json::Object(m) => {
                m.set(name, value);
            },
            _ => {
                let mut m = JsonMap::new();
                m.set(name, value);
                *self = Json::Object(m);
            },
        }
    }

    /// The value with a member set.
    pub fn with(self, name: &str, value: Json) -> (r: Json)
        ensures
            r@ == with_field(self@, name@, value@),
    {
        let mut r = self;
        r.set(name, value);
        r
    }

    /// Removes a member.
    pub fn remove(&mut self, name: &str)
        ensures
            final(self)@ == without_field(old(self)@, name@),
    {
        match self {
            Json::Object(m) => {
                m.remove(name);
            },
            _ => {},
        }
    }
}


// ---------------------------------------------------------------------------------------------
// Equality
// ---------------------------------------------------------------------------------------------

fn same_number(a: JsonNumber, b: JsonNumber) -> (r: bool)
    ensures
        r == (a@ == b@),
{
    match (a, b) {
        (JsonNumber::Unsigned(x), JsonNumber::Unsigned(y)) => x == y,
        (JsonNumber::Negative(x), JsonNumber::Negative(y)) => x == y,
        (JsonNumber::Unsigned(x), JsonNumber::Negative(y)) => y >= 0 && x == y as u64,
        (JsonNumber::Negative(x), JsonNumber::Unsigned(y)) => x >= 0 && x as u64 == y,
        (JsonNumber::Float(x), JsonNumber::Float(y)) => {
            let minus_zero: u64 = 0x8000_0000_0000_0000;
            x == y || (x == 0 && y == minus_zero) || (x == minus_zero && y == 0)
        },
        _ => false,
    }
}

/// Whether two lists hold equal values in the same order.
pub fn same_list(a: &Vec<Json>, b: &Vec<Json>) -> (r: bool)
    ensures
        r == (views(a@) == views(b@)),
    decreases a,
{
    if a.len() != b.len() {
        assert(views(a@).len() != views(b@).len());
        return false;
    }
    let mut i: usize = 0;
    while i < a.len()
        invariant
            i <= a@.len(),
            a@.len() == b@.len(),
            forall|j: int| 0 <= j < i ==> (#[trigger] a@[j])@ == b@[j]@,
        decreases a@.len() - i,
    {
        if !a[i].same(&b[i]) {
            assert(views(a@)[i as int] != views(b@)[i as int]);
            return false;
        }
        i += 1;
    }
    assert(views(a@) =~= views(b@));
    true
}

impl JsonMap {
    /// Whether two objects have the same members with equal values.
    pub fn same(&self, other: &JsonMap) -> (r: bool)
        ensures
            r == (self@ == other@),
        decreases self,
    {
        proof {
            use_type_invariant(self);
            use_type_invariant(other);
            lemma_entries_map(self.entries@);
            lemma_entries_map(other.entries@);
        }
        let mut i: usize = 0;
        while i < other.entries.len()
            invariant
                i <= other.entries@.len(),
                forall|j: int|
                    0 <= j < i ==> self@.contains_key((#[trigger] other.entries@[j]).0@),
                other@ == entries_map(other.entries@),
                forall|j: int|
                    0 <= j < other.entries@.len() ==> entries_map(other.entries@).contains_key(
                        (#[trigger] other.entries@[j]).0@,
                    ),
            decreases other.entries@.len() - i,
        {
            if self.get(other.entries[i].0.as_str()).is_none() {
                assert(other@.contains_key(other.entries@[i as int].0@));
                return false;
            }
            i += 1;
        }
        let mut i: usize = 0;
        while i < self.entries.len()
            invariant
                i <= self.entries@.len(),
                forall|j: int|
                    0 <= j < i ==> other@.contains_key((#[trigger] self.entries@[j]).0@)
                        && other@[self.entries@[j].0@] == self.entries@[j].1@,
                self@ == entries_map(self.entries@),
                forall|j: int|
                    0 <= j < self.entries@.len() ==> entries_map(self.entries@).contains_key(
                        (#[trigger] self.entries@[j]).0@,
                    ) && entries_map(self.entries@)[self.entries@[j].0@] == self.entries@[j].1@,
            decreases self.entries@.len() - i,
        {
            let value = &self.entries[i].1;
            match other.get(self.entries[i].0.as_str()) {
                None => {
                    assert(self@.contains_key(self.entries@[i as int].0@));
                    return false;
                },
                Some(x) => {
                    if !value.same(x) {
                        assert(self@[self.entries@[i as int].0@]
                            != other@[self.entries@[i as int].0@]);
                        return false;
                    }
                },
            }
            i += 1;
        }
        proof {
            assert forall|n: Seq<char>|
                #![trigger self@.dom().contains(n)]
                #![trigger other@.dom().contains(n)]
                #![trigger self@[n]]
                self@.dom().contains(n) == other@.dom().contains(n) && (self@.dom().contains(n)
                    ==> self@[n] == other@[n]) by {
                if entries_map(self.entries@).contains_key(n) {
                    let j = choose|j: int|
                        0 <= j < self.entries@.len() && (#[trigger] self.entries@[j]).0@ == n;
                    assert(self.entries@[j].0@ == n);
                }
                if entries_map(other.entries@).contains_key(n) {
                    let j = choose|j: int|
                        0 <= j < other.entries@.len() && (#[trigger] other.entries@[j]).0@ == n;
                    assert(other.entries@[j].0@ == n);
                }
            }
            assert(self@ =~= other@);
        }
        true
    }
}

impl Json {
    /// Whether two values are equal.
    pub fn same(&self, other: &Json) -> (r: bool)
        ensures
            r == (self@ == other@),
        decreases self,
    {
        match (self, other) {
            (Json::Null, Json::Null) => true,
            (Json::Bool(a), Json::Bool(b)) => *a == *b,
            (Json::Number(a), Json::Number(b)) => same_number(*a, *b),
            (Json::Text(a), Json::Text(b)) => *a == *b,
            (Json::List(a), Json::List(b)) => {
                proof {
                    lemma_list_view(*a);
                    lemma_list_view(*b);
                }
                same_list(a, b)
            },
            (Json::Object(a), Json::Object(b)) => a.same(b),
            _ => false,
        }
    }
}

/// Whether two optional values are equal.
pub fn same_option(a: Option<&Json>, b: Option<&Json>) -> (r: bool)
    ensures
        r == match (a, b) {
            (Some(a), Some(b)) => a@ == b@,
            (None, None) => true,
            _ => false,
        },
{
    match (a, b) {
        (Some(a), Some(b)) => a.same(b),
        (None, None) => true,
        _ => false,
    }
}

/// Whether a list holds a value equal to the given one.
pub fn contains_value(v: &[Json], x: &Json) -> (r: bool)
    ensures
        r == views(v@).contains(x@),
{
    let mut i: usize = 0;
    while i < v.len()
        invariant
            i <= v@.len(),
            forall|j: int| 0 <= j < i ==> (#[trigger] v@[j])@ != x@,
        decreases v@.len() - i,
    {
        if v[i].same(x) {
            assert(views(v@)[i as int] == x@);
            return true;
        }
        i += 1;
    }
    assert forall|j: int| 0 <= j < views(v@).len() implies views(v@)[j] != x@ by {
        assert(views(v@)[j] == v@[j]@);
    }
    false
}

} // verus!
