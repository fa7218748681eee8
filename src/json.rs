use vstd::prelude::*;

verus! {

/// The mathematical value of a JSON document.
pub enum JsonValue {
    Null,
    Bool(bool),
    UInt(nat),
    Int(int),
    Float(Seq<char>),
    Str(Seq<char>),
    Array(Seq<JsonValue>),
    Object(Seq<(Seq<char>, JsonValue)>),
}

/// A JSON document held as plain values.
///
/// Integers that fit `u64` are `UInt`, other integers that fit `i64` are
/// `Int`; any other number is kept as its decimal text in `Float`. An object
/// keeps its members in order.
#[derive(Debug, PartialEq)]
pub enum Json {
    Null,
    Bool(bool),
    UInt(u64),
    Int(i64),
    Float(String),
    Str(String),
    Array(Vec<Json>),
    Object(Vec<(String, Json)>),
}

impl View for Json {
    type V = JsonValue;

    open spec fn view(&self) -> JsonValue {
        value_of(*self)
    }
}

/// The value that `j` holds.
pub open spec fn value_of(j: Json) -> JsonValue
    decreases j,
{
    match j {
        Json::Null => JsonValue::Null,
        Json::Bool(b) => JsonValue::Bool(b),
        Json::UInt(n) => JsonValue::UInt(n as nat),
        Json::Int(n) => JsonValue::Int(n as int),
        Json::Float(t) => JsonValue::Float(t@),
        Json::Str(s) => JsonValue::Str(s@),
        Json::Array(items) => JsonValue::Array(items_of(items@)),
        Json::Object(members) => JsonValue::Object(members_of(members@)),
    }
}

/// The values of a sequence of items, in order.
pub open spec fn items_of(items: Seq<Json>) -> Seq<JsonValue>
    decreases items,
{
    if items.len() == 0 {
        Seq::empty()
    } else {
        items_of(items.subrange(0, items.len() - 1)).push(value_of(items[items.len() - 1]))
    }
}

/// The keys and values of a sequence of members, in order.
pub open spec fn members_of(members: Seq<(String, Json)>) -> Seq<(Seq<char>, JsonValue)>
    decreases members,
{
    if members.len() == 0 {
        Seq::empty()
    } else {
        let last = members[members.len() - 1];
        members_of(members.subrange(0, members.len() - 1)).push((last.0@, value_of(last.1)))
    }
}

/// The value of the first member named `key`, if any.
pub open spec fn member_of(members: Seq<(Seq<char>, JsonValue)>, key: Seq<char>) -> Option<
    JsonValue,
>
    decreases members.len(),
{
    if members.len() == 0 {
        None
    } else if members[0].0 == key {
        Some(members[0].1)
    } else {
        member_of(members.drop_first(), key)
    }
}

pub(crate) proof fn lemma_array_view(items: Vec<Json>)
    ensures
        Json::Array(items)@ is Array,
        Json::Array(items)@->Array_0.len() == items.len(),
        forall|i: int| 0 <= i < items.len() ==> #[trigger] Json::Array(items)@->Array_0[i] == items[i]@,
{
    lemma_items_of(items@);
}

pub(crate) proof fn lemma_object_view(members: Vec<(String, Json)>)
    ensures
        Json::Object(members)@ is Object,
        Json::Object(members)@->Object_0.len() == members.len(),
        forall|i: int|
            0 <= i < members.len() ==> #[trigger] Json::Object(members)@->Object_0[i] == (
                members[i].0@,
                members[i].1@,
            ),
{
    lemma_members_of(members@);
}

proof fn lemma_items_of(items: Seq<Json>)
    ensures
        items_of(items).len() == items.len(),
        forall|i: int| 0 <= i < items.len() ==> #[trigger] items_of(items)[i] == value_of(items[i]),
    decreases items.len(),
{
    if items.len() > 0 {
        let front = items.subrange(0, items.len() - 1);
        lemma_items_of(front);
        assert forall|i: int| 0 <= i < items.len() implies #[trigger] items_of(items)[i] == value_of(
            items[i],
        ) by {
            if i < items.len() - 1 {
                assert(items[i] == front[i]);
            }
        }
    }
}

proof fn lemma_members_of(members: Seq<(String, Json)>)
    ensures
        members_of(members).len() == members.len(),
        forall|i: int|
            0 <= i < members.len() ==> #[trigger] members_of(members)[i] == (
                members[i].0@,
                value_of(members[i].1),
            ),
    decreases members.len(),
{
    if members.len() > 0 {
        let front = members.subrange(0, members.len() - 1);
        lemma_members_of(front);
        assert forall|i: int| 0 <= i < members.len() implies #[trigger] members_of(members)[i] == (
            members[i].0@,
            value_of(members[i].1),
        ) by {
            if i < members.len() - 1 {
                assert(members[i] == front[i]);
            }
        }
    }
}

proof fn lemma_member_found(members: Seq<(Seq<char>, JsonValue)>, key: Seq<char>, i: int)
    requires
        0 <= i < members.len(),
        members[i].0 == key,
        forall|j: int| 0 <= j < i ==> (#[trigger] members[j]).0 != key,
    ensures
        member_of(members, key) == Some(members[i].1),
    decreases i,
{
    if i > 0 {
        let rest = members.drop_first();
        assert forall|j: int| 0 <= j < i - 1 implies (#[trigger] rest[j]).0 != key by {
            assert(rest[j] == members[j + 1]);
        }
        lemma_member_found(rest, key, i - 1);
    }
}

proof fn lemma_member_missing(members: Seq<(Seq<char>, JsonValue)>, key: Seq<char>)
    requires
        forall|j: int| 0 <= j < members.len() ==> (#[trigger] members[j]).0 != key,
    ensures
        member_of(members, key) is None,
    decreases members.len(),
{
    if members.len() > 0 {
        let rest = members.drop_first();
        assert forall|j: int| 0 <= j < rest.len() implies (#[trigger] rest[j]).0 != key by {
            assert(rest[j] == members[j + 1]);
        }
        lemma_member_missing(rest, key);
    }
}

impl JsonValue {
    /// The member `key` of an object; `None` for a missing member or a value
    /// that is not an object.
    pub open spec fn get(self, key: Seq<char>) -> Option<JsonValue> {
        match self {
            JsonValue::Object(members) => member_of(members, key),
            _ => None,
        }
    }
}

impl Json {
    /// The text of a string value.
    pub fn as_str(&self) -> (r: Option<&String>)
        ensures
            match self@ {
                JsonValue::Str(t) => r is Some && r->0@ == t,
                _ => r is None,
            },
    {
        match self {
            Json::Str(s) => Some(s),
            _ => None,
        }
    }

    /// The first member named `key` of an object.
    pub fn get(&self, key: &str) -> (r: Option<&Json>)
        ensures
            match self@.get(key@) {
                Some(v) => r is Some && r->0@ == v,
                None => r is None,
            },
    {
        match self {
            Json::Object(members) => {
                proof {
                    lemma_object_view(*members);
                }
                let ghost ms = self@->Object_0;
                let wanted = key.to_owned();
                let mut i: usize = 0;
                while i < members.len()
                    invariant
                        *self == Json::Object(*members),
                        ms == self@->Object_0,
                        ms.len() == members.len(),
                        forall|j: int|
                            0 <= j < members.len() ==> #[trigger] ms[j] == (
                                members[j].0@,
                                members[j].1@,
                            ),
                        wanted@ == key@,
                        i <= members.len(),
                        forall|j: int| 0 <= j < i ==> (#[trigger] ms[j]).0 != key@,
                    decreases members.len() - i,
                {
                    if members[i].0 == wanted {
                        proof {
                            lemma_member_found(ms, key@, i as int);
                        }
                        return Some(&members[i].1);
                    }
                    i = i + 1;
                }
                proof {
                    lemma_member_missing(ms, key@);
                }
                None
            },
            _ => None,
        }
    }

    /// A copy of the whole document.
    pub fn deep_clone(&self) -> (r: Json)
        ensures
            r@ == self@,
        decreases self,
    {
        match self {
            Json::Null => Json::Null,
            Json::Bool(b) => Json::Bool(*b),
            Json::UInt(n) => Json::UInt(*n),
            Json::Int(n) => Json::Int(*n),
            Json::Float(t) => Json::Float(t.clone()),
            Json::Str(s) => Json::Str(s.clone()),
            Json::Array(items) => {
                let mut out: Vec<Json> = Vec::new();
                let mut i: usize = 0;
                while i < items.len()
                    invariant
                        *self == Json::Array(*items),
                        i <= items.len(),
                        out.len() == i,
                        forall|j: int| 0 <= j < i ==> (#[trigger] out[j])@ == items[j]@,
                    decreases items.len() - i,
                {
                    proof {
                        assert(decreases_to!(*self => self->Array_0));
                        assert(decreases_to!(*items => items[i as int]));
                    }
                    out.push(items[i].deep_clone());
                    i = i + 1;
                }
                let r = Json::Array(out);
                proof {
                    lemma_array_view(*items);
                    lemma_array_view(out);
                    assert(r@->Array_0 =~= self@->Array_0);
                }
                r
            },
            Json::Object(members) => {
                let mut out: Vec<(String, Json)> = Vec::new();
                let mut i: usize = 0;
                while i < members.len()
                    invariant
                        *self == Json::Object(*members),
                        i <= members.len(),
                        out.len() == i,
                        forall|j: int|
                            0 <= j < i ==> (#[trigger] out[j]).0@ == members[j].0@ && out[j].1@
                                == members[j].1@,
                    decreases members.len() - i,
                {
                    proof {
                        assert(decreases_to!(*self => self->Object_0));
                        assert(decreases_to!(*members => members[i as int]));
                    }
                    let key = members[i].0.clone();
                    let value = members[i].1.deep_clone();
                    out.push((key, value));
                    i = i + 1;
                }
                let r = Json::Object(out);
                proof {
                    lemma_object_view(*members);
                    lemma_object_view(out);
                    assert(r@->Object_0 =~= self@->Object_0);
                }
                r
            },
        }
    }
}

} // verus!
