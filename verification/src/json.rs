//! JSON values as settings hold them, with objects kept as maps sorted by key.
use vstd::prelude::*;
use crate::str_map::{
    StrMap, entries_map, has_key, key_index, lemma_entries_map_take, lemma_sorted_index, sorted_keys,
};

verus! {

/// What a JSON value is: its mathematical content.
pub enum JsonValue {
    Null,
    Bool(bool),
    /// A number, by its text.
    Number(Seq<char>),
    Str(Seq<char>),
    Array(Seq<JsonValue>),
    Object(Map<Seq<char>, JsonValue>),
}

/// A JSON value.
#[derive(Debug, PartialEq, Eq)]
pub enum Json {
    Null,
    Bool(bool),
    /// A number, by its decimal text.
    Number(String),
    Str(String),
    Array(Vec<Json>),
    Object(StrMap<Json>),
}

/// The values of a map of JSON values, each taken by its content.
pub open spec fn view_values(m: Map<Seq<char>, Json>) -> Map<Seq<char>, JsonValue> {
    Map::new(|k: Seq<char>| m.contains_key(k), |k: Seq<char>| m[k]@)
}

/// The member `k` of `v`, where `v` is an object that has one.
pub open spec fn member(v: JsonValue, k: Seq<char>) -> Option<JsonValue> {
    match v {
        JsonValue::Object(m) => if m.contains_key(k) {
            Some(m[k])
        } else {
            None
        },
        _ => None,
    }
}

/// `v[k]`: the member `k` of `v`, or null where there is none.
pub open spec fn member_or_null(v: JsonValue, k: Seq<char>) -> JsonValue {
    match member(v, k) {
        Some(x) => x,
        None => JsonValue::Null,
    }
}

pub open spec fn is_object(v: JsonValue) -> bool {
    v is Object
}

/// The empty object.
pub open spec fn empty_object() -> JsonValue {
    JsonValue::Object(Map::empty())
}

impl Json {
    pub closed spec fn view(&self) -> JsonValue
        decreases self,
    {
        match self {
            Json::Null => JsonValue::Null,
            Json::Bool(b) => JsonValue::Bool(*b),
            Json::Number(n) => JsonValue::Number(n@),
            Json::Str(s) => JsonValue::Str(s@),
            Json::Array(v) => JsonValue::Array(
                Seq::new(
                    v@.len(),
                    |i: int|
                        if 0 <= i < v@.len() {
                            v@[i].view()
                        } else {
                            JsonValue::Null
                        },
                ),
            ),
            Json::Object(m) => JsonValue::Object(
                Map::new(
                    |k: Seq<char>| has_key(m.entries@, k),
                    |k: Seq<char>|
                        {
                            let i = key_index(m.entries@, k);
                            if 0 <= i < m.entries@.len() {
                                m.entries@[i].1.view()
                            } else {
                                JsonValue::Null
                            }
                        },
                ),
            ),
        }
    }

    /// The content of an object is that of its members.
    pub proof fn lemma_object_view(m: &StrMap<Json>)
        ensures
            Json::Object(*m)@ == JsonValue::Object(view_values(m@)),
    {
        m.lemma_fields();
        let a = Json::Object(*m)@->Object_0;
        let b = view_values(m@);
        assert forall|k: Seq<char>| #![auto] a.contains_key(k) implies a[k] == b[k] by {
            let i = key_index(m.entries@, k);
            assert(0 <= i < m.entries@.len());
        }
        assert(a =~= b);
    }

    /// The content of an array is that of its items.
    pub proof fn lemma_array_view(v: &Vec<Json>)
        ensures
            Json::Array(*v)@ == JsonValue::Array(Seq::new(v@.len(), |i: int| v@[i]@)),
    {
        assert(Json::Array(*v)@->Array_0 =~= Seq::new(v@.len(), |i: int| v@[i]@));
    }

    pub fn null() -> (r: Json)
        ensures
            r@ == JsonValue::Null,
    {
        Json::Null
    }

    /// A new empty object.
    pub fn new_object() -> (r: Json)
        ensures
            r@ == empty_object(),
    {
        let m = StrMap::new();
        proof {
            Json::lemma_object_view(&m);
            assert(view_values(m@) =~= Map::empty());
        }
        Json::Object(m)
    }

    pub fn from_bool(b: bool) -> (r: Json)
        ensures
            r@ == JsonValue::Bool(b),
    {
        Json::Bool(b)
    }

    pub fn from_string(s: String) -> (r: Json)
        ensures
            r@ == JsonValue::Str(s@),
    {
        Json::Str(s)
    }

    /// A number, given by its decimal text.
    pub fn from_number_text(s: String) -> (r: Json)
        ensures
            r@ == JsonValue::Number(s@),
    {
        Json::Number(s)
    }

    pub fn from_array(items: Vec<Json>) -> (r: Json)
        ensures
            r@ == JsonValue::Array(Seq::new(items@.len(), |i: int| items@[i]@)),
    {
        proof {
            Json::lemma_array_view(&items);
        }
        Json::Array(items)
    }

    pub fn from_map(m: StrMap<Json>) -> (r: Json)
        ensures
            r@ == JsonValue::Object(view_values(m@)),
    {
        proof {
            Json::lemma_object_view(&m);
        }
        Json::Object(m)
    }

    pub fn is_object(&self) -> (b: bool)
        ensures
            b == is_object(self@),
    {
        match self {
            Json::Object(m) => {
                proof {
                    Json::lemma_object_view(m);
                }
                true
            },
            _ => false,
        }
    }

    /// The text of a string value.
    pub fn as_str(&self) -> (r: Option<&str>)
        ensures
            match r {
                Some(s) => self@ == JsonValue::Str(s@),
                None => !(self@ is Str),
            },
    {
        match self {
            Json::Str(s) => Some(s.as_str()),
            Json::Object(m) => {
                proof {
                    Json::lemma_object_view(m);
                }
                None
            },
            _ => None,
        }
    }

    /// The items of an array value.
    pub fn as_array(&self) -> (r: Option<&Vec<Json>>)
        ensures
            match r {
                Some(v) => self@ == JsonValue::Array(Seq::new(v@.len(), |i: int| v@[i]@)),
                None => !(self@ is Array),
            },
    {
        match self {
            Json::Array(v) => {
                proof {
                    Json::lemma_array_view(v);
                }
                Some(v)
            },
            Json::Object(m) => {
                proof {
                    Json::lemma_object_view(m);
                }
                None
            },
            _ => None,
        }
    }

    /// The member `key` of an object; `None` for other values.
    pub fn get(&self, key: &str) -> (r: Option<&Json>)
        ensures
            match r {
                Some(v) => member(self@, key@) == Some(v@),
                None => member(self@, key@) is None,
            },
    {
        match self {
            Json::Object(m) => {
                proof {
                    Json::lemma_object_view(m);
                }
                m.get(key)
            },
            _ => None,
        }
    }

    /// Sets the member `key` of an object, as `value[key] = member` does.
    pub fn set_member(&mut self, key: String, member: Json)
        requires
            is_object(old(self)@),
        ensures
            is_object(final(self)@),
            final(self)@->Object_0 == old(self)@->Object_0.insert(key@, member@),
    {
        match self {
            Json::Object(m) => {
                proof {
                    Json::lemma_object_view(m);
                }
                let ghost before = m@;
                m.insert(key, member);
                proof {
                    Json::lemma_object_view(m);
                    assert(view_values(m@) =~= view_values(before).insert(key@, member@));
                }
            },
            _ => {},
        }
    }

    /// Removes the member `key` of an object; other values stay as they are.
    pub fn remove_member(&mut self, key: &str)
        ensures
            is_object(old(self)@) ==> is_object(final(self)@)
                && final(self)@->Object_0 == old(self)@->Object_0.remove(key@),
            !is_object(old(self)@) ==> final(self)@ == old(self)@,
    {
        match self {
            Json::Object(m) => {
                proof {
                    Json::lemma_object_view(m);
                }
                let ghost before = m@;
                m.remove(key);
                proof {
                    Json::lemma_object_view(m);
                    assert(view_values(m@) =~= view_values(before).remove(key@));
                }
            },
            _ => {},
        }
    }

    /// Sets each member of the object `other` in the object `self`, in place
    /// of a member of the same name, as `Map::extend` does.
    pub fn extend_object(&mut self, other: &Json)
        requires
            is_object(old(self)@),
            is_object(other@),
        ensures
            is_object(final(self)@),
            final(self)@->Object_0 == old(self)@->Object_0.union_prefer_right(other@->Object_0),
    {
        match other {
            Json::Object(m) => {
                proof {
                    Json::lemma_object_view(m);
                }
                let entries = m.entries();
                let ghost s = entries@;
                let ghost base = self@->Object_0;
                let mut i: usize = 0;
                assert(view_values(entries_map(s.take(0))) =~= Map::empty());
                assert(base =~= base.union_prefer_right(Map::empty()));
                while i < entries.len()
                    invariant
                        s == entries@,
                        sorted_keys(s),
                        i <= s.len(),
                        is_object(self@),
                        self@->Object_0 == base.union_prefer_right(view_values(entries_map(s.take(i as int)))),
                    decreases s.len() - i,
                {
                    let k = entries[i].0.clone();
                    let v = entries[i].1.deep_clone();
                    let ghost before = self@->Object_0;
                    self.set_member(k, v);
                    proof {
                        lemma_entries_map_take(s, i as int);
                        assert(view_values(entries_map(s.take(i + 1))) =~= view_values(
                            entries_map(s.take(i as int)),
                        ).insert(s[i as int].0@, s[i as int].1@));
                        assert(self@->Object_0 =~= base.union_prefer_right(
                            view_values(entries_map(s.take(i + 1))),
                        ));
                    }
                    i = i + 1;
                }
                assert(s.take(s.len() as int) =~= s);
            },
            _ => {},
        }
    }

    /// A copy of the value.
    pub fn deep_clone(&self) -> (r: Json)
        ensures
            r@ == self@,
        decreases self,
    {
        match self {
            Json::Null => Json::Null,
            Json::Bool(b) => Json::Bool(*b),
            Json::Number(n) => Json::Number(n.clone()),
            Json::Str(s) => Json::Str(s.clone()),
            Json::Array(v) => {
                let mut out: Vec<Json> = Vec::new();
                let mut i: usize = 0;
                while i < v.len()
                    invariant
                        *self == Json::Array(*v),
                        i <= v@.len(),
                        out@.len() == i,
                        forall|j: int| 0 <= j < i ==> (#[trigger] out@[j])@ == v@[j]@,
                    decreases v@.len() - i,
                {
                    proof {
                        vstd::std_specs::vec::axiom_vec_index_decreases(*v, i as int);
                        assert(decreases_to!(*self => (*self)->Array_0));
                        assert(decreases_to!(*self => v[i as int]));
                    }
                    let c = v[i].deep_clone();
                    out.push(c);
                    i = i + 1;
                }
                proof {
                    Json::lemma_array_view(v);
                    Json::lemma_array_view(&out);
                    assert(Seq::new(out@.len(), |j: int| out@[j]@) =~= Seq::new(v@.len(), |j: int| v@[j]@));
                }
                Json::Array(out)
            },
            Json::Object(m) => {
                proof {
                    m.lemma_fields();
                }
                let entries = m.entries();
                let mut out: Vec<(String, Json)> = Vec::new();
                let mut i: usize = 0;
                while i < entries.len()
                    invariant
                        *self == Json::Object(*m),
                        entries@ == m.entries@,
                        sorted_keys(entries@),
                        i <= entries@.len(),
                        out@.len() == i,
                        forall|j: int| 0 <= j < i ==> (#[trigger] out@[j]).0 == entries@[j].0,
                        forall|j: int| 0 <= j < i ==> (#[trigger] out@[j]).1@ == entries@[j].1@,
                    decreases entries@.len() - i,
                {
                    proof {
                        vstd::std_specs::vec::axiom_vec_index_decreases(m.entries, i as int);
                        assert(decreases_to!(*self => (*self)->Object_0));
                        assert(decreases_to!(*m => m.entries));
                        assert(decreases_to!(m.entries[i as int] => m.entries[i as int].1));
                        assert(decreases_to!(*self => m.entries[i as int].1));
                    }
                    let k = entries[i].0.clone();
                    let c = entries[i].1.deep_clone();
                    out.push((k, c));
                    i = i + 1;
                }
                proof {
                    assert(sorted_keys(out@)) by {
                        assert forall|a: int, b: int| 0 <= a < b < out@.len() implies
                            crate::text::key_lt(#[trigger] out@[a].0@, #[trigger] out@[b].0@) by {
                            assert(out@[a].0 == entries@[a].0);
                            assert(out@[b].0 == entries@[b].0);
                        }
                    }
                }
                let r = StrMap::from_sorted(out);
                proof {
                    r.lemma_fields();
                    let s = m.entries@;
                    let t = r.entries@;
                    let a = Json::Object(*m)@->Object_0;
                    let b = Json::Object(r)@->Object_0;
                    assert forall|k: Seq<char>| #![auto] a.contains_key(k) <==> b.contains_key(k) by {
                        if has_key(s, k) {
                            let j = key_index(s, k);
                            assert(t[j].0@ == k);
                        }
                        if has_key(t, k) {
                            let j = key_index(t, k);
                            assert(s[j].0@ == k);
                        }
                    }
                    assert forall|k: Seq<char>| #![auto] a.contains_key(k) implies a[k] == b[k] by {
                        let j = key_index(s, k);
                        lemma_sorted_index(s, j);
                        assert(t[j].0@ == k);
                        lemma_sorted_index(t, j);
                    }
                    assert(a =~= b);
                }
                Json::Object(r)
            },
        }
    }
}

} // verus!
