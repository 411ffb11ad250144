//! A JSON document held as plain values, with its mathematical model.
//!
//! Objects keep their members in document order; a lookup by key finds the
//! first member with that key, as `serde_json::Value`'s indexing does on a
//! map whose keys are distinct.
use vstd::prelude::*;
use crate::text::str_eq;


verus! {

/// The model of a JSON value: strings are character sequences.
pub enum Json {
    Null,
    Bool(bool),
    Number(Seq<char>),
    Str(Seq<char>),
    Array(Seq<Json>),
    Object(Seq<(Seq<char>, Json)>),
}

/// A JSON value. Numbers are held as their text.
pub enum JsonValue {
    Null,
    Bool(bool),
    Number(String),
    Str(String),
    Array(Vec<JsonValue>),
    Object(Vec<(String, JsonValue)>),
}

pub open spec fn view_items(v: Seq<JsonValue>) -> Seq<Json>
    decreases v,
{
    if v.len() == 0 {
        Seq::<Json>::empty()
    } else {
        seq![v[0].view()] + view_items(v.subrange(1, v.len() as int))
    }
}

pub open spec fn view_members(v: Seq<(String, JsonValue)>) -> Seq<(Seq<char>, Json)>
    decreases v,
{
    if v.len() == 0 {
        Seq::<(Seq<char>, Json)>::empty()
    } else {
        seq![(v[0].0@, v[0].1.view())] + view_members(v.subrange(1, v.len() as int))
    }
}

impl JsonValue {
    pub open spec fn view(&self) -> Json
        decreases self,
    {
        match self {
            JsonValue::Null => Json::Null,
            JsonValue::Bool(b) => Json::Bool(*b),
            JsonValue::Number(n) => Json::Number(n@),
            JsonValue::Str(s) => Json::Str(s@),
            JsonValue::Array(v) => Json::Array(view_items(v@)),
            JsonValue::Object(m) => Json::Object(view_members(m@)),
        }
    }
}


pub proof fn lemma_view_items(v: Seq<JsonValue>)
    ensures
        view_items(v).len() == v.len(),
        forall|i: int| 0 <= i < v.len() ==> #[trigger] view_items(v)[i] == v[i]@,
    decreases v.len(),
{
    if v.len() > 0 {
        lemma_view_items(v.subrange(1, v.len() as int));
    }
}

pub proof fn lemma_view_members(v: Seq<(String, JsonValue)>)
    ensures
        view_members(v).len() == v.len(),
        forall|i: int| 0 <= i < v.len() ==> #[trigger] view_members(v)[i] == (v[i].0@, v[i].1@),
    decreases v.len(),
{
    if v.len() > 0 {
        lemma_view_members(v.subrange(1, v.len() as int));
    }
}

pub proof fn lemma_view_members_push(s: Seq<(String, JsonValue)>, x: (String, JsonValue))
    ensures
        view_members(s.push(x)) == view_members(s).push((x.0@, x.1@)),
{
    lemma_view_members(s);
    lemma_view_members(s.push(x));
    assert(view_members(s.push(x)) =~= view_members(s).push((x.0@, x.1@)));
}

pub proof fn lemma_view_items_push(s: Seq<JsonValue>, x: JsonValue)
    ensures
        view_items(s.push(x)) == view_items(s).push(x@),
{
    lemma_view_items(s);
    lemma_view_items(s.push(x));
    assert(view_items(s.push(x)) =~= view_items(s).push(x@));
}

/// The members of an object model, indexed like the executable members.
pub proof fn lemma_view_members_eq(a: Seq<(String, JsonValue)>, b: Seq<(Seq<char>, Json)>)
    requires
        a.len() == b.len(),
        forall|i: int| 0 <= i < a.len() ==> (a[i].0@, a[i].1@) == #[trigger] b[i],
    ensures
        view_members(a) == b,
{
    lemma_view_members(a);
    assert(view_members(a) =~= b);
}

pub proof fn lemma_view_items_eq(a: Seq<JsonValue>, b: Seq<Json>)
    requires
        a.len() == b.len(),
        forall|i: int| 0 <= i < a.len() ==> a[i]@ == #[trigger] b[i],
    ensures
        view_items(a) == b,
{
    lemma_view_items(a);
    assert(view_items(a) =~= b);
}

/// Whether `i` is the position of the first member of `m` with key `key`.
pub open spec fn is_first_key(m: Seq<(Seq<char>, Json)>, key: Seq<char>, i: int) -> bool {
    &&& 0 <= i < m.len()
    &&& m[i].0 == key
    &&& forall|j: int| 0 <= j < i ==> m[j].0 != key
}

pub open spec fn has_key(m: Seq<(Seq<char>, Json)>, key: Seq<char>) -> bool {
    exists|i: int| 0 <= i < m.len() && m[i].0 == key
}

/// The value of the first member of `m` with key `key`, if any.
pub open spec fn lookup(m: Seq<(Seq<char>, Json)>, key: Seq<char>) -> Option<Json> {
    if has_key(m, key) {
        Some(m[choose|i: int| is_first_key(m, key, i)].1)
    } else {
        None
    }
}

pub proof fn lemma_first_key_unique(m: Seq<(Seq<char>, Json)>, key: Seq<char>, i: int, j: int)
    requires
        is_first_key(m, key, i),
        is_first_key(m, key, j),
    ensures
        i == j,
{
}

/// A key that occurs has a first occurrence.
pub proof fn lemma_has_first_key(m: Seq<(Seq<char>, Json)>, key: Seq<char>)
    requires
        has_key(m, key),
    ensures
        exists|i: int| is_first_key(m, key, i),
{
    let k = choose|k: int| 0 <= k < m.len() && m[k].0 == key;
    lemma_has_first_key_below(m, key, k);
}

proof fn lemma_has_first_key_below(m: Seq<(Seq<char>, Json)>, key: Seq<char>, k: int)
    requires
        0 <= k < m.len(),
        m[k].0 == key,
    ensures
        exists|i: int| is_first_key(m, key, i),
    decreases k,
{
    if forall|j: int| 0 <= j < k ==> m[j].0 != key {
        assert(is_first_key(m, key, k));
    } else {
        let j = choose|j: int| 0 <= j < k && m[j].0 != key == false;
        lemma_has_first_key_below(m, key, j);
    }
}

/// `lookup` finds the value at the first position of the key.
pub proof fn lemma_lookup_at(m: Seq<(Seq<char>, Json)>, key: Seq<char>, i: int)
    requires
        is_first_key(m, key, i),
    ensures
        lookup(m, key) == Some(m[i].1),
{
    let c = choose|c: int| is_first_key(m, key, c);
    lemma_first_key_unique(m, key, c, i);
}

/// What `value[key]` gives in `serde_json`: the member's value, or null.
pub open spec fn index_key(j: Json, key: Seq<char>) -> Json {
    match j {
        Json::Object(m) => match lookup(m, key) {
            Some(v) => v,
            None => Json::Null,
        },
        _ => Json::Null,
    }
}

impl JsonValue {
    /// A copy of this value.
    #[verifier::loop_isolation(false)]
    pub fn copy(&self) -> (r: JsonValue)
        ensures
            r@ == self@,
        decreases self,
    {
        match self {
            JsonValue::Null => JsonValue::Null,
            JsonValue::Bool(b) => JsonValue::Bool(*b),
            JsonValue::Number(n) => JsonValue::Number(n.clone()),
            JsonValue::Str(s) => JsonValue::Str(s.clone()),
            JsonValue::Array(v) => {
                let mut out: Vec<JsonValue> = Vec::new();
                let mut i: usize = 0;
                while i < v.len()
                    invariant
                        i <= v@.len(),
                        out@.len() == i,
                        forall|k: int| 0 <= k < i ==> (#[trigger] out@[k])@ == v@[k]@,
                    decreases v@.len() - i,
                {
                    proof {
                        assert(decreases_to!(self => *v));
                        assert(decreases_to!(*v => v@));
                        assert(decreases_to!(v@ => v@[i as int]));
                    }
                    let c = v[i].copy();
                    out.push(c);
                    i += 1;
                }
                proof {
                    lemma_view_items(v@);
                    lemma_view_items_eq(out@, view_items(v@));
                }
                JsonValue::Array(out)
            },
            JsonValue::Object(m) => {
                let mut out: Vec<(String, JsonValue)> = Vec::new();
                let mut i: usize = 0;
                while i < m.len()
                    invariant
                        i <= m@.len(),
                        out@.len() == i,
                        forall|k: int| 0 <= k < i ==> ((#[trigger] out@[k]).0@, out@[k].1@) == (m@[k].0@, m@[k].1@),
                    decreases m@.len() - i,
                {
                    proof {
                        assert(decreases_to!(self => *m));
                        assert(decreases_to!(*m => m@));
                        assert(decreases_to!(m@ => m@[i as int]));
                        assert(decreases_to!(m@[i as int] => m@[i as int].1));
                    }
                    let c = m[i].1.copy();
                    out.push((m[i].0.clone(), c));
                    i += 1;
                }
                proof {
                    lemma_view_members(m@);
                    lemma_view_members_eq(out@, view_members(m@));
                }
                JsonValue::Object(out)
            },
        }
    }

    /// The string this value holds, if it is a string (`Value::as_str`).
    pub fn as_str(&self) -> (r: Option<&String>)
        ensures
            match self@ {
                Json::Str(s) => r is Some && r->0@ == s,
                _ => r is None,
            },
    {
        match self {
            JsonValue::Str(s) => Some(s),
            _ => None,
        }
    }

    /// The value of the first member with key `key`, when this value is an
    /// object that has one (`Value::get`).
    pub fn get(&self, key: &str) -> (r: Option<&JsonValue>)
        ensures
            match self@ {
                Json::Object(m) => match lookup(m, key@) {
                    Some(v) => r is Some && r->0@ == v,
                    None => r is None,
                },
                _ => r is None,
            },
    {
        match self {
            JsonValue::Object(m) => {
                let r = members_get(m, key);
                r
            },
            _ => None,
        }
    }
}

/// The value of the first member with key `key` (`Map::get`).
pub fn members_get<'a>(m: &'a Vec<(String, JsonValue)>, key: &str) -> (r: Option<&'a JsonValue>)
    ensures
        match lookup(view_members(m@), key@) {
            Some(v) => r is Some && r->0@ == v,
            None => r is None,
        },
{
    proof {
        lemma_view_members(m@);
    }
    let ghost vm = view_members(m@);
    let mut i: usize = 0;
    while i < m.len()
        invariant
            i <= m@.len(),
            vm == view_members(m@),
            vm.len() == m@.len(),
            forall|k: int| 0 <= k < m@.len() ==> #[trigger] vm[k] == (m@[k].0@, m@[k].1@),
            forall|j: int| 0 <= j < i ==> vm[j].0 != key@,
        decreases m@.len() - i,
    {
        if str_eq(m[i].0.as_str(), key) {
            proof {
                assert(is_first_key(vm, key@, i as int));
                lemma_lookup_at(vm, key@, i as int);
            }
            return Some(&m[i].1);
        }
        i += 1;
    }
    assert(!has_key(vm, key@));
    None
}

/// Whether an object's members hold key `key` (`Map::contains_key`).
pub fn members_contain(m: &Vec<(String, JsonValue)>, key: &str) -> (r: bool)
    ensures
        r == has_key(view_members(m@), key@),
{
    proof {
        lemma_view_members(m@);
        if has_key(view_members(m@), key@) {
            lemma_has_first_key(view_members(m@), key@);
        }
    }
    members_get(m, key).is_some()
}


/// The members of `m` with `key` set to `v`, as `Map::insert` leaves them:
/// the first member with that key gets the new value, or a member is added
/// at the end.
pub open spec fn set_member(m: Seq<(Seq<char>, Json)>, key: Seq<char>, v: Json) -> Seq<(Seq<char>, Json)> {
    if has_key(m, key) {
        m.update(choose|i: int| is_first_key(m, key, i), (key, v))
    } else {
        m.push((key, v))
    }
}

/// The members of an object with `key` set to `v`.
pub fn object_set(m: &Vec<(String, JsonValue)>, key: &str, v: JsonValue) -> (r: Vec<(String, JsonValue)>)
    ensures
        view_members(r@) == set_member(view_members(m@), key@, v@),
{
    proof {
        lemma_view_members(m@);
    }
    let ghost vm = view_members(m@);
    let mut pos: usize = 0;
    while pos < m.len()
        invariant
            pos <= m@.len(),
            vm == view_members(m@),
            vm.len() == m@.len(),
            forall|k: int| 0 <= k < m@.len() ==> #[trigger] vm[k] == (m@[k].0@, m@[k].1@),
            forall|j: int| 0 <= j < pos ==> vm[j].0 != key@,
        ensures
            pos <= m@.len(),
            forall|j: int| 0 <= j < pos ==> vm[j].0 != key@,
            pos < m@.len() ==> vm[pos as int].0 == key@,
        decreases m@.len() - pos,
    {
        if str_eq(m[pos].0.as_str(), key) {
            break;
        }
        pos += 1;
    }
    let found = pos < m.len();
    proof {
        if found {
            assert(is_first_key(vm, key@, pos as int));
            let c = choose|c: int| is_first_key(vm, key@, c);
            lemma_first_key_unique(vm, key@, c, pos as int);
        } else {
            assert(!has_key(vm, key@));
        }
    }
    let mut out: Vec<(String, JsonValue)> = Vec::new();
    let mut i: usize = 0;
    while i < m.len()
        invariant
            i <= m@.len(),
            vm == view_members(m@),
            vm.len() == m@.len(),
            forall|k: int| 0 <= k < m@.len() ==> #[trigger] vm[k] == (m@[k].0@, m@[k].1@),
            found ==> pos < m@.len(),
            out@.len() == i,
            forall|k: int| 0 <= k < i && k != pos ==> ((#[trigger] out@[k]).0@, out@[k].1@) == vm[k],
            found && pos < i ==> (out@[pos as int].0@, out@[pos as int].1@) == (key@, v@),
            !found ==> forall|k: int| 0 <= k < i ==> ((#[trigger] out@[k]).0@, out@[k].1@) == vm[k],
        decreases m@.len() - i,
    {
        if found && i == pos {
            out.push((key.to_owned(), v.copy()));
        } else {
            let c = m[i].1.copy();
            out.push((m[i].0.clone(), c));
        }
        i += 1;
    }
    if !found {
        let k = key.to_owned();
        out.push((k, v));
    }
    proof {
        if found {
            lemma_view_members_eq(out@, set_member(vm, key@, v@));
        } else {
            lemma_view_members_eq(out@, set_member(vm, key@, v@));
        }
    }
    out
}


/// An object member reads back as set, and setting it leaves every other
/// key as it was.
pub proof fn law_set_member_lookup(m: Seq<(Seq<char>, Json)>, key: Seq<char>, v: Json, other: Seq<char>)
    requires
        other != key,
    ensures
        lookup(set_member(m, key, v), key) == Some(v),
        lookup(set_member(m, key, v), other) == lookup(m, other),
{
    let r = set_member(m, key, v);
    if has_key(m, key) {
        lemma_has_first_key(m, key);
        let i = choose|i: int| is_first_key(m, key, i);
        assert(r == m.update(i, (key, v)));
        assert(is_first_key(r, key, i));
        lemma_lookup_at(r, key, i);
        lemma_set_member_other(m, key, v, other, i);
    } else {
        let i = m.len() as int;
        assert(r == m.push((key, v)));
        assert(is_first_key(r, key, i));
        lemma_lookup_at(r, key, i);
        if has_key(m, other) {
            lemma_has_first_key(m, other);
            let j = choose|j: int| is_first_key(m, other, j);
            assert(is_first_key(r, other, j));
            lemma_lookup_at(r, other, j);
            lemma_lookup_at(m, other, j);
        } else {
            assert(!has_key(r, other)) by {
                if has_key(r, other) {
                    let j = choose|j: int| 0 <= j < r.len() && r[j].0 == other;
                    if j < m.len() {
                        assert(m[j].0 == other);
                    }
                }
            }
        }
    }
}

proof fn lemma_set_member_other(m: Seq<(Seq<char>, Json)>, key: Seq<char>, v: Json, other: Seq<char>, i: int)
    requires
        other != key,
        is_first_key(m, key, i),
    ensures
        lookup(m.update(i, (key, v)), other) == lookup(m, other),
{
    let r = m.update(i, (key, v));
    if has_key(m, other) {
        lemma_has_first_key(m, other);
        let j = choose|j: int| is_first_key(m, other, j);
        assert(j != i);
        assert(is_first_key(r, other, j));
        lemma_lookup_at(r, other, j);
        lemma_lookup_at(m, other, j);
    } else {
        assert(!has_key(r, other)) by {
            if has_key(r, other) {
                let j = choose|j: int| 0 <= j < r.len() && r[j].0 == other;
                assert(j != i);
                assert(m[j].0 == other);
            }
        }
    }
}

/// Setting the first member's key replaces the first member.
pub proof fn lemma_set_first_member(m: Seq<(Seq<char>, Json)>, v: Json)
    requires
        m.len() > 0,
    ensures
        set_member(m, m[0].0, v).len() == m.len(),
        set_member(m, m[0].0, v)[0] == (m[0].0, v),
{
    assert(is_first_key(m, m[0].0, 0));
    assert(has_key(m, m[0].0));
    let c = choose|c: int| is_first_key(m, m[0].0, c);
    lemma_first_key_unique(m, m[0].0, c, 0);
}

} // verus!
