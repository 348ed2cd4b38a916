//! A minimal JSON-like value type: the shape of every message body that the
//! adapter reads or builds, modeled with plain values so that the logic over
//! it can be specified and verified.

use vstd::prelude::*;

verus! {

broadcast use {vstd::std_specs::vec::group_vec_axioms, vstd::seq::group_seq_axioms};

/// Mathematical model of a JSON value, used in specifications.
pub enum JsonSpec {
    Null,
    Bool(bool),
    Int(int),
    Str(Seq<char>),
    Arr(Seq<JsonSpec>),
    Obj(Seq<(Seq<char>, JsonSpec)>),
}

/// A JSON value as the adapter holds it: object members keep their order,
/// and numbers are integers (every numeric field the adapter reads or writes
/// is a count or a page number).
#[derive(Debug, PartialEq)]
pub enum JsonValue {
    Null,
    Bool(bool),
    Int(i64),
    Str(String),
    Arr(Vec<JsonValue>),
    Obj(Vec<(String, JsonValue)>),
}

pub open spec fn json_view(v: JsonValue) -> JsonSpec
    decreases v,
{
    match v {
        JsonValue::Null => JsonSpec::Null,
        JsonValue::Bool(b) => JsonSpec::Bool(b),
        JsonValue::Int(n) => JsonSpec::Int(n as int),
        JsonValue::Str(s) => JsonSpec::Str(s@),
        JsonValue::Arr(a) => JsonSpec::Arr(json_view_arr(a@)),
        JsonValue::Obj(o) => JsonSpec::Obj(json_view_obj(o@)),
    }
}

pub open spec fn json_view_arr(s: Seq<JsonValue>) -> Seq<JsonSpec>
    decreases s,
{
    if s.len() == 0 {
        Seq::empty()
    } else {
        seq![json_view(s[0])] + json_view_arr(s.subrange(1, s.len() as int))
    }
}

pub open spec fn json_view_obj(s: Seq<(String, JsonValue)>) -> Seq<(Seq<char>, JsonSpec)>
    decreases s,
{
    if s.len() == 0 {
        Seq::empty()
    } else {
        seq![(s[0].0@, json_view(s[0].1))] + json_view_obj(s.subrange(1, s.len() as int))
    }
}

impl View for JsonValue {
    type V = JsonSpec;

    open spec fn view(&self) -> JsonSpec {
        json_view(*self)
    }
}

/// The view of a member sequence is its pointwise view.
pub proof fn lemma_view_arr(s: Seq<JsonValue>)
    ensures
        json_view_arr(s).len() == s.len(),
        forall|i: int| 0 <= i < s.len() ==> json_view_arr(s)[i] == json_view(s[i]),
    decreases s,
{
    if s.len() > 0 {
        lemma_view_arr(s.subrange(1, s.len() as int));
        assert forall|i: int| 0 <= i < s.len() implies json_view_arr(s)[i] == json_view(s[i]) by {
            if i > 0 {
                assert(s.subrange(1, s.len() as int)[i - 1] == s[i]);
            }
        }
    }
}

/// The view of an object member list is its pointwise view.
pub proof fn lemma_view_obj(s: Seq<(String, JsonValue)>)
    ensures
        json_view_obj(s).len() == s.len(),
        forall|i: int| 0 <= i < s.len() ==> json_view_obj(s)[i]
            == (s[i].0@, json_view(s[i].1)),
    decreases s,
{
    if s.len() > 0 {
        lemma_view_obj(s.subrange(1, s.len() as int));
        assert forall|i: int| 0 <= i < s.len() implies json_view_obj(s)[i]
            == (s[i].0@, json_view(s[i].1)) by {
            if i > 0 {
                assert(s.subrange(1, s.len() as int)[i - 1] == s[i]);
            }
        }
    }
}

/// The member stored under `key` in an object member list: the first match.
pub open spec fn spec_get_members(ms: Seq<(Seq<char>, JsonSpec)>, key: Seq<char>)
    -> Option<JsonSpec>
    decreases ms,
{
    if ms.len() == 0 {
        None
    } else if ms[0].0 == key {
        Some(ms[0].1)
    } else {
        spec_get_members(ms.subrange(1, ms.len() as int), key)
    }
}

/// Member lookup on a JSON value: `None` unless the value is an object
/// holding the key.
pub open spec fn spec_get(v: JsonSpec, key: Seq<char>) -> Option<JsonSpec> {
    match v {
        JsonSpec::Obj(ms) => spec_get_members(ms, key),
        _ => None,
    }
}

pub open spec fn spec_as_u64(v: JsonSpec) -> Option<u64> {
    match v {
        JsonSpec::Int(n) => if 0 <= n <= u64::MAX { Some(n as u64) } else { None },
        _ => None,
    }
}

impl JsonValue {
    /// Looks a key up in an object, as the first member carrying it.
    pub fn get<'a>(&'a self, key: &str) -> (r: Option<&'a JsonValue>)
        ensures
            match r {
                Some(m) => spec_get(self@, key@) == Some(m@),
                None => spec_get(self@, key@) is None,
            },
    {
        match self {
            JsonValue::Obj(ms) => {
                proof {
                    lemma_view_obj(ms@);
                }
                let ghost all = json_view_obj(ms@);
                proof {
                    assert(all.subrange(0, all.len() as int) =~= all);
                }
                let n = ms.len();
                for i in 0..n
                    invariant
                        n == ms.len(),
                        all == json_view_obj(ms@),
                        self@ == JsonSpec::Obj(all),
                        all.len() == ms@.len(),
                        forall|j: int| 0 <= j < ms@.len() ==> all[j]
                            == (ms@[j].0@, json_view(ms@[j].1)),
                        spec_get_members(all, key@)
                            == spec_get_members(all.subrange(i as int, all.len() as int), key@),
                {
                    let m = &ms[i];
                    proof {
                        assert(all.subrange(i as int, all.len() as int)[0] == all[i as int]);
                    }
                    if str_eq(m.0.as_str(), key) {
                        return Some(&m.1);
                    }
                    proof {
                        assert(all.subrange(i as int, all.len() as int)
                            .subrange(1, all.len() - i)
                            =~= all.subrange(i + 1, all.len() as int));
                    }
                }
                proof {
                    assert(all.subrange(n as int, all.len() as int).len() == 0);
                }
                None
            },
            _ => None,
        }
    }

    /// The string held by a string value.
    pub fn as_str<'a>(&'a self) -> (r: Option<&'a String>)
        ensures
            match r {
                Some(s) => self@ == JsonSpec::Str(s@),
                None => !(self@ is Str),
            },
    {
        match self {
            JsonValue::Str(s) => Some(s),
            _ => None,
        }
    }

    /// The value of an integer member when it fits an unsigned word.
    pub fn as_u64(&self) -> (r: Option<u64>)
        ensures
            r == spec_as_u64(self@),
    {
        match self {
            JsonValue::Int(n) => {
                if *n >= 0 {
                    Some(*n as u64)
                } else {
                    None
                }
            },
            _ => None,
        }
    }

    /// The elements of an array value.
    pub fn as_array<'a>(&'a self) -> (r: Option<&'a Vec<JsonValue>>)
        ensures
            match r {
                Some(a) => self@ == JsonSpec::Arr(json_view_arr(a@)),
                None => !(self@ is Arr),
            },
    {
        match self {
            JsonValue::Arr(a) => Some(a),
            _ => None,
        }
    }

    /// Whether the value is `null`.
    pub fn is_null(&self) -> (r: bool)
        ensures
            r == (self@ is Null),
    {
        match self {
            JsonValue::Null => true,
            _ => false,
        }
    }

    /// A structurally equal copy of the value.
    pub fn deep_clone(&self) -> (r: JsonValue)
        ensures
            r@ == self@,
        decreases self,
    {
        match self {
            JsonValue::Null => JsonValue::Null,
            JsonValue::Bool(b) => JsonValue::Bool(*b),
            JsonValue::Int(n) => JsonValue::Int(*n),
            JsonValue::Str(s) => JsonValue::Str(s.clone()),
            JsonValue::Arr(a) => JsonValue::Arr(deep_clone_elems(a)),
            JsonValue::Obj(o) => JsonValue::Obj(deep_clone_members(o)),
        }
    }
}

fn deep_clone_elems(a: &Vec<JsonValue>) -> (r: Vec<JsonValue>)
    ensures
        json_view_arr(r@) == json_view_arr(a@),
    decreases a,
{
    let mut out: Vec<JsonValue> = Vec::new();
    let n = a.len();
    for i in 0..n
        invariant
            n == a.len(),
            out@.len() == i,
            forall|j: int| 0 <= j < i ==> json_view(out@[j]) == json_view(a@[j]),
    {
        proof {
            assert(decreases_to!(*a => a@));
            assert(decreases_to!(a@ => a@[i as int]));
        }
        out.push(a[i].deep_clone());
    }
    proof {
        lemma_view_arr(a@);
        lemma_view_arr(out@);
        assert(json_view_arr(out@) =~= json_view_arr(a@));
    }
    out
}

fn deep_clone_members(o: &Vec<(String, JsonValue)>) -> (r: Vec<(String, JsonValue)>)
    ensures
        json_view_obj(r@) == json_view_obj(o@),
    decreases o,
{
    let mut out: Vec<(String, JsonValue)> = Vec::new();
    let n = o.len();
    for i in 0..n
        invariant
            n == o.len(),
            out@.len() == i,
            forall|j: int| 0 <= j < i ==> out@[j].0@ == o@[j].0@
                && json_view(out@[j].1) == json_view(o@[j].1),
    {
        proof {
            assert(decreases_to!(*o => o@));
            assert(decreases_to!(o@ => o@[i as int]));
            assert(decreases_to!(o@[i as int] => o@[i as int].1));
        }
        let m = &o[i];
        out.push((m.0.clone(), m.1.deep_clone()));
    }
    proof {
        lemma_view_obj(o@);
        lemma_view_obj(out@);
        assert(json_view_obj(out@) =~= json_view_obj(o@));
    }
    out
}

/// An object member list with `key` bound to `v`: the first member carrying
/// the key is replaced in place, or the member is appended.
pub open spec fn spec_obj_set(
    ms: Seq<(Seq<char>, JsonSpec)>,
    key: Seq<char>,
    v: JsonSpec,
) -> Seq<(Seq<char>, JsonSpec)>
    decreases ms,
{
    if ms.len() == 0 {
        seq![(key, v)]
    } else if ms[0].0 == key {
        seq![(key, v)] + ms.subrange(1, ms.len() as int)
    } else {
        seq![ms[0]] + spec_obj_set(ms.subrange(1, ms.len() as int), key, v)
    }
}

proof fn lemma_obj_set_found(ms: Seq<(Seq<char>, JsonSpec)>, key: Seq<char>, v: JsonSpec, i: int)
    requires
        0 <= i < ms.len(),
        ms[i].0 == key,
        forall|j: int| 0 <= j < i ==> (#[trigger] ms[j]).0 != key,
    ensures
        spec_obj_set(ms, key, v) == ms.update(i, (key, v)),
    decreases i,
{
    let rest = ms.subrange(1, ms.len() as int);
    if i == 0 {
        assert(spec_obj_set(ms, key, v) =~= ms.update(0, (key, v)));
    } else {
        assert(ms[0].0 != key);
        assert(rest[i - 1].0 == key);
        lemma_obj_set_found(rest, key, v, i - 1);
        assert(spec_obj_set(ms, key, v) =~= ms.update(i, (key, v)));
    }
}

proof fn lemma_obj_set_absent(ms: Seq<(Seq<char>, JsonSpec)>, key: Seq<char>, v: JsonSpec)
    requires
        forall|j: int| 0 <= j < ms.len() ==> (#[trigger] ms[j]).0 != key,
    ensures
        spec_obj_set(ms, key, v) == ms.push((key, v)),
    decreases ms,
{
    if ms.len() == 0 {
        assert(spec_obj_set(ms, key, v) =~= ms.push((key, v)));
    } else {
        let rest = ms.subrange(1, ms.len() as int);
        lemma_obj_set_absent(rest, key, v);
        assert(spec_obj_set(ms, key, v) =~= ms.push((key, v)));
    }
}

/// Binds `key` to `value` in an object member list, replacing the first
/// member carrying the key or appending one.
pub fn obj_set(ms: &mut Vec<(String, JsonValue)>, key: &str, value: JsonValue)
    ensures
        json_view_obj(final(ms)@) == spec_obj_set(json_view_obj(old(ms)@), key@, value@),
{
    let ghost all = json_view_obj(old(ms)@);
    proof {
        lemma_view_obj(ms@);
    }
    let n = ms.len();
    for i in 0..n
        invariant
            n == ms@.len(),
            *ms == *old(ms),
            all == json_view_obj(ms@),
            all.len() == ms@.len(),
            forall|j: int| 0 <= j < ms@.len() ==> all[j] == (ms@[j].0@, json_view(ms@[j].1)),
            forall|j: int| 0 <= j < i ==> (#[trigger] all[j]).0 != key@,
    {
        if str_eq(ms[i].0.as_str(), key) {
            let ghost gi = i as int;
            ms.set(i, (key.to_owned(), value));
            proof {
                lemma_obj_set_found(all, key@, value@, gi);
                lemma_view_obj(ms@);
                assert(json_view_obj(ms@) =~= all.update(gi, (key@, value@)));
            }
            return;
        }
    }
    ms.push((key.to_owned(), value));
    proof {
        lemma_obj_set_absent(all, key@, value@);
        lemma_view_obj(ms@);
        assert(json_view_obj(ms@) =~= all.push((key@, value@)));
    }
}

/// Whether two string slices hold the same characters.
pub fn str_eq(a: &str, b: &str) -> (r: bool)
    ensures
        r == (a@ == b@),
{
    a.to_owned() == b.to_owned()
}

} // verus!
