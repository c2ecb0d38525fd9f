//! The structured value exchanged with the provider: a JSON-like tree,
//! together with its mathematical shape (`JsonData`) used in contracts.

use vstd::prelude::*;

verus! {

/// A JSON-like structured value as this library holds it: the shapes
/// the transmission API exchanges, with numbers restricted to 64-bit
/// integers. Object entries keep their order.
#[derive(Debug, PartialEq)]
pub enum JsonValue {
    Null,
    Bool(bool),
    Int(i64),
    Str(String),
    Arr(Vec<JsonValue>),
    Obj(Vec<(String, JsonValue)>),
}

/// The mathematical shape of a `JsonValue`: the same tree over `Seq`,
/// `int` and `char`. Contracts speak of this type.
pub enum JsonData {
    Null,
    Bool(bool),
    Int(int),
    Str(Seq<char>),
    Arr(Seq<JsonData>),
    Obj(Seq<(Seq<char>, JsonData)>),
}

impl JsonValue {
    /// The mathematical tree this value denotes.
    pub open spec fn jdata(self) -> JsonData
        decreases self,
    {
        match self {
            JsonValue::Null => JsonData::Null,
            JsonValue::Bool(b) => JsonData::Bool(b),
            JsonValue::Int(n) => JsonData::Int(n as int),
            JsonValue::Str(s) => JsonData::Str(s@),
            JsonValue::Arr(a) => JsonData::Arr(jdata_seq(a@)),
            JsonValue::Obj(o) => JsonData::Obj(jdata_entries(o@)),
        }
    }
}

/// The mathematical trees of a sequence of values, in order.
pub open spec fn jdata_seq(s: Seq<JsonValue>) -> Seq<JsonData>
    decreases s,
{
    if s.len() == 0 {
        Seq::empty()
    } else {
        jdata_seq(s.drop_last()).push(s.last().jdata())
    }
}

/// The mathematical entries of a sequence of key/value pairs, in order.
pub open spec fn jdata_entries(s: Seq<(String, JsonValue)>) -> Seq<(Seq<char>, JsonData)>
    decreases s,
{
    if s.len() == 0 {
        Seq::empty()
    } else {
        jdata_entries(s.drop_last()).push((s.last().0@, s.last().1.jdata()))
    }
}

/// `jdata_seq` maps the sequence pointwise.
pub broadcast proof fn lemma_jdata_seq_index(s: Seq<JsonValue>, i: int)
    ensures
        #![trigger jdata_seq(s)[i]]
        jdata_seq(s).len() == s.len(),
        0 <= i < s.len() ==> jdata_seq(s)[i] == s[i].jdata(),
    decreases s,
{
    if s.len() > 0 {
        lemma_jdata_seq_index(s.drop_last(), i);
    }
}

/// `jdata_seq` keeps the sequence's length.
pub broadcast proof fn lemma_jdata_seq_len(s: Seq<JsonValue>)
    ensures
        #[trigger] jdata_seq(s).len() == s.len(),
    decreases s,
{
    if s.len() > 0 {
        lemma_jdata_seq_len(s.drop_last());
    }
}

/// `jdata_entries` maps the entry sequence pointwise.
pub broadcast proof fn lemma_jdata_entries_index(s: Seq<(String, JsonValue)>, i: int)
    ensures
        #![trigger jdata_entries(s)[i]]
        jdata_entries(s).len() == s.len(),
        0 <= i < s.len() ==> jdata_entries(s)[i] == (s[i].0@, s[i].1.jdata()),
    decreases s,
{
    if s.len() > 0 {
        lemma_jdata_entries_index(s.drop_last(), i);
    }
}

/// `jdata_entries` keeps the sequence's length.
pub broadcast proof fn lemma_jdata_entries_len(s: Seq<(String, JsonValue)>)
    ensures
        #[trigger] jdata_entries(s).len() == s.len(),
    decreases s,
{
    if s.len() > 0 {
        lemma_jdata_entries_len(s.drop_last());
    }
}

/// The value under the first entry whose key is `key`, if any.
pub open spec fn entries_get(es: Seq<(Seq<char>, JsonData)>, key: Seq<char>) -> Option<JsonData>
    decreases es,
{
    if es.len() == 0 {
        None
    } else if es.first().0 == key {
        Some(es.first().1)
    } else {
        entries_get(es.drop_first(), key)
    }
}

/// Looking a key up in an empty entry sequence finds nothing.
pub broadcast proof fn lemma_entries_get_empty(key: Seq<char>)
    ensures
        #[trigger] entries_get(Seq::<(Seq<char>, JsonData)>::empty(), key) is None,
{
}

/// Looking a key up after an entry is appended: an earlier entry still
/// wins; otherwise the appended entry answers exactly for its own key.
pub broadcast proof fn lemma_entries_get_push(
    es: Seq<(Seq<char>, JsonData)>,
    e: (Seq<char>, JsonData),
    key: Seq<char>,
)
    ensures
        #[trigger] entries_get(es.push(e), key) == (match entries_get(es, key) {
            Some(v) => Some(v),
            None => if e.0 == key {
                Some(e.1)
            } else {
                None
            },
        }),
    decreases es.len(),
{
    if es.len() == 0 {
        assert(es.push(e).first() == e);
        assert(es.push(e).drop_first() =~= es);
    } else {
        assert(es.push(e).first() == es.first());
        assert(es.push(e).drop_first() =~= es.drop_first().push(e));
        lemma_entries_get_push(es.drop_first(), e, key);
    }
}

impl JsonData {
    /// Object lookup: the value under `key` when this tree is an object
    /// holding that key; `None` otherwise.
    pub open spec fn jget(self, key: Seq<char>) -> Option<JsonData> {
        match self {
            JsonData::Obj(es) => entries_get(es, key),
            _ => None,
        }
    }

    /// Array element: the element at `i` when this tree is an array of
    /// more than `i` elements; `None` otherwise.
    pub open spec fn jat(self, i: int) -> Option<JsonData> {
        match self {
            JsonData::Arr(a) => if 0 <= i < a.len() {
                Some(a[i])
            } else {
                None
            },
            _ => None,
        }
    }
}

/// Sequences whose elements denote the same trees pointwise have the
/// same `jdata_seq`.
pub proof fn lemma_jdata_seq_pointwise(s1: Seq<JsonValue>, s2: Seq<JsonValue>)
    requires
        s1.len() == s2.len(),
        forall|i: int| 0 <= i < s1.len() ==> s1[i].jdata() == s2[i].jdata(),
    ensures
        jdata_seq(s1) == jdata_seq(s2),
    decreases s1,
{
    if s1.len() > 0 {
        lemma_jdata_seq_pointwise(s1.drop_last(), s2.drop_last());
    }
}

/// Entry sequences equal pointwise in key view and value tree have the
/// same `jdata_entries`.
pub proof fn lemma_jdata_entries_pointwise(s1: Seq<(String, JsonValue)>, s2: Seq<(String, JsonValue)>)
    requires
        s1.len() == s2.len(),
        forall|i: int| 0 <= i < s1.len() ==> s1[i].0@ == s2[i].0@ && s1[i].1.jdata() == s2[i].1.jdata(),
    ensures
        jdata_entries(s1) == jdata_entries(s2),
    decreases s1,
{
    if s1.len() > 0 {
        lemma_jdata_entries_pointwise(s1.drop_last(), s2.drop_last());
    }
}

/// A concrete description of `jdata_seq`: a sequence of trees equal to
/// it pointwise is it.
pub proof fn lemma_jdata_seq_is(s: Seq<JsonValue>, t: Seq<JsonData>)
    requires
        t.len() == s.len(),
        forall|i: int| 0 <= i < s.len() ==> t[i] == s[i].jdata(),
    ensures
        jdata_seq(s) == t,
{
    lemma_jdata_seq_len(s);
    assert forall|i: int| 0 <= i < s.len() implies jdata_seq(s)[i] == t[i] by {
        lemma_jdata_seq_index(s, i);
    }
    assert(jdata_seq(s) =~= t);
}

/// A concrete description of `jdata_entries`: an entry sequence equal
/// to it pointwise is it.
pub proof fn lemma_jdata_entries_is(s: Seq<(String, JsonValue)>, t: Seq<(Seq<char>, JsonData)>)
    requires
        t.len() == s.len(),
        forall|i: int| 0 <= i < s.len() ==> t[i] == (s[i].0@, s[i].1.jdata()),
    ensures
        jdata_entries(s) == t,
{
    lemma_jdata_entries_len(s);
    assert forall|i: int| 0 <= i < s.len() implies jdata_entries(s)[i] == t[i] by {
        lemma_jdata_entries_index(s, i);
    }
    assert(jdata_entries(s) =~= t);
}

/// Appending an entry appends its mathematical entry.
pub broadcast proof fn lemma_jdata_entries_push(s: Seq<(String, JsonValue)>, e: (String, JsonValue))
    ensures
        #[trigger] jdata_entries(s.push(e)) == jdata_entries(s).push((e.0@, e.1.jdata())),
{
    assert(s.push(e).drop_last() =~= s);
    assert(s.push(e).last() == e);
}

/// String equality, stated over the views.
pub fn str_eq(a: &str, b: &str) -> (r: bool)
    ensures
        r == (a@ == b@),
{
    let s1: String = a.to_owned();
    let s2: String = b.to_owned();
    s1 == s2
}

/// The value under the first entry of `entries` whose key is `key`,
/// matching `entries_get` on the entries' trees.
#[verifier::loop_isolation(false)]
fn entries_find<'a>(entries: &'a Vec<(String, JsonValue)>, key: &str) -> (r: Option<&'a JsonValue>)
    ensures
        match r {
            Some(c) => entries_get(jdata_entries(entries@), key@) == Some(c.jdata()),
            None => entries_get(jdata_entries(entries@), key@) is None,
        },
{
    let ghost es = jdata_entries(entries@);
    proof {
        lemma_jdata_entries_len(entries@);
        assert(es.skip(0) =~= es);
    }
    let mut i: usize = 0;
    while i < entries.len()
        invariant
            0 <= i <= entries@.len(),
            entries_get(es, key@) == entries_get(es.skip(i as int), key@),
        decreases entries@.len() - i,
    {
        proof {
            lemma_jdata_entries_index(entries@, i as int);
            assert(es.skip(i as int).first() == es[i as int]);
        }
        if str_eq(entries[i].0.as_str(), key) {
            return Some(&entries[i].1);
        }
        proof {
            assert(es.skip(i as int).drop_first() =~= es.skip(i as int + 1));
        }
        i = i + 1;
    }
    proof {
        assert(es.skip(i as int) =~= Seq::empty());
    }
    None
}

impl JsonValue {
    /// Object lookup by key, matching `JsonData::jget`.
    pub fn get<'a>(&'a self, key: &str) -> (r: Option<&'a JsonValue>)
        ensures
            match r {
                Some(c) => self.jdata().jget(key@) == Some(c.jdata()),
                None => self.jdata().jget(key@) is None,
            },
    {
        match self {
            JsonValue::Obj(entries) => entries_find(entries, key),
            _ => None,
        }
    }

    /// Array element by position, matching `JsonData::jat`.
    pub fn at<'a>(&'a self, i: usize) -> (r: Option<&'a JsonValue>)
        ensures
            match r {
                Some(c) => self.jdata().jat(i as int) == Some(c.jdata()),
                None => self.jdata().jat(i as int) is None,
            },
    {
        match self {
            JsonValue::Arr(a) => {
                proof {
                    lemma_jdata_seq_len(a@);
                }
                if i < a.len() {
                    proof {
                        lemma_jdata_seq_index(a@, i as int);
                    }
                    Some(&a[i])
                } else {
                    None
                }
            },
            _ => None,
        }
    }

    /// The held characters when this value is a string.
    pub fn as_str<'a>(&'a self) -> (r: Option<&'a str>)
        ensures
            match r {
                Some(t) => self.jdata() == JsonData::Str(t@),
                None => !(self.jdata() is Str),
            },
    {
        match self {
            JsonValue::Str(s) => Some(s.as_str()),
            _ => None,
        }
    }

    /// The held boolean when this value is one.
    pub fn as_bool(&self) -> (r: Option<bool>)
        ensures
            match r {
                Some(b) => self.jdata() == JsonData::Bool(b),
                None => !(self.jdata() is Bool),
            },
    {
        match self {
            JsonValue::Bool(b) => Some(*b),
            _ => None,
        }
    }

    /// The held integer when this value is a number.
    pub fn as_i64(&self) -> (r: Option<i64>)
        ensures
            match r {
                Some(n) => self.jdata() == JsonData::Int(n as int),
                None => !(self.jdata() is Int),
            },
    {
        match self {
            JsonValue::Int(n) => Some(*n),
            _ => None,
        }
    }

    /// A structurally fresh copy denoting the same tree.
    #[verifier::loop_isolation(false)]
    pub fn deep_clone(&self) -> (r: JsonValue)
        ensures
            r.jdata() == self.jdata(),
        decreases *self,
    {
        match self {
            JsonValue::Null => JsonValue::Null,
            JsonValue::Bool(b) => JsonValue::Bool(*b),
            JsonValue::Int(n) => JsonValue::Int(*n),
            JsonValue::Str(s) => JsonValue::Str(s.clone()),
            JsonValue::Arr(a) => {
                let mut out: Vec<JsonValue> = Vec::new();
                let mut i: usize = 0;
                while i < a.len()
                    invariant
                        0 <= i <= a@.len(),
                        out@.len() == i,
                        forall|j: int| 0 <= j < i ==> out@[j].jdata() == a@[j].jdata(),
                    decreases a@.len() - i,
                {
                    proof {
                        assert(decreases_to!(*self => *a));
                        assert(decreases_to!(*a => a@));
                        assert(decreases_to!(a@ => a@[i as int]));
                    }
                    out.push(a[i].deep_clone());
                    i = i + 1;
                }
                proof {
                    lemma_jdata_seq_pointwise(out@, a@);
                }
                JsonValue::Arr(out)
            },
            JsonValue::Obj(o) => {
                let mut out: Vec<(String, JsonValue)> = Vec::new();
                let mut i: usize = 0;
                while i < o.len()
                    invariant
                        0 <= i <= o@.len(),
                        out@.len() == i,
                        forall|j: int| 0 <= j < i ==> out@[j].0@ == o@[j].0@
                            && out@[j].1.jdata() == o@[j].1.jdata(),
                    decreases o@.len() - i,
                {
                    proof {
                        assert(decreases_to!(*self => *o));
                        assert(decreases_to!(*o => o@));
                        assert(decreases_to!(o@ => o@[i as int]));
                    }
                    out.push((o[i].0.clone(), o[i].1.deep_clone()));
                    i = i + 1;
                }
                proof {
                    lemma_jdata_entries_pointwise(out@, o@);
                }
                JsonValue::Obj(out)
            },
        }
    }
}

} // verus!
