use vstd::prelude::*;
use crate::params::same_text;

verus! {

pub enum JsonValue {
    Null,
    Bool(bool),
    Number(i64),
    Decimal(String),
    Str(String),
    Array(Vec<JsonValue>),
    Object(Vec<(String, JsonValue)>),
}

pub open spec fn deep_eq(a: JsonValue, b: JsonValue) -> bool
    decreases a,
{
    match (a, b) {
        (JsonValue::Null, JsonValue::Null) => true,
        (JsonValue::Bool(x), JsonValue::Bool(y)) => x == y,
        (JsonValue::Number(x), JsonValue::Number(y)) => x == y,
        (JsonValue::Decimal(x), JsonValue::Decimal(y)) => x@ == y@,
        (JsonValue::Str(x), JsonValue::Str(y)) => x@ == y@,
        (JsonValue::Array(x), JsonValue::Array(y)) => x.len() == y.len() && forall|i: int|
            0 <= i < x.len() ==> deep_eq(#[trigger] x@[i], y@[i]),
        (JsonValue::Object(x), JsonValue::Object(y)) => x.len() == y.len() && forall|i: int|
            0 <= i < x.len() ==> (#[trigger] x@[i]).0@ == y@[i].0@ && deep_eq(x@[i].1, y@[i].1),
        _ => false,
    }
}

/// The place of the first field named `key`, or -1 where there is none.
pub open spec fn index_of_key(f: Seq<(String, JsonValue)>, key: Seq<char>) -> int
    decreases f.len(),
{
    if f.len() == 0 {
        -1
    } else {
        let k = index_of_key(f.drop_last(), key);
        if k >= 0 {
            k
        } else if f.last().0@ == key {
            f.len() - 1
        } else {
            -1
        }
    }
}

pub proof fn lemma_index_of_key(f: Seq<(String, JsonValue)>, key: Seq<char>)
    ensures
        -1 <= index_of_key(f, key) < f.len(),
        index_of_key(f, key) >= 0 ==> f[index_of_key(f, key)].0@ == key,
        index_of_key(f, key) == -1 ==> forall|i: int| 0 <= i < f.len() ==> (#[trigger] f[i]).0@ != key,
    decreases f.len(),
{
    if f.len() > 0 {
        lemma_index_of_key(f.drop_last(), key);
        if index_of_key(f, key) == -1 {
            assert forall|i: int| 0 <= i < f.len() implies (#[trigger] f[i]).0@ != key by {
                if i < f.len() - 1 {
                    assert(f[i] == f.drop_last()[i]);
                }
            }
        }
    }
}

proof fn lemma_index_of_key_prefix(f: Seq<(String, JsonValue)>, key: Seq<char>, m: int, n: int)
    requires
        0 <= m <= n <= f.len(),
        index_of_key(f.subrange(0, m), key) >= 0,
    ensures
        index_of_key(f.subrange(0, n), key) == index_of_key(f.subrange(0, m), key),
    decreases n - m,
{
    if n > m {
        assert(f.subrange(0, n).drop_last() == f.subrange(0, n - 1));
        lemma_index_of_key_prefix(f, key, m, n - 1);
    }
}

pub open spec fn has_key(f: Seq<(String, JsonValue)>, key: Seq<char>) -> bool {
    index_of_key(f, key) >= 0
}

/// The value of the first field named `key`.
pub open spec fn value_of_key(f: Seq<(String, JsonValue)>, key: Seq<char>) -> JsonValue {
    f[index_of_key(f, key)].1
}

/// The integer setting `key` of an object's fields, or `default` where the
/// field is absent or not an integer.
pub open spec fn int_setting(f: Seq<(String, JsonValue)>, key: Seq<char>, default: i64) -> i64 {
    if has_key(f, key) && value_of_key(f, key) is Number {
        value_of_key(f, key)->Number_0
    } else {
        default
    }
}

/// The place of the first field named `key`.
pub fn field_index(fields: &Vec<(String, JsonValue)>, key: &str) -> (r: Option<usize>)
    ensures
        match r {
            Some(i) => i == index_of_key(fields@, key@),
            None => index_of_key(fields@, key@) == -1,
        },
{
    let mut i: usize = 0;
    while i < fields.len()
        invariant
            i <= fields.len(),
            index_of_key(fields@.subrange(0, i as int), key@) == -1,
        decreases fields.len() - i,
    {
        let ghost pre = fields@.subrange(0, i + 1);
        assert(pre.drop_last() == fields@.subrange(0, i as int));
        if same_text(fields[i].0.as_str(), key) {
            proof {
                lemma_index_of_key_prefix(fields@, key@, i + 1, fields.len() as int);
                assert(fields@.subrange(0, fields.len() as int) == fields@);
            }
            return Some(i);
        }
        i = i + 1;
    }
    assert(fields@.subrange(0, fields.len() as int) == fields@);
    None
}

/// The integer setting `key` of an object's fields, or `default`.
pub fn int_field(fields: &Vec<(String, JsonValue)>, key: &str, default: i64) -> (r: i64)
    ensures
        r == int_setting(fields@, key@, default),
{
    proof { lemma_index_of_key(fields@, key@); }
    match field_index(fields, key) {
        Some(i) => match &fields[i].1 {
            JsonValue::Number(n) => *n,
            _ => default,
        },
        None => default,
    }
}

impl JsonValue {
    pub fn copy(&self) -> (r: JsonValue)
        ensures
            deep_eq(*self, r),
        decreases self,
    {
        match self {
            JsonValue::Null => JsonValue::Null,
            JsonValue::Bool(b) => JsonValue::Bool(*b),
            JsonValue::Number(n) => JsonValue::Number(*n),
            JsonValue::Decimal(s) => JsonValue::Decimal(s.clone()),
            JsonValue::Str(s) => JsonValue::Str(s.clone()),
            JsonValue::Array(items) => {
                let mut out: Vec<JsonValue> = Vec::new();
                let mut i: usize = 0;
                while i < items.len()
                    invariant
                        i <= items.len(),
                        *self == JsonValue::Array(*items),
                        out.len() == i,
                        forall|k: int| 0 <= k < i ==> deep_eq(#[trigger] items@[k], out@[k]),
                    decreases items.len() - i,
                {
                    proof {
                        assert(decreases_to!(*self => self->Array_0));
                        assert(decreases_to!(*items => items@));
                        assert(decreases_to!(items@ => items@[i as int]));
                    }
                    let c = items[i].copy();
                    out.push(c);
                    i = i + 1;
                }
                JsonValue::Array(out)
            },
            JsonValue::Object(fields) => {
                let mut out: Vec<(String, JsonValue)> = Vec::new();
                let mut i: usize = 0;
                while i < fields.len()
                    invariant
                        i <= fields.len(),
                        *self == JsonValue::Object(*fields),
                        out.len() == i,
                        forall|k: int| 0 <= k < i ==> (#[trigger] fields@[k]).0@ == out@[k].0@ && deep_eq(fields@[k].1, out@[k].1),
                    decreases fields.len() - i,
                {
                    proof {
                        assert(decreases_to!(*self => self->Object_0));
                        assert(decreases_to!(*fields => fields@));
                        assert(decreases_to!(fields@ => fields@[i as int]));
                        assert(decreases_to!(fields@[i as int] => fields@[i as int].1));
                    }
                    let c = fields[i].1.copy();
                    out.push((fields[i].0.clone(), c));
                    i = i + 1;
                }
                JsonValue::Object(out)
            },
        }
    }
}

} // verus!
