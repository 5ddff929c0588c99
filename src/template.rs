use vstd::prelude::*;
use vstd::string::*;
use crate::faker::{fake_ok, generate_fake_value};
use crate::json::{JsonValue, deep_eq, has_key, index_of_key, value_of_key, field_index, lemma_index_of_key};
use crate::params::StrMap;

verus! {

/// The request body behind an optional reference.
pub open spec fn body_of(b: Option<&JsonValue>) -> Option<JsonValue> {
    match b {
        Some(x) => Some(*x),
        None => None,
    }
}

/// A key that starts with `$` belongs to directive syntax.
pub open spec fn is_directive_key(k: Seq<char>) -> bool {
    k.len() > 0 && k[0] == '$'
}

/// How many of the first `n` fields are kept in an expanded plain object.
pub open spec fn kept_before(f: Seq<(String, JsonValue)>, n: int) -> int
    decreases n,
{
    if n <= 0 {
        0
    } else {
        kept_before(f, n - 1) + if is_directive_key(f[n - 1].0@) { 0int } else { 1int }
    }
}

proof fn lemma_kept_before_grows(f: Seq<(String, JsonValue)>, m: int, i: int)
    requires
        0 <= m < i <= f.len(),
        !is_directive_key(f[m].0@),
    ensures
        0 <= kept_before(f, m) < kept_before(f, i),
    decreases i - m,
{
    if i > m + 1 {
        lemma_kept_before_grows(f, m, i - 1);
    } else {
        lemma_kept_before_nonneg(f, m);
    }
}

proof fn lemma_kept_before_nonneg(f: Seq<(String, JsonValue)>, n: int)
    ensures
        0 <= kept_before(f, n),
    decreases n,
{
    if n > 0 {
        lemma_kept_before_nonneg(f, n - 1);
    }
}

/// The type tag of a fake directive; a tag that is not a string reads as `string`.
pub open spec fn tag_text(v: JsonValue) -> Seq<char> {
    if v is Str {
        v->Str_0@
    } else {
        "string"@
    }
}

pub open spec fn is_empty_object(v: JsonValue) -> bool {
    v is Object && v->Object_0.len() == 0
}

/// What a parameter directive naming `v` yields.
pub open spec fn param_ok(v: JsonValue, params: Map<Seq<char>, Seq<char>>, r: JsonValue) -> bool {
    if v is Str && params.contains_key(v->Str_0@) {
        r is Str && r->Str_0@ == params[v->Str_0@]
    } else {
        r is Null
    }
}

/// What a body-field directive naming `v` yields.
pub open spec fn body_ok(v: JsonValue, body: Option<JsonValue>, r: JsonValue) -> bool {
    if v is Str && body is Some && body->Some_0 is Object && has_key(body->Some_0->Object_0@, v->Str_0@) {
        deep_eq(value_of_key(body->Some_0->Object_0@, v->Str_0@), r)
    } else {
        r is Null
    }
}

/// The element count of an array directive: a non-negative integer `count`, else 5.
pub open spec fn count_of(cf: Seq<(String, JsonValue)>) -> int {
    if has_key(cf, "count"@) && value_of_key(cf, "count"@) is Number && value_of_key(cf, "count"@)->Number_0 >= 0 {
        value_of_key(cf, "count"@)->Number_0 as int
    } else {
        5
    }
}

/// What an array directive with configuration `cfg` yields: `count` elements,
/// each an expansion of `template` (an empty object where none is given).
pub open spec fn array_ok(cfg: JsonValue, params: Map<Seq<char>, Seq<char>>, body: Option<JsonValue>, r: JsonValue) -> bool
    decreases cfg,
{
    r is Array && match cfg {
        JsonValue::Object(cf) => {
            let ti = index_of_key(cf@, "template"@);
            &&& r->Array_0.len() == count_of(cf@)
            &&& forall|i: int| 0 <= i < r->Array_0.len() ==> if 0 <= ti < cf.len() {
                expands(cf@[ti].1, params, body, #[trigger] r->Array_0@[i])
            } else {
                is_empty_object(r->Array_0@[i])
            }
        },
        _ => r->Array_0.len() == 5 && forall|i: int| 0 <= i < r->Array_0.len() ==> is_empty_object(#[trigger] r->Array_0@[i]),
    }
}

/// Whether `r` is an expansion of template `t`, given the path parameters and
/// the request body.
pub open spec fn expands(t: JsonValue, params: Map<Seq<char>, Seq<char>>, body: Option<JsonValue>, r: JsonValue) -> bool
    decreases t,
{
    match t {
        JsonValue::Object(fields) => {
            let f = fields@;
            if has_key(f, "$fake"@) {
                fake_ok(tag_text(value_of_key(f, "$fake"@)), f, r)
            } else if has_key(f, "$param"@) {
                param_ok(value_of_key(f, "$param"@), params, r)
            } else if has_key(f, "$body"@) {
                body_ok(value_of_key(f, "$body"@), body, r)
            } else if has_key(f, "$array"@) {
                let k = index_of_key(f, "$array"@);
                0 <= k < f.len() && array_ok(f[k].1, params, body, r)
            } else {
                &&& r is Object
                &&& r->Object_0.len() == kept_before(f, f.len() as int)
                &&& forall|i: int| 0 <= i < f.len() && !is_directive_key(f[i].0@) ==> {
                    let j = kept_before(f, i);
                    &&& r->Object_0@[j].0@ == (#[trigger] f[i]).0@
                    &&& expands(f[i].1, params, body, r->Object_0@[j].1)
                }
            }
        },
        JsonValue::Array(items) => {
            &&& r is Array
            &&& r->Array_0.len() == items.len()
            &&& forall|i: int| 0 <= i < items.len() ==> expands(#[trigger] items@[i], params, body, r->Array_0@[i])
        },
        _ => deep_eq(t, r),
    }
}

fn starts_with_dollar(k: &String) -> (r: bool)
    ensures
        r == is_directive_key(k@),
{
    let s = k.as_str();
    s.unicode_len() > 0 && s.get_char(0) == '$'
}

fn empty_object() -> (r: JsonValue)
    ensures
        is_empty_object(r),
{
    JsonValue::Object(Vec::new())
}

/// Expands a template: directive objects are replaced by what they compute,
/// other objects and arrays are expanded member by member, and scalars are
/// copied.
pub fn generate_response_body(template: &JsonValue, params: &StrMap, request_body: Option<&JsonValue>) -> (r: JsonValue)
    requires
        params.wf(),
    ensures
        expands(*template, params.view(), body_of(request_body), r),
{
    process_value(template, params, request_body)
}

#[verifier::rlimit(40)]
fn process_value(value: &JsonValue, params: &StrMap, request_body: Option<&JsonValue>) -> (r: JsonValue)
    requires
        params.wf(),
    ensures
        expands(*value, params.view(), body_of(request_body), r),
    decreases value,
{
    let ghost body = body_of(request_body);
    match value {
        JsonValue::Object(obj) => {
            let ghost f = obj@;
            proof {
                lemma_index_of_key(f, "$fake"@);
                lemma_index_of_key(f, "$param"@);
                lemma_index_of_key(f, "$body"@);
                lemma_index_of_key(f, "$array"@);
            }
            if let Some(k) = field_index(obj, "$fake") {
                let tag = match &obj[k].1 {
                    JsonValue::Str(s) => s.as_str(),
                    _ => "string",
                };
                return generate_fake_value(tag, obj);
            }
            if let Some(k) = field_index(obj, "$param") {
                if let JsonValue::Str(name) = &obj[k].1 {
                    if let Some(v) = params.get(name.as_str()) {
                        return JsonValue::Str(v.clone());
                    }
                }
                return JsonValue::Null;
            }
            if let Some(k) = field_index(obj, "$body") {
                if let JsonValue::Str(name) = &obj[k].1 {
                    if let Some(b) = request_body {
                        if let JsonValue::Object(bf) = b {
                            proof { lemma_index_of_key(bf@, name@); }
                            if let Some(j) = field_index(bf, name.as_str()) {
                                return bf[j].1.copy();
                            }
                        }
                    }
                }
                return JsonValue::Null;
            }
            if let Some(k) = field_index(obj, "$array") {
                proof {
                    assert(decreases_to!(*value => value->Object_0));
                    assert(decreases_to!(*obj => obj@));
                    assert(decreases_to!(obj@ => obj@[k as int]));
                    assert(decreases_to!(obj@[k as int] => obj@[k as int].1));
                }
                return generate_array(&obj[k].1, params, request_body);
            }
            let mut result: Vec<(String, JsonValue)> = Vec::new();
            let mut i: usize = 0;
            while i < obj.len()
                invariant
                    *value == JsonValue::Object(*obj),
                    f == obj@,
                    params.wf(),
                    body == body_of(request_body),
                    i <= obj.len(),
                    result.len() == kept_before(f, i as int),
                    forall|m: int| 0 <= m < i && !is_directive_key(f[m].0@) ==> {
                        let j = kept_before(f, m);
                        &&& result@[j].0@ == (#[trigger] f[m]).0@
                        &&& expands(f[m].1, params.view(), body, result@[j].1)
                    },
                decreases obj.len() - i,
            {
                if !starts_with_dollar(&obj[i].0) {
                    proof {
                        assert(decreases_to!(*value => value->Object_0));
                        assert(decreases_to!(*obj => obj@));
                        assert(decreases_to!(obj@ => obj@[i as int]));
                        assert(decreases_to!(obj@[i as int] => obj@[i as int].1));
                    }
                    let v = process_value(&obj[i].1, params, request_body);
                    let ghost before = result@;
                    result.push((obj[i].0.clone(), v));
                    proof {
                        assert forall|m: int| 0 <= m < i + 1 && !is_directive_key(f[m].0@) implies {
                            let j = kept_before(f, m);
                            &&& result@[j].0@ == (#[trigger] f[m]).0@
                            &&& expands(f[m].1, params.view(), body, result@[j].1)
                        } by {
                            lemma_kept_before_nonneg(f, m);
                            if m < i {
                                lemma_kept_before_grows(f, m, i as int);
                                assert(result@[kept_before(f, m)] == before[kept_before(f, m)]);
                            }
                        }
                    }
                }
                i = i + 1;
            }
            JsonValue::Object(result)
        },
        JsonValue::Array(arr) => {
            let mut out: Vec<JsonValue> = Vec::new();
            let mut i: usize = 0;
            while i < arr.len()
                invariant
                    *value == JsonValue::Array(*arr),
                    params.wf(),
                    body == body_of(request_body),
                    i <= arr.len(),
                    out.len() == i,
                    forall|m: int| 0 <= m < i ==> expands(#[trigger] arr@[m], params.view(), body, out@[m]),
                decreases arr.len() - i,
            {
                proof {
                    assert(decreases_to!(*value => value->Array_0));
                    assert(decreases_to!(*arr => arr@));
                    assert(decreases_to!(arr@ => arr@[i as int]));
                }
                let v = process_value(&arr[i], params, request_body);
                out.push(v);
                i = i + 1;
            }
            JsonValue::Array(out)
        },
        _ => value.copy(),
    }
}

fn generate_array(config: &JsonValue, params: &StrMap, request_body: Option<&JsonValue>) -> (r: JsonValue)
    requires
        params.wf(),
    ensures
        array_ok(*config, params.view(), body_of(request_body), r),
    decreases config,
{
    let ghost body = body_of(request_body);
    let mut items: Vec<JsonValue> = Vec::new();
    match config {
        JsonValue::Object(cf) => {
            proof {
                lemma_index_of_key(cf@, "count"@);
                lemma_index_of_key(cf@, "template"@);
            }
            let count: i64 = match field_index(cf, "count") {
                Some(c) => match &cf[c].1 {
                    JsonValue::Number(n) => if *n >= 0 { *n } else { 5 },
                    _ => 5,
                },
                None => 5,
            };
            let ti = field_index(cf, "template");
            let mut i: i64 = 0;
            while i < count
                invariant
                    *config == JsonValue::Object(*cf),
                    params.wf(),
                    body == body_of(request_body),
                    count == count_of(cf@),
                    0 <= i <= count,
                    items.len() == i,
                    match ti {
                        Some(t) => t == index_of_key(cf@, "template"@),
                        None => index_of_key(cf@, "template"@) == -1,
                    },
                    -1 <= index_of_key(cf@, "template"@) < cf.len(),
                    forall|m: int| 0 <= m < i ==> {
                        let t = index_of_key(cf@, "template"@);
                        if 0 <= t < cf.len() {
                            expands(cf@[t].1, params.view(), body, #[trigger] items@[m])
                        } else {
                            is_empty_object(items@[m])
                        }
                    },
                decreases count - i,
            {
                let v = match ti {
                    Some(t) => {
                        proof {
                            assert(decreases_to!(*config => config->Object_0));
                            assert(decreases_to!(*cf => cf@));
                            assert(decreases_to!(cf@ => cf@[t as int]));
                            assert(decreases_to!(cf@[t as int] => cf@[t as int].1));
                        }
                        process_value(&cf[t].1, params, request_body)
                    },
                    None => empty_object(),
                };
                items.push(v);
                i = i + 1;
            }
        },
        _ => {
            let mut i: usize = 0;
            while i < 5
                invariant
                    i <= 5,
                    items.len() == i,
                    forall|m: int| 0 <= m < i ==> is_empty_object(#[trigger] items@[m]),
                decreases 5 - i,
            {
                items.push(empty_object());
                i = i + 1;
            }
        },
    }
    JsonValue::Array(items)
}

} // verus!
