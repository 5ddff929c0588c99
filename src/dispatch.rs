use vstd::prelude::*;
use vstd::string::*;
use crate::config::{after_write, ConfigManager, ConditionCheck, ConditionConfig, DelayConfig, EndpointConfig, MockConfig, ResponseConfig};
use crate::faker::{in_bounds, random_in_range};
use crate::json::JsonValue;
use crate::params::{StrMap, same_text};
use crate::router::{path_matches, path_matches_spec, extract_path_params, path_params_spec};
use crate::template::{body_of, expands, generate_response_body};

verus! {

pub open spec fn is_upper(c: char) -> bool {
    'A' <= c && c <= 'Z'
}

/// Two characters equal up to ASCII case.
pub open spec fn char_eq_ignore_case(a: char, b: char) -> bool {
    a == b || (is_upper(a) && a as u32 + 32 == b as u32) || (is_upper(b) && b as u32 + 32 == a as u32)
}

/// Two strings equal up to ASCII case.
pub open spec fn eq_ignore_case(a: Seq<char>, b: Seq<char>) -> bool {
    a.len() == b.len() && forall|i: int| 0 <= i < a.len() ==> char_eq_ignore_case(#[trigger] a[i], b[i])
}

/// ASCII lower case of one character.
pub open spec fn lower_char(c: char) -> char {
    if is_upper(c) {
        "abcdefghijklmnopqrstuvwxyz"@[c as u32 - 'A' as u32]
    } else {
        c
    }
}

pub open spec fn lower_ascii(s: Seq<char>) -> Seq<char> {
    Seq::new(s.len(), |i: int| lower_char(s[i]))
}

/// `needle` occurs in `hay`.
pub open spec fn contains_text(hay: Seq<char>, needle: Seq<char>) -> bool {
    exists|i: int| 0 <= i && i + needle.len() <= hay.len() && #[trigger] hay.subrange(i, i + needle.len()) == needle
}

/// The comparison that a check makes on a value: `equals` first, then
/// `contains`; `None` where it names neither.
pub open spec fn compare(c: ConditionCheck, v: Seq<char>) -> Option<bool> {
    if c.equals is Some {
        Some(v == c.equals->Some_0@)
    } else if c.contains is Some {
        Some(contains_text(v, c.contains->Some_0@))
    } else {
        None
    }
}

/// Whether a check holds. A named path parameter that is present decides
/// first; otherwise a named header (names in lower case); otherwise it fails.
pub open spec fn condition_holds(c: ConditionCheck, params: Map<Seq<char>, Seq<char>>, headers: Map<Seq<char>, Seq<char>>) -> bool {
    if c.param is Some && params.contains_key(c.param->Some_0@) && compare(c, params[c.param->Some_0@]) is Some {
        compare(c, params[c.param->Some_0@])->Some_0
    } else if c.header is Some && headers.contains_key(lower_ascii(c.header->Some_0@))
        && compare(c, headers[lower_ascii(c.header->Some_0@)]) is Some {
        compare(c, headers[lower_ascii(c.header->Some_0@)])->Some_0
    } else {
        false
    }
}

/// `chosen` is the first condition that holds, or `None` where none does.
pub open spec fn first_condition(conds: Seq<ConditionConfig>, params: Map<Seq<char>, Seq<char>>, headers: Map<Seq<char>, Seq<char>>, chosen: Option<usize>) -> bool {
    match chosen {
        Some(i) => i < conds.len() && condition_holds(conds[i as int].condition, params, headers)
            && forall|j: int| 0 <= j < i ==> !condition_holds(#[trigger] conds[j].condition, params, headers),
        None => forall|j: int| 0 <= j < conds.len() ==> !condition_holds(#[trigger] conds[j].condition, params, headers),
    }
}

/// Whether an endpoint answers a request: method equal up to case, and path matching.
pub open spec fn endpoint_matches(ep: EndpointConfig, method: Seq<char>, path: Seq<char>) -> bool {
    eq_ignore_case(ep.method@, method) && path_matches_spec(ep.path@, path)
}

/// `i` is the first endpoint that answers the request.
pub open spec fn is_first_match(eps: Seq<EndpointConfig>, method: Seq<char>, path: Seq<char>, i: int) -> bool {
    &&& 0 <= i < eps.len()
    &&& endpoint_matches(eps[i], method, path)
    &&& forall|j: int| 0 <= j < i ==> !endpoint_matches(#[trigger] eps[j], method, path)
}

/// A delay drawn for a delay setting: none, the fixed count, or a count in the range.
pub open spec fn delay_ok(d: Option<DelayConfig>, ms: u64) -> bool {
    match d {
        None => ms == 0,
        Some(DelayConfig::Fixed(x)) => ms == x,
        Some(DelayConfig::Range { min, max, .. }) => in_bounds(ms as int, min as int, max as int),
    }
}

/// The status sent for a configured code: codes outside 100..=999 become 200.
pub open spec fn status_spec(s: u16) -> u16 {
    if 100 <= s <= 999 { s } else { 200 }
}

/// The reserved path that reads or replaces the whole configuration.
pub open spec fn is_meta_path(p: Seq<char>) -> bool {
    p == "/_config"@
}

/// What a request on the reserved path asks for.
#[derive(PartialEq, Eq, Structural, Clone, Copy, Debug)]
pub enum ConfigAction {
    Show,
    Replace,
    NotAllowed,
}

pub open spec fn config_action_spec(method: Seq<char>) -> ConfigAction {
    if method == "GET"@ {
        ConfigAction::Show
    } else if method == "POST"@ || method == "PUT"@ {
        ConfigAction::Replace
    } else {
        ConfigAction::NotAllowed
    }
}

/// Where a request goes.
#[derive(PartialEq, Eq, Structural, Clone, Copy, Debug)]
pub enum Route {
    Config(ConfigAction),
    NotFound,
    Timeout { index: usize },
    Matched { index: usize, delay_ms: u64 },
}

/// A response ready to send: status, headers and body.
pub struct Reply {
    pub status: u16,
    pub headers: Vec<(String, String)>,
    pub body: JsonValue,
    pub condition: Option<usize>,
}

fn char_matches_ignore_case(a: char, b: char) -> (r: bool)
    ensures
        r == char_eq_ignore_case(a, b),
{
    a == b || ('A' <= a && a <= 'Z' && (a as u32) + 32 == b as u32) || ('A' <= b && b <= 'Z' && (b as u32) + 32 == a as u32)
}

/// Whether two strings are equal up to ASCII case.
pub fn eq_ignore_ascii_case(a: &str, b: &str) -> (r: bool)
    ensures
        r == eq_ignore_case(a@, b@),
{
    let n = a.unicode_len();
    if n != b.unicode_len() {
        return false;
    }
    let mut i: usize = 0;
    while i < n
        invariant
            n == a@.len(),
            n == b@.len(),
            i <= n,
            forall|k: int| 0 <= k < i ==> char_eq_ignore_case(#[trigger] a@[k], b@[k]),
        decreases n - i,
    {
        if !char_matches_ignore_case(a.get_char(i), b.get_char(i)) {
            return false;
        }
        i = i + 1;
    }
    true
}

/// The ASCII lower case of a string.
pub fn to_ascii_lower(s: &str) -> (r: String)
    ensures
        r@ == lower_ascii(s@),
{
    let letters = "abcdefghijklmnopqrstuvwxyz";
    proof { reveal_strlit("abcdefghijklmnopqrstuvwxyz"); }
    let n = s.unicode_len();
    let mut out = String::new();
    let mut i: usize = 0;
    while i < n
        invariant
            n == s@.len(),
            i <= n,
            letters@ == "abcdefghijklmnopqrstuvwxyz"@,
            letters@.len() == 26,
            out@ == lower_ascii(s@).subrange(0, i as int),
        decreases n - i,
    {
        let c = s.get_char(i);
        let piece = if 'A' <= c && c <= 'Z' {
            let k = ((c as u32) - ('A' as u32)) as usize;
            letters.substring_char(k, k + 1)
        } else {
            s.substring_char(i, i + 1)
        };
        out.append(piece);
        assert(lower_ascii(s@).subrange(0, i + 1) == lower_ascii(s@).subrange(0, i as int).push(lower_char(c)));
        i = i + 1;
    }
    assert(lower_ascii(s@).subrange(0, n as int) == lower_ascii(s@));
    out
}

/// Whether `needle` occurs in `hay`.
pub fn contains(hay: &str, needle: &str) -> (r: bool)
    ensures
        r == contains_text(hay@, needle@),
{
    let n = hay.unicode_len();
    let m = needle.unicode_len();
    if m > n {
        assert forall|i: int| 0 <= i && i + m <= n implies #[trigger] hay@.subrange(i, i + m) != needle@ by {}
        return false;
    }
    let mut i: usize = 0;
    while i <= n - m
        invariant
            n == hay@.len(),
            m == needle@.len(),
            m <= n,
            i <= n - m + 1,
            forall|k: int| 0 <= k < i ==> #[trigger] hay@.subrange(k, k + m) != needle@,
        decreases n - m + 1 - i,
    {
        let piece = hay.substring_char(i, i + m);
        if same_text(piece, needle) {
            return true;
        }
        if i == n - m {
            return false;
        }
        i = i + 1;
    }
    false
}

fn compare_value(c: &ConditionCheck, v: &str) -> (r: Option<bool>)
    ensures
        r == compare(*c, v@),
{
    match &c.equals {
        Some(e) => Some(same_text(v, e.as_str())),
        None => match &c.contains {
            Some(s) => Some(contains(v, s.as_str())),
            None => None,
        },
    }
}

/// Whether a conditional response's check holds for the request's path
/// parameters and headers (header names in lower case).
pub fn check_condition(condition: &ConditionCheck, params: &StrMap, headers: &StrMap) -> (r: bool)
    requires
        params.wf(),
        headers.wf(),
    ensures
        r == condition_holds(*condition, params.view(), headers.view()),
{
    if let Some(name) = &condition.param {
        if let Some(v) = params.get(name.as_str()) {
            if let Some(b) = compare_value(condition, v.as_str()) {
                return b;
            }
        }
    }
    if let Some(name) = &condition.header {
        let lower = to_ascii_lower(name.as_str());
        if let Some(v) = headers.get(lower.as_str()) {
            if let Some(b) = compare_value(condition, v.as_str()) {
                return b;
            }
        }
    }
    false
}

/// The first conditional response whose check holds, in declared order.
pub fn select_condition(conditions: &Vec<ConditionConfig>, params: &StrMap, headers: &StrMap) -> (r: Option<usize>)
    requires
        params.wf(),
        headers.wf(),
    ensures
        first_condition(conditions@, params.view(), headers.view(), r),
{
    let mut i: usize = 0;
    while i < conditions.len()
        invariant
            params.wf(),
            headers.wf(),
            i <= conditions.len(),
            forall|j: int| 0 <= j < i ==> !condition_holds(#[trigger] conditions@[j].condition, params.view(), headers.view()),
        decreases conditions.len() - i,
    {
        if check_condition(&conditions[i].condition, params, headers) {
            return Some(i);
        }
        i = i + 1;
    }
    None
}

/// The status code sent for a configured one.
pub fn effective_status(s: u16) -> (r: u16)
    ensures
        r == status_spec(s),
{
    if 100 <= s && s <= 999 { s } else { 200 }
}

/// Draws the delay, in milliseconds, that a delay setting asks for.
pub fn delay_millis(delay: &Option<DelayConfig>) -> (r: u64)
    ensures
        delay_ok(*delay, r),
{
    match delay {
        None => 0,
        Some(DelayConfig::Fixed(ms)) => *ms,
        Some(DelayConfig::Range { min, max, .. }) => {
            let lo = *min as i128;
            let hi = *max as i128;
            let v = if lo <= hi { random_in_range(lo, hi) } else { random_in_range(hi, lo) };
            v as u64
        },
    }
}

/// What a request on the reserved path asks for, by its method.
pub fn config_action(method: &str) -> (r: ConfigAction)
    ensures
        r == config_action_spec(method@),
{
    if same_text(method, "GET") {
        ConfigAction::Show
    } else if same_text(method, "POST") || same_text(method, "PUT") {
        ConfigAction::Replace
    } else {
        ConfigAction::NotAllowed
    }
}

/// The first endpoint, in declared order, that answers `method` and `path`.
pub fn find_endpoint(endpoints: &Vec<EndpointConfig>, method: &str, path: &str) -> (r: Option<usize>)
    ensures
        match r {
            Some(i) => is_first_match(endpoints@, method@, path@, i as int),
            None => forall|j: int| 0 <= j < endpoints.len() ==> !endpoint_matches(#[trigger] endpoints@[j], method@, path@),
        },
{
    let mut i: usize = 0;
    while i < endpoints.len()
        invariant
            i <= endpoints.len(),
            forall|j: int| 0 <= j < i ==> !endpoint_matches(#[trigger] endpoints@[j], method@, path@),
        decreases endpoints.len() - i,
    {
        let ep = &endpoints[i];
        if eq_ignore_ascii_case(ep.method.as_str(), method) && path_matches(ep.path.as_str(), path) {
            return Some(i);
        }
        i = i + 1;
    }
    None
}

/// Decides where a request goes: the reserved path by its method; else the
/// first matching endpoint, which either times out or answers after the
/// drawn delay; else not found.
pub fn route_request(config: &MockConfig, method: &str, path: &str) -> (r: Route)
    ensures
        is_meta_path(path@) ==> r == Route::Config(config_action_spec(method@)),
        !is_meta_path(path@) ==> match r {
            Route::Config(_) => false,
            Route::NotFound => forall|j: int| 0 <= j < config.endpoints.len() ==>
                !endpoint_matches(#[trigger] config.endpoints@[j], method@, path@),
            Route::Timeout { index } => is_first_match(config.endpoints@, method@, path@, index as int)
                && config.endpoints@[index as int].timeout,
            Route::Matched { index, delay_ms } => is_first_match(config.endpoints@, method@, path@, index as int)
                && !config.endpoints@[index as int].timeout
                && delay_ok(config.endpoints@[index as int].delay, delay_ms),
        },
{
    if same_text(path, "/_config") {
        return Route::Config(config_action(method));
    }
    match find_endpoint(&config.endpoints, method, path) {
        None => Route::NotFound,
        Some(i) => {
            if config.endpoints[i].timeout {
                Route::Timeout { index: i }
            } else {
                Route::Matched { index: i, delay_ms: delay_millis(&config.endpoints[i].delay) }
            }
        },
    }
}

fn copy_headers(h: &Vec<(String, String)>) -> (r: Vec<(String, String)>)
    ensures
        r.len() == h.len(),
        forall|i: int| 0 <= i < h.len() ==> (#[trigger] r@[i]).0@ == h@[i].0@ && r@[i].1@ == h@[i].1@,
{
    let mut out: Vec<(String, String)> = Vec::new();
    let mut i: usize = 0;
    while i < h.len()
        invariant
            i <= h.len(),
            out.len() == i,
            forall|k: int| 0 <= k < i ==> (#[trigger] out@[k]).0@ == h@[k].0@ && out@[k].1@ == h@[k].1@,
        decreases h.len() - i,
    {
        out.push((h[i].0.clone(), h[i].1.clone()));
        i = i + 1;
    }
    out
}

/// The response that endpoint `ep` chooses: its first conditional response
/// whose check holds, else its default one.
pub open spec fn chosen_response(ep: EndpointConfig, chosen: Option<usize>) -> ResponseConfig {
    match chosen {
        Some(i) => ep.conditions@[i as int].response,
        None => ep.response,
    }
}

/// Builds the reply of endpoint `index` for a request on `path`: binds the
/// path parameters, picks the response by the conditions, and expands its
/// body template.
pub fn respond(config: &MockConfig, index: usize, path: &str, headers: &StrMap, body: Option<&JsonValue>) -> (r: Reply)
    requires
        index < config.endpoints.len(),
        headers.wf(),
    ensures
        ({
            let ep = config.endpoints@[index as int];
            let params = path_params_spec(ep.path@, path@);
            let resp = chosen_response(ep, r.condition);
            &&& first_condition(ep.conditions@, params, headers.view(), r.condition)
            &&& r.status == status_spec(resp.status)
            &&& r.headers.len() == resp.headers.len()
            &&& forall|i: int| 0 <= i < resp.headers.len() ==>
                (#[trigger] r.headers@[i]).0@ == resp.headers@[i].0@ && r.headers@[i].1@ == resp.headers@[i].1@
            &&& expands(resp.body, params, body_of(body), r.body)
        }),
{
    let ep = &config.endpoints[index];
    let params = extract_path_params(ep.path.as_str(), path);
    let chosen = select_condition(&ep.conditions, &params, headers);
    let resp: &ResponseConfig = match chosen {
        Some(i) => &ep.conditions[i].response,
        None => &ep.response,
    };
    let out_body = generate_response_body(&resp.body, &params, body);
    Reply {
        status: effective_status(resp.status),
        headers: copy_headers(&resp.headers),
        body: out_body,
        condition: chosen,
    }
}

/// Conditions are weighed in declared order: the first one that holds is
/// chosen, so the choice is unique, and where none holds the default
/// response is used.
pub proof fn law_first_condition_wins(
    ep: EndpointConfig,
    params: Map<Seq<char>, Seq<char>>,
    headers: Map<Seq<char>, Seq<char>>,
    a: Option<usize>,
    b: Option<usize>,
)
    requires
        first_condition(ep.conditions@, params, headers, a),
        first_condition(ep.conditions@, params, headers, b),
    ensures
        a == b,
        a is None ==> chosen_response(ep, a) == ep.response,
        a is Some ==> chosen_response(ep, a) == ep.conditions@[a->Some_0 as int].response,
{
    match (a, b) {
        (Some(i), Some(j)) => {
            if i < j {
                assert(!condition_holds(ep.conditions@[i as int].condition, params, headers));
            } else if j < i {
                assert(!condition_holds(ep.conditions@[j as int].condition, params, headers));
            }
        },
        (Some(i), None) => {
            assert(!condition_holds(ep.conditions@[i as int].condition, params, headers));
        },
        (None, Some(j)) => {
            assert(!condition_holds(ep.conditions@[j as int].condition, params, headers));
        },
        (None, None) => {},
    }
}

/// A request is served from one snapshot of the configuration: which
/// endpoint answers is fixed by that snapshot and the request alone, and a
/// write to the store after the snapshot was taken leaves the snapshot as it
/// was.
pub proof fn law_snapshot_isolation(
    before: ConfigManager,
    after: ConfigManager,
    snapshot: MockConfig,
    parsed: Option<Result<MockConfig, String>>,
    method: Seq<char>,
    path: Seq<char>,
    i: int,
    j: int,
)
    requires
        snapshot == before.current(),
        after.current() == after_write(before.current(), parsed),
        is_first_match(snapshot.endpoints@, method, path, i),
        is_first_match(before.current().endpoints@, method, path, j),
    ensures
        i == j,
{
    if i < j {
        assert(!endpoint_matches(snapshot.endpoints@[i], method, path));
    } else if j < i {
        assert(!endpoint_matches(snapshot.endpoints@[j], method, path));
    }
}

} // verus!
