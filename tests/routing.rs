use mockserver::config::{
    config_format, default_host, default_method, default_port, default_status, ConditionCheck,
    ConditionConfig, ConfigFormat, ConfigManager, ConfigWriteError, DelayConfig, EndpointConfig,
    MockConfig, ResponseConfig, ServerConfig,
};
use mockserver::dispatch::{
    check_condition, contains, delay_millis, effective_status, eq_ignore_ascii_case, respond,
    route_request, select_condition, ConfigAction, Route,
};
use mockserver::json::JsonValue;
use mockserver::params::StrMap;
use mockserver::router::{extract_path_params, path_matches};

fn response(status: u16, text: &str) -> ResponseConfig {
    ResponseConfig {
        status,
        headers: vec![("x-kind".to_string(), text.to_string())],
        body: JsonValue::Str(text.to_string()),
    }
}

fn check(param: Option<&str>, header: Option<&str>, equals: Option<&str>, contains: Option<&str>) -> ConditionCheck {
    ConditionCheck {
        param: param.map(|s| s.to_string()),
        header: header.map(|s| s.to_string()),
        body_field: None,
        equals: equals.map(|s| s.to_string()),
        contains: contains.map(|s| s.to_string()),
        matches: None,
    }
}

fn endpoint(path: &str, method: &str) -> EndpointConfig {
    EndpointConfig {
        path: path.to_string(),
        method: method.to_string(),
        response: response(200, "default"),
        delay: None,
        timeout: false,
        validation: None,
        conditions: Vec::new(),
    }
}

fn config(endpoints: Vec<EndpointConfig>) -> MockConfig {
    MockConfig { server: ServerConfig::default(), endpoints }
}

#[test]
fn users_id_matches_and_binds() {
    assert!(path_matches("/users/:id", "/users/42"));
    let params = extract_path_params("/users/:id", "/users/42");
    assert_eq!(params.get("id").map(|s| s.as_str()), Some("42"));
    assert!(!path_matches("/users/:id", "/users/42/extra"));
}

#[test]
fn segment_counts_must_agree() {
    assert!(!path_matches("/a/b", "/a"));
    assert!(!path_matches("/a", "/a/b"));
    assert!(path_matches("//a///b/", "/a/b"));
    assert!(path_matches("/", ""));
    assert!(!path_matches("/a/b", "/a/c"));
}

#[test]
fn repeated_parameter_last_wins() {
    let params = extract_path_params("/:x/:x", "/one/two");
    assert_eq!(params.get("x").map(|s| s.as_str()), Some("two"));
    assert!(params.get("y").is_none());
}

#[test]
fn conditions_first_satisfied_wins() {
    let mut ep = endpoint("/users/:id", "GET");
    ep.conditions.push(ConditionConfig { condition: check(Some("id"), None, Some("1"), None), response: response(201, "one") });
    ep.conditions.push(ConditionConfig { condition: check(Some("id"), None, None, Some("4")), response: response(202, "has-four") });
    ep.conditions.push(ConditionConfig { condition: check(None, Some("X-Mode"), Some("beta"), None), response: response(203, "beta") });
    let mut params = StrMap::new();
    params.insert("id".to_string(), "42".to_string());
    let mut headers = StrMap::new();
    headers.insert("x-mode".to_string(), "beta".to_string());
    assert_eq!(select_condition(&ep.conditions, &params, &headers), Some(1));
    let empty = StrMap::new();
    assert_eq!(select_condition(&ep.conditions, &empty, &headers), Some(2));
    assert_eq!(select_condition(&ep.conditions, &empty, &empty), None);
    assert!(!check_condition(&check(Some("id"), None, None, None), &params, &headers));
}

#[test]
fn respond_uses_conditional_or_default() {
    let mut ep = endpoint("/items/:id", "GET");
    ep.conditions.push(ConditionConfig { condition: check(Some("id"), None, Some("7"), None), response: response(404, "missing") });
    let cfg = config(vec![ep]);
    let headers = StrMap::new();
    let r = respond(&cfg, 0, "/items/7", &headers, None);
    assert_eq!(r.status, 404);
    assert_eq!(r.condition, Some(0));
    assert!(matches!(&r.body, JsonValue::Str(t) if t == "missing"));
    assert_eq!(r.headers, vec![("x-kind".to_string(), "missing".to_string())]);
    let r = respond(&cfg, 0, "/items/8", &headers, None);
    assert_eq!(r.status, 200);
    assert_eq!(r.condition, None);
    assert!(matches!(&r.body, JsonValue::Str(t) if t == "default"));
}

#[test]
fn routing_decisions() {
    let mut slow = endpoint("/slow", "get");
    slow.timeout = true;
    let mut delayed = endpoint("/delayed", "POST");
    delayed.delay = Some(DelayConfig::Fixed(250));
    let cfg = config(vec![endpoint("/a/:id", "GET"), endpoint("/a/:other", "GET"), slow, delayed]);
    assert_eq!(route_request(&cfg, "get", "/a/1"), Route::Matched { index: 0, delay_ms: 0 });
    assert_eq!(route_request(&cfg, "GET", "/slow"), Route::Timeout { index: 2 });
    assert_eq!(route_request(&cfg, "post", "/delayed"), Route::Matched { index: 3, delay_ms: 250 });
    assert_eq!(route_request(&cfg, "DELETE", "/a/1"), Route::NotFound);
    assert_eq!(route_request(&cfg, "GET", "/_config"), Route::Config(ConfigAction::Show));
    assert_eq!(route_request(&cfg, "PUT", "/_config"), Route::Config(ConfigAction::Replace));
    assert_eq!(route_request(&cfg, "POST", "/_config"), Route::Config(ConfigAction::Replace));
    assert_eq!(route_request(&cfg, "DELETE", "/_config"), Route::Config(ConfigAction::NotAllowed));
}

#[test]
fn delay_draws_within_range() {
    for _ in 0..50 {
        let ms = delay_millis(&Some(DelayConfig::Range { delay_type: None, min: 5, max: 9 }));
        assert!((5..=9).contains(&ms));
    }
    assert_eq!(delay_millis(&Some(DelayConfig::Fixed(0))), 0);
    assert_eq!(delay_millis(&None), 0);
}

#[test]
fn status_and_text_helpers() {
    assert_eq!(effective_status(201), 201);
    assert_eq!(effective_status(99), 200);
    assert_eq!(effective_status(1000), 200);
    assert!(contains("hello world", "lo w"));
    assert!(contains("abc", ""));
    assert!(!contains("abc", "abcd"));
    assert!(eq_ignore_ascii_case("GeT", "get"));
    assert!(!eq_ignore_ascii_case("GET", "GETS"));
}

#[test]
fn defaults() {
    assert_eq!(default_host(), "0.0.0.0");
    assert_eq!(default_port(), 3000);
    assert_eq!(default_method(), "GET");
    assert_eq!(default_status(), 200);
    let c = MockConfig::default();
    assert_eq!(c.server.port, 3000);
    assert!(c.endpoints.is_empty());
}

#[test]
fn invalid_write_keeps_previous_config() {
    let mut m = ConfigManager::new("config.yaml", config(vec![endpoint("/a", "GET"), endpoint("/b", "GET")]));
    let r = m.write_config(Some(Err("expected value at line 1".to_string())));
    assert!(matches!(r, Err(ConfigWriteError::Invalid(_))));
    assert_eq!(m.endpoint_count(), 2);
    assert!(matches!(m.write_config(None), Err(ConfigWriteError::MissingBody)));
    assert_eq!(m.get_config().endpoints.len(), 2);
    assert_eq!(m.write_config(Some(Ok(config(vec![endpoint("/c", "GET")])))).ok(), Some(1));
    assert_eq!(m.endpoint_count(), 1);
}

#[test]
fn snapshot_survives_replacement() {
    let mut m = ConfigManager::new("config.yaml", config(vec![endpoint("/a", "GET")]));
    let snap = m.get_config();
    m.update_config(config(vec![endpoint("/b", "GET"), endpoint("/c", "GET")]));
    assert_eq!(route_request(&snap, "GET", "/a"), Route::Matched { index: 0, delay_ms: 0 });
    assert_eq!(snap.endpoints.len(), 1);
    assert_eq!(m.endpoint_count(), 2);
    assert_eq!(route_request(&m.get_config(), "GET", "/a"), Route::NotFound);
}

#[test]
fn reload_keeps_config_on_error() {
    let mut m = ConfigManager::new("config.yaml", config(vec![endpoint("/a", "GET")]));
    assert_eq!(m.reload(Err("missing".to_string())), Err("missing".to_string()));
    assert_eq!(m.endpoint_count(), 1);
    assert_eq!(m.reload(Ok(config(Vec::new()))), Ok(()));
    assert_eq!(m.endpoint_count(), 0);
    assert_eq!(m.config_path(), "config.yaml");
}

#[test]
fn config_file_formats() {
    assert_eq!(config_format("config/endpoints.yaml"), Some(ConfigFormat::Yaml));
    assert_eq!(config_format("a.yml"), Some(ConfigFormat::Yaml));
    assert_eq!(config_format("dir.json/a.json"), Some(ConfigFormat::Json));
    assert_eq!(config_format("dir.json/a"), None);
    assert_eq!(config_format(".json"), None);
    assert_eq!(config_format("a.toml"), None);
}
