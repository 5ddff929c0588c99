use mockserver::faker::generate_fake_value;
use mockserver::json::JsonValue;
use mockserver::params::StrMap;
use mockserver::template::generate_response_body;

fn obj(fields: Vec<(&str, JsonValue)>) -> JsonValue {
    JsonValue::Object(fields.into_iter().map(|(k, v)| (k.to_string(), v)).collect())
}

fn s(t: &str) -> JsonValue {
    JsonValue::Str(t.to_string())
}

fn field<'a>(v: &'a JsonValue, key: &str) -> &'a JsonValue {
    match v {
        JsonValue::Object(f) => &f.iter().find(|(k, _)| k == key).unwrap().1,
        _ => panic!("not an object"),
    }
}

#[test]
fn test_uuid_generation() {
    let config = Vec::new();
    let result = generate_fake_value("uuid", &config);
    let text = match &result {
        JsonValue::Str(t) => t.clone(),
        _ => panic!("not a string"),
    };
    assert!(uuid::Uuid::parse_str(&text).is_ok());
    let other = generate_fake_value("UUID", &config);
    assert!(matches!(&other, JsonValue::Str(t) if *t != text));
}

#[test]
fn test_number_generation_with_range() {
    let config = vec![
        ("min".to_string(), JsonValue::Number(10)),
        ("max".to_string(), JsonValue::Number(20)),
    ];
    for _ in 0..50 {
        let result = generate_fake_value("number", &config);
        match result {
            JsonValue::Number(n) => assert!(n >= 10 && n <= 20),
            _ => panic!("not a number"),
        }
    }
}

#[test]
fn number_defaults_to_zero_to_hundred() {
    for _ in 0..50 {
        match generate_fake_value("integer", &Vec::new()) {
            JsonValue::Number(n) => assert!((0..=100).contains(&n)),
            _ => panic!("not a number"),
        }
    }
}

#[test]
fn float_has_two_places_within_bounds() {
    let config = vec![
        ("min".to_string(), JsonValue::Number(1)),
        ("max".to_string(), JsonValue::Number(2)),
    ];
    for _ in 0..50 {
        match generate_fake_value("float", &config) {
            JsonValue::Decimal(t) => {
                let v: f64 = t.parse().unwrap();
                assert!(v >= 1.0 && v <= 2.0);
                assert_eq!(t.split('.').nth(1).unwrap().len(), 2);
            }
            _ => panic!("not a decimal"),
        }
    }
}

#[test]
fn color_and_url_shapes() {
    match generate_fake_value("color", &Vec::new()) {
        JsonValue::Str(t) => {
            assert_eq!(t.len(), 7);
            assert!(t.starts_with('#'));
            assert!(t[1..].chars().all(|c| c.is_ascii_hexdigit() && !c.is_ascii_uppercase()));
        }
        _ => panic!("not a string"),
    }
    match generate_fake_value("internet.url", &Vec::new()) {
        JsonValue::Str(t) => assert!(t.starts_with("https://") && t.len() > 9),
        _ => panic!("not a string"),
    }
}

#[test]
fn boolean_and_unknown_tags() {
    assert!(matches!(generate_fake_value("Boolean", &Vec::new()), JsonValue::Bool(_)));
    match generate_fake_value("no-such-tag", &Vec::new()) {
        JsonValue::Str(t) => assert!(!t.is_empty()),
        _ => panic!("not a string"),
    }
    match generate_fake_value("address", &Vec::new()) {
        JsonValue::Str(t) => assert_eq!(t.matches(", ").count() >= 2, true),
        _ => panic!("not a string"),
    }
}

#[test]
fn test_process_param() {
    let template = obj(vec![("id", obj(vec![("$param", s("userId"))]))]);
    let mut params = StrMap::new();
    params.insert("userId".to_string(), "123".to_string());
    let result = generate_response_body(&template, &params, None);
    assert!(matches!(field(&result, "id"), JsonValue::Str(t) if t == "123"));
}

#[test]
fn param_absent_gives_null() {
    let template = obj(vec![("id", obj(vec![("$param", s("userId"))]))]);
    let result = generate_response_body(&template, &StrMap::new(), None);
    assert!(matches!(field(&result, "id"), JsonValue::Null));
}

#[test]
fn test_process_body_field() {
    let template = obj(vec![("name", obj(vec![("$body", s("userName"))]))]);
    let params = StrMap::new();
    let body = obj(vec![("userName", s("John"))]);
    let result = generate_response_body(&template, &params, Some(&body));
    assert!(matches!(field(&result, "name"), JsonValue::Str(t) if t == "John"));
}

#[test]
fn body_field_without_body_gives_null() {
    let template = obj(vec![("name", obj(vec![("$body", s("userName"))]))]);
    let result = generate_response_body(&template, &StrMap::new(), None);
    assert!(matches!(field(&result, "name"), JsonValue::Null));
}

#[test]
fn array_directive_repeats_template() {
    let inner = obj(vec![("id", obj(vec![("$fake", s("uuid"))]))]);
    let template = obj(vec![(
        "$array",
        obj(vec![("count", JsonValue::Number(3)), ("template", inner)]),
    )]);
    let result = generate_response_body(&template, &StrMap::new(), None);
    let items = match result {
        JsonValue::Array(items) => items,
        _ => panic!("not an array"),
    };
    assert_eq!(items.len(), 3);
    let ids: Vec<String> = items
        .iter()
        .map(|i| match field(i, "id") {
            JsonValue::Str(t) => t.clone(),
            _ => panic!("id not a string"),
        })
        .collect();
    assert!(ids[0] != ids[1] && ids[1] != ids[2] && ids[0] != ids[2]);
}

#[test]
fn array_directive_defaults_to_five_empty_objects() {
    let template = obj(vec![("$array", obj(vec![]))]);
    match generate_response_body(&template, &StrMap::new(), None) {
        JsonValue::Array(items) => {
            assert_eq!(items.len(), 5);
            assert!(items.iter().all(|i| matches!(i, JsonValue::Object(f) if f.is_empty())));
        }
        _ => panic!("not an array"),
    }
}

#[test]
fn plain_objects_drop_directive_keys_and_keep_scalars() {
    let template = obj(vec![
        ("$note", s("hidden")),
        ("a", JsonValue::Number(1)),
        ("b", JsonValue::Array(vec![JsonValue::Bool(true), JsonValue::Null])),
    ]);
    match generate_response_body(&template, &StrMap::new(), None) {
        JsonValue::Object(f) => {
            assert_eq!(f.len(), 2);
            assert_eq!(f[0].0, "a");
            assert!(matches!(f[0].1, JsonValue::Number(1)));
            assert_eq!(f[1].0, "b");
        }
        _ => panic!("not an object"),
    }
}
