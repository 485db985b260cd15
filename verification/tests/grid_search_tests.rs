use routee_compass::grid_search::GridSearchPlugin;

fn string_value(s: &str) -> serde_json::Value {
    serde_json::Value::String(s.to_string())
}

fn float_value(f: f64) -> serde_json::Value {
    serde_json::Value::Number(serde_json::Number::from_f64(f).unwrap())
}

fn bar_foo_grid() -> serde_json::Value {
    let mut gs = serde_json::Map::new();
    gs.insert(
        "bar".to_string(),
        serde_json::Value::Array(vec![string_value("a"), string_value("b"), string_value("c")]),
    );
    gs.insert(
        "foo".to_string(),
        serde_json::Value::Array(vec![float_value(1.2), float_value(3.4)]),
    );
    serde_json::Value::Object(gs)
}

fn process_to_strings(input: &serde_json::Value) -> Vec<String> {
    let plugin = GridSearchPlugin {};
    plugin
        .process(input)
        .unwrap()
        .iter()
        .map(serde_json::to_string)
        .collect::<Result<Vec<String>, serde_json::Error>>()
        .unwrap()
}

#[test]
fn test_grid_search_empty_parent_object() {
    let mut root = serde_json::Map::new();
    root.insert("grid_search".to_string(), bar_foo_grid());
    let input = serde_json::Value::Object(root);
    let result = process_to_strings(&input);
    let expected = vec![
        String::from("{\"bar\":\"a\",\"foo\":1.2}"),
        String::from("{\"bar\":\"b\",\"foo\":1.2}"),
        String::from("{\"bar\":\"c\",\"foo\":1.2}"),
        String::from("{\"bar\":\"a\",\"foo\":3.4}"),
        String::from("{\"bar\":\"b\",\"foo\":3.4}"),
        String::from("{\"bar\":\"c\",\"foo\":3.4}"),
    ];
    assert_eq!(result, expected);
}

#[test]
fn test_grid_search_persisted_parent_keys() {
    let mut root = serde_json::Map::new();
    root.insert("persistent".to_string(), string_value("key"));
    root.insert("grid_search".to_string(), bar_foo_grid());
    let input = serde_json::Value::Object(root);
    let result = process_to_strings(&input);
    let expected = vec![
        String::from("{\"bar\":\"a\",\"foo\":1.2,\"persistent\":\"key\"}"),
        String::from("{\"bar\":\"b\",\"foo\":1.2,\"persistent\":\"key\"}"),
        String::from("{\"bar\":\"c\",\"foo\":1.2,\"persistent\":\"key\"}"),
        String::from("{\"bar\":\"a\",\"foo\":3.4,\"persistent\":\"key\"}"),
        String::from("{\"bar\":\"b\",\"foo\":3.4,\"persistent\":\"key\"}"),
        String::from("{\"bar\":\"c\",\"foo\":3.4,\"persistent\":\"key\"}"),
    ];
    assert_eq!(result, expected);
}

#[test]
fn test_grid_search_no_control_field() {
    let mut root = serde_json::Map::new();
    root.insert("a".to_string(), serde_json::Value::Number(serde_json::Number::from(1)));
    let input = serde_json::Value::Object(root);
    let result = process_to_strings(&input);
    assert_eq!(result, vec![String::from("{\"a\":1}")]);
}

#[test]
fn test_grid_search_non_list_fields_ignored() {
    let mut gs = serde_json::Map::new();
    gs.insert("fixed".to_string(), string_value("x"));
    gs.insert(
        "bar".to_string(),
        serde_json::Value::Array(vec![string_value("a"), string_value("b")]),
    );
    let mut root = serde_json::Map::new();
    root.insert("grid_search".to_string(), serde_json::Value::Object(gs));
    let input = serde_json::Value::Object(root);
    let result = process_to_strings(&input);
    assert_eq!(
        result,
        vec![String::from("{\"bar\":\"a\"}"), String::from("{\"bar\":\"b\"}")]
    );
}

#[test]
fn test_grid_search_empty_control_object() {
    let mut root = serde_json::Map::new();
    root.insert("keep".to_string(), string_value("v"));
    root.insert("grid_search".to_string(), serde_json::Value::Object(serde_json::Map::new()));
    let input = serde_json::Value::Object(root);
    let result = process_to_strings(&input);
    assert_eq!(result, vec![String::from("{\"keep\":\"v\"}")]);
}

#[test]
fn test_grid_search_empty_domain_gives_no_outputs() {
    let mut gs = serde_json::Map::new();
    gs.insert("bar".to_string(), serde_json::Value::Array(vec![]));
    let mut root = serde_json::Map::new();
    root.insert("grid_search".to_string(), serde_json::Value::Object(gs));
    let input = serde_json::Value::Object(root);
    let result = process_to_strings(&input);
    assert_eq!(result, Vec::<String>::new());
}

#[test]
fn test_grid_search_control_field_not_an_object() {
    let mut root = serde_json::Map::new();
    root.insert("grid_search".to_string(), float_value(7.5));
    let input = serde_json::Value::Object(root);
    let plugin = GridSearchPlugin {};
    let result = plugin.process(&input);
    assert!(result.is_err());
}
