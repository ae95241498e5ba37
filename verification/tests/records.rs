use schoology_export::json::Json;

fn obj(fields: Vec<(&str, Json)>) -> Json {
    Json::Obj(fields.into_iter().map(|(k, v)| (k.to_string(), v)).collect())
}

#[test]
fn field_lookups() {
    let node = obj(vec![
        ("title", Json::Str("Week 1".to_string())),
        ("count", Json::Int(3)),
        ("ratio", Json::Num("0.5".to_string())),
        ("tags", Json::Arr(vec![Json::Str("a".to_string())])),
        ("flag", Json::Bool(true)),
        ("nothing", Json::Null),
    ]);
    assert_eq!(node.get_string("title"), Some("Week 1".to_string()));
    assert_eq!(node.get_string("missing"), None);
    assert_eq!(node.get_string("count"), None);
    assert_eq!(node.get_int("count"), Some(3));
    assert_eq!(node.get_int("ratio"), None);
    assert_eq!(node.get_int("title"), None);
    assert!(node.get_array("tags").is_some());
    assert_eq!(node.get_array("tags").unwrap().len(), 1);
    assert!(node.get_array("count").is_none());
    assert!(node.get("flag").is_some());
    assert!(node.get("nothing").is_some());
}

#[test]
fn lookup_takes_first_match() {
    let node = Json::Obj(vec![
        ("k".to_string(), Json::Int(1)),
        ("k".to_string(), Json::Int(2)),
    ]);
    assert_eq!(node.get_int("k"), Some(1));
}

#[test]
fn lookups_on_non_mappings() {
    assert_eq!(Json::Null.get_int("k"), None);
    assert_eq!(Json::Int(1).get_string("k"), None);
    assert!(Json::Arr(vec![]).get_array("k").is_none());
}

#[test]
fn take_array_moves_items_out() {
    let node = obj(vec![
        ("revision", Json::Arr(vec![Json::Int(5), Json::Int(9)])),
        ("other", Json::Null),
    ]);
    let items = node.take_array("revision").unwrap();
    assert_eq!(items.len(), 2);
    assert_eq!(items[0].get_int("x"), None);
    let leaf = obj(vec![("revision", Json::Int(1))]);
    assert!(leaf.take_array("revision").is_none());
    let none = obj(vec![]);
    assert!(none.take_array("revision").is_none());
}
