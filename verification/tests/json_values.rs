use sparkpost::json::JsonValue;

fn sample_tree() -> JsonValue {
    JsonValue::Obj(vec![
        ("flag".to_string(), JsonValue::Bool(true)),
        ("count".to_string(), JsonValue::Int(-3)),
        ("name".to_string(), JsonValue::Str("n".to_string())),
        ("nothing".to_string(), JsonValue::Null),
        (
            "items".to_string(),
            JsonValue::Arr(vec![JsonValue::Int(1), JsonValue::Int(2)]),
        ),
    ])
}

#[test]
fn object_lookup_finds_each_key() {
    let v = sample_tree();
    assert_eq!(v.get("flag").unwrap().as_bool(), Some(true));
    assert_eq!(v.get("count").unwrap().as_i64(), Some(-3));
    assert_eq!(v.get("name").unwrap().as_str(), Some("n"));
    assert_eq!(v.get("nothing"), Some(&JsonValue::Null));
    assert!(v.get("absent").is_none());
}

#[test]
fn array_lookup_by_position() {
    let v = sample_tree();
    let items = v.get("items").unwrap();
    assert_eq!(items.at(0).unwrap().as_i64(), Some(1));
    assert_eq!(items.at(1).unwrap().as_i64(), Some(2));
    assert!(items.at(2).is_none());
    // a non-array has no positions
    assert!(v.at(0).is_none());
}

#[test]
fn accessors_refuse_other_shapes() {
    let v = sample_tree();
    assert!(v.get("flag").unwrap().as_str().is_none());
    assert!(v.get("name").unwrap().as_bool().is_none());
    assert!(v.get("name").unwrap().as_i64().is_none());
    // lookups on non-objects find nothing
    assert!(JsonValue::Int(1).get("x").is_none());
}

#[test]
fn deep_clone_is_equal_and_independent() {
    let v = sample_tree();
    let w = v.deep_clone();
    assert_eq!(v, w);
    drop(v);
    assert_eq!(w.get("count").unwrap().as_i64(), Some(-3));
}

#[test]
fn duplicate_keys_answer_with_the_first() {
    let v = JsonValue::Obj(vec![
        ("k".to_string(), JsonValue::Int(1)),
        ("k".to_string(), JsonValue::Int(2)),
    ]);
    assert_eq!(v.get("k").unwrap().as_i64(), Some(1));
}
