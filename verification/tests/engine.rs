use data_converter_engine::{
    convert_map_in_map, convert_object_in_map, map_data_converter_func, map_data_walker,
    value_data_converter_func, value_to_java, AbstractMapDataType, IdDataType, JCompound, JValue,
    MapDataType, ObjectDataType,
};
use java_string::JavaString;

fn make_map(string: &str) -> JCompound {
    let value = value_to_java(valence_nbt::snbt::from_snbt_str(string).expect("snbt syntax error"));
    match value {
        JValue::Compound(compound) => compound,
        _ => panic!("snbt was not a compound"),
    }
}

fn simple_converted_type() -> MapDataType<'static> {
    let mut ret = MapDataType::new("Test");
    ret.add_structure_converter(
        1,
        map_data_converter_func(|data, _from_version, _to_version| {
            if let Some(JValue::Int(i)) = data.get("test") {
                data.insert("test", JValue::String(JavaString::from(i.to_string())));
            }
        }),
    );
    ret
}

#[test]
fn rename_key() {
    let mut map = make_map(r#"{"hello": "world"}"#);
    data_converter_engine::rename_key(&mut map, "hello", "Hello");
    assert!(map.contains_key("Hello"));
    assert!(!map.contains_key("hello"));
}

#[test]
fn simple_conversion() {
    let mut map = make_map(r#"{"test": 42}"#);
    simple_converted_type().convert(&mut map, 0.into(), 1.into());
    assert!(matches!(map.get("test"), Some(valence_nbt::Value::String(str)) if str == "42"));
}

#[test]
fn simple_walker() {
    let mut map = make_map(r#"{"inner": {"test": 42}}"#);
    let mut typ = MapDataType::new("Outer");
    let inner_type = simple_converted_type();
    typ.add_structure_walker(
        1,
        map_data_walker(move |data, from_version, to_version| {
            convert_map_in_map(&inner_type, data, "inner", from_version, to_version)
        }),
    );
    typ.convert(&mut map, 0.into(), 1.into());
    assert!(
        matches!(map.get("inner"), Some(valence_nbt::Value::Compound(inner)) if matches!(inner.get("test"), Some(valence_nbt::Value::String(str)) if str == "42"))
    );
}

#[test]
fn simple_id_walker() {
    let mut map1 = make_map(r#"{"id": "foo", "test": 42}"#);
    let mut map2 = make_map(r#"{"id": "bar", "test": 42}"#);
    let mut inner_type = ObjectDataType::new("Inner");
    inner_type.add_structure_converter(
        1,
        value_data_converter_func(|data, _from_version, _to_version| {
            if let valence_nbt::value::ValueMut::Int(i) = data {
                **i = 69;
            }
        }),
    );
    let mut typ = IdDataType::new("Test");
    typ.add_walker_for_id(
        1,
        "foo",
        map_data_walker(move |data, from_version, to_version| {
            convert_object_in_map(&inner_type, data, "test", from_version, to_version);
        }),
    );

    typ.convert(&mut map1, 0.into(), 1.into());
    typ.convert(&mut map2, 0.into(), 1.into());
    assert_eq!(69, map1.get("test").unwrap().as_i64().unwrap());
    assert_eq!(42, map2.get("test").unwrap().as_i64().unwrap());
}

#[test]
fn get_mut_multi_hands_out_each_value() {
    let mut map = make_map(r#"{"a": 1, "b": 2, "c": 3}"#);
    {
        let mut found = data_converter_engine::get_mut_multi(&mut map, &["c", "missing", "a"]);
        assert_eq!(found.len(), 3);
        assert!(found[1].is_none());
        let a = found.pop().unwrap().unwrap();
        found.pop();
        let c = found.pop().unwrap().unwrap();
        assert_eq!(a.as_i64(), Some(1));
        assert_eq!(c.as_i64(), Some(3));
        *a = JValue::Int(10);
        *c = JValue::Int(30);
    }
    assert_eq!(map.get("a").unwrap().as_i64(), Some(10));
    assert_eq!(map.get("b").unwrap().as_i64(), Some(2));
    assert_eq!(map.get("c").unwrap().as_i64(), Some(30));
}

#[test]
fn repeated_keys_are_found_out() {
    assert!(!data_converter_engine::keys_are_unique(&["a", "a"]));
    assert!(!data_converter_engine::keys_are_unique(&["a", "b", "a"]));
    assert!(data_converter_engine::keys_are_unique(&["a", "b", "c"]));
    assert!(data_converter_engine::keys_are_unique(&[]));
}
