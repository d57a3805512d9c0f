use data_converter_engine::{
    all_same_case, compound_to_java, convert_dynamic_in_map, convert_dynamic_list_in_map, convert_map_in_map,
    convert_map_list_in_map, convert_object_in_map, convert_object_list,
    convert_object_list_in_map, convert_values, convert_values_in_map,
    dynamic_data_converter_func, list_to_java, map_data_converter_func, rename_keys,
    same_case, value_data_converter_func, value_to_java, AbstractMapDataType, DataVersion,
    DataWalkerDynamicListPaths, DataWalkerDynamicTypePaths, DataWalkerMapListPaths,
    DataWalkerMapTypePaths, DataWalkerObjectListPaths, DataWalkerObjectTypePaths,
    DynamicDataType, JCompound, JList, JValue, MapDataType, MapDataWalker, ObjectDataType,
};
use java_string::JavaString;

fn document(snbt: &str) -> JCompound {
    match value_to_java(valence_nbt::snbt::from_snbt_str(snbt).expect("snbt syntax error")) {
        JValue::Compound(compound) => compound,
        _ => panic!("snbt was not a compound"),
    }
}

fn from() -> DataVersion {
    DataVersion::new(0, 0)
}

fn to() -> DataVersion {
    DataVersion::new(1, 0)
}

/// Marks each compound it converts with `"seen": 1b`.
fn marking_type() -> MapDataType<'static> {
    let mut typ = MapDataType::new("Marking");
    typ.add_structure_converter(
        1,
        map_data_converter_func(|data, _from, _to| {
            data.insert("seen", JValue::Byte(1));
        }),
    );
    typ
}

/// Adds one to each int, and to nothing else.
fn counting_type() -> ObjectDataType<'static> {
    let mut typ = ObjectDataType::new("Counting");
    typ.add_structure_converter(
        1,
        value_data_converter_func(|data, _from, _to| {
            if let valence_nbt::value::ValueMut::Int(i) = data {
                **i += 1;
            }
        }),
    );
    typ
}

/// Turns each int into a string and each int above 99 into a long.
fn reshaping_type() -> DynamicDataType<'static> {
    let mut typ = DynamicDataType::new("Reshaping");
    typ.add_structure_converter(
        1,
        dynamic_data_converter_func(|data, _from, _to| {
            if let JValue::Int(i) = data {
                if *i > 99 {
                    *data = JValue::Long(*i as i64);
                } else {
                    *data = JValue::String(JavaString::from(i.to_string()));
                }
            }
        }),
    );
    typ
}

#[test]
fn rename_key_keeps_the_value() {
    let mut map = document(r#"{"hello": "world", "other": 5}"#);
    data_converter_engine::rename_key(&mut map, "hello", "Hello");
    assert!(matches!(map.get("Hello"), Some(JValue::String(s)) if s == "world"));
    assert!(!map.contains_key("hello"));
    assert_eq!(map.get("other").unwrap().as_i64(), Some(5));
    assert_eq!(map.len(), 2);
}

#[test]
fn rename_key_without_the_key_changes_nothing() {
    let mut map = document(r#"{"hello": "world"}"#);
    let before = map.clone();
    data_converter_engine::rename_key(&mut map, "missing", "Hello");
    assert!(map == before);
}

#[test]
fn rename_key_takes_the_place_of_what_was_there() {
    let mut map = document(r#"{"a": 1, "b": 2}"#);
    data_converter_engine::rename_key(&mut map, "a", "b");
    assert_eq!(map.len(), 1);
    assert_eq!(map.get("b").unwrap().as_i64(), Some(1));
}

#[test]
fn rename_keys_renames_what_the_renamer_names() {
    let mut map = document(r#"{"old_a": 1, "old_b": 2, "keep": 3}"#);
    rename_keys(&mut map, |key: &JavaString| {
        key.strip_prefix("old_").map(|rest| JavaString::from(format!("new_{}", rest)))
    });
    assert_eq!(map.len(), 3);
    assert_eq!(map.get("new_a").unwrap().as_i64(), Some(1));
    assert_eq!(map.get("new_b").unwrap().as_i64(), Some(2));
    assert_eq!(map.get("keep").unwrap().as_i64(), Some(3));
}

#[test]
fn rename_keys_takes_every_key_out_before_it_puts_one_back() {
    let mut map = document(r#"{"a": 1, "b": 2}"#);
    rename_keys(&mut map, |key: &JavaString| {
        if key == "a" {
            Some(JavaString::from("b"))
        } else if key == "b" {
            Some(JavaString::from("a"))
        } else {
            None
        }
    });
    assert_eq!(map.len(), 2);
    assert_eq!(map.get("a").unwrap().as_i64(), Some(2));
    assert_eq!(map.get("b").unwrap().as_i64(), Some(1));
}

#[test]
fn a_compound_under_a_path_is_converted() {
    let mut map = document(r#"{"inner": {"x": 1}, "other": {"x": 2}}"#);
    convert_map_in_map(&marking_type(), &mut map, "inner", from(), to());
    let expected = document(r#"{"inner": {"x": 1, "seen": 1b}, "other": {"x": 2}}"#);
    assert!(map == expected);
}

#[test]
fn a_missing_or_wrong_shaped_path_is_passed_over() {
    let start = document(r#"{"number": 1, "list": [{"x": 1}], "text": "t"}"#);
    let mut map = start.clone();
    convert_map_in_map(&marking_type(), &mut map, "missing", from(), to());
    convert_map_in_map(&marking_type(), &mut map, "number", from(), to());
    convert_map_in_map(&marking_type(), &mut map, "list", from(), to());
    convert_map_list_in_map(&marking_type(), &mut map, "missing", from(), to());
    convert_map_list_in_map(&marking_type(), &mut map, "number", from(), to());
    convert_values_in_map(&marking_type(), &mut map, "list", from(), to());
    convert_values_in_map(&marking_type(), &mut map, "missing", from(), to());
    convert_object_in_map(&counting_type(), &mut map, "missing_path", from(), to());
    convert_object_list_in_map(&counting_type(), &mut map, "missing", from(), to());
    convert_object_list_in_map(&counting_type(), &mut map, "text", from(), to());
    convert_dynamic_in_map(&reshaping_type(), &mut map, "missing", from(), to());
    assert!(convert_dynamic_list_in_map(&reshaping_type(), &mut map, "missing", from(), to()));
    assert!(convert_dynamic_list_in_map(&reshaping_type(), &mut map, "text", from(), to()));
    assert!(map == start);
}

#[test]
fn each_compound_of_a_list_is_converted() {
    let mut map = document(r#"{"list": [{"x": 1}, {"x": 2}, {}], "ints": [1, 2]}"#);
    convert_map_list_in_map(&marking_type(), &mut map, "list", from(), to());
    convert_map_list_in_map(&marking_type(), &mut map, "ints", from(), to());
    let expected = document(
        r#"{"list": [{"x": 1, "seen": 1b}, {"x": 2, "seen": 1b}, {"seen": 1b}], "ints": [1, 2]}"#,
    );
    assert!(map == expected);
}

#[test]
fn a_value_under_a_path_is_converted_in_place() {
    let mut map = document(r#"{"test": 42, "text": "t"}"#);
    convert_object_in_map(&counting_type(), &mut map, "test", from(), to());
    convert_object_in_map(&counting_type(), &mut map, "text", from(), to());
    assert!(map == document(r#"{"test": 43, "text": "t"}"#));
    convert_object_in_map(&counting_type(), &mut map, "test", to(), to());
    assert!(map == document(r#"{"test": 43, "text": "t"}"#));
}

#[test]
fn each_element_of_a_list_is_converted_in_place() {
    let mut list = JList::Int(vec![1, 2, 3]);
    convert_object_list(&counting_type(), &mut list, from(), to());
    assert!(list == JList::Int(vec![2, 3, 4]));
    let mut longs = JList::Long(vec![1, 2]);
    convert_object_list(&counting_type(), &mut longs, from(), to());
    assert!(longs == JList::Long(vec![1, 2]));
    let mut strings = JList::String(vec![JavaString::from("a"), JavaString::from("b")]);
    convert_object_list(&counting_type(), &mut strings, from(), to());
    assert!(strings == JList::String(vec![JavaString::from("a"), JavaString::from("b")]));
}

#[test]
fn a_list_without_elements_stays_what_it_is() {
    let mut end = JList::End;
    convert_object_list(&counting_type(), &mut end, from(), to());
    assert!(matches!(end, JList::End));
    let mut ints = JList::Int(vec![]);
    convert_object_list(&counting_type(), &mut ints, from(), to());
    assert!(matches!(ints, JList::Int(ref v) if v.is_empty()));
}

#[test]
fn each_element_of_a_list_under_a_path_is_converted_in_place() {
    let mut map = document(r#"{"list": [1, 2, 3], "lists": [[1], [2, 3]]}"#);
    convert_object_list_in_map(&counting_type(), &mut map, "list", from(), to());
    convert_object_list_in_map(&counting_type(), &mut map, "lists", from(), to());
    assert!(map == document(r#"{"list": [2, 3, 4], "lists": [[1], [2, 3]]}"#));
}

#[test]
fn a_value_of_any_shape_under_a_path_is_converted() {
    let mut map = document(r#"{"small": 5, "big": 500, "text": "t"}"#);
    convert_dynamic_in_map(&reshaping_type(), &mut map, "small", from(), to());
    convert_dynamic_in_map(&reshaping_type(), &mut map, "big", from(), to());
    convert_dynamic_in_map(&reshaping_type(), &mut map, "text", from(), to());
    assert!(map == document(r#"{"small": "5", "big": 500L, "text": "t"}"#));
}

#[test]
fn a_list_that_stays_uniform_is_made_anew() {
    let mut map = document(r#"{"list": [1, 2, 3]}"#);
    let kept = convert_dynamic_list_in_map(&reshaping_type(), &mut map, "list", from(), to());
    assert!(kept);
    assert!(map == document(r#"{"list": ["1", "2", "3"]}"#));
}

fn mixed_element(value: JValue) -> JCompound {
    let mut item = JCompound::new();
    item.insert("", value);
    item
}

#[test]
fn a_list_that_does_not_stay_uniform_becomes_a_mixed_list() {
    let mut map = document(r#"{"list": [1, 200, 3, 400], "other": [1, 2]}"#);
    let uniform = convert_dynamic_list_in_map(&reshaping_type(), &mut map, "list", from(), to());
    assert!(!uniform);
    let expected = JList::Compound(vec![
        mixed_element(JValue::String(JavaString::from("1"))),
        mixed_element(JValue::Long(200)),
        mixed_element(JValue::String(JavaString::from("3"))),
        mixed_element(JValue::Long(400)),
    ]);
    assert!(matches!(map.get("list"), Some(JValue::List(list)) if *list == expected));
    assert!(map.get("other") == document(r#"{"other": [1, 2]}"#).get("other"));
    assert_eq!(map.len(), 2);
}

#[test]
fn a_mixed_list_keeps_every_element_in_order() {
    let mut map = document(r#"{"list": [200, 1, 400]}"#);
    let uniform = convert_dynamic_list_in_map(&reshaping_type(), &mut map, "list", from(), to());
    assert!(!uniform);
    match map.get("list") {
        Some(JValue::List(JList::Compound(items))) => {
            assert_eq!(items.len(), 3);
            assert_eq!(items[0].len(), 1);
            assert!(items[0].get("") == Some(&JValue::Long(200)));
            assert!(items[1].get("") == Some(&JValue::String(JavaString::from("1"))));
            assert!(items[2].get("") == Some(&JValue::Long(400)));
        }
        _ => panic!("the list is not a mixed list"),
    }
}

#[test]
fn values_are_told_apart_by_their_case() {
    assert!(same_case(&JValue::Int(1), &JValue::Int(2)));
    assert!(!same_case(&JValue::Int(1), &JValue::Long(1)));
    assert!(same_case(&JValue::Compound(JCompound::new()), &JValue::Compound(JCompound::new())));
    assert!(!same_case(&JValue::List(JList::End), &JValue::IntArray(vec![])));
    assert!(same_case(&JValue::Double(0.5), &JValue::Double(1.5)));
    assert!(!same_case(&JValue::Float(0.5), &JValue::Double(0.5)));
    assert!(all_same_case(&vec![]));
    assert!(all_same_case(&vec![JValue::Byte(1)]));
    assert!(all_same_case(&vec![JValue::Byte(1), JValue::Byte(2), JValue::Byte(3)]));
    assert!(!all_same_case(&vec![JValue::Byte(1), JValue::Byte(2), JValue::Short(3)]));
    assert!(!all_same_case(&vec![JValue::Short(1), JValue::Byte(2)]));
}

#[test]
fn a_walker_of_lists_tells_which_lists_became_mixed() {
    let mut map = document(r#"{"a": [1, 2], "b": [1, 200], "c": 5}"#);
    let walker = DataWalkerDynamicListPaths::new_multi(
        reshaping_type(),
        vec!["a".to_string(), "b".to_string(), "c".to_string(), "missing".to_string()],
    );
    let told = walker.walk_telling(&mut map, from(), to());
    assert_eq!(told, vec![true, false, true, true]);
    assert!(map.get("a") == document(r#"{"a": ["1", "2"]}"#).get("a"));
    let expected = JList::Compound(vec![
        mixed_element(JValue::String(JavaString::from("1"))),
        mixed_element(JValue::Long(200)),
    ]);
    assert!(matches!(map.get("b"), Some(JValue::List(list)) if *list == expected));
    assert_eq!(map.get("c").unwrap().as_i64(), Some(5));
    let mut again = document(r#"{"a": [1, 2], "b": [1, 200], "c": 5}"#);
    walker.walk(&mut again, from(), to());
    assert!(again == map);
}

#[test]
fn a_walker_for_one_path_walks_that_path() {
    let mut map = document(r#"{"inner": {"x": 1}, "other": {"x": 2}}"#);
    DataWalkerMapTypePaths::for_path(marking_type(), "inner").walk(&mut map, from(), to());
    assert!(map == document(r#"{"inner": {"x": 1, "seen": 1b}, "other": {"x": 2}}"#));
    let mut values = document(r#"{"n": 1, "ns": [1], "d": 7, "ds": [7], "list": [{}]}"#);
    DataWalkerObjectTypePaths::for_path(counting_type(), "n").walk(&mut values, from(), to());
    DataWalkerObjectListPaths::for_path(counting_type(), "ns").walk(&mut values, from(), to());
    DataWalkerDynamicTypePaths::for_path(reshaping_type(), "d").walk(&mut values, from(), to());
    DataWalkerDynamicListPaths::for_path(reshaping_type(), "ds").walk(&mut values, from(), to());
    DataWalkerMapListPaths::for_path(marking_type(), "list").walk(&mut values, from(), to());
    let expected =
        document(r#"{"n": 2, "ns": [2], "d": "7", "ds": ["7"], "list": [{"seen": 1b}]}"#);
    assert!(values == expected);
}

#[test]
fn a_list_without_elements_loses_its_element_type() {
    let mut map = JCompound::new();
    map.insert("list", JValue::List(JList::Int(vec![])));
    map.insert("end", JValue::List(JList::End));
    assert!(convert_dynamic_list_in_map(&reshaping_type(), &mut map, "list", from(), to()));
    assert!(convert_dynamic_list_in_map(&reshaping_type(), &mut map, "end", from(), to()));
    assert!(matches!(map.get("list"), Some(JValue::List(JList::End))));
    assert!(matches!(map.get("end"), Some(JValue::List(JList::End))));
}

#[test]
fn every_value_that_is_a_compound_is_converted() {
    let mut map = document(r#"{"a": {"x": 1}, "b": 2, "c": {}, "d": [{"x": 1}]}"#);
    convert_values(&marking_type(), &mut map, from(), to());
    let expected =
        document(r#"{"a": {"x": 1, "seen": 1b}, "b": 2, "c": {"seen": 1b}, "d": [{"x": 1}]}"#);
    assert!(map == expected);
    let mut empty = JCompound::new();
    convert_values(&marking_type(), &mut empty, from(), to());
    assert!(empty.is_empty());
}

#[test]
fn every_compound_in_the_compound_under_a_path_is_converted() {
    let mut map = document(r#"{"outer": {"a": {"x": 1}, "b": 2}, "other": {"a": {}}}"#);
    convert_values_in_map(&marking_type(), &mut map, "outer", from(), to());
    let expected =
        document(r#"{"outer": {"a": {"x": 1, "seen": 1b}, "b": 2}, "other": {"a": {}}}"#);
    assert!(map == expected);
}

#[test]
fn walkers_of_paths_walk_each_path() {
    let mut map = document(
        r#"{"a": {"x": 1}, "b": {"x": 2}, "list": [{}, {}], "n": 1, "m": 2, "ns": [1, 2], "d": 7, "ds": [7, 8]}"#,
    );
    DataWalkerMapTypePaths::new_multi(marking_type(), vec!["a".to_string(), "b".to_string()])
        .walk(&mut map, from(), to());
    DataWalkerMapListPaths::new(marking_type(), "list").walk(&mut map, from(), to());
    DataWalkerObjectTypePaths::new_multi(counting_type(), vec!["n".to_string(), "m".to_string()])
        .walk(&mut map, from(), to());
    DataWalkerObjectListPaths::new(counting_type(), "ns").walk(&mut map, from(), to());
    DataWalkerDynamicTypePaths::new(reshaping_type(), "d").walk(&mut map, from(), to());
    DataWalkerDynamicListPaths::new(reshaping_type(), "ds").walk(&mut map, from(), to());
    let expected = document(
        r#"{"a": {"x": 1, "seen": 1b}, "b": {"x": 2, "seen": 1b}, "list": [{"seen": 1b}, {"seen": 1b}], "n": 2, "m": 3, "ns": [2, 3], "d": "7", "ds": ["7", "8"]}"#,
    );
    assert!(map == expected);
}

#[test]
fn a_walker_of_paths_can_be_registered() {
    let mut outer = MapDataType::new("Outer");
    outer.add_structure_walker(1, DataWalkerMapTypePaths::new(marking_type(), "inner"));
    let mut map = document(r#"{"inner": {"x": 1}}"#);
    outer.convert(&mut map, 0.into(), 1.into());
    assert!(map == document(r#"{"inner": {"x": 1, "seen": 1b}}"#));
    let mut untouched = document(r#"{"inner": {"x": 1}}"#);
    outer.convert(&mut untouched, 0.into(), 0.into());
    assert!(untouched == document(r#"{"inner": {"x": 1}}"#));
}

#[test]
fn values_with_rust_strings_become_values_with_java_strings() {
    let mut inner = valence_nbt::Compound::new();
    inner.insert("text", valence_nbt::Value::String("τ".to_string()));
    inner.insert("bytes", valence_nbt::Value::ByteArray(vec![1, 2]));
    let mut outer = valence_nbt::Compound::new();
    outer.insert("inner", valence_nbt::Value::Compound(inner.clone()));
    outer.insert(
        "strings",
        valence_nbt::Value::List(valence_nbt::List::String(vec!["a".to_string(), "b".to_string()])),
    );
    outer.insert(
        "compounds",
        valence_nbt::Value::List(valence_nbt::List::Compound(vec![
            inner.clone(),
            valence_nbt::Compound::new(),
        ])),
    );
    outer.insert(
        "lists",
        valence_nbt::Value::List(valence_nbt::List::List(vec![
            valence_nbt::List::Int(vec![1]),
            valence_nbt::List::End,
            valence_nbt::List::String(vec!["c".to_string()]),
        ])),
    );
    outer.insert("long", valence_nbt::Value::Long(9));
    let java = compound_to_java(outer);

    let mut java_inner = JCompound::new();
    java_inner.insert("text", JValue::String(JavaString::from("τ")));
    java_inner.insert("bytes", JValue::ByteArray(vec![1, 2]));
    let mut expected = JCompound::new();
    expected.insert("inner", JValue::Compound(java_inner.clone()));
    expected.insert(
        "strings",
        JValue::List(JList::String(vec![JavaString::from("a"), JavaString::from("b")])),
    );
    expected.insert(
        "compounds",
        JValue::List(JList::Compound(vec![java_inner, JCompound::new()])),
    );
    expected.insert(
        "lists",
        JValue::List(JList::List(vec![
            JList::Int(vec![1]),
            JList::End,
            JList::String(vec![JavaString::from("c")]),
        ])),
    );
    expected.insert("long", JValue::Long(9));
    assert!(java == expected);
}

#[test]
fn scalars_and_arrays_stay_what_they_are() {
    assert!(value_to_java(valence_nbt::Value::Byte(-1)) == JValue::Byte(-1));
    assert!(value_to_java(valence_nbt::Value::Short(2)) == JValue::Short(2));
    assert!(value_to_java(valence_nbt::Value::Int(3)) == JValue::Int(3));
    assert!(value_to_java(valence_nbt::Value::Long(4)) == JValue::Long(4));
    assert!(value_to_java(valence_nbt::Value::Float(1.5)) == JValue::Float(1.5));
    assert!(value_to_java(valence_nbt::Value::Double(2.5)) == JValue::Double(2.5));
    assert!(value_to_java(valence_nbt::Value::IntArray(vec![1])) == JValue::IntArray(vec![1]));
    assert!(value_to_java(valence_nbt::Value::LongArray(vec![2])) == JValue::LongArray(vec![2]));
    assert!(list_to_java(valence_nbt::List::Double(vec![0.5])) == JList::Double(vec![0.5]));
    assert!(list_to_java(valence_nbt::List::ByteArray(vec![vec![1]])) == JList::ByteArray(vec![vec![1]]));
    assert!(matches!(list_to_java(valence_nbt::List::End), JList::End));
}
