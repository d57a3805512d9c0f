use data_converter_engine::{
    dynamic_data_converter_func, dynamic_data_walker, map_data_converter_func, map_data_walker,
    value_data_converter_func, AbstractDynamicDataType, AbstractMapDataType,
    AbstractValueDataType, DataVersion, DynamicDataHook, DynamicDataType, IdDataType, JCompound,
    JValue, MapDataConverter, MapDataHook, MapDataType, ObjectDataType, ValueDataHook,
};
use java_string::JavaString;
use std::cell::RefCell;
use std::rc::Rc;

type Log = Rc<RefCell<Vec<String>>>;

fn new_log() -> Log {
    Rc::new(RefCell::new(Vec::new()))
}

fn entries(log: &Log) -> Vec<String> {
    log.borrow().clone()
}

fn words(list: &[&str]) -> Vec<String> {
    list.iter().map(|s| s.to_string()).collect()
}

struct NamedHook {
    name: &'static str,
    log: Log,
}

impl MapDataHook for NamedHook {
    fn pre_hook(&self, _data: &mut JCompound, _from: DataVersion, _to: DataVersion) {
        self.log.borrow_mut().push(format!("pre {}", self.name));
    }

    fn post_hook(&self, _data: &mut JCompound, _from: DataVersion, _to: DataVersion) {
        self.log.borrow_mut().push(format!("post {}", self.name));
    }
}

impl ValueDataHook for NamedHook {
    fn pre_hook(&self, _data: &mut JValue, _from: DataVersion, _to: DataVersion) {
        self.log.borrow_mut().push(format!("pre {}", self.name));
    }

    fn post_hook(&self, _data: &mut JValue, _from: DataVersion, _to: DataVersion) {
        self.log.borrow_mut().push(format!("post {}", self.name));
    }
}

impl DynamicDataHook for NamedHook {
    fn pre_hook(&self, _data: &mut JValue, _from: DataVersion, _to: DataVersion) {
        self.log.borrow_mut().push(format!("pre {}", self.name));
    }

    fn post_hook(&self, _data: &mut JValue, _from: DataVersion, _to: DataVersion) {
        self.log.borrow_mut().push(format!("post {}", self.name));
    }
}

fn hook(name: &'static str, log: &Log) -> NamedHook {
    NamedHook { name, log: log.clone() }
}

fn add_converter(typ: &mut MapDataType<'static>, version: DataVersion, name: &'static str, log: &Log) {
    let log = log.clone();
    typ.add_structure_converter(
        version,
        map_data_converter_func(move |_data, _from, _to| {
            log.borrow_mut().push(format!("convert {}", name));
        }),
    );
}

fn add_walker(typ: &mut MapDataType<'static>, version: u32, name: &'static str, log: &Log) {
    let log = log.clone();
    typ.add_structure_walker(
        version,
        map_data_walker(move |_data, _from, _to| {
            log.borrow_mut().push(format!("walk {}", name));
        }),
    );
}

#[test]
fn converters_run_in_version_order_whatever_the_registration_order() {
    let log = new_log();
    let mut typ = MapDataType::new("Ordered");
    add_converter(&mut typ, 3.into(), "c3", &log);
    add_converter(&mut typ, 1.into(), "c1", &log);
    add_converter(&mut typ, DataVersion::new(2, 1), "c2.1", &log);
    add_converter(&mut typ, 2.into(), "c2", &log);
    typ.convert(&mut JCompound::new(), 0.into(), 3.into());
    assert_eq!(entries(&log), words(&["convert c1", "convert c2", "convert c2.1", "convert c3"]));
}

#[test]
fn only_converters_inside_the_interval_run() {
    let log = new_log();
    let mut typ = MapDataType::new("Interval");
    add_converter(&mut typ, 1.into(), "c1", &log);
    add_converter(&mut typ, 2.into(), "c2", &log);
    add_converter(&mut typ, 3.into(), "c3", &log);
    add_converter(&mut typ, 4.into(), "c4", &log);
    typ.convert(&mut JCompound::new(), 1.into(), 3.into());
    assert_eq!(entries(&log), words(&["convert c2", "convert c3"]));
}

#[test]
fn steps_count_in_the_interval() {
    let log = new_log();
    let mut typ = MapDataType::new("Steps");
    add_converter(&mut typ, DataVersion::new(1, 0), "c1.0", &log);
    add_converter(&mut typ, DataVersion::new(1, 1), "c1.1", &log);
    add_converter(&mut typ, DataVersion::new(1, 2), "c1.2", &log);
    typ.convert(&mut JCompound::new(), DataVersion::new(1, 0), DataVersion::new(1, 1));
    assert_eq!(entries(&log), words(&["convert c1.1"]));
}

#[test]
fn an_empty_range_converts_nothing_but_still_walks_once() {
    let log = new_log();
    let mut typ = MapDataType::new("NoOp");
    add_converter(&mut typ, 1.into(), "c1", &log);
    add_converter(&mut typ, 2.into(), "c2", &log);
    typ.add_structure_hook(1, hook("h", &log));
    add_walker(&mut typ, 1, "w", &log);
    typ.convert(&mut JCompound::new(), 2.into(), 2.into());
    assert_eq!(entries(&log), words(&["pre h", "walk w", "post h"]));
}

#[test]
fn a_call_backwards_converts_nothing_but_still_walks_once() {
    let log = new_log();
    let mut typ = MapDataType::new("Backwards");
    add_converter(&mut typ, 1.into(), "c1", &log);
    add_converter(&mut typ, 2.into(), "c2", &log);
    add_walker(&mut typ, 1, "w", &log);
    typ.convert(&mut JCompound::new(), 3.into(), 1.into());
    assert_eq!(entries(&log), words(&["walk w"]));
}

#[test]
fn post_hooks_run_in_reverse_of_the_pre_hooks() {
    let log = new_log();
    let mut typ = MapDataType::new("Hooks");
    typ.add_structure_hook(1, hook("a", &log));
    typ.add_structure_hook(1, hook("b", &log));
    typ.add_structure_hook(1, hook("c", &log));
    add_converter(&mut typ, 1.into(), "c1", &log);
    add_walker(&mut typ, 1, "w", &log);
    typ.convert(&mut JCompound::new(), 0.into(), 1.into());
    assert_eq!(
        entries(&log),
        words(&[
            "pre a", "pre b", "pre c", "convert c1", "post c", "post b", "post a", "pre a",
            "pre b", "pre c", "walk w", "post c", "post b", "post a",
        ])
    );
}

#[test]
fn pre_hooks_go_by_the_converter_and_post_hooks_by_the_target() {
    let log = new_log();
    let mut typ = MapDataType::new("Asymmetric");
    typ.add_structure_hook(1, hook("one", &log));
    typ.add_structure_hook(2, hook("two", &log));
    add_converter(&mut typ, 1.into(), "c1", &log);
    typ.convert(&mut JCompound::new(), 0.into(), 2.into());
    assert_eq!(
        entries(&log),
        words(&["pre one", "convert c1", "post two", "pre two", "post two"])
    );
}

#[test]
fn converters_of_one_version_run_in_registration_order() {
    let log = new_log();
    let mut typ = MapDataType::new("Stable");
    add_converter(&mut typ, 2.into(), "first", &log);
    add_converter(&mut typ, 1.into(), "early", &log);
    add_converter(&mut typ, 2.into(), "second", &log);
    add_converter(&mut typ, 3.into(), "late", &log);
    add_converter(&mut typ, 2.into(), "third", &log);
    typ.convert(&mut JCompound::new(), 0.into(), 3.into());
    assert_eq!(
        entries(&log),
        words(&[
            "convert early",
            "convert first",
            "convert second",
            "convert third",
            "convert late",
        ])
    );
}

#[test]
fn only_the_walkers_in_force_at_the_target_run() {
    let log = new_log();
    let mut typ = MapDataType::new("Floor");
    add_walker(&mut typ, 3, "w3", &log);
    add_walker(&mut typ, 1, "w1a", &log);
    add_walker(&mut typ, 1, "w1b", &log);
    typ.convert(&mut JCompound::new(), 0.into(), 0.into());
    assert_eq!(entries(&log), words(&[]));
    typ.convert(&mut JCompound::new(), 0.into(), 2.into());
    assert_eq!(entries(&log), words(&["walk w1a", "walk w1b"]));
    log.borrow_mut().clear();
    typ.convert(&mut JCompound::new(), 0.into(), 3.into());
    assert_eq!(entries(&log), words(&["walk w3"]));
    log.borrow_mut().clear();
    typ.convert(&mut JCompound::new(), 0.into(), DataVersion::new(2, 9));
    assert_eq!(entries(&log), words(&["walk w1a", "walk w1b"]));
}

#[test]
fn an_object_type_has_hooks_around_converters_and_no_closing_pass() {
    let log = new_log();
    let mut typ = ObjectDataType::new("Scalar");
    typ.add_structure_hook(1, hook("h", &log));
    let seen = log.clone();
    typ.add_structure_converter(
        1,
        value_data_converter_func(move |data, _from, _to| {
            seen.borrow_mut().push("convert".to_string());
            if let valence_nbt::value::ValueMut::Int(i) = data {
                **i += 1;
            }
        }),
    );
    let mut value = JValue::Int(41);
    typ.convert(&mut value, 0.into(), 1.into());
    assert_eq!(value.as_i64(), Some(42));
    assert_eq!(entries(&log), words(&["pre h", "convert", "post h"]));
    log.borrow_mut().clear();
    typ.convert(&mut value, 1.into(), 1.into());
    assert_eq!(value.as_i64(), Some(42));
    assert_eq!(entries(&log), words(&[]));
}

#[test]
fn a_dynamic_type_may_change_the_shape_of_a_value() {
    let log = new_log();
    let mut typ = DynamicDataType::new("Any");
    typ.add_structure_hook(1, hook("h", &log));
    let seen = log.clone();
    typ.add_structure_converter(
        1,
        dynamic_data_converter_func(move |data, _from, _to| {
            seen.borrow_mut().push("convert".to_string());
            if let JValue::Int(i) = data {
                *data = JValue::String(JavaString::from(i.to_string()));
            }
        }),
    );
    let seen = log.clone();
    typ.add_structure_walker(
        1,
        dynamic_data_walker(move |_data, _from, _to| {
            seen.borrow_mut().push("walk".to_string());
        }),
    );
    let mut value = JValue::Int(7);
    typ.convert(&mut value, 0.into(), 1.into());
    assert!(matches!(&value, JValue::String(s) if s == "7"));
    assert_eq!(
        entries(&log),
        words(&["pre h", "convert", "post h", "pre h", "walk", "post h"])
    );
}

#[test]
fn a_converter_knows_its_version_and_passes_the_call_on() {
    let converter = MapDataConverter::new(
        5,
        map_data_converter_func(|data, from, to| {
            data.insert("from", JValue::Int(from.get_version() as i32));
            data.insert("to", JValue::Int(to.get_version() as i32));
        }),
    );
    assert_eq!(converter.get_to_version(), DataVersion::new(5, 0));
    let mut map = JCompound::new();
    converter.convert(&mut map, 4, DataVersion::new(5, 0));
    assert_eq!(map.get("from").unwrap().as_i64(), Some(4));
    assert_eq!(map.get("to").unwrap().as_i64(), Some(5));
}

#[test]
fn a_type_keeps_its_name() {
    assert_eq!(MapDataType::new("Outer").name, "Outer");
    assert_eq!(ObjectDataType::new(String::from("Inner")).name, "Inner");
    assert_eq!(DynamicDataType::new("Any").name, "Any");
    assert_eq!(IdDataType::new("Ids").name, "Ids");
}

fn id_document(id: &str) -> JCompound {
    let mut map = JCompound::new();
    map.insert("id", JValue::String(JavaString::from(id)));
    map
}

fn add_id_walker(typ: &mut IdDataType<'static>, version: u32, id: &str, name: &'static str, log: &Log) {
    let log = log.clone();
    typ.add_walker_for_id(
        version,
        id,
        map_data_walker(move |_data, _from, _to| {
            log.borrow_mut().push(format!("walk {}", name));
        }),
    );
}

#[test]
fn walkers_for_an_id_run_after_the_others_and_before_the_post_hooks() {
    let log = new_log();
    let mut typ = IdDataType::new("Dispatch");
    typ.add_structure_hook(1, hook("a", &log));
    typ.add_structure_hook(1, hook("b", &log));
    let seen = log.clone();
    typ.add_structure_walker(
        1,
        map_data_walker(move |_data, _from, _to| {
            seen.borrow_mut().push("walk all".to_string());
        }),
    );
    add_id_walker(&mut typ, 1, "foo", "foo 1", &log);
    add_id_walker(&mut typ, 1, "foo", "foo 2", &log);
    add_id_walker(&mut typ, 1, "bar", "bar", &log);
    let seen = log.clone();
    typ.add_structure_converter(
        1,
        map_data_converter_func(move |_data, _from, _to| {
            seen.borrow_mut().push("convert".to_string());
        }),
    );
    typ.convert(&mut id_document("foo"), 0.into(), 1.into());
    assert_eq!(
        entries(&log),
        words(&[
            "pre a", "pre b", "convert", "post b", "post a", "pre a", "pre b", "walk all",
            "walk foo 1", "walk foo 2", "post b", "post a",
        ])
    );
}

#[test]
fn a_document_without_a_string_id_has_no_walkers_of_its_own() {
    let log = new_log();
    let mut typ = IdDataType::new("Dispatch");
    add_id_walker(&mut typ, 1, "foo", "foo", &log);
    typ.convert(&mut JCompound::new(), 0.into(), 1.into());
    let mut numbered = JCompound::new();
    numbered.insert("id", JValue::Int(3));
    typ.convert(&mut numbered, 0.into(), 1.into());
    typ.convert(&mut id_document("other"), 0.into(), 1.into());
    assert_eq!(entries(&log), words(&[]));
    typ.convert(&mut id_document("foo"), 0.into(), 1.into());
    assert_eq!(entries(&log), words(&["walk foo"]));
}

#[test]
fn the_id_is_read_after_the_converters_have_run() {
    let log = new_log();
    let mut typ = IdDataType::new("Renamed");
    typ.add_structure_converter(
        1,
        map_data_converter_func(|data, _from, _to| {
            data.insert("id", JValue::String(JavaString::from("new")));
        }),
    );
    add_id_walker(&mut typ, 1, "old", "old", &log);
    add_id_walker(&mut typ, 1, "new", "new", &log);
    typ.convert(&mut id_document("old"), 0.into(), 1.into());
    assert_eq!(entries(&log), words(&["walk new"]));
}

#[test]
fn walkers_for_an_id_go_by_the_floor_of_the_target() {
    let log = new_log();
    let mut typ = IdDataType::new("Floor");
    add_id_walker(&mut typ, 2, "foo", "foo 2", &log);
    add_id_walker(&mut typ, 4, "foo", "foo 4", &log);
    typ.convert(&mut id_document("foo"), 0.into(), 1.into());
    assert_eq!(entries(&log), words(&[]));
    typ.convert(&mut id_document("foo"), 0.into(), 3.into());
    assert_eq!(entries(&log), words(&["walk foo 2"]));
    log.borrow_mut().clear();
    typ.convert(&mut id_document("foo"), 0.into(), 4.into());
    assert_eq!(entries(&log), words(&["walk foo 4"]));
}

#[test]
fn copied_walkers_run_for_the_other_id_too() {
    let log = new_log();
    let mut typ = IdDataType::new("Shared");
    add_id_walker(&mut typ, 1, "foo", "shared 1", &log);
    add_id_walker(&mut typ, 1, "foo", "shared 2", &log);
    add_id_walker(&mut typ, 2, "bar", "own", &log);
    typ.copy_walkers(2, "foo", "bar");
    typ.convert(&mut id_document("bar"), 0.into(), 2.into());
    assert_eq!(entries(&log), words(&["walk own", "walk shared 1", "walk shared 2"]));
    log.borrow_mut().clear();
    typ.convert(&mut id_document("bar"), 0.into(), 1.into());
    assert_eq!(entries(&log), words(&[]));
    typ.convert(&mut id_document("foo"), 0.into(), 2.into());
    assert_eq!(entries(&log), words(&["walk shared 1", "walk shared 2"]));
}

#[test]
fn copying_from_an_id_without_walkers_changes_nothing() {
    let log = new_log();
    let mut typ = IdDataType::new("Shared");
    add_id_walker(&mut typ, 3, "foo", "late", &log);
    typ.copy_walkers(2, "foo", "bar");
    typ.copy_walkers(2, "nobody", "bar");
    typ.convert(&mut id_document("bar"), 0.into(), 5.into());
    assert_eq!(entries(&log), words(&[]));
}

#[test]
fn a_converter_for_an_id_leaves_other_documents_alone() {
    let mut typ = IdDataType::new("Guarded");
    typ.add_converter_for_id(
        "foo",
        1,
        map_data_converter_func(|data, _from, _to| {
            data.insert("seen", JValue::Byte(1));
        }),
    );
    let mut foo = id_document("foo");
    let mut bar = id_document("bar");
    let mut none = JCompound::new();
    typ.convert(&mut foo, 0.into(), 1.into());
    typ.convert(&mut bar, 0.into(), 1.into());
    typ.convert(&mut none, 0.into(), 1.into());
    assert!(foo.contains_key("seen"));
    assert!(!bar.contains_key("seen"));
    assert!(!none.contains_key("seen"));
    let mut early = id_document("foo");
    typ.convert(&mut early, 1.into(), 2.into());
    assert!(!early.contains_key("seen"));
}

#[test]
fn a_type_can_be_used_through_a_reference() {
    let log = new_log();
    let mut typ = MapDataType::new("ByRef");
    add_converter(&mut typ, 1.into(), "c1", &log);
    let by_ref = &typ;
    by_ref.convert(&mut JCompound::new(), 0.into(), 1.into());
    (&by_ref).convert(&mut JCompound::new(), 0.into(), 1.into());
    assert_eq!(entries(&log), words(&["convert c1", "convert c1"]));
    let object = ObjectDataType::new("Empty");
    let mut value = JValue::Long(5);
    (&object).convert(&mut value, 0.into(), 9.into());
    assert_eq!(value.as_i64(), Some(5));
    let dynamic = DynamicDataType::new("Empty");
    (&dynamic).convert(&mut value, 0.into(), 9.into());
    assert_eq!(value.as_i64(), Some(5));
}

struct Idle;

impl data_converter_engine::MapDataConverterFunc for Idle {
    fn convert(&self, _data: &mut JCompound, _from: DataVersion, _to: DataVersion) {}
}

#[test]
fn converters_compare_by_their_version() {
    let early = MapDataConverter::new(1, Idle);
    let late = MapDataConverter::new(DataVersion::new(1, 1), Idle);
    let same = MapDataConverter::new(1, Idle);
    assert!(early < late);
    assert!(late > early);
    assert!(early <= same);
    assert!(early == same);
    assert!(early != late);
    assert_eq!(early.partial_cmp(&late), Some(std::cmp::Ordering::Less));
    assert_eq!(late.partial_cmp(&early), Some(std::cmp::Ordering::Greater));
    assert_eq!(early.partial_cmp(&same), Some(std::cmp::Ordering::Equal));
}

#[test]
fn registration_at_an_explicit_version_goes_by_that_version() {
    let log = new_log();
    let mut typ = MapDataType::named("Explicit");
    assert_eq!(typ.name, "Explicit");
    for (version, name) in [
        (DataVersion::new(2, 0), "c"),
        (DataVersion::new(1, 0), "a"),
        (DataVersion::new(1, 1), "b"),
    ] {
        let seen = log.clone();
        typ.add_structure_converter_at(
            version,
            map_data_converter_func(move |_data, _from, _to| {
                seen.borrow_mut().push(format!("convert {}", name));
            }),
        );
    }
    typ.add_structure_hook_at(DataVersion::new(1, 1), hook("h", &log));
    let seen = log.clone();
    typ.add_structure_walker_at(
        DataVersion::new(1, 1),
        map_data_walker(move |_data, _from, _to| {
            seen.borrow_mut().push("walk".to_string());
        }),
    );
    typ.convert(&mut JCompound::new(), DataVersion::new(1, 0), DataVersion::new(1, 1));
    assert_eq!(
        entries(&log),
        words(&["pre h", "convert b", "post h", "pre h", "walk", "post h"])
    );
    log.borrow_mut().clear();
    typ.convert(&mut JCompound::new(), DataVersion::new(0, 0), DataVersion::new(1, 0));
    assert_eq!(entries(&log), words(&["convert a"]));
}

#[test]
fn the_other_types_register_at_explicit_versions_too() {
    let log = new_log();
    let mut object = ObjectDataType::named("Object");
    object.add_structure_hook_at(DataVersion::new(0, 1), hook("o", &log));
    object.add_structure_converter_at(
        DataVersion::new(0, 1),
        value_data_converter_func(|data, _from, _to| {
            if let valence_nbt::value::ValueMut::Long(l) = data {
                **l *= 2;
            }
        }),
    );
    let mut value = JValue::Long(21);
    object.convert(&mut value, DataVersion::new(0, 0), DataVersion::new(0, 1));
    assert_eq!(value.as_i64(), Some(42));
    object.convert(&mut value, DataVersion::new(0, 1), DataVersion::new(0, 2));
    assert_eq!(value.as_i64(), Some(42));
    assert_eq!(entries(&log), words(&["pre o", "post o"]));
    log.borrow_mut().clear();

    let mut dynamic = DynamicDataType::named("Dynamic");
    dynamic.add_structure_hook_at(DataVersion::new(0, 1), hook("d", &log));
    dynamic.add_structure_converter_at(
        DataVersion::new(0, 1),
        dynamic_data_converter_func(|data, _from, _to| {
            *data = JValue::Byte(1);
        }),
    );
    let seen = log.clone();
    dynamic.add_structure_walker_at(
        DataVersion::new(0, 1),
        dynamic_data_walker(move |_data, _from, _to| {
            seen.borrow_mut().push("walk".to_string());
        }),
    );
    dynamic.convert(&mut value, DataVersion::new(0, 0), DataVersion::new(0, 1));
    assert_eq!(value.as_i64(), Some(1));
    assert_eq!(entries(&log), words(&["pre d", "post d", "pre d", "walk", "post d"]));
    assert_eq!(object.name, "Object");
    assert_eq!(dynamic.name, "Dynamic");
}

#[test]
fn an_id_type_registers_at_explicit_versions_too() {
    let log = new_log();
    let mut typ = IdDataType::named("Ids");
    assert_eq!(typ.name, "Ids");
    let at = DataVersion::new(1, 5);
    typ.add_structure_hook_at(at, hook("h", &log));
    let seen = log.clone();
    typ.add_structure_walker_at(
        at,
        map_data_walker(move |_data, _from, _to| {
            seen.borrow_mut().push("walk all".to_string());
        }),
    );
    let seen = log.clone();
    typ.add_walker_for_id_at(
        at,
        "foo",
        map_data_walker(move |_data, _from, _to| {
            seen.borrow_mut().push("walk foo".to_string());
        }),
    );
    let seen = log.clone();
    typ.add_structure_converter_at(
        at,
        map_data_converter_func(move |_data, _from, _to| {
            seen.borrow_mut().push("convert".to_string());
        }),
    );
    let seen = log.clone();
    typ.add_converter_for_id_at(
        "bar",
        at,
        map_data_converter_func(move |_data, _from, _to| {
            seen.borrow_mut().push("convert bar".to_string());
        }),
    );
    typ.copy_walkers_at(DataVersion::new(1, 6), "foo", "bar");
    typ.convert(&mut id_document("bar"), DataVersion::new(1, 4), DataVersion::new(1, 6));
    assert_eq!(
        entries(&log),
        words(&[
            "pre h", "convert", "post h", "pre h", "convert bar", "post h", "pre h", "walk all",
            "walk foo", "post h",
        ])
    );
    log.borrow_mut().clear();
    typ.convert(&mut id_document("bar"), DataVersion::new(1, 5), DataVersion::new(1, 5));
    assert_eq!(entries(&log), words(&["pre h", "walk all", "post h"]));
}

#[test]
fn a_converter_runs_at_explicit_versions() {
    let converter = MapDataConverter::at(
        DataVersion::new(5, 2),
        map_data_converter_func(|data, from, to| {
            data.insert("from", JValue::Int(from.get_step() as i32));
            data.insert("to", JValue::Int(to.get_step() as i32));
        }),
    );
    assert_eq!(converter.get_to_version(), DataVersion::new(5, 2));
    let mut map = JCompound::new();
    converter.convert_at(&mut map, DataVersion::new(5, 1), DataVersion::new(5, 2));
    assert_eq!(map.get("from").unwrap().as_i64(), Some(1));
    assert_eq!(map.get("to").unwrap().as_i64(), Some(2));
}

#[test]
fn a_closure_is_called_once_for_each_call() {
    let log = new_log();
    let seen = log.clone();
    let converter = map_data_converter_func(move |data: &mut JCompound, from, to| {
        seen.borrow_mut().push(format!("{} {}", from.get_version(), to.get_version()));
        data.insert("n", JValue::Int(data.len() as i32));
    });
    assert_eq!(entries(&log), words(&[]));
    let mut map = JCompound::new();
    data_converter_engine::MapDataConverterFunc::convert(&converter, &mut map, 1.into(), 2.into());
    assert_eq!(entries(&log), words(&["1 2"]));
    assert_eq!(map.get("n").unwrap().as_i64(), Some(0));
    let seen = log.clone();
    let walker = map_data_walker(move |data: &mut JCompound, _from, _to| {
        seen.borrow_mut().push("walk".to_string());
        data.insert("walked", JValue::Byte(1));
    });
    data_converter_engine::MapDataWalker::walk(&walker, &mut map, 1.into(), 2.into());
    assert_eq!(entries(&log), words(&["1 2", "walk"]));
    assert!(map.contains_key("walked"));
}
